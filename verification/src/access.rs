//! Per-plugin access control: a whitelist or blacklist of group and
//! friend ids, applied to message events only.

use vstd::prelude::*;

use crate::msg_event::{MsgEvent, MsgV};

verus! {

/// Whether the lists admit only their members or everyone but them.
#[derive(Debug, Clone, Copy, PartialEq, Eq, Structural)]
pub enum AccessControlMode {
    WhiteList,
    BlackList,
}

/// The ids a plugin's access control names: groups and friends.
#[derive(Debug)]
pub struct AccessList {
    pub groups: Vec<i64>,
    pub friends: Vec<i64>,
}

/// The set of ids a list holds.
pub open spec fn id_set(s: Seq<i64>) -> Set<i64> {
    Set::new(|x: i64| s.contains(x))
}

impl AccessList {
    /// Lists hold each id once.
    pub open spec fn wf(&self) -> bool {
        &&& forall|i: int, k: int|
            0 <= i < k < self.groups@.len() ==> self.groups@[i] != self.groups@[k]
        &&& forall|i: int, k: int|
            0 <= i < k < self.friends@.len() ==> self.friends@[i] != self.friends@[k]
    }

    /// Empty lists.
    pub fn new() -> (r: AccessList)
        ensures
            r.wf(),
            r.groups@ == Seq::<i64>::empty(),
            r.friends@ == Seq::<i64>::empty(),
    {
        AccessList { groups: Vec::new(), friends: Vec::new() }
    }

    /// A copy with the same ids.
    pub fn clone_lists(&self) -> (r: AccessList)
        ensures
            r.groups@ == self.groups@,
            r.friends@ == self.friends@,
    {
        AccessList { groups: clone_ids(&self.groups), friends: clone_ids(&self.friends) }
    }
}

/// A copy of an id list.
fn clone_ids(v: &Vec<i64>) -> (r: Vec<i64>)
    ensures
        r@ == v@,
{
    let mut out: Vec<i64> = Vec::new();
    let mut i: usize = 0;
    while i < v.len()
        invariant
            i <= v@.len(),
            out@ == v@.take(i as int),
        decreases v@.len() - i,
    {
        out.push(v[i]);
        proof {
            assert(out@ =~= v@.take(i as int + 1));
        }
        i += 1;
    }
    proof {
        assert(v@.take(v@.len() as int) =~= v@);
    }
    out
}

/// Whether a list holds an id.
pub fn contains_id(v: &Vec<i64>, id: i64) -> (r: bool)
    ensures
        r == v@.contains(id),
{
    let mut i: usize = 0;
    while i < v.len()
        invariant
            i <= v@.len(),
            forall|k: int| 0 <= k < i ==> v@[k] != id,
        decreases v@.len() - i,
    {
        if v[i] == id {
            return true;
        }
        i += 1;
    }
    proof {
        if v@.contains(id) {
            let w = choose|k: int| 0 <= k < v@.len() && v@[k] == id;
            assert(v@[w] == id);
        }
    }
    false
}

/// The model of a plugin's access-control settings.
pub struct AccV {
    pub access_control: bool,
    pub list_mode: AccessControlMode,
    pub groups: Seq<i64>,
    pub friends: Seq<i64>,
}

/// The access-control settings the dispatcher snapshots for one plugin.
#[derive(Debug)]
pub struct AccCache {
    pub access_control: bool,
    pub list_mode: AccessControlMode,
    pub access_list: AccessList,
}

impl View for AccCache {
    type V = AccV;

    open spec fn view(&self) -> AccV {
        AccV {
            access_control: self.access_control,
            list_mode: self.list_mode,
            groups: self.access_list.groups@,
            friends: self.access_list.friends@,
        }
    }
}

impl AccCache {
    /// A snapshot of the given settings.
    pub fn new(access_control: bool, list_mode: AccessControlMode, access_list: AccessList) -> (r:
        AccCache)
        ensures
            r@ == (AccV {
                access_control: access_control,
                list_mode: list_mode,
                groups: access_list.groups@,
                friends: access_list.friends@,
            }),
    {
        AccCache { access_control, list_mode, access_list }
    }
}

/// The access-control matrix on a message event: with control off,
/// everyone; a whitelist admits listed groups and, for private
/// messages, listed friends; a blacklist admits everyone else.
pub open spec fn is_access_spec(acc: AccV, e: MsgV) -> bool {
    if !acc.access_control {
        true
    } else {
        match (acc.list_mode, e.group_id) {
            (AccessControlMode::WhiteList, Some(g)) => exists|i: int|
                0 <= i < acc.groups.len() && acc.groups[i] as int == g,
            (AccessControlMode::WhiteList, None) => exists|i: int|
                0 <= i < acc.friends.len() && acc.friends[i] as int == e.sender.user_id,
            (AccessControlMode::BlackList, Some(g)) => !exists|i: int|
                0 <= i < acc.groups.len() && acc.groups[i] as int == g,
            (AccessControlMode::BlackList, None) => !exists|i: int|
                0 <= i < acc.friends.len() && acc.friends[i] as int == e.sender.user_id,
        }
    }
}

/// Applies the access-control matrix to a message event.
pub fn is_access(acc: &AccCache, event: &MsgEvent) -> (r: bool)
    ensures
        r == is_access_spec(acc@, event@),
{
    if !acc.access_control {
        return true;
    }
    let in_list = match event.group_id {
        Some(g) => contains_id(&acc.access_list.groups, g),
        None => contains_id(&acc.access_list.friends, event.sender.user_id),
    };
    proof {
        match event.group_id {
            Some(g) => {
                assert(event@.group_id == Some(g as int));
                if in_list {
                    let w = choose|k: int|
                        0 <= k < acc.access_list.groups@.len() && acc.access_list.groups@[k]
                            == g;
                    assert(acc@.groups[w] as int == g as int);
                } else {
                    assert forall|i: int|
                        0 <= i < acc@.groups.len() implies !(acc@.groups[i] as int
                        == g as int) by {
                        if acc@.groups[i] as int == g as int {
                            assert(acc.access_list.groups@.contains(g));
                        }
                    }
                }
            },
            None => {
                if in_list {
                    let w = choose|k: int|
                        0 <= k < acc.access_list.friends@.len() && acc.access_list.friends@[k]
                            == event.sender.user_id;
                    assert(acc@.friends[w] as int == event@.sender.user_id);
                } else {
                    assert forall|i: int|
                        0 <= i < acc@.friends.len() implies !(acc@.friends[i] as int
                        == event@.sender.user_id) by {
                        if acc@.friends[i] as int == event@.sender.user_id {
                            assert(acc.access_list.friends@.contains(event.sender.user_id));
                        }
                    }
                }
            },
        }
    }
    match acc.list_mode {
        AccessControlMode::WhiteList => in_list,
        AccessControlMode::BlackList => !in_list,
    }
}

/// A change to an access list.
#[derive(Debug)]
pub enum SetAccessControlList {
    /// Adds one id.
    Add(i64),
    /// Adds several ids.
    Adds(Vec<i64>),
    /// Removes one id.
    Remove(i64),
    /// Removes several ids.
    Removes(Vec<i64>),
    /// Replaces the list with these ids.
    Changes(Vec<i64>),
}

/// The set a change leaves behind.
pub open spec fn apply_change_spec(before: Set<i64>, change: SetAccessControlList) -> Set<i64> {
    match change {
        SetAccessControlList::Add(id) => before.insert(id),
        SetAccessControlList::Adds(ids) => before.union(id_set(ids@)),
        SetAccessControlList::Remove(id) => before.remove(id),
        SetAccessControlList::Removes(ids) => before.difference(id_set(ids@)),
        SetAccessControlList::Changes(ids) => id_set(ids@),
    }
}

/// Adds an id to a duplicate-free list, keeping it duplicate-free.
fn insert_id(v: &mut Vec<i64>, id: i64)
    requires
        forall|i: int, k: int| 0 <= i < k < old(v)@.len() ==> old(v)@[i] != old(v)@[k],
    ensures
        forall|i: int, k: int|
            0 <= i < k < final(v)@.len() ==> final(v)@[i] != final(v)@[k],
        id_set(final(v)@) == id_set(old(v)@).insert(id),
{
    if !contains_id(v, id) {
        v.push(id);
        proof {
            assert forall|x: i64| id_set(v@).contains(x) <==> id_set(old(v)@).insert(
                id,
            ).contains(x) by {
                if x == id {
                    assert(v@[v@.len() - 1] == id);
                    assert(v@.contains(id));
                } else {
                    if old(v)@.contains(x) {
                        let w = choose|k: int| 0 <= k < old(v)@.len() && old(v)@[k] == x;
                        assert(v@[w] == x);
                        assert(v@.contains(x));
                    }
                    if v@.contains(x) {
                        let w = choose|k: int| 0 <= k < v@.len() && v@[k] == x;
                        assert(old(v)@[w] == x);
                        assert(old(v)@.contains(x));
                    }
                }
            }
            assert(id_set(v@) =~= id_set(old(v)@).insert(id));
        }
    } else {
        proof {
            assert(id_set(v@) =~= id_set(old(v)@).insert(id));
        }
    }
}

/// The list without the ids that `drop` holds.
fn remove_ids(v: &Vec<i64>, drop: &Vec<i64>) -> (r: Vec<i64>)
    requires
        forall|i: int, k: int| 0 <= i < k < v@.len() ==> v@[i] != v@[k],
    ensures
        forall|i: int, k: int| 0 <= i < k < r@.len() ==> r@[i] != r@[k],
        id_set(r@) == id_set(v@).difference(id_set(drop@)),
{
    let mut out: Vec<i64> = Vec::new();
    let mut i: usize = 0;
    while i < v.len()
        invariant
            i <= v@.len(),
            forall|a: int, b: int| 0 <= a < b < v@.len() ==> v@[a] != v@[b],
            forall|a: int, b: int| 0 <= a < b < out@.len() ==> out@[a] != out@[b],
            forall|x: i64|
                out@.contains(x) <==> (v@.take(i as int).contains(x) && !drop@.contains(x)),
        decreases v@.len() - i,
    {
        let keep = !contains_id(drop, v[i]);
        let ghost oldout = out@;
        if keep {
            out.push(v[i]);
        }
        proof {
            assert forall|x: i64|
                out@.contains(x) <==> (v@.take(i as int + 1).contains(x) && !drop@.contains(
                    x,
                )) by {
                let pre = v@.take(i as int);
                let cur = v@.take(i as int + 1);
                assert(cur =~= pre.push(v@[i as int]));
                if out@.contains(x) {
                    let w = choose|k: int| 0 <= k < out@.len() && out@[k] == x;
                    if keep && w == out@.len() - 1 {
                        assert(cur[i as int] == x);
                    } else {
                        assert(oldout[w] == x);
                        assert(oldout.contains(x));
                    }
                }
                if cur.contains(x) && !drop@.contains(x) {
                    let w = choose|k: int| 0 <= k < cur.len() && cur[k] == x;
                    if w < i {
                        assert(pre[w] == x);
                        assert(pre.contains(x));
                        assert(oldout.contains(x));
                        let u = choose|k: int| 0 <= k < oldout.len() && oldout[k] == x;
                        assert(out@[u] == x);
                    } else {
                        assert(v@[i as int] == x);
                        assert(keep);
                        assert(out@[out@.len() - 1] == x);
                    }
                }
            }
            if keep {
                assert forall|a: int, b: int|
                    0 <= a < b < out@.len() implies out@[a] != out@[b] by {
                    if b == out@.len() - 1 {
                        if out@[a] == v@[i as int] {
                            assert(oldout.contains(v@[i as int]));
                            assert(v@.take(i as int).contains(v@[i as int]));
                            let w = choose|k: int|
                                0 <= k < i && v@.take(i as int)[k] == v@[i as int];
                            assert(v@[w] == v@[i as int]);
                        }
                    }
                }
            }
        }
        i += 1;
    }
    proof {
        assert(v@.take(v@.len() as int) =~= v@);
        assert(id_set(out@) =~= id_set(v@).difference(id_set(drop@)));
    }
    out
}

/// A duplicate-free list holding exactly these ids.
fn dedup_ids(ids: &Vec<i64>) -> (r: Vec<i64>)
    ensures
        forall|i: int, k: int| 0 <= i < k < r@.len() ==> r@[i] != r@[k],
        id_set(r@) == id_set(ids@),
{
    let mut out: Vec<i64> = Vec::new();
    let mut i: usize = 0;
    proof {
        assert(id_set(out@) =~= id_set(ids@.take(0)));
    }
    while i < ids.len()
        invariant
            i <= ids@.len(),
            forall|a: int, b: int| 0 <= a < b < out@.len() ==> out@[a] != out@[b],
            id_set(out@) == id_set(ids@.take(i as int)),
        decreases ids@.len() - i,
    {
        insert_id(&mut out, ids[i]);
        proof {
            let pre = ids@.take(i as int);
            let cur = ids@.take(i as int + 1);
            assert(cur =~= pre.push(ids@[i as int]));
            assert forall|x: i64| id_set(cur).contains(x) <==> id_set(pre).insert(
                ids@[i as int],
            ).contains(x) by {
                if cur.contains(x) {
                    let w = choose|k: int| 0 <= k < cur.len() && cur[k] == x;
                    if w < i {
                        assert(pre[w] == x);
                        assert(pre.contains(x));
                    }
                }
                if pre.contains(x) {
                    let w = choose|k: int| 0 <= k < pre.len() && pre[k] == x;
                    assert(cur[w] == x);
                }
                if x == ids@[i as int] {
                    assert(cur[i as int] == x);
                }
            }
            assert(id_set(out@) =~= id_set(cur));
        }
        i += 1;
    }
    proof {
        assert(ids@.take(ids@.len() as int) =~= ids@);
    }
    out
}

impl AccessList {
    /// Applies a change to the group list or the friend list.
    pub fn apply_change(&mut self, is_group: bool, change: SetAccessControlList)
        requires
            old(self).wf(),
        ensures
            final(self).wf(),
            is_group ==> {
                &&& id_set(final(self).groups@) == apply_change_spec(
                    id_set(old(self).groups@),
                    change,
                )
                &&& final(self).friends@ == old(self).friends@
            },
            !is_group ==> {
                &&& id_set(final(self).friends@) == apply_change_spec(
                    id_set(old(self).friends@),
                    change,
                )
                &&& final(self).groups@ == old(self).groups@
            },
    {
        match change {
            SetAccessControlList::Add(id) => {
                if is_group {
                    insert_id(&mut self.groups, id);
                } else {
                    insert_id(&mut self.friends, id);
                }
            },
            SetAccessControlList::Adds(ids) => {
                let n = ids.len();
                let mut i: usize = 0;
                proof {
                    if is_group {
                        assert(id_set(self.groups@).union(id_set(ids@.take(0))) =~= id_set(
                            self.groups@,
                        ));
                    } else {
                        assert(id_set(self.friends@).union(id_set(ids@.take(0))) =~= id_set(
                            self.friends@,
                        ));
                    }
                }
                while i < n
                    invariant
                        i <= n,
                        n == ids@.len(),
                        self.wf(),
                        is_group ==> {
                            &&& id_set(self.groups@) == id_set(old(self).groups@).union(
                                id_set(ids@.take(i as int)),
                            )
                            &&& self.friends@ == old(self).friends@
                        },
                        !is_group ==> {
                            &&& id_set(self.friends@) == id_set(old(self).friends@).union(
                                id_set(ids@.take(i as int)),
                            )
                            &&& self.groups@ == old(self).groups@
                        },
                    decreases n - i,
                {
                    if is_group {
                        insert_id(&mut self.groups, ids[i]);
                    } else {
                        insert_id(&mut self.friends, ids[i]);
                    }
                    proof {
                        let pre = ids@.take(i as int);
                        let cur = ids@.take(i as int + 1);
                        assert(cur =~= pre.push(ids@[i as int]));
                        assert forall|x: i64| id_set(cur).contains(x) <==> id_set(pre).insert(
                            ids@[i as int],
                        ).contains(x) by {
                            if cur.contains(x) {
                                let w = choose|k: int| 0 <= k < cur.len() && cur[k] == x;
                                if w < i {
                                    assert(pre[w] == x);
                                }
                            }
                            if pre.contains(x) {
                                let w = choose|k: int| 0 <= k < pre.len() && pre[k] == x;
                                assert(cur[w] == x);
                            }
                            if x == ids@[i as int] {
                                assert(cur[i as int] == x);
                            }
                        }
                        if is_group {
                            assert(id_set(self.groups@) =~= id_set(old(self).groups@).union(
                                id_set(cur),
                            ));
                        } else {
                            assert(id_set(self.friends@) =~= id_set(old(self).friends@).union(
                                id_set(cur),
                            ));
                        }
                    }
                    i += 1;
                }
                proof {
                    assert(ids@.take(n as int) =~= ids@);
                }
            },
            SetAccessControlList::Remove(id) => {
                let mut single: Vec<i64> = Vec::new();
                single.push(id);
                if is_group {
                    let out = remove_ids(&self.groups, &single);
                    self.groups = out;
                } else {
                    let out = remove_ids(&self.friends, &single);
                    self.friends = out;
                }
                proof {
                    assert(single@[0] == id);
                    assert forall|x: i64| id_set(single@).contains(x) <==> x == id by {
                        if id_set(single@).contains(x) {
                            let w = choose|k: int| 0 <= k < single@.len() && single@[k] == x;
                        }
                        if x == id {
                            assert(single@.contains(x));
                        }
                    }
                    if is_group {
                        assert(id_set(self.groups@) =~= apply_change_spec(
                            id_set(old(self).groups@),
                            SetAccessControlList::Remove(id),
                        ));
                    } else {
                        assert(id_set(self.friends@) =~= apply_change_spec(
                            id_set(old(self).friends@),
                            SetAccessControlList::Remove(id),
                        ));
                    }
                }
            },
            SetAccessControlList::Removes(ids) => {
                if is_group {
                    let out = remove_ids(&self.groups, &ids);
                    self.groups = out;
                } else {
                    let out = remove_ids(&self.friends, &ids);
                    self.friends = out;
                }
            },
            SetAccessControlList::Changes(ids) => {
                if is_group {
                    let out = dedup_ids(&ids);
                    self.groups = out;
                } else {
                    let out = dedup_ids(&ids);
                    self.friends = out;
                }
            },
        }
    }
}

} // verus!
