//! Plugins as the dispatcher sees them: identity, enable state,
//! listener entries, drop hooks and access control.
//!
//! A plugin's `main` and its handlers are asynchronous code the host
//! runs; the runtime model refers to them by opaque handler ids that
//! the host maps back to closures.

use vstd::prelude::*;
use vstd::string::StringExecFns;

use crate::access::{AccCache, AccessControlMode, AccessList, SetAccessControlList,
    apply_change_spec, id_set};

verus! {

/// The closed set of typed-event kinds the dispatcher fans out.
#[derive(Debug, Clone, Copy, PartialEq, Eq, Structural)]
pub enum EventTag {
    Msg,
    Notice,
    Request,
    Lifecycle,
}

/// One listener entry: the event kind it wants and the opaque id of
/// its handler.
#[derive(Debug, Clone, Copy, PartialEq, Eq, Structural)]
pub struct ListenEntry {
    pub tag: EventTag,
    pub handler: u64,
}

/// A plugin's listener entries and drop hooks.
#[derive(Debug)]
pub struct Listen {
    pub list: Vec<ListenEntry>,
    pub drop_hooks: Vec<u64>,
}

impl Listen {
    /// No listeners, no drop hooks.
    pub fn new() -> (r: Listen)
        ensures
            r.list@ == Seq::<ListenEntry>::empty(),
            r.drop_hooks@ == Seq::<u64>::empty(),
    {
        Listen { list: Vec::new(), drop_hooks: Vec::new() }
    }

    /// Clears both lists, so nothing more can be scheduled.
    pub fn clear(&mut self)
        ensures
            final(self).list@ == Seq::<ListenEntry>::empty(),
            final(self).drop_hooks@ == Seq::<u64>::empty(),
    {
        self.list = Vec::new();
        self.drop_hooks = Vec::new();
    }
}

/// A plugin as the runtime tracks it.
#[derive(Debug)]
pub struct Plugin {
    /// The plugin's unique name.
    pub name: String,
    /// The plugin's version text.
    pub version: String,
    /// Whether the host starts the plugin's `main` at startup.
    pub enable_on_startup: bool,
    /// The enable flag: a disabled plugin gets no new handler runs.
    pub enabled: bool,
    /// The plugin's listeners and drop hooks.
    pub listen: Listen,
    /// Whether access control applies.
    pub access_control: bool,
    /// Whitelist or blacklist.
    pub list_mode: AccessControlMode,
    /// The controlled ids.
    pub access_list: AccessList,
}

impl Plugin {
    /// A freshly mounted plugin: enabled, with no listeners and access
    /// control off.
    pub fn new(name: String, version: String) -> (r: Plugin)
        ensures
            r.name@ == name@,
            r.version@ == version@,
            r.enable_on_startup,
            r.enabled,
            r.listen.list@ == Seq::<ListenEntry>::empty(),
            r.listen.drop_hooks@ == Seq::<u64>::empty(),
            !r.access_control,
            r.list_mode == AccessControlMode::WhiteList,
            r.access_list.groups@ == Seq::<i64>::empty(),
            r.access_list.friends@ == Seq::<i64>::empty(),
            r.access_list.wf(),
    {
        Plugin {
            name,
            version,
            enable_on_startup: true,
            enabled: true,
            listen: Listen::new(),
            access_control: false,
            list_mode: AccessControlMode::WhiteList,
            access_list: AccessList::new(),
        }
    }

    /// Registers a listener.
    pub fn listen_on(&mut self, tag: EventTag, handler: u64)
        ensures
            final(self).listen.list@ == old(self).listen.list@.push(
                ListenEntry { tag, handler },
            ),
            final(self).listen.drop_hooks@ == old(self).listen.drop_hooks@,
            final(self).name == old(self).name,
            final(self).version == old(self).version,
            final(self).enable_on_startup == old(self).enable_on_startup,
            final(self).enabled == old(self).enabled,
            final(self).access_control == old(self).access_control,
            final(self).list_mode == old(self).list_mode,
            final(self).access_list == old(self).access_list,
    {
        self.listen.list.push(ListenEntry { tag, handler });
    }

    /// Registers a drop hook, run at shutdown.
    pub fn on_drop(&mut self, handler: u64)
        ensures
            final(self).listen.drop_hooks@ == old(self).listen.drop_hooks@.push(handler),
            final(self).listen.list@ == old(self).listen.list@,
            final(self).enabled == old(self).enabled,
    {
        self.listen.drop_hooks.push(handler);
    }

    /// Turns access control on or off.
    pub fn set_access_control(&mut self, enable: bool)
        ensures
            final(self).access_control == enable,
            final(self).list_mode == old(self).list_mode,
            final(self).access_list == old(self).access_list,
            final(self).enabled == old(self).enabled,
            final(self).listen.list@ == old(self).listen.list@,
    {
        self.access_control = enable;
    }

    /// Switches between whitelist and blacklist.
    pub fn set_access_control_mode(&mut self, access_control_mode: AccessControlMode)
        ensures
            final(self).list_mode == access_control_mode,
            final(self).access_control == old(self).access_control,
            final(self).access_list == old(self).access_list,
            final(self).enabled == old(self).enabled,
            final(self).listen.list@ == old(self).listen.list@,
    {
        self.list_mode = access_control_mode;
    }

    /// Applies a change to the group list or the friend list.
    pub fn set_access_control_list(&mut self, is_group: bool, change: SetAccessControlList)
        requires
            old(self).access_list.wf(),
        ensures
            final(self).access_list.wf(),
            is_group ==> {
                &&& id_set(final(self).access_list.groups@) == apply_change_spec(
                    id_set(old(self).access_list.groups@),
                    change,
                )
                &&& final(self).access_list.friends@ == old(self).access_list.friends@
            },
            !is_group ==> {
                &&& id_set(final(self).access_list.friends@) == apply_change_spec(
                    id_set(old(self).access_list.friends@),
                    change,
                )
                &&& final(self).access_list.groups@ == old(self).access_list.groups@
            },
            final(self).access_control == old(self).access_control,
            final(self).list_mode == old(self).list_mode,
            final(self).enabled == old(self).enabled,
            final(self).listen.list@ == old(self).listen.list@,
    {
        self.access_list.apply_change(is_group, change);
    }

    /// The dispatcher's snapshot of this plugin's access control.
    pub fn acc_cache(&self) -> (r: AccCache)
        ensures
            r@.access_control == self.access_control,
            r@.list_mode == self.list_mode,
            r@.groups == self.access_list.groups@,
            r@.friends == self.access_list.friends@,
    {
        AccCache::new(self.access_control, self.list_mode, self.access_list.clone_lists())
    }

    /// Begins shutting the plugin down: hands back the drop hooks to
    /// run, turns the enable flag off so every active handler sees the
    /// cancellation, and clears the listeners so nothing new can be
    /// scheduled.
    pub fn shutdown(&mut self) -> (hooks: Vec<u64>)
        ensures
            hooks@ == old(self).listen.drop_hooks@,
            !final(self).enabled,
            final(self).listen.list@ == Seq::<ListenEntry>::empty(),
            final(self).listen.drop_hooks@ == Seq::<u64>::empty(),
            final(self).name == old(self).name,
            final(self).version == old(self).version,
            final(self).enable_on_startup == old(self).enable_on_startup,
            final(self).access_control == old(self).access_control,
            final(self).list_mode == old(self).list_mode,
            final(self).access_list == old(self).access_list,
    {
        let mut hooks: Vec<u64> = Vec::new();
        std::mem::swap(&mut hooks, &mut self.listen.drop_hooks);
        self.enabled = false;
        self.listen.clear();
        hooks
    }

    /// Disables the plugin: no new handler runs; in-flight handlers
    /// see the flag at their next suspension. Re-enabling later does
    /// not restart `main`.
    pub fn disable(&mut self)
        ensures
            !final(self).enabled,
            final(self).listen.list@ == old(self).listen.list@,
            final(self).name == old(self).name,
    {
        self.enabled = false;
    }

    /// Enables the plugin again: new events reach its listeners.
    pub fn enable(&mut self)
        ensures
            final(self).enabled,
            final(self).listen.list@ == old(self).listen.list@,
            final(self).name == old(self).name,
    {
        self.enabled = true;
    }
}

/// The per-plugin record the store persists across runs: the startup
/// flag and the access-control settings.
#[derive(Debug)]
pub struct PluginStatus {
    pub enable_on_startup: bool,
    pub access_control: bool,
    pub list_mode: AccessControlMode,
    pub access_list: AccessList,
}

impl Plugin {
    /// The record the store writes for this plugin at shutdown.
    pub fn status(&self) -> (r: PluginStatus)
        ensures
            r.enable_on_startup == self.enable_on_startup,
            r.access_control == self.access_control,
            r.list_mode == self.list_mode,
            r.access_list.groups@ == self.access_list.groups@,
            r.access_list.friends@ == self.access_list.friends@,
    {
        PluginStatus {
            enable_on_startup: self.enable_on_startup,
            access_control: self.access_control,
            list_mode: self.list_mode,
            access_list: self.access_list.clone_lists(),
        }
    }

    /// Merges a stored record over this plugin's defaults at startup;
    /// identity, enable state and listeners stay as they are.
    pub fn apply_status(&mut self, status: PluginStatus)
        ensures
            final(self).enable_on_startup == status.enable_on_startup,
            final(self).access_control == status.access_control,
            final(self).list_mode == status.list_mode,
            final(self).access_list == status.access_list,
            final(self).name == old(self).name,
            final(self).version == old(self).version,
            final(self).enabled == old(self).enabled,
            final(self).listen.list@ == old(self).listen.list@,
            final(self).listen.drop_hooks@ == old(self).listen.drop_hooks@,
    {
        self.enable_on_startup = status.enable_on_startup;
        self.access_control = status.access_control;
        self.list_mode = status.list_mode;
        self.access_list = status.access_list;
    }
}

/// A report of one plugin's state.
#[derive(Debug)]
pub struct PluginInfo {
    pub name: String,
    pub version: String,
    /// Whether the plugin is enabled now.
    pub enabled: bool,
    /// Whether the plugin starts at startup.
    pub enable_on_startup: bool,
    /// Whether access control applies.
    pub access_control: bool,
    /// Whitelist or blacklist.
    pub list_mode: AccessControlMode,
    /// The controlled ids.
    pub access_list: AccessList,
}

impl Plugin {
    /// A report of this plugin's state.
    pub fn info(&self) -> (r: PluginInfo)
        ensures
            r.name@ == self.name@,
            r.version@ == self.version@,
            r.enabled == self.enabled,
            r.enable_on_startup == self.enable_on_startup,
            r.access_control == self.access_control,
            r.list_mode == self.list_mode,
            r.access_list.groups@ == self.access_list.groups@,
            r.access_list.friends@ == self.access_list.friends@,
    {
        PluginInfo {
            name: self.name.clone(),
            version: self.version.clone(),
            enabled: self.enabled,
            enable_on_startup: self.enable_on_startup,
            access_control: self.access_control,
            list_mode: self.list_mode,
            access_list: self.access_list.clone_lists(),
        }
    }
}

/// The set of plugins to mount, in registration order.
#[derive(Debug)]
pub struct PluginSet {
    pub set: Vec<Plugin>,
}

impl PluginSet {
    /// An empty set.
    pub fn new() -> (r: PluginSet)
        ensures
            r.set@ == Seq::<Plugin>::empty(),
    {
        PluginSet { set: Vec::new() }
    }

    /// This set with one more plugin, for chaining.
    pub fn with(self, plugin: Plugin) -> (r: PluginSet)
        ensures
            r.set@ == self.set@.push(plugin),
    {
        let mut s = self;
        s.set.push(plugin);
        s
    }

    /// Adds a plugin.
    pub fn push(&mut self, plugin: Plugin)
        ensures
            final(self).set@ == old(self).set@.push(plugin),
    {
        self.set.push(plugin);
    }

    /// The indexes of the plugins whose `main` the host starts, in
    /// registration order: exactly those with `enable_on_startup`.
    pub fn plugins_to_start(&self) -> (r: Vec<usize>)
        ensures
            forall|k: int|
                0 <= k < r@.len() ==> (#[trigger] r@[k]) < self.set@.len()
                    && self.set@[r@[k] as int].enable_on_startup,
            forall|i: int|
                0 <= i < self.set@.len() && (#[trigger] self.set@[i]).enable_on_startup
                    ==> r@.contains(i as usize),
            forall|a: int, b: int| 0 <= a < b < r@.len() ==> r@[a] < r@[b],
    {
        let n = self.set.len();
        let mut out: Vec<usize> = Vec::new();
        let mut i: usize = 0;
        while i < n
            invariant
                i <= n,
                n == self.set@.len(),
                forall|k: int|
                    0 <= k < out@.len() ==> (#[trigger] out@[k]) < i
                        && self.set@[out@[k] as int].enable_on_startup,
                forall|p: int|
                    0 <= p < i && (#[trigger] self.set@[p]).enable_on_startup ==> out@.contains(
                        p as usize,
                    ),
                forall|a: int, b: int| 0 <= a < b < out@.len() ==> out@[a] < out@[b],
            decreases n - i,
        {
            let ghost oldout = out@;
            if self.set[i].enable_on_startup {
                out.push(i);
                proof {
                    assert(out@[out@.len() - 1] == i);
                }
            }
            proof {
                assert forall|p: int|
                    0 <= p < i + 1 && (#[trigger] self.set@[p]).enable_on_startup implies out@
                    .contains(p as usize) by {
                    if p < i {
                        let w = choose|k: int| 0 <= k < oldout.len() && oldout[k] == p as usize;
                        assert(out@[w] == p as usize);
                    } else {
                        assert(out@[out@.len() - 1] == i);
                    }
                }
            }
            i += 1;
        }
        out
    }
}

/// One plugin after shutdown, next to its state before: disabled,
/// cleared, identity kept, and its drop hooks handed out.
pub open spec fn shut_down_entry(h: Vec<u64>, d: Plugin, o: Plugin) -> bool {
    &&& h@ == o.listen.drop_hooks@
    &&& !d.enabled
    &&& d.listen.list@.len() == 0
    &&& d.listen.drop_hooks@.len() == 0
    &&& d.name == o.name
    &&& d.version == o.version
}

/// Shuts every plugin down, in registration order: for each plugin its
/// drop hooks are handed back to run, its enable flag goes off, and
/// its listeners are cleared, so no new handler can be scheduled
/// anywhere.
#[verifier::rlimit(50)]
pub fn shutdown_all(ps: &mut PluginSet) -> (hooks: Vec<Vec<u64>>)
    ensures
        final(ps).set@.len() == old(ps).set@.len(),
        hooks@.len() == old(ps).set@.len(),
        forall|i: int|
            0 <= i < old(ps).set@.len() ==> #[trigger] shut_down_entry(
                hooks@[i],
                final(ps).set@[i],
                old(ps).set@[i],
            ),
{
    let ghost orig = ps.set@;
    let n = ps.set.len();
    let mut done: Vec<Plugin> = Vec::new();
    let mut hooks: Vec<Vec<u64>> = Vec::new();
    let mut i: usize = 0;
    while i < n
        invariant
            i <= n,
            n == orig.len(),
            ps.set@.len() == n - i,
            done@.len() == i,
            hooks@.len() == i,
            forall|k: int| 0 <= k < n - i ==> ps.set@[k] == orig[k + i],
            forall|k: int|
                0 <= k < i ==> #[trigger] shut_down_entry(hooks@[k], done@[k], orig[k]),
        decreases n - i,
    {
        let ghost prev = ps.set@;
        let mut p = ps.set.remove(0);
        proof {
            assert(p == orig[i as int]);
            assert forall|k: int| 0 <= k < ps.set@.len() implies ps.set@[k] == prev[k + 1] by {
                assert(ps.set@ == prev.remove(0));
            }
        }
        let h = p.shutdown();
        let ghost prevhooks = hooks@;
        let ghost prevdone = done@;
        hooks.push(h);
        done.push(p);
        proof {
            assert(done@[i as int] == p);
            assert(hooks@[i as int] == h);
            assert(h@ == orig[i as int].listen.drop_hooks@);
            assert(!p.enabled);
            assert(p.listen.list@.len() == 0);
            assert(p.listen.drop_hooks@.len() == 0);
            assert(p.name == orig[i as int].name);
            assert(p.version == orig[i as int].version);
            assert forall|k: int| 0 <= k < i + 1 implies #[trigger] shut_down_entry(
                hooks@[k],
                done@[k],
                orig[k],
            ) by {
                if k < i {
                    assert(hooks@[k] == prevhooks[k]);
                    assert(done@[k] == prevdone[k]);
                    assert(shut_down_entry(prevhooks[k], prevdone[k], orig[k]));
                } else {
                    assert(hooks@[k] == h);
                    assert(done@[k] == p);
                }
            }
        }
        i += 1;
    }
    ps.set = done;
    hooks
}

} // verus!
