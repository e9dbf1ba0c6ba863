//! Outbound API calls, inbound API replies, and the echo correlator.
//!
//! Every outbound call carries an `echo` of the form `<tag>-<counter>`
//! with a counter that never repeats, so each pending call's echo is
//! unique; an inbound reply is routed to the one pending call whose
//! echo it carries, and a reply seen twice is discarded.

use vstd::prelude::*;
use vstd::string::StringExecFns;

use crate::json::{spec_get, Jv, JsonValue};
use crate::strutil::{
    chars_to_string, dec_chars, lemma_dec_chars_digits, lemma_dec_chars_injective,
    push_chars_of_str, push_dec_u64, str_eq,
};

verus! {

/// The model of an outbound API call.
pub struct SendApiV {
    pub action: Seq<char>,
    pub params: Jv,
    pub echo: Seq<char>,
}

/// An outbound API call: `{action, params, echo}` on the wire.
#[derive(Debug)]
pub struct SendApi {
    pub action: String,
    pub params: JsonValue,
    pub echo: String,
}

impl View for SendApi {
    type V = SendApiV;

    open spec fn view(&self) -> SendApiV {
        SendApiV { action: self.action@, params: self.params@, echo: self.echo@ }
    }
}

impl SendApi {
    /// An outbound call of the given action, parameters and echo.
    pub fn new(action: &str, params: JsonValue, echo: &str) -> (r: SendApi)
        ensures
            r@ == (SendApiV { action: action@, params: params@, echo: echo@ }),
    {
        SendApi {
            action: String::from_str(action),
            params,
            echo: String::from_str(echo),
        }
    }

    /// The wire form of this call: `{action, params, echo}`.
    pub fn to_json(&self) -> (r: JsonValue)
        ensures
            r@ == Jv::Obj(
                seq![
                    ("action"@, Jv::Str(self@.action)),
                    ("params"@, self@.params),
                    ("echo"@, Jv::Str(self@.echo)),
                ],
            ),
    {
        let mut fields: Vec<(String, JsonValue)> = Vec::new();
        fields.push((String::from_str("action"), JsonValue::Str(self.action.clone())));
        fields.push((String::from_str("params"), self.params.deep_clone()));
        fields.push((String::from_str("echo"), JsonValue::Str(self.echo.clone())));
        let r = JsonValue::Obj(fields);
        proof {
            crate::json::lemma_jv_of_fields(fields@);
            assert(r@->Obj_0 =~= seq![
                ("action"@, Jv::Str(self@.action)),
                ("params"@, self@.params),
                ("echo"@, Jv::Str(self@.echo)),
            ]);
        }
        r
    }
}

/// The model of an inbound API reply.
pub struct ApiReturnV {
    pub status: Seq<char>,
    pub retcode: int,
    pub data: Jv,
    pub echo: Seq<char>,
}

/// An inbound API reply: `{status, retcode, data, echo}` on the wire.
#[derive(Debug)]
pub struct ApiReturn {
    pub status: String,
    pub retcode: i64,
    pub data: JsonValue,
    pub echo: String,
}

impl View for ApiReturn {
    type V = ApiReturnV;

    open spec fn view(&self) -> ApiReturnV {
        ApiReturnV {
            status: self.status@,
            retcode: self.retcode as int,
            data: self.data@,
            echo: self.echo@,
        }
    }
}

/// What an API reply frame denotes: `status` and `retcode` must be
/// present; a missing `data` reads as null and a missing `echo` as the
/// empty string.
pub open spec fn api_return_of(j: Jv) -> Option<ApiReturnV> {
    match (spec_get(j, "status"@), spec_get(j, "retcode"@)) {
        (Some(Jv::Str(st)), Some(Jv::Int(rc))) => Some(
            ApiReturnV {
                status: st,
                retcode: rc,
                data: match spec_get(j, "data"@) {
                    Some(d) => d,
                    None => Jv::Null,
                },
                echo: match spec_get(j, "echo"@) {
                    Some(Jv::Str(e)) => e,
                    _ => Seq::empty(),
                },
            },
        ),
        _ => None,
    }
}

/// Reads an API reply from a frame.
pub fn parse_api_return(j: &JsonValue) -> (r: Option<ApiReturn>)
    ensures
        match r {
            Some(a) => api_return_of(j@) == Some(a@),
            None => api_return_of(j@) is None,
        },
{
    let status = match j.get("status") {
        Some(v) => match v.as_str() {
            Some(s) => s.to_owned(),
            None => {
                return None;
            },
        },
        None => {
            return None;
        },
    };
    let retcode = match j.get("retcode") {
        Some(v) => match v.as_i64() {
            Some(n) => n,
            None => {
                return None;
            },
        },
        None => {
            return None;
        },
    };
    let data = match j.get("data") {
        Some(v) => v.deep_clone(),
        None => JsonValue::Null,
    };
    let echo = match j.get("echo") {
        Some(v) => match v.as_str() {
            Some(s) => s.to_owned(),
            None => String::new(),
        },
        None => String::new(),
    };
    Some(ApiReturn { status, retcode, data, echo })
}

impl ApiReturn {
    /// Whether the remote reported success: `status == "ok"`.
    pub fn is_ok_status(&self) -> (r: bool)
        ensures
            r == (self@.status == "ok"@),
    {
        str_eq(self.status.as_str(), "ok")
    }
}

/// The echo text assigned to a call: the tag, a dash, and the counter.
pub open spec fn make_echo_spec(tag: Seq<char>, c: int) -> Seq<char> {
    tag + seq!['-'] + dec_chars(c)
}

/// Distinct tag/counter pairs yield distinct echo text: the counter part
/// holds digits only, so the last dash separates tag from counter.
pub proof fn lemma_echo_injective(t1: Seq<char>, c1: int, t2: Seq<char>, c2: int)
    requires
        c1 >= 0,
        c2 >= 0,
        make_echo_spec(t1, c1) == make_echo_spec(t2, c2),
    ensures
        t1 == t2,
        c1 == c2,
{
    lemma_dec_chars_digits(c1);
    lemma_dec_chars_digits(c2);
    let s = make_echo_spec(t1, c1);
    assert(s.len() == t1.len() + 1 + dec_chars(c1).len());
    assert(s.len() == t2.len() + 1 + dec_chars(c2).len());
    if t1.len() < t2.len() {
        assert(s[t2.len() as int] == '-');
        let k = t2.len() - t1.len() - 1;
        assert(s[t2.len() as int] == dec_chars(c1)[k as int]);
        assert(false);
    } else if t2.len() < t1.len() {
        assert(s[t1.len() as int] == '-');
        let k = t1.len() - t2.len() - 1;
        assert(s[t1.len() as int] == dec_chars(c2)[k as int]);
        assert(false);
    } else {
        assert forall|i: int| 0 <= i < t1.len() implies t1[i] == t2[i] by {
            assert(s[i] == t1[i]);
            assert(s[i] == t2[i]);
        }
        assert(t1 =~= t2);
        assert forall|i: int| 0 <= i < dec_chars(c1).len() implies dec_chars(c1)[i]
            == dec_chars(c2)[i] by {
            assert(s[t1.len() + 1 + i] == dec_chars(c1)[i]);
            assert(s[t2.len() + 1 + i] == dec_chars(c2)[i]);
        }
        assert(dec_chars(c1) =~= dec_chars(c2));
        lemma_dec_chars_injective(c1, c2);
    }
}

/// One pending API call: its echo and the caller's reply slot.
#[derive(Debug)]
pub struct Pending {
    pub echo: String,
    pub slot: u64,
}

/// The echo correlator: assigns a fresh echo to each outbound call and
/// routes each inbound reply to the one pending call with that echo.
pub struct Correlator {
    pub pending: Vec<Pending>,
    pub counter: u64,
    pub origin: Ghost<Seq<(Seq<char>, int)>>,
}

impl Correlator {
    /// Every pending echo was assigned from a tag and a counter value
    /// that was current at assignment, so all pending echoes differ.
    pub open spec fn wf(&self) -> bool {
        &&& self.origin@.len() == self.pending@.len()
        &&& forall|i: int|
            0 <= i < self.pending@.len() ==> {
                &&& 0 <= (#[trigger] self.origin@[i]).1 < self.counter as int
                &&& self.pending@[i].echo@ == make_echo_spec(
                    self.origin@[i].0,
                    self.origin@[i].1,
                )
            }
        &&& forall|i: int, k: int|
            0 <= i < k < self.origin@.len() ==> (#[trigger] self.origin@[i]).1 != (
            #[trigger] self.origin@[k]).1
    }

    /// Whether some pending call carries this echo.
    pub open spec fn has_echo(&self, e: Seq<char>) -> bool {
        exists|i: int| 0 <= i < self.pending@.len() && (#[trigger] self.pending@[i]).echo@ == e
    }

    /// A correlator with nothing pending.
    pub fn new() -> (r: Correlator)
        ensures
            r.wf(),
            r.pending@.len() == 0,
            r.counter == 0,
    {
        Correlator { pending: Vec::new(), counter: 0, origin: Ghost(Seq::empty()) }
    }

    /// Assigns the next echo to a call with the given tag and registers
    /// the caller's reply slot under it. The new echo differs from every
    /// echo already pending.
    pub fn assign(&mut self, tag: &str, slot: u64) -> (echo: String)
        requires
            old(self).wf(),
            old(self).counter < u64::MAX,
        ensures
            final(self).wf(),
            echo@ == make_echo_spec(tag@, old(self).counter as int),
            !old(self).has_echo(echo@),
            final(self).counter == old(self).counter + 1,
            final(self).pending@.len() == old(self).pending@.len() + 1,
            final(self).pending@ == old(self).pending@.push(
                Pending { echo: final(self).pending@.last().echo, slot },
            ),
            final(self).pending@.last().echo@ == echo@,
            final(self).pending@.last().slot == slot,
    {
        let mut chars: Vec<char> = Vec::new();
        push_chars_of_str(tag, &mut chars);
        chars.push('-');
        push_dec_u64(self.counter, &mut chars);
        let echo = chars_to_string(&chars);
        proof {
            assert(echo@ =~= make_echo_spec(tag@, self.counter as int));
            assert forall|i: int| 0 <= i < self.pending@.len() implies (#[trigger] self
                .pending@[i]).echo@ != echo@ by {
                if self.pending@[i].echo@ == echo@ {
                    lemma_echo_injective(
                        self.origin@[i].0,
                        self.origin@[i].1,
                        tag@,
                        self.counter as int,
                    );
                }
            }
        }
        let entry = Pending { echo: echo.clone(), slot };
        self.pending.push(entry);
        proof {
            self.origin@ = self.origin@.push((tag@, self.counter as int));
        }
        self.counter = self.counter + 1;
        echo
    }

    /// Routes a reply echo to its pending call: removes the one pending
    /// entry carrying this echo and returns its slot; `None` when no
    /// pending call carries it, as for a reply that was already
    /// delivered.
    pub fn resolve(&mut self, echo: &str) -> (r: Option<u64>)
        requires
            old(self).wf(),
        ensures
            final(self).wf(),
            final(self).counter == old(self).counter,
            match r {
                Some(slot) => {
                    &&& old(self).has_echo(echo@)
                    &&& exists|i: int|
                        {
                            &&& 0 <= i < old(self).pending@.len()
                            &&& (#[trigger] old(self).pending@[i]).echo@ == echo@
                            &&& old(self).pending@[i].slot == slot
                            &&& final(self).pending@ == old(self).pending@.remove(i)
                        }
                },
                None => {
                    &&& !old(self).has_echo(echo@)
                    &&& final(self).pending@ == old(self).pending@
                },
            },
            !final(self).has_echo(echo@),
    {
        let n = self.pending.len();
        let mut i: usize = 0;
        while i < n
            invariant
                i <= n,
                n == self.pending@.len(),
                *self == *old(self),
                self.wf(),
                forall|k: int| 0 <= k < i ==> (#[trigger] self.pending@[k]).echo@ != echo@,
            decreases n - i,
        {
            if str_eq(self.pending[i].echo.as_str(), echo) {
                let slot = self.pending[i].slot;
                let ghost oldp = self.pending@;
                let ghost oldo = self.origin@;
                self.pending.remove(i);
                proof {
                    self.origin@ = self.origin@.remove(i as int);
                    assert forall|k: int| 0 <= k < self.pending@.len() implies {
                        &&& 0 <= (#[trigger] self.origin@[k]).1 < self.counter as int
                        &&& self.pending@[k].echo@ == make_echo_spec(
                            self.origin@[k].0,
                            self.origin@[k].1,
                        )
                    } by {
                        if k < i {
                            assert(self.pending@[k] == oldp[k]);
                        } else {
                            assert(self.pending@[k] == oldp[k + 1]);
                        }
                    }
                    assert forall|a: int, b: int|
                        0 <= a < b < self.origin@.len() implies (#[trigger] self.origin@[a]).1
                        != (#[trigger] self.origin@[b]).1 by {
                        let a0 = if a < i { a } else { a + 1 };
                        let b0 = if b < i { b } else { b + 1 };
                        assert(self.origin@[a] == oldo[a0]);
                        assert(self.origin@[b] == oldo[b0]);
                    }
                    assert forall|k: int|
                        0 <= k < self.pending@.len() implies (#[trigger] self.pending@[
                        k]).echo@ != echo@ by {
                        if k >= i {
                            assert(self.pending@[k] == oldp[k + 1]);
                            if oldp[k + 1].echo@ == echo@ {
                                lemma_echo_injective(
                                    oldo[k + 1].0,
                                    oldo[k + 1].1,
                                    oldo[i as int].0,
                                    oldo[i as int].1,
                                );
                            }
                        }
                    }
                }
                return Some(slot);
            }
            i += 1;
        }
        None
    }

    /// How many calls are pending.
    pub fn pending_len(&self) -> (r: usize)
        ensures
            r == self.pending@.len(),
    {
        self.pending.len()
    }
}

} // verus!
