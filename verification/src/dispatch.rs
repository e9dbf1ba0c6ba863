//! The dispatcher: classify an inbound frame, deserialize it at most
//! once per event kind, and fan it out to every enabled listener.
//!
//! API replies (frames carrying `echo`) and heartbeats never reach the
//! typed-event pipeline; a frame the classifier cannot place is
//! dropped. Deserialization is memoized per event kind, access control
//! is applied to message events only, and disabled plugins receive no
//! calls.

use vstd::prelude::*;

use crate::access::{is_access, is_access_spec, AccV};
use crate::event::{opt_str_field, post_type_of, PostType};
use crate::json::{spec_get, Jv, JsonValue};
use crate::lifecycle_event::{lifecycle_event_of, LifecycleEvent, LifecycleV};
use crate::msg_event::{log_line_spec, msg_event_of, MsgEvent, MsgV};
use crate::notice_event::{notice_event_of, NoticeEvent, NoticeV};
use crate::plugin::{EventTag, ListenEntry, Plugin, PluginSet};
use crate::request_event::{request_event_of, RequestEvent, RequestV};
use crate::strutil::str_eq;

verus! {

/// What the classifier makes of an inbound frame.
#[derive(Debug, Clone, Copy, PartialEq, Eq, Structural)]
pub enum Classification {
    /// A frame carrying `echo`: an API reply for the correlator.
    ApiReply,
    /// A meta event to drop silently.
    Heartbeat,
    /// A lifecycle meta event: fanned out, and the bot-info refresh
    /// fires.
    Lifecycle,
    /// An ordinary event frame of the given post type.
    Post(PostType),
    /// A frame the runtime does not place: logged and dropped.
    Unknown,
}

/// What a frame classifies as: `echo` marks an API reply; otherwise a
/// meta event goes by its `meta_event_type`; otherwise the post type
/// decides.
pub open spec fn classify_spec(j: Jv) -> Classification {
    if spec_get(j, "echo"@) is Some {
        Classification::ApiReply
    } else {
        match opt_str_field(j, "meta_event_type"@) {
            Some(t) => if t == "heartbeat"@ {
                Classification::Heartbeat
            } else if t == "lifecycle"@ {
                Classification::Lifecycle
            } else {
                Classification::Unknown
            },
            None => match opt_str_field(j, "post_type"@) {
                Some(pt) => match post_type_of(pt) {
                    Some(p) => Classification::Post(p),
                    None => Classification::Unknown,
                },
                None => Classification::Unknown,
            },
        }
    }
}

/// Whether a classification reaches the typed-event fan-out.
pub open spec fn fanned_out(c: Classification) -> bool {
    c is Lifecycle || c is Post
}

/// Classifies an inbound frame.
pub fn classify(frame: &JsonValue) -> (r: Classification)
    ensures
        r == classify_spec(frame@),
{
    match frame.get("echo") {
        Some(_) => {
            return Classification::ApiReply;
        },
        None => {},
    }
    match crate::event::get_opt_str(frame, "meta_event_type") {
        Some(t) => {
            if str_eq(t.as_str(), "heartbeat") {
                Classification::Heartbeat
            } else if str_eq(t.as_str(), "lifecycle") {
                Classification::Lifecycle
            } else {
                Classification::Unknown
            }
        },
        None => match crate::event::get_opt_str(frame, "post_type") {
            Some(pt) => match crate::event::parse_post_type(pt.as_str()) {
                Some(p) => Classification::Post(p),
                None => Classification::Unknown,
            },
            None => Classification::Unknown,
        },
    }
}

/// What the message deserializer yields on a frame.
pub open spec fn de_msg(j: Jv) -> Option<MsgV> {
    match msg_event_of(j) {
        Ok(e) => Some(e),
        Err(_) => None,
    }
}

/// What the notice deserializer yields on a frame.
pub open spec fn de_notice(j: Jv) -> Option<NoticeV> {
    match notice_event_of(j) {
        Ok(e) => Some(e),
        Err(_) => None,
    }
}

/// What the request deserializer yields on a frame.
pub open spec fn de_request(j: Jv) -> Option<RequestV> {
    match request_event_of(j) {
        Ok(e) => Some(e),
        Err(_) => None,
    }
}

/// Whether the deserializer for a kind yields an event on this frame.
pub open spec fn tag_parses(j: Jv, t: EventTag) -> bool {
    match t {
        EventTag::Msg => de_msg(j) is Some,
        EventTag::Notice => de_notice(j) is Some,
        EventTag::Request => de_request(j) is Some,
        EventTag::Lifecycle => lifecycle_event_of(j) is Some,
    }
}

/// The per-frame memoization map: for each event kind, `None` until
/// its deserializer has run, then the deserializer's result.
#[derive(Debug)]
pub struct TypedEvents {
    pub msg: Option<Option<MsgEvent>>,
    pub notice: Option<Option<NoticeEvent>>,
    pub request: Option<Option<RequestEvent>>,
    pub lifecycle: Option<Option<LifecycleEvent>>,
}

impl TypedEvents {
    /// Every filled slot holds what the kind's deserializer yields on
    /// this frame.
    pub open spec fn wf(&self, j: Jv) -> bool {
        &&& match self.msg {
            Some(Some(e)) => de_msg(j) == Some(e@),
            Some(None) => de_msg(j) is None,
            None => true,
        }
        &&& match self.notice {
            Some(Some(e)) => de_notice(j) == Some(e@),
            Some(None) => de_notice(j) is None,
            None => true,
        }
        &&& match self.request {
            Some(Some(e)) => de_request(j) == Some(e@),
            Some(None) => de_request(j) is None,
            None => true,
        }
        &&& match self.lifecycle {
            Some(Some(e)) => lifecycle_event_of(j) == Some(e@),
            Some(None) => lifecycle_event_of(j) is None,
            None => true,
        }
    }

    /// Whether the kind's deserializer has run.
    pub open spec fn filled(&self, t: EventTag) -> bool {
        match t {
            EventTag::Msg => self.msg is Some,
            EventTag::Notice => self.notice is Some,
            EventTag::Request => self.request is Some,
            EventTag::Lifecycle => self.lifecycle is Some,
        }
    }

    /// An empty memo.
    pub fn empty() -> (r: TypedEvents)
        ensures
            r.msg is None,
            r.notice is None,
            r.request is None,
            r.lifecycle is None,
    {
        TypedEvents { msg: None, notice: None, request: None, lifecycle: None }
    }
}

/// Each filled memo slot is recorded in `parsed`, and each recorded
/// kind is filled.
pub open spec fn memo_matches_parsed(e: TypedEvents, p: Seq<EventTag>) -> bool {
    &&& (e.msg is Some <==> p.contains(EventTag::Msg))
    &&& (e.notice is Some <==> p.contains(EventTag::Notice))
    &&& (e.request is Some <==> p.contains(EventTag::Request))
    &&& (e.lifecycle is Some <==> p.contains(EventTag::Lifecycle))
}

/// No event kind occurs twice.
pub open spec fn no_dup_tags(p: Seq<EventTag>) -> bool {
    forall|a: int, b: int| 0 <= a < b < p.len() ==> p[a] != p[b]
}

/// Runs the deserializer for a kind unless the memo already holds its
/// result, and records the run.
fn ensure_parsed(
    events: &mut TypedEvents,
    parsed: &mut Vec<EventTag>,
    tag: EventTag,
    frame: &JsonValue,
)
    requires
        old(events).wf(frame@),
        memo_matches_parsed(*old(events), old(parsed)@),
        no_dup_tags(old(parsed)@),
    ensures
        final(events).wf(frame@),
        memo_matches_parsed(*final(events), final(parsed)@),
        no_dup_tags(final(parsed)@),
        final(events).filled(tag),
        forall|t: EventTag| t != tag ==> #[trigger] final(events).filled(t) == old(
            events,
        ).filled(t),
        final(events).msg is Some ==> old(events).msg is Some || tag == EventTag::Msg,
        old(events).filled(tag) ==> *final(events) == *old(events) && final(parsed)@ == old(
            parsed,
        )@,
        !old(events).filled(tag) ==> final(parsed)@ == old(parsed)@.push(tag),
        old(events).msg is Some ==> final(events).msg == old(events).msg,
        old(events).notice is Some ==> final(events).notice == old(events).notice,
        old(events).request is Some ==> final(events).request == old(events).request,
        old(events).lifecycle is Some ==> final(events).lifecycle == old(events).lifecycle,
    {
    let already = match tag {
        EventTag::Msg => events.msg.is_some(),
        EventTag::Notice => events.notice.is_some(),
        EventTag::Request => events.request.is_some(),
        EventTag::Lifecycle => events.lifecycle.is_some(),
    };
    if already {
        return ;
    }
    proof {
        assert(!old(parsed)@.contains(tag));
    }
    match tag {
        EventTag::Msg => {
            let e = match MsgEvent::new(frame.deep_clone()) {
                Ok(e) => Some(e),
                Err(_) => None,
            };
            events.msg = Some(e);
        },
        EventTag::Notice => {
            let e = NoticeEvent::from_frame(frame);
            events.notice = Some(e);
        },
        EventTag::Request => {
            let e = RequestEvent::from_frame(frame);
            events.request = Some(e);
        },
        EventTag::Lifecycle => {
            let e = LifecycleEvent::from_json(frame);
            events.lifecycle = Some(e);
        },
    }
    parsed.push(tag);
    proof {
        assert forall|t: EventTag| parsed@.contains(t) implies t == tag || old(
            parsed,
        )@.contains(t) by {
            let w = choose|k: int| 0 <= k < parsed@.len() && parsed@[k] == t;
            if w < parsed@.len() - 1 {
                assert(old(parsed)@[w] == t);
            }
        }
        assert forall|t: EventTag| old(parsed)@.contains(t) implies parsed@.contains(t) by {
            let w = choose|k: int| 0 <= k < old(parsed)@.len() && old(parsed)@[k] == t;
            assert(parsed@[w] == t);
        }
        assert(parsed@.contains(tag)) by {
            assert(parsed@[parsed@.len() - 1] == tag);
        }
    }
}

/// One handler invocation the dispatcher schedules: which plugin,
/// which handler, and for which event kind.
#[derive(Debug, Clone, Copy, PartialEq, Eq, Structural)]
pub struct HandlerCall {
    pub plugin: usize,
    pub handler: u64,
    pub tag: EventTag,
}

/// Whether a plugin has a listener entry for this kind and handler.
pub open spec fn listens(p: Plugin, t: EventTag, h: u64) -> bool {
    exists|k: int|
        0 <= k < p.listen.list@.len() && (#[trigger] p.listen.list@[k]) == ListenEntry {
            tag: t,
            handler: h,
        }
}

/// The access-control settings of a plugin, as the matrix reads them.
pub open spec fn acc_of(p: Plugin) -> AccV {
    AccV {
        access_control: p.access_control,
        list_mode: p.list_mode,
        groups: p.access_list.groups@,
        friends: p.access_list.friends@,
    }
}

/// Whether the dispatcher hands this frame to this plugin for this
/// kind: the plugin must be enabled, the kind's deserializer must
/// yield an event, and for message events the access-control matrix
/// must admit the sender. Every other kind bypasses access control.
pub open spec fn plugin_admits(p: Plugin, t: EventTag, j: Jv) -> bool {
    &&& p.enabled
    &&& tag_parses(j, t)
    &&& (t == EventTag::Msg ==> is_access_spec(acc_of(p), de_msg(j)->Some_0))
}

/// Whether the schedule holds a call.
pub open spec fn has_call(calls: Seq<HandlerCall>, plugin: int, h: u64, t: EventTag) -> bool {
    exists|k: int|
        0 <= k < calls.len() && (#[trigger] calls[k]) == HandlerCall {
            plugin: plugin as usize,
            handler: h,
            tag: t,
        }
}

/// A disabled plugin is admitted for no event kind: after the enable
/// flag goes off, the dispatcher schedules no new handler of it.
pub proof fn lemma_disabled_not_admitted(p: Plugin, t: EventTag, j: Jv)
    requires
        !p.enabled,
    ensures
        !plugin_admits(p, t, j),
{
}

/// Access control weighs only on message events: for every other event
/// kind, two plugins that differ only in their access-control settings
/// are admitted alike.
pub proof fn lemma_access_only_msg(p1: Plugin, p2: Plugin, t: EventTag, j: Jv)
    requires
        p1.enabled == p2.enabled,
        t != EventTag::Msg,
    ensures
        plugin_admits(p1, t, j) == plugin_admits(p2, t, j),
{
}

/// What dispatching one frame decides: the handler calls to spawn,
/// the typed events they receive, the deserializer runs that were
/// made, the standard log line, and whether the bot-info refresh
/// fires.
#[derive(Debug)]
pub struct DispatchOutcome {
    /// The handler invocations to spawn, unordered across plugins.
    pub calls: Vec<HandlerCall>,
    /// The typed events, memoized per kind.
    pub events: TypedEvents,
    /// The kinds whose deserializer ran, in order, each at most once.
    pub parsed: Vec<EventTag>,
    /// The standard log line, when the frame is a message event.
    pub log: Option<String>,
    /// Whether a lifecycle frame triggers the `get_login_info` call.
    pub refresh_login: bool,
}

/// Dispatches one inbound frame against the mounted plugins.
///
/// API replies and heartbeats schedule nothing; a lifecycle or post
/// frame is deserialized at most once per event kind and fanned out to
/// exactly the enabled listeners it admits, with access control
/// applied to message events only.
pub fn dispatch_frame(ps: &PluginSet, frame: &JsonValue) -> (r: DispatchOutcome)
    ensures
        r.events.wf(frame@),
        memo_matches_parsed(r.events, r.parsed@),
        no_dup_tags(r.parsed@),
        !fanned_out(classify_spec(frame@)) ==> r.calls@.len() == 0 && r.parsed@.len() == 0,
        r.refresh_login == (classify_spec(frame@) is Lifecycle),
        forall|k: int|
            0 <= k < r.calls@.len() ==> {
                let call = #[trigger] r.calls@[k];
                &&& call.plugin < ps.set@.len()
                &&& plugin_admits(ps.set@[call.plugin as int], call.tag, frame@)
                &&& listens(ps.set@[call.plugin as int], call.tag, call.handler)
            },
        fanned_out(classify_spec(frame@)) ==> forall|i: int, k: int|
            0 <= i < ps.set@.len() && 0 <= k < ps.set@[i].listen.list@.len() && plugin_admits(
                ps.set@[i],
                (#[trigger] ps.set@[i].listen.list@[k]).tag,
                frame@,
            ) ==> has_call(
                r.calls@,
                i,
                ps.set@[i].listen.list@[k].handler,
                ps.set@[i].listen.list@[k].tag,
            ),
        match r.log {
            Some(l) => fanned_out(classify_spec(frame@)) && (de_msg(frame@) matches Some(e)
                && l@ == log_line_spec(e)),
            None => !(fanned_out(classify_spec(frame@)) && de_msg(frame@) is Some),
        },
{
    let ghost j = frame@;
    let c = classify(frame);
    let mut events = TypedEvents::empty();
    let mut parsed: Vec<EventTag> = Vec::new();
    let mut calls: Vec<HandlerCall> = Vec::new();
    let mut log: Option<String> = None;
    let refresh_login = match c {
        Classification::Lifecycle => true,
        _ => false,
    };
    let fan = match c {
        Classification::Lifecycle => true,
        Classification::Post(_) => true,
        _ => false,
    };
    if !fan {
        return (DispatchOutcome { calls, events, parsed, log, refresh_login });
    }
    // The message event is deserialized eagerly so the standard log
    // line appears before any handler runs.
    ensure_parsed(&mut events, &mut parsed, EventTag::Msg, frame);
    match &events.msg {
        Some(Some(e)) => {
            log = Some(e.log_line());
        },
        _ => {},
    }
    let n = ps.set.len();
    let mut i: usize = 0;
    while i < n
        invariant
            i <= n,
            n == ps.set@.len(),
            j == frame@,
            fanned_out(classify_spec(j)),
            events.wf(j),
            memo_matches_parsed(events, parsed@),
            no_dup_tags(parsed@),
            events.msg is Some,
            match log {
                Some(l) => de_msg(j) matches Some(e) && l@ == log_line_spec(e),
                None => de_msg(j) is None,
            },
            forall|k: int|
                0 <= k < calls@.len() ==> {
                    let call = #[trigger] calls@[k];
                    &&& call.plugin < ps.set@.len()
                    &&& plugin_admits(ps.set@[call.plugin as int], call.tag, j)
                    &&& listens(ps.set@[call.plugin as int], call.tag, call.handler)
                },
            forall|pi: int, k: int|
                0 <= pi < i && 0 <= k < ps.set@[pi].listen.list@.len() && plugin_admits(
                    ps.set@[pi],
                    (#[trigger] ps.set@[pi].listen.list@[k]).tag,
                    j,
                ) ==> has_call(
                    calls@,
                    pi,
                    ps.set@[pi].listen.list@[k].handler,
                    ps.set@[pi].listen.list@[k].tag,
                ),
        decreases n - i,
    {
        let p = &ps.set[i];
        let enabled = p.enabled;
        let m = p.listen.list.len();
        let mut k: usize = 0;
        while k < m
            invariant
                i < n,
                k <= m,
                n == ps.set@.len(),
                m == ps.set@[i as int].listen.list@.len(),
                *p == ps.set@[i as int],
                enabled == p.enabled,
                j == frame@,
                fanned_out(classify_spec(j)),
                events.wf(j),
                memo_matches_parsed(events, parsed@),
                no_dup_tags(parsed@),
                events.msg is Some,
                match log {
                    Some(l) => de_msg(j) matches Some(e) && l@ == log_line_spec(e),
                    None => de_msg(j) is None,
                },
                forall|kk: int|
                    0 <= kk < calls@.len() ==> {
                        let call = #[trigger] calls@[kk];
                        &&& call.plugin < ps.set@.len()
                        &&& plugin_admits(ps.set@[call.plugin as int], call.tag, j)
                        &&& listens(ps.set@[call.plugin as int], call.tag, call.handler)
                    },
                forall|pi: int, kk: int|
                    0 <= pi < i && 0 <= kk < ps.set@[pi].listen.list@.len() && plugin_admits(
                        ps.set@[pi],
                        (#[trigger] ps.set@[pi].listen.list@[kk]).tag,
                        j,
                    ) ==> has_call(
                        calls@,
                        pi,
                        ps.set@[pi].listen.list@[kk].handler,
                        ps.set@[pi].listen.list@[kk].tag,
                    ),
                forall|kk: int|
                    0 <= kk < k && plugin_admits(
                        ps.set@[i as int],
                        (#[trigger] ps.set@[i as int].listen.list@[kk]).tag,
                        j,
                    ) ==> has_call(
                        calls@,
                        i as int,
                        ps.set@[i as int].listen.list@[kk].handler,
                        ps.set@[i as int].listen.list@[kk].tag,
                    ),
            decreases m - k,
        {
            let entry = p.listen.list[k];
            if enabled {
                ensure_parsed(&mut events, &mut parsed, entry.tag, frame);
                let present = match entry.tag {
                    EventTag::Msg => match &events.msg {
                        Some(Some(_)) => true,
                        _ => false,
                    },
                    EventTag::Notice => match &events.notice {
                        Some(Some(_)) => true,
                        _ => false,
                    },
                    EventTag::Request => match &events.request {
                        Some(Some(_)) => true,
                        _ => false,
                    },
                    EventTag::Lifecycle => match &events.lifecycle {
                        Some(Some(_)) => true,
                        _ => false,
                    },
                };
                proof {
                    assert(present == tag_parses(j, entry.tag));
                }
                if present {
                    let admitted = match entry.tag {
                        EventTag::Msg => {
                            let acc = p.acc_cache();
                            match &events.msg {
                                Some(Some(e)) => is_access(&acc, e),
                                _ => false,
                            }
                        },
                        _ => true,
                    };
                    proof {
                        assert(admitted == plugin_admits(ps.set@[i as int], entry.tag, j));
                    }
                    if admitted {
                        let ghost oldcalls = calls@;
                        calls.push(HandlerCall { plugin: i, handler: entry.handler, tag: entry.tag });
                        proof {
                            assert forall|pi: int, h: u64, t: EventTag| has_call(
                                oldcalls,
                                pi,
                                h,
                                t,
                            ) implies has_call(calls@, pi, h, t) by {
                                let w = choose|kk: int|
                                    0 <= kk < oldcalls.len() && oldcalls[kk] == HandlerCall {
                                        plugin: pi as usize,
                                        handler: h,
                                        tag: t,
                                    };
                                assert(calls@[w] == HandlerCall {
                                    plugin: pi as usize,
                                    handler: h,
                                    tag: t,
                                });
                            }
                            assert(calls@[calls@.len() - 1] == HandlerCall {
                                plugin: i,
                                handler: entry.handler,
                                tag: entry.tag,
                            });
                            assert(listens(ps.set@[i as int], entry.tag, entry.handler)) by {
                                assert(ps.set@[i as int].listen.list@[k as int] == ListenEntry {
                                    tag: entry.tag,
                                    handler: entry.handler,
                                });
                            }
                        }
                    }
                }
            }
            proof {
                assert forall|kk: int|
                    0 <= kk < k + 1 && plugin_admits(
                        ps.set@[i as int],
                        (#[trigger] ps.set@[i as int].listen.list@[kk]).tag,
                        j,
                    ) implies has_call(
                        calls@,
                        i as int,
                        ps.set@[i as int].listen.list@[kk].handler,
                        ps.set@[i as int].listen.list@[kk].tag,
                    ) by {
                    if kk == k {
                        let e2 = ps.set@[i as int].listen.list@[kk];
                        assert(e2 == entry);
                        if plugin_admits(ps.set@[i as int], entry.tag, j) {
                            assert(has_call(calls@, i as int, entry.handler, entry.tag));
                        }
                    }
                }
            }
            k += 1;
        }
        i += 1;
    }
    DispatchOutcome { calls, events, parsed, log, refresh_login }
}

} // verus!
