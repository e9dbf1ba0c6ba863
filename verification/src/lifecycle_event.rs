//! The lifecycle event, and the bot-info refresh it triggers.
//!
//! A lifecycle frame is a meta event whose `meta_event_type` is
//! `lifecycle`; on seeing one the runtime issues a `get_login_info`
//! call and reads the bot's id and nickname out of the reply.

use vstd::prelude::*;

use crate::api::{ApiReturn, SendApi};
use crate::event::{get_opt_i64, get_opt_str, opt_int_field, opt_str_field, parse_post_type,
    post_type_of, EventBuildError, PostType};
use crate::json::{json_of_text, jv_int, parse_json, spec_get, Jv, JsonValue};
use crate::strutil::str_eq;

verus! {

/// What a lifecycle frame announces.
#[derive(Debug, Clone, Copy, PartialEq, Eq, Structural)]
pub enum LifecycleAction {
    Enable,
    Disable,
    Connect,
}

/// The lifecycle action a wire tag denotes, if any.
pub open spec fn lifecycle_action_of(s: Seq<char>) -> Option<LifecycleAction> {
    if s == "enable"@ {
        Some(LifecycleAction::Enable)
    } else if s == "disable"@ {
        Some(LifecycleAction::Disable)
    } else if s == "connect"@ {
        Some(LifecycleAction::Connect)
    } else {
        None
    }
}

/// The model of a lifecycle event.
pub struct LifecycleV {
    pub time: int,
    pub self_id: int,
    pub post_type: PostType,
    pub sub_type: LifecycleAction,
}

/// A lifecycle event: a meta event announcing enable, disable or
/// connect.
#[derive(Debug)]
pub struct LifecycleEvent {
    /// When the event happened, as a unix timestamp.
    pub time: i64,
    /// The bot account that received it.
    pub self_id: i64,
    /// The frame's post type.
    pub post_type: PostType,
    /// What the frame announces.
    pub sub_type: LifecycleAction,
}

impl View for LifecycleEvent {
    type V = LifecycleV;

    open spec fn view(&self) -> LifecycleV {
        LifecycleV {
            time: self.time as int,
            self_id: self.self_id as int,
            post_type: self.post_type,
            sub_type: self.sub_type,
        }
    }
}

/// What a lifecycle frame denotes: a frame whose `meta_event_type` is
/// `lifecycle`, with time, self id, post type and a known action.
pub open spec fn lifecycle_event_of(j: Jv) -> Option<LifecycleV> {
    if opt_str_field(j, "meta_event_type"@) != Some("lifecycle"@) {
        None
    } else {
        match (
            opt_int_field(j, "time"@),
            opt_int_field(j, "self_id"@),
            match opt_str_field(j, "post_type"@) {
                Some(pt) => post_type_of(pt),
                None => None,
            },
            match opt_str_field(j, "sub_type"@) {
                Some(st) => lifecycle_action_of(st),
                None => None,
            },
        ) {
            (Some(time), Some(self_id), Some(post_type), Some(sub_type)) => Some(
                LifecycleV {
                    time: time,
                    self_id: self_id,
                    post_type: post_type,
                    sub_type: sub_type,
                },
            ),
            _ => None,
        }
    }
}

impl LifecycleEvent {
    /// Reads a lifecycle event from a frame.
    pub fn from_json(json: &JsonValue) -> (r: Option<LifecycleEvent>)
        ensures
            match r {
                Some(e) => lifecycle_event_of(json@) == Some(e@),
                None => lifecycle_event_of(json@) is None,
            },
    {
        match get_opt_str(json, "meta_event_type") {
            Some(t) => {
                if !str_eq(t.as_str(), "lifecycle") {
                    return None;
                }
            },
            None => {
                return None;
            },
        }
        let time = match get_opt_i64(json, "time") {
            Some(n) => n,
            None => {
                return None;
            },
        };
        let self_id = match get_opt_i64(json, "self_id") {
            Some(n) => n,
            None => {
                return None;
            },
        };
        let post_type = match get_opt_str(json, "post_type") {
            Some(pt) => match parse_post_type(pt.as_str()) {
                Some(p) => p,
                None => {
                    return None;
                },
            },
            None => {
                return None;
            },
        };
        let sub_type = match get_opt_str(json, "sub_type") {
            Some(st) => {
                if str_eq(st.as_str(), "enable") {
                    LifecycleAction::Enable
                } else if str_eq(st.as_str(), "disable") {
                    LifecycleAction::Disable
                } else if str_eq(st.as_str(), "connect") {
                    LifecycleAction::Connect
                } else {
                    return None;
                }
            },
            None => {
                return None;
            },
        };
        Some(LifecycleEvent { time, self_id, post_type, sub_type })
    }

    /// Reads a lifecycle event from JSON text.
    pub fn de(s: &str) -> (r: Option<LifecycleEvent>)
        ensures
            match r {
                Some(e) => json_of_text(s@) matches Some(j) && lifecycle_event_of(j) == Some(
                    e@,
                ),
                None => match json_of_text(s@) {
                    Some(j) => lifecycle_event_of(j) is None,
                    None => true,
                },
            },
    {
        match parse_json(s) {
            Some(j) => LifecycleEvent::from_json(&j),
            None => None,
        }
    }
}

/// The one-shot bot-info refresh a lifecycle event triggers.
pub fn login_info_request() -> (r: SendApi)
    ensures
        r@.action == "get_login_info"@,
        r@.params == Jv::Obj(Seq::<(Seq<char>, Jv)>::empty()),
        r@.echo == "kovi"@,
{
    let fields: Vec<(String, JsonValue)> = Vec::new();
    proof {
        assert(crate::json::jv_of_fields(fields@) =~= Seq::<(Seq<char>, Jv)>::empty());
    }
    SendApi::new("get_login_info", JsonValue::Obj(fields), "kovi")
}

/// Why a `get_login_info` reply could not be read.
#[derive(Debug, PartialEq, Eq, Structural)]
pub enum LoginInfoError {
    MissingUserId,
    UserIdNotInt,
    MissingNickname,
}

/// The bot id and nickname a `get_login_info` reply's data carries, or
/// what is wrong with it: no `user_id`, a non-integer `user_id`, or no
/// string `nickname`.
pub open spec fn login_info_of(data: Jv) -> Result<(int, Seq<char>), LoginInfoError> {
    match spec_get(data, "user_id"@) {
        None => Err(LoginInfoError::MissingUserId),
        Some(u) => match jv_int(u) {
            None => Err(LoginInfoError::UserIdNotInt),
            Some(id) => match spec_get(data, "nickname"@) {
                Some(Jv::Str(n)) => Ok((id, n)),
                _ => Err(LoginInfoError::MissingNickname),
            },
        },
    }
}

/// Reads the bot id and nickname out of a `get_login_info` reply.
pub fn extract_login_info(ret: &ApiReturn) -> (r: Result<(i64, String), LoginInfoError>)
    ensures
        match r {
            Ok(p) => login_info_of(ret@.data) == Ok::<(int, Seq<char>), LoginInfoError>(
                (p.0 as int, p.1@),
            ),
            Err(e) => login_info_of(ret@.data) == Err::<(int, Seq<char>), LoginInfoError>(e),
        },
{
    let u = match ret.data.get("user_id") {
        Some(u) => u,
        None => {
            return Err(LoginInfoError::MissingUserId);
        },
    };
    let id = match u.as_i64() {
        Some(id) => id,
        None => {
            return Err(LoginInfoError::UserIdNotInt);
        },
    };
    match ret.data.get("nickname") {
        Some(n) => match n.as_str() {
            Some(s) => Ok((id, s.to_owned())),
            None => Err(LoginInfoError::MissingNickname),
        },
        None => Err(LoginInfoError::MissingNickname),
    }
}

} // verus!
