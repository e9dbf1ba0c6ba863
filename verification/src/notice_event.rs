//! The notice event.

use vstd::prelude::*;

use crate::event::{opt_int_field, opt_str_field, parse_post_type, post_type_of, EventBuildError,
    PostType};
use crate::event::{get_opt_i64, get_opt_str};
use crate::json::{json_of_text, parse_json, spec_get, Jv, JsonValue};

verus! {

/// The model of a notice event.
pub struct NoticeV {
    pub time: int,
    pub self_id: int,
    pub post_type: PostType,
    pub notice_type: Seq<char>,
    pub original: Jv,
}

/// A notice event: `{time, self_id, post_type, notice_type}` plus the
/// verbatim frame for access by key.
#[derive(Debug)]
pub struct NoticeEvent {
    /// When the event happened, as a unix timestamp.
    pub time: i64,
    /// The bot account that received it.
    pub self_id: i64,
    /// The frame's post type.
    pub post_type: PostType,
    /// The kind of notice.
    pub notice_type: String,
    /// The verbatim frame, for access by key.
    pub original_json: JsonValue,
}

impl View for NoticeEvent {
    type V = NoticeV;

    open spec fn view(&self) -> NoticeV {
        NoticeV {
            time: self.time as int,
            self_id: self.self_id as int,
            post_type: self.post_type,
            notice_type: self.notice_type@,
            original: self.original_json@,
        }
    }
}

/// What a notice frame denotes, or the first field that fails.
pub open spec fn notice_event_of(j: Jv) -> Result<NoticeV, Seq<char>> {
    match opt_int_field(j, "time"@) {
        None => Err("time"@),
        Some(time) => match opt_int_field(j, "self_id"@) {
            None => Err("self_id"@),
            Some(self_id) => match (match opt_str_field(j, "post_type"@) {
                Some(pt) => post_type_of(pt),
                None => None,
            }) {
                None => Err("Invalid post_type"@),
                Some(post_type) => match opt_str_field(j, "notice_type"@) {
                    None => Err("notice_type"@),
                    Some(notice_type) => Ok(
                        NoticeV {
                            time: time,
                            self_id: self_id,
                            post_type: post_type,
                            notice_type: notice_type,
                            original: j,
                        },
                    ),
                },
            },
        },
    }
}

impl NoticeEvent {
    /// Builds a notice event from JSON text; the error names the first
    /// field that fails, or reports text that is not JSON.
    pub fn new(msg: &str) -> (r: Result<NoticeEvent, EventBuildError>)
        ensures
            match r {
                Ok(e) => json_of_text(msg@) matches Some(j) && notice_event_of(j) == Ok::<
                    NoticeV,
                    Seq<char>,
                >(e@),
                Err(er) => match json_of_text(msg@) {
                    Some(j) => notice_event_of(j) matches Err(m) && er->ParseError_0@ == m,
                    None => er->ParseError_0@ == "Invalid JSON"@,
                },
            },
    {
        let json = match parse_json(msg) {
            Some(j) => j,
            None => {
                return Err(EventBuildError::field("Invalid JSON"));
            },
        };
        let time = match get_opt_i64(&json, "time") {
            Some(n) => n,
            None => {
                return Err(EventBuildError::field("time"));
            },
        };
        let self_id = match get_opt_i64(&json, "self_id") {
            Some(n) => n,
            None => {
                return Err(EventBuildError::field("self_id"));
            },
        };
        let post_type = match get_opt_str(&json, "post_type") {
            Some(pt) => match parse_post_type(pt.as_str()) {
                Some(p) => p,
                None => {
                    return Err(EventBuildError::field("Invalid post_type"));
                },
            },
            None => {
                return Err(EventBuildError::field("Invalid post_type"));
            },
        };
        let notice_type = match get_opt_str(&json, "notice_type") {
            Some(s) => s,
            None => {
                return Err(EventBuildError::field("notice_type"));
            },
        };
        Ok(NoticeEvent { time, self_id, post_type, notice_type, original_json: json })
    }

    /// Reads a notice event from JSON text: `None` where the text is
    /// not JSON or does not denote a notice frame.
    pub fn de(s: &str) -> (r: Option<NoticeEvent>)
        ensures
            match r {
                Some(e) => json_of_text(s@) matches Some(j) && notice_event_of(j) == Ok::<
                    NoticeV,
                    Seq<char>,
                >(e@),
                None => match json_of_text(s@) {
                    Some(j) => notice_event_of(j) is Err,
                    None => true,
                },
            },
    {
        match NoticeEvent::new(s) {
            Ok(e) => Some(e),
            Err(_) => None,
        }
    }


    /// Reads a notice event from an already parsed frame.
    pub fn from_frame(json: &JsonValue) -> (r: Option<NoticeEvent>)
        ensures
            match r {
                Some(e) => notice_event_of(json@) == Ok::<NoticeV, Seq<char>>(e@),
                None => notice_event_of(json@) is Err,
            },
    {
        let time = match get_opt_i64(json, "time") {
            Some(n) => n,
            None => {
                return None;
            },
        };
        let self_id = match get_opt_i64(json, "self_id") {
            Some(n) => n,
            None => {
                return None;
            },
        };
        let post_type = match get_opt_str(json, "post_type") {
            Some(pt) => match parse_post_type(pt.as_str()) {
                Some(p) => p,
                None => {
                    return None;
                },
            },
            None => {
                return None;
            },
        };
        let notice_type = match get_opt_str(json, "notice_type") {
            Some(s) => s,
            None => {
                return None;
            },
        };
        Some(
            NoticeEvent {
                time,
                self_id,
                post_type,
                notice_type,
                original_json: json.deep_clone(),
            },
        )
    }

    /// Reads a value of the verbatim frame by key.
    pub fn get<'a>(&'a self, key: &str) -> (r: Option<&'a JsonValue>)
        ensures
            match r {
                Some(v) => spec_get(self@.original, key@) == Some(v@),
                None => spec_get(self@.original, key@) is None,
            },
    {
        self.original_json.get(key)
    }
}

} // verus!
