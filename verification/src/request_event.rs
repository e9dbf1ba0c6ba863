//! The request event.

use vstd::prelude::*;

use crate::event::{opt_int_field, opt_str_field, parse_post_type, post_type_of, EventBuildError,
    PostType};
use crate::event::{get_opt_i64, get_opt_str};
use crate::json::{json_of_text, parse_json, spec_get, Jv, JsonValue};

verus! {

/// The model of a request event.
pub struct RequestV {
    pub time: int,
    pub self_id: int,
    pub post_type: PostType,
    pub request_type: Seq<char>,
    pub original: Jv,
}

/// A request event: `{time, self_id, post_type, request_type}` plus the
/// verbatim frame for access by key.
#[derive(Debug)]
pub struct RequestEvent {
    /// When the event happened, as a unix timestamp.
    pub time: i64,
    /// The bot account that received it.
    pub self_id: i64,
    /// The frame's post type.
    pub post_type: PostType,
    /// The kind of request.
    pub request_type: String,
    /// The verbatim frame, for access by key.
    pub original_json: JsonValue,
}

impl View for RequestEvent {
    type V = RequestV;

    open spec fn view(&self) -> RequestV {
        RequestV {
            time: self.time as int,
            self_id: self.self_id as int,
            post_type: self.post_type,
            request_type: self.request_type@,
            original: self.original_json@,
        }
    }
}

/// What a request frame denotes, or the first field that fails.
pub open spec fn request_event_of(j: Jv) -> Result<RequestV, Seq<char>> {
    match opt_int_field(j, "time"@) {
        None => Err("time"@),
        Some(time) => match opt_int_field(j, "self_id"@) {
            None => Err("self_id"@),
            Some(self_id) => match (match opt_str_field(j, "post_type"@) {
                Some(pt) => post_type_of(pt),
                None => None,
            }) {
                None => Err("Invalid post_type"@),
                Some(post_type) => match opt_str_field(j, "request_type"@) {
                    None => Err("request_type"@),
                    Some(request_type) => Ok(
                        RequestV {
                            time: time,
                            self_id: self_id,
                            post_type: post_type,
                            request_type: request_type,
                            original: j,
                        },
                    ),
                },
            },
        },
    }
}

impl RequestEvent {
    /// Builds a request event from JSON text; the error names the first
    /// field that fails, or reports text that is not JSON.
    pub fn new(msg: &str) -> (r: Result<RequestEvent, EventBuildError>)
        ensures
            match r {
                Ok(e) => json_of_text(msg@) matches Some(j) && request_event_of(j) == Ok::<
                    RequestV,
                    Seq<char>,
                >(e@),
                Err(er) => match json_of_text(msg@) {
                    Some(j) => request_event_of(j) matches Err(m) && er->ParseError_0@ == m,
                    None => er->ParseError_0@ == "Invalid JSON"@,
                },
            },
    {
        let json = match parse_json(msg) {
            Some(j) => j,
            None => {
                return Err(EventBuildError::field("Invalid JSON"));
            },
        };
        let time = match get_opt_i64(&json, "time") {
            Some(n) => n,
            None => {
                return Err(EventBuildError::field("time"));
            },
        };
        let self_id = match get_opt_i64(&json, "self_id") {
            Some(n) => n,
            None => {
                return Err(EventBuildError::field("self_id"));
            },
        };
        let post_type = match get_opt_str(&json, "post_type") {
            Some(pt) => match parse_post_type(pt.as_str()) {
                Some(p) => p,
                None => {
                    return Err(EventBuildError::field("Invalid post_type"));
                },
            },
            None => {
                return Err(EventBuildError::field("Invalid post_type"));
            },
        };
        let request_type = match get_opt_str(&json, "request_type") {
            Some(s) => s,
            None => {
                return Err(EventBuildError::field("request_type"));
            },
        };
        Ok(RequestEvent { time, self_id, post_type, request_type, original_json: json })
    }

    /// Reads a request event from JSON text: `None` where the text is
    /// not JSON or does not denote a request frame.
    pub fn de(s: &str) -> (r: Option<RequestEvent>)
        ensures
            match r {
                Some(e) => json_of_text(s@) matches Some(j) && request_event_of(j) == Ok::<
                    RequestV,
                    Seq<char>,
                >(e@),
                None => match json_of_text(s@) {
                    Some(j) => request_event_of(j) is Err,
                    None => true,
                },
            },
    {
        match RequestEvent::new(s) {
            Ok(e) => Some(e),
            Err(_) => None,
        }
    }


    /// Reads a request event from an already parsed frame.
    pub fn from_frame(json: &JsonValue) -> (r: Option<RequestEvent>)
        ensures
            match r {
                Some(e) => request_event_of(json@) == Ok::<RequestV, Seq<char>>(e@),
                None => request_event_of(json@) is Err,
            },
    {
        let time = match get_opt_i64(json, "time") {
            Some(n) => n,
            None => {
                return None;
            },
        };
        let self_id = match get_opt_i64(json, "self_id") {
            Some(n) => n,
            None => {
                return None;
            },
        };
        let post_type = match get_opt_str(json, "post_type") {
            Some(pt) => match parse_post_type(pt.as_str()) {
                Some(p) => p,
                None => {
                    return None;
                },
            },
            None => {
                return None;
            },
        };
        let request_type = match get_opt_str(json, "request_type") {
            Some(s) => s,
            None => {
                return None;
            },
        };
        Some(
            RequestEvent {
                time,
                self_id,
                post_type,
                request_type,
                original_json: json.deep_clone(),
            },
        )
    }

    /// Reads a value of the verbatim frame by key.
    pub fn get<'a>(&'a self, key: &str) -> (r: Option<&'a JsonValue>)
        ensures
            match r {
                Some(v) => spec_get(self@.original, key@) == Some(v@),
                None => spec_get(self@.original, key@) is None,
            },
    {
        self.original_json.get(key)
    }
}

} // verus!
