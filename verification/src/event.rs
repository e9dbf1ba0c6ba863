//! The shared vocabulary of typed events.
//!
//! Every inbound frame carries a post type; message events carry a
//! sender profile and, sometimes, an anonymous-sender record.

use vstd::prelude::*;
use vstd::string::StringExecFns;

use crate::json::{jv_int, jv_str, spec_get, Jv, JsonValue};
use crate::strutil::str_eq;

verus! {

/// The sex a sender profile reports.
#[derive(Debug, Copy, Clone, PartialEq, Eq, Structural)]
pub enum Sex {
    Male,
    Female,
}

/// The profile of a message sender.
#[derive(Debug)]
pub struct Sender {
    pub user_id: i64,
    pub nickname: Option<String>,
    pub card: Option<String>,
    pub sex: Option<Sex>,
    pub age: Option<i32>,
    pub area: Option<String>,
    pub level: Option<String>,
    pub role: Option<String>,
    pub title: Option<String>,
}

/// An anonymous-sender record on a group message.
#[derive(Debug)]
pub struct Anonymous {
    pub id: i64,
    pub name: String,
    pub flag: String,
}

/// The top-level kind of an inbound event frame.
#[derive(Debug, Clone, Copy, PartialEq, Eq, Structural)]
pub enum PostType {
    Message,
    Notice,
    Request,
    MetaEvent,
}

/// The post type a wire tag denotes, if any.
pub open spec fn post_type_of(s: Seq<char>) -> Option<PostType> {
    if s == "message"@ {
        Some(PostType::Message)
    } else if s == "notice"@ {
        Some(PostType::Notice)
    } else if s == "request"@ {
        Some(PostType::Request)
    } else if s == "meta_event"@ {
        Some(PostType::MetaEvent)
    } else {
        None
    }
}

/// Reads a post type from its wire tag.
pub fn parse_post_type(s: &str) -> (r: Option<PostType>)
    ensures
        r == post_type_of(s@),
{
    if str_eq(s, "message") {
        Some(PostType::Message)
    } else if str_eq(s, "notice") {
        Some(PostType::Notice)
    } else if str_eq(s, "request") {
        Some(PostType::Request)
    } else if str_eq(s, "meta_event") {
        Some(PostType::MetaEvent)
    } else {
        None
    }
}

/// Why an inbound frame could not be turned into a typed event: the
/// frame was of the right kind but malformed, and the payload names the
/// field that failed.
#[derive(Debug)]
pub enum EventBuildError {
    ParseError(String),
}

impl EventBuildError {
    /// The field or reason this error reports.
    pub fn message(&self) -> (r: &String)
        ensures
            *self == EventBuildError::ParseError(*r),
    {
        match self {
            EventBuildError::ParseError(s) => s,
        }
    }

    /// An error naming the field that failed.
    pub fn field(name: &str) -> (r: EventBuildError)
        ensures
            r->ParseError_0@ == name@,
    {
        EventBuildError::ParseError(String::from_str(name))
    }
}

/// The model of an anonymous-sender record.
pub struct AnonV {
    pub id: int,
    pub name: Seq<char>,
    pub flag: Seq<char>,
}

impl View for Anonymous {
    type V = AnonV;

    open spec fn view(&self) -> AnonV {
        AnonV { id: self.id as int, name: self.name@, flag: self.flag@ }
    }
}

/// The anonymous-sender record a value denotes: `id`, `name` and `flag`
/// are all required.
pub open spec fn anon_of(j: Jv) -> Option<AnonV> {
    match (opt_int_field(j, "id"@), opt_str_field(j, "name"@), opt_str_field(j, "flag"@)) {
        (Some(id), Some(name), Some(flag)) => Some(AnonV { id: id, name: name, flag: flag }),
        _ => None,
    }
}

/// Reads an anonymous-sender record.
pub fn parse_anonymous(j: &JsonValue) -> (r: Option<Anonymous>)
    ensures
        match r {
            Some(a) => anon_of(j@) == Some(a@),
            None => anon_of(j@) is None,
        },
{
    let id = match get_opt_i64(j, "id") {
        Some(n) => n,
        None => {
            return None;
        },
    };
    let name = match get_opt_str(j, "name") {
        Some(s) => s,
        None => {
            return None;
        },
    };
    let flag = match get_opt_str(j, "flag") {
        Some(s) => s,
        None => {
            return None;
        },
    };
    Some(Anonymous { id, name, flag })
}

/// The model of a sender profile.
pub struct SenderV {
    pub user_id: int,
    pub nickname: Option<Seq<char>>,
    pub card: Option<Seq<char>>,
    pub sex: Option<Sex>,
    pub age: Option<int>,
    pub area: Option<Seq<char>>,
    pub level: Option<Seq<char>>,
    pub role: Option<Seq<char>>,
    pub title: Option<Seq<char>>,
}

impl View for Sender {
    type V = SenderV;

    open spec fn view(&self) -> SenderV {
        SenderV {
            user_id: self.user_id as int,
            nickname: match self.nickname {
                Some(s) => Some(s@),
                None => None,
            },
            card: match self.card {
                Some(s) => Some(s@),
                None => None,
            },
            sex: self.sex,
            age: match self.age {
                Some(a) => Some(a as int),
                None => None,
            },
            area: match self.area {
                Some(s) => Some(s@),
                None => None,
            },
            level: match self.level {
                Some(s) => Some(s@),
                None => None,
            },
            role: match self.role {
                Some(s) => Some(s@),
                None => None,
            },
            title: match self.title {
                Some(s) => Some(s@),
                None => None,
            },
        }
    }
}

/// The string a field carries, when the field is present and a string.
pub open spec fn opt_str_field(j: Jv, key: Seq<char>) -> Option<Seq<char>> {
    match spec_get(j, key) {
        Some(Jv::Str(s)) => Some(s),
        _ => None,
    }
}

/// The integer a field carries, when the field is present and an
/// integer.
pub open spec fn opt_int_field(j: Jv, key: Seq<char>) -> Option<int> {
    match spec_get(j, key) {
        Some(Jv::Int(n)) => Some(n),
        _ => None,
    }
}

/// Reads an optional string field of an object.
pub fn get_opt_str(j: &JsonValue, key: &str) -> (r: Option<String>)
    ensures
        match r {
            Some(s) => opt_str_field(j@, key@) == Some(s@),
            None => opt_str_field(j@, key@) is None,
        },
{
    match j.get(key) {
        Some(v) => match v.as_str() {
            Some(s) => Some(s.to_owned()),
            None => None,
        },
        None => None,
    }
}

/// Reads an optional integer field of an object.
pub fn get_opt_i64(j: &JsonValue, key: &str) -> (r: Option<i64>)
    ensures
        match r {
            Some(n) => opt_int_field(j@, key@) == Some(n as int),
            None => opt_int_field(j@, key@) is None,
        },
{
    match j.get(key) {
        Some(v) => v.as_i64(),
        None => None,
    }
}

/// The model of a sender profile a frame's `sender` object denotes.
pub open spec fn sender_of(j: Jv) -> Option<SenderV> {
    match opt_int_field(j, "user_id"@) {
        Some(uid) => Some(
            SenderV {
                user_id: uid,
                nickname: opt_str_field(j, "nickname"@),
                card: opt_str_field(j, "card"@),
                sex: match opt_str_field(j, "sex"@) {
                    Some(s) => if s == "male"@ {
                        Some(Sex::Male)
                    } else if s == "female"@ {
                        Some(Sex::Female)
                    } else {
                        None
                    },
                    None => None,
                },
                age: match opt_int_field(j, "age"@) {
                    Some(n) => if i32::MIN as int <= n <= i32::MAX as int {
                        Some(n)
                    } else {
                        None
                    },
                    None => None,
                },
                area: opt_str_field(j, "area"@),
                level: opt_str_field(j, "level"@),
                role: opt_str_field(j, "role"@),
                title: opt_str_field(j, "title"@),
            },
        ),
        None => None,
    }
}

/// Reads a sender profile from a frame's `sender` object. The profile
/// requires a `user_id`; every other field is optional.
pub fn parse_sender(j: &JsonValue) -> (r: Option<Sender>)
    ensures
        match r {
            Some(s) => sender_of(j@) == Some(s@),
            None => sender_of(j@) is None,
        },
{
    let user_id = match get_opt_i64(j, "user_id") {
        Some(n) => n,
        None => {
            return None;
        },
    };
    let sex = match get_opt_str(j, "sex") {
        Some(s) => {
            if str_eq(s.as_str(), "male") {
                Some(Sex::Male)
            } else if str_eq(s.as_str(), "female") {
                Some(Sex::Female)
            } else {
                None
            }
        },
        None => None,
    };
    let age = match get_opt_i64(j, "age") {
        Some(n) => {
            if n >= i32::MIN as i64 && n <= i32::MAX as i64 {
                Some(n as i32)
            } else {
                None
            }
        },
        None => None,
    };
    Some(
        Sender {
            user_id,
            nickname: get_opt_str(j, "nickname"),
            card: get_opt_str(j, "card"),
            sex,
            age,
            area: get_opt_str(j, "area"),
            level: get_opt_str(j, "level"),
            role: get_opt_str(j, "role"),
            title: get_opt_str(j, "title"),
        },
    )
}

} // verus!
