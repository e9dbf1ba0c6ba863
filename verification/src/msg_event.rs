//! The message event: the richest typed event.
//!
//! A message frame carries the sender's profile, the message itself in
//! array or CQ-string form, and bookkeeping fields; deserialization
//! normalizes the message, extracts the plain text, renders the
//! human-readable form, and keeps the verbatim frame for access by key.

use vstd::prelude::*;
use vstd::string::StringExecFns;

use crate::api::SendApi;
use crate::cq::{cq_parse_spec, parse_segments_from_cq};
use crate::event::{
    anon_of, get_opt_i64, get_opt_str, opt_int_field, opt_str_field, parse_anonymous,
    parse_post_type, parse_sender, post_type_of, sender_of, AnonV, Anonymous, EventBuildError,
    PostType, Sender, SenderV,
};
use crate::json::{json_of_text, jv_of_seq, parse_json, spec_get, Jv, JsonValue};
use crate::message::{
    human_spec, parse_array_spec, parse_segments_from_array, plain_text_spec, render_array_spec,
    Message, SegV,
};
use crate::strutil::{chars_to_string, push_chars_of_str, push_dec_i64};

verus! {

/// The model of a message event.
pub struct MsgV {
    pub time: int,
    pub self_id: int,
    pub post_type: PostType,
    pub message_type: Seq<char>,
    pub sub_type: Seq<char>,
    pub message: Seq<SegV>,
    pub message_id: int,
    pub group_id: Option<int>,
    pub user_id: int,
    pub anonymous: Option<AnonV>,
    pub raw_message: Seq<char>,
    pub font: int,
    pub sender: SenderV,
    pub text: Option<Seq<char>>,
    pub human_text: Seq<char>,
    pub original: Jv,
}

/// A message event.
#[derive(Debug)]
pub struct MsgEvent {
    /// When the event happened, as a unix timestamp.
    pub time: i64,
    /// The bot account that received it.
    pub self_id: i64,
    /// The frame's post type.
    pub post_type: PostType,
    /// `group` or `private`.
    pub message_type: String,
    /// `friend`, `group`, and the like.
    pub sub_type: String,
    /// The message, normalized to segments.
    pub message: Message,
    /// The message id, used for quoting.
    pub message_id: i32,
    /// The group, for group messages.
    pub group_id: Option<i64>,
    /// The sending account.
    pub user_id: i64,
    /// The anonymous-sender record, if the message was anonymous.
    pub anonymous: Option<Anonymous>,
    /// The untouched wire text of the message.
    pub raw_message: String,
    /// The font field of the frame.
    pub font: i32,
    /// The sender's profile.
    pub sender: Sender,
    /// The plain text of the message, when it has any.
    pub text: Option<String>,
    /// The human-readable rendering of the message.
    pub human_text: String,
    /// The verbatim frame, for access by key.
    pub original_json: JsonValue,
}

impl View for MsgEvent {
    type V = MsgV;

    open spec fn view(&self) -> MsgV {
        MsgV {
            time: self.time as int,
            self_id: self.self_id as int,
            post_type: self.post_type,
            message_type: self.message_type@,
            sub_type: self.sub_type@,
            message: self.message@,
            message_id: self.message_id as int,
            group_id: match self.group_id {
                Some(g) => Some(g as int),
                None => None,
            },
            user_id: self.user_id as int,
            anonymous: match self.anonymous {
                Some(a) => Some(a@),
                None => None,
            },
            raw_message: self.raw_message@,
            font: self.font as int,
            sender: self.sender@,
            text: match self.text {
                Some(t) => Some(t@),
                None => None,
            },
            human_text: self.human_text@,
            original: self.original_json@,
        }
    }
}

/// The message a frame's `message` field denotes: an array of segments
/// or a CQ string, both normalized to segments.
pub open spec fn msg_message_of(j: Jv) -> Result<Seq<SegV>, Seq<char>> {
    match spec_get(j, "message"@) {
        Some(Jv::Arr(a)) => match parse_array_spec(a) {
            Some(m) => Ok(m),
            None => Err("Invalid message"@),
        },
        Some(Jv::Str(s)) => match cq_parse_spec(s) {
            Some(m) => Ok(m),
            None => Err("Invalid message"@),
        },
        _ => Err("message is not string"@),
    }
}

/// The anonymous-sender record a frame denotes: absent or null means
/// none; anything else must be a well-formed record.
pub open spec fn msg_anon_of(j: Jv) -> Result<Option<AnonV>, Seq<char>> {
    match spec_get(j, "anonymous"@) {
        None => Ok(None),
        Some(Jv::Null) => Ok(None),
        Some(a) => match anon_of(a) {
            Some(x) => Ok(Some(x)),
            None => Err("Invalid anonymous"@),
        },
    }
}

/// The remaining required fields of a message frame, checked in order;
/// the error names the first field that fails.
pub open spec fn msg_fields_of(
    j: Jv,
    sender: SenderV,
    message: Seq<SegV>,
    anonymous: Option<AnonV>,
) -> Result<MsgV, Seq<char>> {
    match opt_int_field(j, "time"@) {
        None => Err("Invalid time"@),
        Some(time) => match opt_int_field(j, "self_id"@) {
            None => Err("Invalid self_id"@),
            Some(self_id) => match (match opt_str_field(j, "post_type"@) {
                Some(pt) => post_type_of(pt),
                None => None,
            }) {
                None => Err("Invalid post_type"@),
                Some(post_type) => match opt_str_field(j, "message_type"@) {
                    None => Err("Invalid message_type"@),
                    Some(message_type) => match opt_str_field(j, "sub_type"@) {
                        None => Err("Invalid sub_type"@),
                        Some(sub_type) => match (match opt_int_field(j, "message_id"@) {
                            Some(m) => if i32::MIN as int <= m <= i32::MAX as int {
                                Some(m)
                            } else {
                                None
                            },
                            None => None,
                        }) {
                            None => Err("Invalid message_id"@),
                            Some(message_id) => match opt_int_field(j, "user_id"@) {
                                None => Err("Invalid user_id"@),
                                Some(user_id) => match opt_str_field(j, "raw_message"@) {
                                    None => Err("Invalid raw_message"@),
                                    Some(raw_message) => match (match opt_int_field(
                                        j,
                                        "font"@,
                                    ) {
                                        Some(f) => if i32::MIN as int <= f <= i32::MAX as int {
                                            Some(f)
                                        } else {
                                            None
                                        },
                                        None => None,
                                    }) {
                                        None => Err("Invalid font"@),
                                        Some(font) => Ok(
                                            MsgV {
                                                time: time,
                                                self_id: self_id,
                                                post_type: post_type,
                                                message_type: message_type,
                                                sub_type: sub_type,
                                                message: message,
                                                message_id: message_id,
                                                group_id: opt_int_field(j, "group_id"@),
                                                user_id: user_id,
                                                anonymous: anonymous,
                                                raw_message: raw_message,
                                                font: font,
                                                sender: sender,
                                                text: plain_text_spec(message),
                                                human_text: human_spec(message),
                                                original: j,
                                            },
                                        ),
                                    },
                                },
                            },
                        },
                    },
                },
            },
        },
    }
}

/// What a message frame denotes, or the first field that fails.
pub open spec fn msg_event_of(j: Jv) -> Result<MsgV, Seq<char>> {
    if !(j is Obj) {
        Err("Invalid JSON object"@)
    } else {
        match spec_get(j, "sender"@) {
            Some(sj) => {
                if !(sj is Obj) {
                    Err("Invalid sender object"@)
                } else {
                    match sender_of(sj) {
                        None => Err("Invalid user_id"@),
                        Some(sender) => match msg_message_of(j) {
                            Err(e) => Err(e),
                            Ok(message) => match msg_anon_of(j) {
                                Err(e) => Err(e),
                                Ok(anonymous) => msg_fields_of(j, sender, message, anonymous),
                            },
                        },
                    }
                }
            },
            None => Err("Invalid sender object"@),
        }
    }
}

impl MsgEvent {
    /// Builds a message event from a frame; the error names the first
    /// field that fails.
    pub fn new(json: JsonValue) -> (r: Result<MsgEvent, EventBuildError>)
        ensures
            match r {
                Ok(e) => msg_event_of(json@) == Ok::<MsgV, Seq<char>>(e@),
                Err(e) => msg_event_of(json@) matches Err(m) && e->ParseError_0@ == m,
            },
    {
        match &json {
            JsonValue::Obj(_) => {},
            _ => {
                return Err(EventBuildError::field("Invalid JSON object"));
            },
        }
        let sender = match json.get("sender") {
            Some(sj) => {
                match sj {
                    JsonValue::Obj(_) => {},
                    _ => {
                        return Err(EventBuildError::field("Invalid sender object"));
                    },
                }
                match parse_sender(sj) {
                    Some(s) => s,
                    None => {
                        return Err(EventBuildError::field("Invalid user_id"));
                    },
                }
            },
            None => {
                return Err(EventBuildError::field("Invalid sender object"));
            },
        };
        let message = match json.get("message") {
            Some(mv) => match mv.as_array() {
                Some(arr) => match parse_segments_from_array(arr) {
                    Some(m) => m,
                    None => {
                        return Err(EventBuildError::field("Invalid message"));
                    },
                },
                None => match mv.as_str() {
                    Some(s) => match parse_segments_from_cq(s) {
                        Some(m) => m,
                        None => {
                            return Err(EventBuildError::field("Invalid message"));
                        },
                    },
                    None => {
                        return Err(EventBuildError::field("message is not string"));
                    },
                },
            },
            None => {
                return Err(EventBuildError::field("message is not string"));
            },
        };
        let anonymous = match json.get("anonymous") {
            Some(av) => {
                if av.is_null() {
                    None
                } else {
                    match parse_anonymous(av) {
                        Some(a) => Some(a),
                        None => {
                            return Err(EventBuildError::field("Invalid anonymous"));
                        },
                    }
                }
            },
            None => None,
        };
        let time = match get_opt_i64(&json, "time") {
            Some(n) => n,
            None => {
                return Err(EventBuildError::field("Invalid time"));
            },
        };
        let self_id = match get_opt_i64(&json, "self_id") {
            Some(n) => n,
            None => {
                return Err(EventBuildError::field("Invalid self_id"));
            },
        };
        let post_type = match get_opt_str(&json, "post_type") {
            Some(pt) => match parse_post_type(pt.as_str()) {
                Some(p) => p,
                None => {
                    return Err(EventBuildError::field("Invalid post_type"));
                },
            },
            None => {
                return Err(EventBuildError::field("Invalid post_type"));
            },
        };
        let message_type = match get_opt_str(&json, "message_type") {
            Some(s) => s,
            None => {
                return Err(EventBuildError::field("Invalid message_type"));
            },
        };
        let sub_type = match get_opt_str(&json, "sub_type") {
            Some(s) => s,
            None => {
                return Err(EventBuildError::field("Invalid sub_type"));
            },
        };
        let message_id = match get_opt_i64(&json, "message_id") {
            Some(n) => {
                if n >= i32::MIN as i64 && n <= i32::MAX as i64 {
                    n as i32
                } else {
                    return Err(EventBuildError::field("Invalid message_id"));
                }
            },
            None => {
                return Err(EventBuildError::field("Invalid message_id"));
            },
        };
        let user_id = match get_opt_i64(&json, "user_id") {
            Some(n) => n,
            None => {
                return Err(EventBuildError::field("Invalid user_id"));
            },
        };
        let raw_message = match get_opt_str(&json, "raw_message") {
            Some(s) => s,
            None => {
                return Err(EventBuildError::field("Invalid raw_message"));
            },
        };
        let font = match get_opt_i64(&json, "font") {
            Some(n) => {
                if n >= i32::MIN as i64 && n <= i32::MAX as i64 {
                    n as i32
                } else {
                    return Err(EventBuildError::field("Invalid font"));
                }
            },
            None => {
                return Err(EventBuildError::field("Invalid font"));
            },
        };
        let group_id = get_opt_i64(&json, "group_id");
        let text = message.plain_text();
        let human_text = message.human_string();
        let event = MsgEvent {
            time,
            self_id,
            post_type,
            message_type,
            sub_type,
            message,
            message_id,
            group_id,
            user_id,
            anonymous,
            raw_message,
            font,
            sender,
            text,
            human_text,
            original_json: json,
        };
        Ok(event)
    }

    /// Reads a message event from JSON text: `None` where the text is
    /// not JSON or does not denote a message frame.
    pub fn de(s: &str) -> (r: Option<MsgEvent>)
        ensures
            match r {
                Some(e) => json_of_text(s@) matches Some(j) && msg_event_of(j) == Ok::<MsgV, Seq<char>>(e@),
                None => match json_of_text(s@) {
                    Some(j) => msg_event_of(j) is Err,
                    None => true,
                },
            },
    {
        match parse_json(s) {
            Some(j) => match MsgEvent::new(j) {
                Ok(e) => Some(e),
                Err(_) => None,
            },
            None => None,
        }
    }
}

impl MsgEvent {
    /// Reads a value of the verbatim frame by key.
    pub fn get<'a>(&'a self, key: &str) -> (r: Option<&'a JsonValue>)
        ensures
            match r {
                Some(v) => spec_get(self@.original, key@) == Some(v@),
                None => spec_get(self@.original, key@) is None,
            },
    {
        self.original_json.get(key)
    }

    /// The plain text, or the empty string where there is none.
    pub fn get_text(&self) -> (r: String)
        ensures
            r@ == (match self@.text {
                Some(t) => t,
                None => Seq::<char>::empty(),
            }),
    {
        match &self.text {
            Some(t) => t.clone(),
            None => String::new(),
        }
    }

    /// The sender's nickname, or the empty string where there is none.
    pub fn get_sender_nickname(&self) -> (r: String)
        ensures
            r@ == (match self@.sender.nickname {
                Some(n) => n,
                None => Seq::<char>::empty(),
            }),
    {
        match &self.sender.nickname {
            Some(n) => n.clone(),
            None => String::new(),
        }
    }

    /// The plain text, borrowed.
    pub fn borrow_text<'a>(&'a self) -> (r: Option<&'a str>)
        ensures
            match r {
                Some(t) => self@.text == Some(t@),
                None => self@.text is None,
            },
    {
        match &self.text {
            Some(t) => Some(t.as_str()),
            None => None,
        }
    }

    /// Whether this is a group message.
    pub fn is_group(&self) -> (r: bool)
        ensures
            r == (self@.group_id is Some),
    {
        self.group_id.is_some()
    }

    /// Whether this is a private message.
    pub fn is_private(&self) -> (r: bool)
        ensures
            r == (self@.group_id is None),
    {
        self.group_id.is_none()
    }
}

/// The parameters of a quick reply: back to the group for a group
/// message, back to the sending user for a private one.
pub open spec fn reply_params_spec(e: MsgV, msg_json: Jv, auto_escape: bool) -> Jv {
    match e.group_id {
        Some(g) => Jv::Obj(
            seq![
                ("message_type"@, Jv::Str("group"@)),
                ("group_id"@, Jv::Int(g)),
                ("message"@, msg_json),
                ("auto_escape"@, Jv::Bool(auto_escape)),
            ],
        ),
        None => Jv::Obj(
            seq![
                ("message_type"@, Jv::Str("private"@)),
                ("user_id"@, Jv::Int(e.user_id)),
                ("message"@, msg_json),
                ("auto_escape"@, Jv::Bool(auto_escape)),
            ],
        ),
    }
}

impl MsgEvent {
    /// The `send_msg` call that answers this message with the given
    /// wire message value. The echo is left empty; the correlator
    /// assigns it on send.
    fn reply_builder(&self, msg_json: JsonValue, auto_escape: bool) -> (r: SendApi)
        ensures
            r@.action == "send_msg"@,
            r@.params == reply_params_spec(self@, msg_json@, auto_escape),
            r@.echo == Seq::<char>::empty(),
    {
        let mut fields: Vec<(String, JsonValue)> = Vec::new();
        match self.group_id {
            Some(g) => {
                fields.push(
                    (String::from_str("message_type"), JsonValue::Str(String::from_str("group"))),
                );
                fields.push((String::from_str("group_id"), JsonValue::Int(g)));
            },
            None => {
                fields.push(
                    (
                        String::from_str("message_type"),
                        JsonValue::Str(String::from_str("private")),
                    ),
                );
                fields.push((String::from_str("user_id"), JsonValue::Int(self.user_id)));
            },
        }
        fields.push((String::from_str("message"), msg_json));
        fields.push((String::from_str("auto_escape"), JsonValue::Bool(auto_escape)));
        let params = JsonValue::Obj(fields);
        proof {
            crate::json::lemma_jv_of_fields(fields@);
            assert(params@->Obj_0 =~= reply_params_spec(self@, fields@[2].1@, auto_escape)
                ->Obj_0);
        }
        proof {
            reveal_strlit("");
            assert(""@ =~= Seq::<char>::empty());
        }
        SendApi::new("send_msg", params, "")
    }

    /// The `send_msg` call that answers this message.
    pub fn reply(&self, msg: &Message) -> (r: SendApi)
        ensures
            r@.action == "send_msg"@,
            r@.params == reply_params_spec(
                self@,
                Jv::Arr(render_array_spec(msg@)),
                false,
            ),
            r@.echo == Seq::<char>::empty(),
    {
        self.reply_builder(JsonValue::Arr(msg.render_array()), false)
    }

    /// The `send_msg` call that answers this message and quotes it.
    pub fn reply_and_quote(&self, msg: &Message) -> (r: SendApi)
        ensures
            r@.action == "send_msg"@,
            r@.params == reply_params_spec(
                self@,
                Jv::Arr(
                    render_array_spec(
                        seq![crate::message::reply_seg_spec(self@.message_id)] + msg@,
                    ),
                ),
                false,
            ),
            r@.echo == Seq::<char>::empty(),
    {
        let quoted = msg.add_reply(self.message_id);
        self.reply_builder(JsonValue::Arr(quoted.render_array()), false)
    }

    /// The `send_msg` call that answers this message with bare text,
    /// sent as it is.
    pub fn reply_text(&self, msg: &str) -> (r: SendApi)
        ensures
            r@.action == "send_msg"@,
            r@.params == reply_params_spec(self@, Jv::Str(msg@), true),
            r@.echo == Seq::<char>::empty(),
    {
        self.reply_builder(JsonValue::Str(msg.to_owned()), true)
    }
}

/// The dispatcher's log line for a message event:
/// `[type group nickname id]: text`.
pub open spec fn log_line_spec(e: MsgV) -> Seq<char> {
    seq!['['] + e.message_type + (match e.group_id {
        Some(g) => crate::strutil::dec_chars_i64(g),
        None => Seq::<char>::empty(),
    }) + (match e.sender.nickname {
        Some(n) => n,
        None => Seq::<char>::empty(),
    }) + seq![' '] + crate::strutil::dec_chars_i64(e.sender.user_id) + seq![']', ':', ' ']
        + e.human_text
}

impl MsgEvent {
    /// Renders the dispatcher's standard log line for this event.
    pub fn log_line(&self) -> (r: String)
        ensures
            r@ == log_line_spec(self@),
    {
        let mut out: Vec<char> = Vec::new();
        out.push('[');
        push_chars_of_str(self.message_type.as_str(), &mut out);
        match self.group_id {
            Some(g) => {
                push_dec_i64(g, &mut out);
            },
            None => {},
        }
        match &self.sender.nickname {
            Some(n) => {
                push_chars_of_str(n.as_str(), &mut out);
            },
            None => {},
        }
        out.push(' ');
        push_dec_i64(self.sender.user_id, &mut out);
        out.push(']');
        out.push(':');
        out.push(' ');
        push_chars_of_str(self.human_text.as_str(), &mut out);
        proof {
            assert(out@ =~= log_line_spec(self@));
        }
        chars_to_string(&out)
    }
}

} // verus!
