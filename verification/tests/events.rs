//! Tests for the typed-event deserializers.

use kovi::event::{PostType, Sex};
use kovi::json::JsonValue;
use kovi::lifecycle_event::{extract_login_info, LifecycleAction, LifecycleEvent, LoginInfoError};
use kovi::msg_event::MsgEvent;
use kovi::notice_event::NoticeEvent;
use kovi::request_event::RequestEvent;

const MSG_FRAME: &str = "{\"time\":1,\"self_id\":1,\"post_type\":\"message\",\
\"message_type\":\"private\",\"sub_type\":\"friend\",\"message\":\"hi\",\
\"message_id\":7,\"user_id\":2,\"raw_message\":\"hi\",\"font\":0,\
\"sender\":{\"user_id\":2,\"nickname\":\"nick\",\"sex\":\"male\"}}";

#[test]
fn msg_event_reads_all_fields() {
    let e = MsgEvent::de(MSG_FRAME).unwrap();
    assert_eq!(e.time, 1);
    assert_eq!(e.self_id, 1);
    assert_eq!(e.post_type, PostType::Message);
    assert_eq!(e.message_type, "private");
    assert_eq!(e.sub_type, "friend");
    assert_eq!(e.message_id, 7);
    assert_eq!(e.user_id, 2);
    assert_eq!(e.group_id, None);
    assert_eq!(e.raw_message, "hi");
    assert_eq!(e.font, 0);
    assert_eq!(e.sender.user_id, 2);
    assert_eq!(e.sender.nickname.as_deref(), Some("nick"));
    assert!(matches!(e.sender.sex, Some(Sex::Male)));
    assert_eq!(e.text.as_deref(), Some("hi"));
    assert_eq!(e.human_text, "hi");
    assert!(e.is_private());
    assert!(!e.is_group());
    assert_eq!(e.get_text(), "hi");
    assert_eq!(e.get_sender_nickname(), "nick");
    assert_eq!(e.borrow_text(), Some("hi"));
    assert_eq!(e.get("time").unwrap().as_i64(), Some(1));
}

#[test]
fn msg_event_accepts_segment_array() {
    let frame = "{\"time\":1,\"self_id\":1,\"post_type\":\"message\",\
\"message_type\":\"group\",\"sub_type\":\"normal\",\
\"message\":[{\"type\":\"text\",\"data\":{\"text\":\"hey\"}}],\
\"message_id\":9,\"group_id\":500,\"user_id\":2,\"raw_message\":\"hey\",\
\"font\":0,\"sender\":{\"user_id\":2}}";
    let e = MsgEvent::de(frame).unwrap();
    assert!(e.is_group());
    assert_eq!(e.group_id, Some(500));
    assert_eq!(e.text.as_deref(), Some("hey"));
}

#[test]
fn msg_event_names_first_missing_field() {
    let frame = "{\"time\":1,\"self_id\":1,\"post_type\":\"message\",\
\"message_type\":\"private\",\"sub_type\":\"friend\",\"message\":\"hi\",\
\"message_id\":7,\"user_id\":2,\"font\":0,\"sender\":{\"user_id\":2}}";
    let err = match MsgEvent::new(kovi::json::parse_json(frame).unwrap()) {
        Err(e) => e,
        Ok(_) => panic!("expected an error"),
    };
    assert_eq!(err.message().as_str(), "Invalid raw_message");
}

#[test]
fn msg_event_rejects_missing_sender() {
    let frame = "{\"time\":1,\"self_id\":1,\"post_type\":\"message\"}";
    let err = match MsgEvent::new(kovi::json::parse_json(frame).unwrap()) {
        Err(e) => e,
        Ok(_) => panic!("expected an error"),
    };
    assert_eq!(err.message().as_str(), "Invalid sender object");
}

#[test]
fn msg_event_reads_anonymous() {
    let frame = "{\"time\":1,\"self_id\":1,\"post_type\":\"message\",\
\"message_type\":\"group\",\"sub_type\":\"anonymous\",\"message\":\"hi\",\
\"message_id\":7,\"group_id\":5,\"user_id\":2,\"raw_message\":\"hi\",\"font\":0,\
\"sender\":{\"user_id\":2},\
\"anonymous\":{\"id\":11,\"name\":\"ghost\",\"flag\":\"f\"}}";
    let e = MsgEvent::de(frame).unwrap();
    let a = e.anonymous.unwrap();
    assert_eq!(a.id, 11);
    assert_eq!(a.name, "ghost");
    assert_eq!(a.flag, "f");
}

#[test]
fn msg_log_line_shape() {
    let e = MsgEvent::de(MSG_FRAME).unwrap();
    assert_eq!(e.log_line(), "[privatenick 2]: hi");
}

#[test]
fn reply_builder_targets_sender() {
    let e = MsgEvent::de(MSG_FRAME).unwrap();
    let msg = kovi::message::Message::from_segments(vec![kovi::message::Segment::new(
        "text",
        JsonValue::Obj(vec![(String::from("text"), JsonValue::Str(String::from("ok")))]),
    )]);
    let api = e.reply(&msg);
    assert_eq!(api.action, "send_msg");
    match &api.params {
        JsonValue::Obj(fields) => {
            assert_eq!(fields[0].0, "message_type");
            match &fields[0].1 {
                JsonValue::Str(s) => assert_eq!(s, "private"),
                _ => panic!("message_type should be a string"),
            }
            assert_eq!(fields[1].0, "user_id");
            match fields[1].1 {
                JsonValue::Int(n) => assert_eq!(n, 2),
                _ => panic!("user_id should be an integer"),
            }
            assert_eq!(fields[2].0, "message");
            assert_eq!(fields[3].0, "auto_escape");
        },
        _ => panic!("params should be an object"),
    }
}

#[test]
fn notice_event_reads_fields() {
    let e = NoticeEvent::new(
        "{\"time\":3,\"self_id\":1,\"post_type\":\"notice\",\"notice_type\":\"group_upload\",\"extra\":9}",
    )
    .unwrap();
    assert_eq!(e.time, 3);
    assert_eq!(e.notice_type, "group_upload");
    assert_eq!(e.get("extra").unwrap().as_i64(), Some(9));
    let err = match NoticeEvent::new("{\"time\":3,\"self_id\":1,\"post_type\":\"notice\"}") {
        Err(e) => e,
        Ok(_) => panic!("expected an error"),
    };
    assert_eq!(err.message().as_str(), "notice_type");
}

#[test]
fn request_event_reads_fields() {
    let e = RequestEvent::new(
        "{\"time\":4,\"self_id\":1,\"post_type\":\"request\",\"request_type\":\"friend\"}",
    )
    .unwrap();
    assert_eq!(e.request_type, "friend");
    assert!(RequestEvent::de("{\"time\":4}").is_none());
}

#[test]
fn lifecycle_event_needs_lifecycle_tag() {
    let e = LifecycleEvent::de(
        "{\"time\":5,\"self_id\":1,\"post_type\":\"meta_event\",\
\"meta_event_type\":\"lifecycle\",\"sub_type\":\"connect\"}",
    )
    .unwrap();
    assert_eq!(e.sub_type, LifecycleAction::Connect);
    assert!(LifecycleEvent::de(
        "{\"time\":5,\"self_id\":1,\"post_type\":\"meta_event\",\
\"meta_event_type\":\"heartbeat\",\"sub_type\":\"connect\"}"
    )
    .is_none());
}

#[test]
fn login_info_extraction() {
    let reply = kovi::json::parse_json(
        "{\"status\":\"ok\",\"retcode\":0,\"data\":{\"user_id\":42,\"nickname\":\"x\"},\"echo\":\"E1\"}",
    )
    .unwrap();
    let ret = kovi::api::parse_api_return(&reply).unwrap();
    assert!(ret.is_ok_status());
    assert_eq!(ret.retcode, 0);
    assert_eq!(ret.echo, "E1");
    let (id, name) = extract_login_info(&ret).unwrap();
    assert_eq!(id, 42);
    assert_eq!(name, "x");

    let bad = kovi::api::parse_api_return(
        &kovi::json::parse_json("{\"status\":\"ok\",\"retcode\":0,\"data\":{}}").unwrap(),
    )
    .unwrap();
    assert_eq!(extract_login_info(&bad), Err(LoginInfoError::MissingUserId));
}
