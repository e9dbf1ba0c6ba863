//! Tests for the JSON model, the segment codec and the CQ codec.

use kovi::cq::parse_segments_from_cq;
use kovi::event::{parse_post_type, PostType};
use kovi::json::JsonValue;
use kovi::message::{parse_segments_from_array, Message, Segment};

fn text_segment(text: &str) -> Segment {
    Segment::new(
        "text",
        JsonValue::Obj(vec![(String::from("text"), JsonValue::Str(String::from(text)))]),
    )
}

fn image_segment(file: &str) -> Segment {
    Segment::new(
        "image",
        JsonValue::Obj(vec![(String::from("file"), JsonValue::Str(String::from(file)))]),
    )
}

#[test]
fn post_type_is_ok() {
    assert_eq!(PostType::Message, parse_post_type("message").unwrap());
    assert_eq!(PostType::Notice, parse_post_type("notice").unwrap());
    assert_eq!(PostType::Request, parse_post_type("request").unwrap());
    assert_eq!(PostType::MetaEvent, parse_post_type("meta_event").unwrap());
}

#[test]
fn json_get_reads_fields() {
    let j = kovi::json::parse_json("{\"a\":1,\"b\":\"x\",\"c\":null,\"d\":[true]}").unwrap();
    assert_eq!(j.get("a").unwrap().as_i64(), Some(1));
    assert_eq!(j.get("b").unwrap().as_str(), Some("x"));
    assert!(j.get("c").unwrap().is_null());
    let arr = j.get("d").unwrap().as_array().unwrap();
    assert_eq!(arr[0].as_bool(), Some(true));
    assert!(j.get("missing").is_none());
}

#[test]
fn json_parse_rejects_bad_text() {
    assert!(kovi::json::parse_json("{not json").is_none());
}

#[test]
fn array_round_trip_returns_same_message() {
    let m = Message::from_segments(vec![
        image_segment("x"),
        text_segment("hello"),
        text_segment("wo,r=ld"),
    ]);
    let wire = m.render_array();
    let back = parse_segments_from_array(&wire).unwrap();
    assert_eq!(back, m);
}

#[test]
fn array_parse_rejects_missing_type() {
    let bad = vec![JsonValue::Obj(vec![(
        String::from("data"),
        JsonValue::Obj(vec![]),
    )])];
    assert!(parse_segments_from_array(&bad).is_none());
}

#[test]
fn plain_text_joins_and_trims() {
    let m = Message::from_segments(vec![
        image_segment("a.png"),
        text_segment(" hello "),
        text_segment("world"),
    ]);
    assert_eq!(m.plain_text(), Some(String::from("hello \nworld")));
}

#[test]
fn plain_text_none_without_text() {
    let m = Message::from_segments(vec![image_segment("a.png")]);
    assert_eq!(m.plain_text(), None);
}

#[test]
fn human_string_brackets_non_text() {
    let m = Message::from_segments(vec![
        text_segment("hi "),
        image_segment("a.png"),
        text_segment("there"),
    ]);
    assert_eq!(m.human_string(), String::from("hi [image]there"));
}

#[test]
fn cq_parse_splits_text_and_blocks() {
    let m = parse_segments_from_cq("ab[CQ:image,file=x]c&amp;d").unwrap();
    assert_eq!(m.segments.len(), 3);
    assert_eq!(m.segments[0].type_, "text");
    assert_eq!(
        m.segments[0].data.get("text").unwrap().as_str(),
        Some("ab")
    );
    assert_eq!(m.segments[1].type_, "image");
    assert_eq!(
        m.segments[1].data.get("file").unwrap().as_str(),
        Some("x")
    );
    assert_eq!(
        m.segments[2].data.get("text").unwrap().as_str(),
        Some("c&d")
    );
    assert_eq!(m.human_string(), String::from("ab[image]c&d"));
}

#[test]
fn cq_parse_unescapes_values() {
    let m = parse_segments_from_cq("[CQ:face,id=1&#44;2&#91;&#93;]").unwrap();
    assert_eq!(m.segments.len(), 1);
    assert_eq!(
        m.segments[0].data.get("id").unwrap().as_str(),
        Some("1,2[]")
    );
}

#[test]
fn cq_parse_rejects_unclosed_block() {
    assert!(parse_segments_from_cq("ok[CQ:image,file=x").is_none());
    assert!(parse_segments_from_cq("[BAD:thing]").is_none());
}

#[test]
fn cq_and_array_paths_agree_under_human_string() {
    let cq = parse_segments_from_cq("hi [CQ:image,file=a.png]").unwrap();
    let arr = vec![
        JsonValue::Obj(vec![
            (String::from("type"), JsonValue::Str(String::from("text"))),
            (
                String::from("data"),
                JsonValue::Obj(vec![(
                    String::from("text"),
                    JsonValue::Str(String::from("hi ")),
                )]),
            ),
        ]),
        JsonValue::Obj(vec![
            (String::from("type"), JsonValue::Str(String::from("image"))),
            (
                String::from("data"),
                JsonValue::Obj(vec![(
                    String::from("file"),
                    JsonValue::Str(String::from("a.png")),
                )]),
            ),
        ]),
    ];
    let from_arr = parse_segments_from_array(&arr).unwrap();
    assert_eq!(cq.human_string(), from_arr.human_string());
}

#[test]
fn cq_round_trip_returns_same_message() {
    let m = Message::from_segments(vec![
        text_segment("a&b,c]d"),
        image_segment("x,y"),
        text_segment(" tail"),
    ]);
    let cq = m.render_cq_string().unwrap();
    assert_eq!(cq, "a&amp;b,c&#93;d[CQ:image,file=x&#44;y] tail");
    let back = parse_segments_from_cq(&cq).unwrap();
    assert_eq!(back, m);
}

#[test]
fn cq_render_refuses_adjacent_text() {
    let m = Message::from_segments(vec![text_segment("a"), text_segment("b")]);
    assert!(m.render_cq_string().is_none());
    let bad = Message::from_segments(vec![Segment::new(
        "im,age",
        JsonValue::Obj(vec![]),
    )]);
    assert!(bad.render_cq_string().is_none());
}

#[test]
fn add_reply_prepends_quote_segment() {
    let m = Message::from_segments(vec![text_segment("yo")]);
    let q = m.add_reply(-7);
    assert_eq!(q.segments.len(), 2);
    assert_eq!(q.segments[0].type_, "reply");
    assert_eq!(
        q.segments[0].data.get("id").unwrap().as_str(),
        Some("-7")
    );
    assert_eq!(q.segments[1].type_, "text");
}

#[test]
fn calculate_pskey_matches_known_values() {
    assert_eq!(kovi::utils::calculate_pskey(""), 5381);
    assert_eq!(kovi::utils::calculate_pskey("abc"), 193485963);
}
