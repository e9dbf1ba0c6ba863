//! Tests for the dispatcher, the correlator, access control and the
//! plugin lifecycle.

use kovi::access::{AccessControlMode, SetAccessControlList};
use kovi::api::Correlator;
use kovi::dispatch::{dispatch_frame, Classification};
use kovi::driver::{decide_init, ConnectDecision, InitStatus};
use kovi::exit::{ExitAction, ExitCheck};
use kovi::plugin::{shutdown_all, EventTag, Plugin, PluginSet};

const PRIVATE_MSG_100: &str = "{\"time\":1,\"self_id\":1,\"post_type\":\"message\",\
\"message_type\":\"private\",\"sub_type\":\"friend\",\"message\":\"hi\",\
\"message_id\":7,\"user_id\":100,\"raw_message\":\"hi\",\"font\":0,\
\"sender\":{\"user_id\":100}}";

const PRIVATE_MSG_200: &str = "{\"time\":1,\"self_id\":1,\"post_type\":\"message\",\
\"message_type\":\"private\",\"sub_type\":\"friend\",\"message\":\"hi\",\
\"message_id\":7,\"user_id\":200,\"raw_message\":\"hi\",\"font\":0,\
\"sender\":{\"user_id\":200}}";

const GROUP_MSG_500: &str = "{\"time\":1,\"self_id\":1,\"post_type\":\"message\",\
\"message_type\":\"group\",\"sub_type\":\"normal\",\"message\":\"hi\",\
\"message_id\":7,\"group_id\":500,\"user_id\":100,\"raw_message\":\"hi\",\"font\":0,\
\"sender\":{\"user_id\":100}}";

fn frame(text: &str) -> kovi::json::JsonValue {
    kovi::json::parse_json(text).unwrap()
}

fn msg_listener(name: &str) -> Plugin {
    let mut p = Plugin::new(String::from(name), String::from("1.0"));
    p.listen_on(EventTag::Msg, 1);
    p
}

#[test]
fn two_listeners_one_deserialization() {
    let mut ps = PluginSet::new();
    ps.push(msg_listener("a"));
    ps.push(msg_listener("b"));
    let out = dispatch_frame(&ps, &frame(PRIVATE_MSG_100));
    assert_eq!(out.calls.len(), 2);
    assert_eq!(out.parsed.len(), 1);
    assert_eq!(out.parsed[0], EventTag::Msg);
    assert!(out.log.is_some());
    assert!(!out.refresh_login);
}

#[test]
fn whitelist_admits_only_listed_friends() {
    let mut p = msg_listener("guarded");
    p.set_access_control(true);
    p.set_access_control_mode(AccessControlMode::WhiteList);
    p.set_access_control_list(false, SetAccessControlList::Add(100));
    let mut ps = PluginSet::new();
    ps.push(p);

    let hit = dispatch_frame(&ps, &frame(PRIVATE_MSG_100));
    assert_eq!(hit.calls.len(), 1);

    let miss = dispatch_frame(&ps, &frame(PRIVATE_MSG_200));
    assert_eq!(miss.calls.len(), 0);

    let group = dispatch_frame(&ps, &frame(GROUP_MSG_500));
    assert_eq!(group.calls.len(), 0);
}

#[test]
fn blacklist_blocks_listed_friends() {
    let mut p = msg_listener("guarded");
    p.set_access_control(true);
    p.set_access_control_mode(AccessControlMode::BlackList);
    p.set_access_control_list(false, SetAccessControlList::Add(100));
    let mut ps = PluginSet::new();
    ps.push(p);
    assert_eq!(dispatch_frame(&ps, &frame(PRIVATE_MSG_100)).calls.len(), 0);
    assert_eq!(dispatch_frame(&ps, &frame(PRIVATE_MSG_200)).calls.len(), 1);
}

#[test]
fn access_control_ignores_notice_events() {
    let mut p = Plugin::new(String::from("n"), String::from("1.0"));
    p.listen_on(EventTag::Notice, 4);
    p.set_access_control(true);
    p.set_access_control_mode(AccessControlMode::WhiteList);
    let mut ps = PluginSet::new();
    ps.push(p);
    let out = dispatch_frame(
        &ps,
        &frame("{\"time\":3,\"self_id\":1,\"post_type\":\"notice\",\"notice_type\":\"x\"}"),
    );
    assert_eq!(out.calls.len(), 1);
    assert_eq!(out.calls[0].tag, EventTag::Notice);
}

#[test]
fn disabled_plugin_gets_no_calls() {
    let mut p = msg_listener("sleeper");
    p.disable();
    let mut ps = PluginSet::new();
    ps.push(p);
    let out = dispatch_frame(&ps, &frame(PRIVATE_MSG_100));
    assert_eq!(out.calls.len(), 0);
}

#[test]
fn heartbeat_frames_do_nothing() {
    let mut ps = PluginSet::new();
    ps.push(msg_listener("a"));
    let hb = frame(
        "{\"time\":9,\"self_id\":1,\"post_type\":\"meta_event\",\"meta_event_type\":\"heartbeat\"}",
    );
    let out1 = dispatch_frame(&ps, &hb);
    let out2 = dispatch_frame(&ps, &hb);
    for out in [out1, out2] {
        assert_eq!(out.calls.len(), 0);
        assert_eq!(out.parsed.len(), 0);
        assert!(out.log.is_none());
        assert!(!out.refresh_login);
    }
}

#[test]
fn echo_frames_reach_no_listener() {
    let mut ps = PluginSet::new();
    ps.push(msg_listener("a"));
    let reply = frame("{\"status\":\"ok\",\"retcode\":0,\"data\":{},\"echo\":\"kovi-0\"}");
    let out = dispatch_frame(&ps, &reply);
    assert_eq!(out.calls.len(), 0);
    assert_eq!(out.parsed.len(), 0);
}

#[test]
fn lifecycle_frames_trigger_login_refresh() {
    let mut p = Plugin::new(String::from("l"), String::from("1.0"));
    p.listen_on(EventTag::Lifecycle, 9);
    let mut ps = PluginSet::new();
    ps.push(p);
    let out = dispatch_frame(
        &ps,
        &frame(
            "{\"time\":5,\"self_id\":1,\"post_type\":\"meta_event\",\
\"meta_event_type\":\"lifecycle\",\"sub_type\":\"connect\"}",
        ),
    );
    assert!(out.refresh_login);
    assert_eq!(out.calls.len(), 1);
    assert_eq!(out.calls[0].tag, EventTag::Lifecycle);
    let req = kovi::lifecycle_event::login_info_request();
    assert_eq!(req.action, "get_login_info");
    assert_eq!(req.echo, "kovi");
}

#[test]
fn correlator_assigns_unique_echo_and_resolves_once() {
    let mut c = Correlator::new();
    let e1 = c.assign("kovi", 7);
    assert_eq!(e1, "kovi-0");
    let e2 = c.assign("kovi", 8);
    assert_eq!(e2, "kovi-1");
    assert_ne!(e1, e2);
    assert_eq!(c.pending_len(), 2);
    assert_eq!(c.resolve("kovi-0"), Some(7));
    assert_eq!(c.resolve("kovi-0"), None);
    assert_eq!(c.pending_len(), 1);
    assert_eq!(c.resolve("kovi-1"), Some(8));
    assert_eq!(c.resolve("nobody-9"), None);
}

#[test]
fn shutdown_hands_out_hooks_and_disables() {
    let mut p = Plugin::new(String::from("a"), String::from("1.0"));
    p.listen_on(EventTag::Msg, 1);
    p.on_drop(77);
    let mut ps = PluginSet::new();
    ps.push(p);
    ps.push(Plugin::new(String::from("b"), String::from("1.0")));
    let hooks = shutdown_all(&mut ps);
    assert_eq!(hooks.len(), 2);
    assert_eq!(hooks[0], vec![77u64]);
    assert_eq!(hooks[1], Vec::<u64>::new());
    assert!(!ps.set[0].enabled);
    assert!(ps.set[0].listen.list.is_empty());
    let out = dispatch_frame(&ps, &frame(PRIVATE_MSG_100));
    assert_eq!(out.calls.len(), 0);
}

#[test]
fn second_exit_signal_forces_exit() {
    let mut e = ExitCheck::init();
    assert_eq!(e.on_signal(), ExitAction::PublishExitPending);
    assert_eq!(e.on_signal(), ExitAction::ForceExit);
    assert_eq!(e.on_signal(), ExitAction::ForceExit);
    assert_eq!(e.forced_exit_code(), 1);
}

#[test]
fn init_status_decisions() {
    assert_eq!(decide_init(InitStatus::Ready), ConnectDecision::Proceed);
    assert_eq!(decide_init(InitStatus::Retry), ConnectDecision::BackOffAndRetry);
    assert_eq!(decide_init(InitStatus::Failure), ConnectDecision::Abort);
}

#[test]
fn driver_error_describes_itself() {
    let e = kovi::driver::DriverError::ConnectionFailed(String::from("refused"));
    assert_eq!(e.describe(), "connection failed: refused");
    assert!(kovi::driver::DriverError::Closed.is_closed());
    assert!(!e.is_closed());
}

#[test]
fn access_list_changes_apply_set_semantics() {
    let mut p = Plugin::new(String::from("a"), String::from("1.0"));
    p.set_access_control_list(true, SetAccessControlList::Adds(vec![1, 2, 2, 3]));
    assert_eq!(p.access_list.groups.len(), 3);
    p.set_access_control_list(true, SetAccessControlList::Remove(2));
    assert!(!p.access_list.groups.contains(&2));
    assert!(p.access_list.groups.contains(&1));
    p.set_access_control_list(true, SetAccessControlList::Removes(vec![1, 3]));
    assert!(p.access_list.groups.is_empty());
    p.set_access_control_list(false, SetAccessControlList::Changes(vec![5, 5, 6]));
    assert_eq!(p.access_list.friends.len(), 2);
    assert!(p.access_list.friends.contains(&5));
    assert!(p.access_list.friends.contains(&6));
}

#[test]
fn plugins_to_start_honours_startup_flag() {
    let mut ps = PluginSet::new();
    ps.push(Plugin::new(String::from("a"), String::from("1.0")));
    let mut sleepy = Plugin::new(String::from("b"), String::from("1.0"));
    sleepy.enable_on_startup = false;
    ps.push(sleepy);
    ps = ps.with(Plugin::new(String::from("c"), String::from("1.0")));
    assert_eq!(ps.plugins_to_start(), vec![0usize, 2usize]);
}

#[test]
fn classification_is_exposed() {
    let c = kovi::dispatch::classify(&frame(
        "{\"time\":9,\"self_id\":1,\"post_type\":\"meta_event\",\"meta_event_type\":\"heartbeat\"}",
    ));
    assert_eq!(c, Classification::Heartbeat);
    let u = kovi::dispatch::classify(&frame("{\"time\":9,\"self_id\":1}"));
    assert_eq!(u, Classification::Unknown);
}

#[test]
fn plugin_status_round_trip() {
    let mut p = Plugin::new(String::from("a"), String::from("1.0"));
    p.enable_on_startup = false;
    p.set_access_control(true);
    p.set_access_control_mode(AccessControlMode::BlackList);
    p.set_access_control_list(true, SetAccessControlList::Add(9));
    let st = p.status();
    let mut q = Plugin::new(String::from("a"), String::from("1.0"));
    q.apply_status(st);
    assert!(!q.enable_on_startup);
    assert!(q.access_control);
    assert_eq!(q.list_mode, AccessControlMode::BlackList);
    assert_eq!(q.access_list.groups, vec![9i64]);
}
