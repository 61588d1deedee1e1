use groover::controller::{Action, Groover};
use groover::message::{parse_id, ConnectionInfo, GuildIdDef, OperatorMsg, UserIdDef};
use groover::session::{RemoteControl, SessionAction};

fn info(endpoint: &str) -> ConnectionInfo {
    ConnectionInfo {
        endpoint: endpoint.to_string(),
        guild_id: GuildIdDef(7),
        session_id: "session".to_string(),
        token: "token".to_string(),
        user_id: UserIdDef(9),
    }
}

fn join_endpoint(a: &Action) -> Option<&str> {
    match a {
        Action::JoinCall(i) => Some(i.endpoint.as_str()),
        _ => None,
    }
}

#[test]
fn parses_ids() {
    assert_eq!(parse_id("123"), Some(123));
    assert_eq!(parse_id("0"), Some(0));
    assert_eq!(parse_id("18446744073709551615"), Some(u64::MAX));
    assert_eq!(parse_id("18446744073709551616"), None);
    assert_eq!(parse_id(""), None);
    assert_eq!(parse_id("12a"), None);
    assert_eq!(parse_id("-1"), None);
    assert_eq!(parse_id("+7"), Some(7));
    assert_eq!(parse_id("+"), None);
    assert_eq!(parse_id("++7"), None);
    assert_eq!(parse_id("+18446744073709551616"), None);
}

#[test]
fn new_controller_is_disconnected() {
    let g = Groover::new("123".to_string(), "456".to_string());
    assert_eq!(g.guild_id(), 123);
    assert_eq!(g.user_id(), 456);
    assert!(!g.is_connected());
    assert!(!g.is_source_set);
    assert!(g.connection().is_none());
}

#[test]
fn connect_when_disconnected_joins_once() {
    let mut g = Groover::new("1".to_string(), "2".to_string());
    let acts = g.connect(info("a"));
    assert_eq!(acts.len(), 2);
    assert!(matches!(acts[0], Action::DrainAudio));
    assert_eq!(join_endpoint(&acts[1]), Some("a"));
    assert!(g.is_connected());
    assert_eq!(g.connection().unwrap().endpoint, "a");
}

#[test]
fn reconnect_leaves_before_joining() {
    let mut g = Groover::new("1".to_string(), "2".to_string());
    g.connect(info("a"));
    let acts = g.connect(info("b"));
    assert_eq!(acts.len(), 3);
    assert!(matches!(acts[0], Action::LeaveCall));
    assert!(matches!(acts[1], Action::DrainAudio));
    assert_eq!(join_endpoint(&acts[2]), Some("b"));
    assert_eq!(g.connection().unwrap().endpoint, "b");
}

#[test]
fn disconnect_twice_is_harmless() {
    let mut g = Groover::new("1".to_string(), "2".to_string());
    g.connect(info("a"));
    let first = g.disconnect();
    assert_eq!(first.len(), 1);
    assert!(matches!(first[0], Action::LeaveCall));
    assert!(!g.is_connected());
    let second = g.disconnect();
    assert!(second.is_empty());
    assert!(!g.is_connected());
}

#[test]
fn disconnect_when_never_connected_does_nothing() {
    let mut g = Groover::new("1".to_string(), "2".to_string());
    assert!(g.disconnect().is_empty());
    assert!(!g.is_connected());
}

#[test]
fn set_source_attaches_audio() {
    let mut g = Groover::new("1".to_string(), "2".to_string());
    g.connect(info("a"));
    let acts = g.set_source();
    assert_eq!(acts.len(), 1);
    assert!(matches!(acts[0], Action::AttachSource));
    assert!(g.is_source_set);
}

#[test]
fn join_a_then_join_b_ends_on_b() {
    let mut g = Groover::new("1".to_string(), "2".to_string());
    let mut all = g.dispatch(Some(OperatorMsg::Join { info: info("A") }));
    all.extend(g.dispatch(Some(OperatorMsg::Join { info: info("B") })));
    assert_eq!(all.len(), 5);
    assert!(matches!(all[0], Action::DrainAudio));
    assert_eq!(join_endpoint(&all[1]), Some("A"));
    assert!(matches!(all[2], Action::LeaveCall));
    assert!(matches!(all[3], Action::DrainAudio));
    assert_eq!(join_endpoint(&all[4]), Some("B"));
    assert!(g.is_connected());
    assert_eq!(g.connection().unwrap().endpoint, "B");
}

#[test]
fn undecodable_message_between_joins_is_skipped() {
    let mut g = Groover::new("1".to_string(), "2".to_string());
    let mut all = g.dispatch(Some(OperatorMsg::Join { info: info("A") }));
    let skipped = g.dispatch(None);
    assert!(skipped.is_empty());
    assert_eq!(g.connection().unwrap().endpoint, "A");
    all.extend(g.dispatch(Some(OperatorMsg::Join { info: info("B") })));
    assert_eq!(all.len(), 5);
    assert!(matches!(all[0], Action::DrainAudio));
    assert_eq!(join_endpoint(&all[1]), Some("A"));
    assert!(matches!(all[2], Action::LeaveCall));
    assert!(matches!(all[3], Action::DrainAudio));
    assert_eq!(join_endpoint(&all[4]), Some("B"));
    assert_eq!(g.connection().unwrap().endpoint, "B");
}

#[test]
fn pause_play_toggles_playback() {
    let mut g = Groover::new("1".to_string(), "2".to_string());
    let acts = g.dispatch(Some(OperatorMsg::PausePlay));
    assert_eq!(acts.len(), 1);
    assert!(matches!(acts[0], Action::TogglePlayback));
    assert!(!g.is_connected());
}

#[test]
fn remote_control_enable_replaces_running_engine() {
    let mut r = RemoteControl::new();
    assert!(!r.is_active());
    assert_eq!(r.enable_connect(), vec![SessionAction::StartRemote]);
    assert!(r.is_active());
    assert_eq!(r.enable_connect(), vec![SessionAction::ShutdownRemote, SessionAction::StartRemote]);
    assert_eq!(r.disable_connect(), vec![SessionAction::ShutdownRemote]);
    assert!(!r.is_active());
    assert!(r.disable_connect().is_empty());
}

#[test]
fn new_controller_accepts_plus_sign() {
    let g = Groover::new("+12".to_string(), "34".to_string());
    assert_eq!(g.guild_id(), 12);
    assert_eq!(g.user_id(), 34);
}

#[test]
fn failed_join_leaves_controller_disconnected() {
    let mut g = Groover::new("1".to_string(), "2".to_string());
    g.connect(info("a"));
    g.join_failed();
    assert!(!g.is_connected());
    let acts = g.connect(info("b"));
    assert_eq!(acts.len(), 2);
    assert!(matches!(acts[0], Action::DrainAudio));
}

#[test]
fn attaches_source_once_when_connected() {
    let mut g = Groover::new("1".to_string(), "2".to_string());
    assert!(g.attach_if_needed().is_empty());
    assert!(!g.is_source_set);
    g.connect(info("a"));
    let acts = g.attach_if_needed();
    assert_eq!(acts.len(), 1);
    assert!(matches!(acts[0], Action::AttachSource));
    assert!(g.is_source_set);
    assert!(g.attach_if_needed().is_empty());
}

#[test]
fn controller_clone_is_independent() {
    let mut g = Groover::new("1".to_string(), "2".to_string());
    g.connect(info("a"));
    let copy = g.clone();
    g.disconnect();
    assert!(copy.is_connected());
    assert_eq!(copy.connection().unwrap().endpoint, "a");
}
