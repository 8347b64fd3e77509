//! Tests for the session registry and the heartbeat monitor.

use arena_core::registry::{Registry, MISSED_BEAT_LIMIT};

#[test]
fn sweeping_an_empty_registry_reports_nothing() {
    let mut reg = Registry::new();
    assert!(reg.sweep().is_empty());
    assert_eq!(reg.iter_live().len(), 0);
}

#[test]
fn connect_keeps_the_requested_name() {
    let mut reg = Registry::new();
    let id = reg.connect(7, Some(String::from("Ada")));
    let live = reg.iter_live();
    assert_eq!(live.len(), 1);
    assert_eq!(live[0].id, id);
    assert_eq!(live[0].endpoint, 7);
    assert_eq!(live[0].name, "Ada");
    assert_eq!(live[0].missed_beats, 0);
}

#[test]
fn connect_synthesizes_a_player_name() {
    let mut reg = Registry::new();
    reg.connect(7, None);
    let name = reg.iter_live()[0].name.clone();
    let tag = name.strip_prefix("Player #").expect("synthesized name prefix");
    let n: u32 = tag.parse().expect("numeric tag");
    assert!((1..10_000).contains(&n));
}

#[test]
fn session_ids_are_never_reused() {
    let mut reg = Registry::new();
    let a = reg.connect(1, None);
    reg.disconnect(a);
    let b = reg.connect(1, None);
    assert_ne!(a, b);
}

#[test]
fn find_by_endpoint_sees_only_live_sessions() {
    let mut reg = Registry::new();
    let id = reg.connect(3, Some(String::from("Ada")));
    assert_eq!(reg.find_by_endpoint(3), Some(id));
    assert_eq!(reg.find_by_endpoint(4), None);
    reg.disconnect(id);
    assert_eq!(reg.find_by_endpoint(3), None);
}

#[test]
fn disconnect_is_idempotent() {
    let mut reg = Registry::new();
    let a = reg.connect(1, Some(String::from("Ada")));
    let b = reg.connect(2, Some(String::from("Bob")));
    reg.disconnect(a);
    reg.disconnect(a);
    let live = reg.iter_live();
    assert_eq!(live.len(), 1);
    assert_eq!(live[0].id, b);
}

#[test]
fn touch_after_disconnect_does_not_resurrect() {
    let mut reg = Registry::new();
    let keeper = reg.connect(9, Some(String::from("Keeper")));
    let id = reg.connect(1, Some(String::from("Ada")));
    reg.disconnect(id);
    reg.touch_heartbeat(id);
    let live = reg.iter_live();
    assert_eq!(live.len(), 1);
    assert_eq!(live[0].id, keeper);
    assert_eq!(live[0].missed_beats, 0);
}

#[test]
fn prompt_heartbeats_keep_a_session_alive() {
    let mut reg = Registry::new();
    let id = reg.connect(1, None);
    for _ in 0..3 * MISSED_BEAT_LIMIT {
        reg.touch_heartbeat(id);
        let dead = reg.sweep();
        assert!(dead.is_empty());
        assert_eq!(reg.iter_live()[0].missed_beats, 1);
    }
    assert_eq!(reg.iter_live().len(), 1);
}

#[test]
fn a_silent_session_is_reported_at_the_limit() {
    let mut reg = Registry::new();
    let id = reg.connect(1, None);
    for k in 1..MISSED_BEAT_LIMIT {
        let dead = reg.sweep();
        assert!(dead.is_empty(), "reported too early, sweep {k}");
    }
    let dead = reg.sweep();
    assert_eq!(dead, vec![id]);
}

#[test]
fn a_late_heartbeat_restarts_the_countdown() {
    let mut reg = Registry::new();
    let id = reg.connect(1, None);
    for _ in 1..MISSED_BEAT_LIMIT {
        assert!(reg.sweep().is_empty());
    }
    reg.touch_heartbeat(id);
    assert!(reg.sweep().is_empty());
    for _ in 2..MISSED_BEAT_LIMIT {
        assert!(reg.sweep().is_empty());
    }
    assert_eq!(reg.sweep(), vec![id]);
}

#[test]
fn sweep_reports_each_dead_session_once_in_order() {
    let mut reg = Registry::new();
    let a = reg.connect(1, None);
    let b = reg.connect(2, None);
    let c = reg.connect(3, None);
    for _ in 1..MISSED_BEAT_LIMIT {
        reg.touch_heartbeat(b);
        assert!(reg.sweep().is_empty());
    }
    let dead = reg.sweep();
    assert_eq!(dead, vec![a, c]);
}
