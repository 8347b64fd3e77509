//! Tests for the server core: connect handshakes, heartbeat liveness,
//! cast broadcast and hit relay.

use arena_core::projectile::{Point, TrajectoryKind};
use arena_core::protocol::{Cast, EventToClient, EventToServer, ShotParams};
use arena_core::registry::MISSED_BEAT_LIMIT;
use arena_core::server::ServerCore;

const EP_A: u64 = 100;
const EP_B: u64 = 200;

fn shoot_cast() -> Cast {
    Cast::Shoot {
        params: ShotParams {
            origin: Point { x: 0, y: 0 },
            target: Point { x: 10_000, y: 0 },
            speed: 5_000,
            kind: TrajectoryKind::Direct,
        },
    }
}

#[test]
fn connect_replies_with_world_data() {
    let mut core = ServerCore::new();
    let out = core.handle_connect(EP_A, Some(String::from("Ann")));
    assert_eq!(out.len(), 1);
    assert_eq!(out[0].endpoint, EP_A);
    match &out[0].event {
        EventToClient::WorldData { your_id, your_name } => {
            assert_eq!(your_name, "Ann");
            assert_eq!(core.registry.find_by_endpoint(EP_A), Some(*your_id));
        }
        other => panic!("expected world data, got {other:?}"),
    }
}

#[test]
fn connect_without_a_name_synthesizes_one() {
    let mut core = ServerCore::new();
    let out = core.handle_connect(EP_A, None);
    match &out[0].event {
        EventToClient::WorldData { your_name, .. } => {
            let tag = your_name.strip_prefix("Player #").expect("synthesized prefix");
            let n: u32 = tag.parse().expect("numeric tag");
            assert!((1..10_000).contains(&n));
        }
        other => panic!("expected world data, got {other:?}"),
    }
}

#[test]
fn reconnecting_an_endpoint_replaces_its_session() {
    let mut core = ServerCore::new();
    core.handle_connect(EP_A, Some(String::from("First")));
    let old_id = core.registry.find_by_endpoint(EP_A).unwrap();
    core.handle_connect(EP_A, Some(String::from("Second")));
    let new_id = core.registry.find_by_endpoint(EP_A).unwrap();
    assert_ne!(old_id, new_id);
    assert_eq!(core.registry.iter_live().len(), 1);
    assert_eq!(core.registry.iter_live()[0].name, "Second");
}

#[test]
fn heartbeats_from_unknown_endpoints_are_dropped() {
    let mut core = ServerCore::new();
    assert!(core.handle_heartbeat(EP_A).is_empty());
    assert_eq!(core.registry.iter_live().len(), 0);
}

#[test]
fn a_heartbeating_session_outlives_the_deadline() {
    let mut core = ServerCore::new();
    core.handle_connect(EP_A, None);
    for _ in 0..3 * MISSED_BEAT_LIMIT {
        // All inbound traffic of a tick is handled before its sweep.
        assert!(core.handle_heartbeat(EP_A).is_empty());
        let out = core.sweep_tick();
        assert!(out.is_empty());
        assert_eq!(core.registry.iter_live().len(), 1);
    }
}

#[test]
fn a_silent_session_is_disconnected_and_broadcast() {
    let mut core = ServerCore::new();
    core.handle_connect(EP_A, Some(String::from("Alive")));
    core.handle_connect(EP_B, Some(String::from("Silent")));
    let silent_id = core.registry.find_by_endpoint(EP_B).unwrap();
    for k in 1..MISSED_BEAT_LIMIT {
        core.handle_heartbeat(EP_A);
        let out = core.sweep_tick();
        assert!(out.is_empty(), "sweep {k} acted too early");
    }
    core.handle_heartbeat(EP_A);
    let out = core.sweep_tick();
    assert_eq!(core.registry.find_by_endpoint(EP_B), None);
    assert_eq!(core.registry.iter_live().len(), 1);
    assert_eq!(out.len(), 1);
    assert_eq!(out[0].endpoint, EP_A);
    assert!(matches!(
        out[0].event,
        EventToClient::PlayerDisconnected { id } if id == silent_id
    ));
}

#[test]
fn a_cast_is_broadcast_to_everyone_else() {
    let mut core = ServerCore::new();
    core.handle_connect(EP_A, None);
    core.handle_connect(EP_B, None);
    let caster_id = core.registry.find_by_endpoint(EP_A).unwrap();
    let out = core.handle_cast(EP_A, &shoot_cast(), 500);
    assert_eq!(out.len(), 1);
    assert_eq!(out[0].endpoint, EP_B);
    match &out[0].event {
        EventToClient::SomeoneCast { caster, cast_id, cast } => {
            assert_eq!(*caster, caster_id);
            assert_eq!(*cast, shoot_cast());
            assert_eq!(core.projectiles.caster_of(*cast_id), Some(caster_id));
            assert_eq!(core.projectiles.records[0].spawn_ms, 500);
        }
        other => panic!("expected a cast broadcast, got {other:?}"),
    }
}

#[test]
fn casts_from_unknown_endpoints_are_dropped() {
    let mut core = ServerCore::new();
    core.handle_connect(EP_A, None);
    let out = core.handle_cast(EP_B, &shoot_cast(), 0);
    assert!(out.is_empty());
    assert_eq!(core.projectiles.records.len(), 0);
}

#[test]
fn out_of_range_shots_are_dropped() {
    let mut core = ServerCore::new();
    core.handle_connect(EP_A, None);
    let still = Cast::Shoot {
        params: ShotParams {
            origin: Point { x: 0, y: 0 },
            target: Point { x: 0, y: 0 },
            speed: 5_000,
            kind: TrajectoryKind::Direct,
        },
    };
    assert!(core.handle_cast(EP_A, &still, 0).is_empty());
    let stopped = Cast::Shoot {
        params: ShotParams {
            origin: Point { x: 0, y: 0 },
            target: Point { x: 1, y: 0 },
            speed: 0,
            kind: TrajectoryKind::Direct,
        },
    };
    assert!(core.handle_cast(EP_A, &stopped, 0).is_empty());
    assert_eq!(core.projectiles.records.len(), 0);
}

#[test]
fn a_hit_report_is_relayed_to_all_sessions() {
    let mut core = ServerCore::new();
    core.handle_connect(EP_A, None);
    core.handle_connect(EP_B, None);
    let victim = core.registry.find_by_endpoint(EP_B).unwrap();
    let cast_out = core.handle_cast(EP_A, &shoot_cast(), 0);
    let bullet = match &cast_out[0].event {
        EventToClient::SomeoneCast { cast_id, .. } => *cast_id,
        other => panic!("expected a cast broadcast, got {other:?}"),
    };
    let out = core.handle_hit(EP_B, bullet, victim);
    let mut endpoints: Vec<u64> = out.iter().map(|s| s.endpoint).collect();
    endpoints.sort_unstable();
    assert_eq!(endpoints, vec![EP_A, EP_B]);
    for send in &out {
        assert!(matches!(
            send.event,
            EventToClient::BulletHit { bullet: b, player } if b == bullet && player == victim
        ));
    }
}

#[test]
fn hit_reports_about_unknown_bullets_are_dropped() {
    let mut core = ServerCore::new();
    core.handle_connect(EP_A, None);
    let victim = core.registry.find_by_endpoint(EP_A).unwrap();
    assert!(core.handle_hit(EP_A, 999, victim).is_empty());
}

#[test]
fn events_route_end_to_end_through_the_dispatcher() {
    let mut core = ServerCore::new();
    let out = core.handle_event(
        EP_A,
        EventToServer::ConnectRequest { name: Some(String::from("Ann")) },
        0,
    );
    assert_eq!(out.len(), 1);
    assert!(core.handle_event(EP_A, EventToServer::Heartbeat, 10).is_empty());
    let out = core.handle_event(EP_A, EventToServer::CastRequest { cast: shoot_cast() }, 20);
    // The caster is excluded from its own broadcast and nobody else is live.
    assert!(out.is_empty());
    assert_eq!(core.projectiles.records.len(), 1);
}
