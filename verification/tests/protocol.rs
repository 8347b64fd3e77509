//! Tests for the envelope codec: every event round-trips losslessly, and
//! malformed envelopes are rejected.

use arena_core::projectile::{Point, TrajectoryKind};
use arena_core::protocol::{
    decode_event_to_client, decode_event_to_server, encode_event_to_client,
    encode_event_to_server, Cast, EventToClient, EventToServer, ShotParams,
};

fn shoot_cast() -> Cast {
    Cast::Shoot {
        params: ShotParams {
            origin: Point { x: -2_500, y: 1 },
            target: Point { x: 10_000, y: -7 },
            speed: 5_000,
            kind: TrajectoryKind::WavySecondary,
        },
    }
}

#[test]
fn connect_request_round_trips() {
    let ev = EventToServer::ConnectRequest { name: Some(String::from("Ada")) };
    let bytes = encode_event_to_server(&ev);
    match decode_event_to_server(&bytes) {
        Ok(EventToServer::ConnectRequest { name }) => assert_eq!(name.as_deref(), Some("Ada")),
        other => panic!("bad decode: {other:?}"),
    }
}

#[test]
fn nameless_connect_request_round_trips() {
    let ev = EventToServer::ConnectRequest { name: None };
    let bytes = encode_event_to_server(&ev);
    match decode_event_to_server(&bytes) {
        Ok(EventToServer::ConnectRequest { name }) => assert!(name.is_none()),
        other => panic!("bad decode: {other:?}"),
    }
}

#[test]
fn non_ascii_names_round_trip() {
    let ev = EventToServer::ConnectRequest { name: Some(String::from("Zoë £5 ✓")) };
    let bytes = encode_event_to_server(&ev);
    match decode_event_to_server(&bytes) {
        Ok(EventToServer::ConnectRequest { name }) => {
            assert_eq!(name.as_deref(), Some("Zoë £5 ✓"))
        }
        other => panic!("bad decode: {other:?}"),
    }
}

#[test]
fn heartbeat_round_trips() {
    let bytes = encode_event_to_server(&EventToServer::Heartbeat);
    assert_eq!(bytes, vec![2u8]);
    assert!(matches!(decode_event_to_server(&bytes), Ok(EventToServer::Heartbeat)));
}

#[test]
fn cast_requests_round_trip() {
    for cast in [Cast::Teleport { target: Point { x: -1, y: 400 } }, shoot_cast()] {
        let ev = EventToServer::CastRequest { cast };
        let bytes = encode_event_to_server(&ev);
        match decode_event_to_server(&bytes) {
            Ok(EventToServer::CastRequest { cast: back }) => assert_eq!(back, cast),
            other => panic!("bad decode: {other:?}"),
        }
    }
}

#[test]
fn hit_reports_round_trip() {
    let ev = EventToServer::HitReport { bullet: u64::MAX, victim: u128::MAX - 1 };
    let bytes = encode_event_to_server(&ev);
    match decode_event_to_server(&bytes) {
        Ok(EventToServer::HitReport { bullet, victim }) => {
            assert_eq!(bullet, u64::MAX);
            assert_eq!(victim, u128::MAX - 1);
        }
        other => panic!("bad decode: {other:?}"),
    }
}

#[test]
fn world_data_round_trips() {
    let ev = EventToClient::WorldData { your_id: 7, your_name: String::from("Player #42") };
    let bytes = encode_event_to_client(&ev);
    match decode_event_to_client(&bytes) {
        Ok(EventToClient::WorldData { your_id, your_name }) => {
            assert_eq!(your_id, 7);
            assert_eq!(your_name, "Player #42");
        }
        other => panic!("bad decode: {other:?}"),
    }
}

#[test]
fn disconnect_and_hit_broadcasts_round_trip() {
    let ev = EventToClient::PlayerDisconnected { id: 99 };
    let bytes = encode_event_to_client(&ev);
    assert!(matches!(
        decode_event_to_client(&bytes),
        Ok(EventToClient::PlayerDisconnected { id: 99 })
    ));

    let ev = EventToClient::BulletHit { bullet: 5, player: 6 };
    let bytes = encode_event_to_client(&ev);
    assert!(matches!(
        decode_event_to_client(&bytes),
        Ok(EventToClient::BulletHit { bullet: 5, player: 6 })
    ));
}

#[test]
fn someone_cast_round_trips() {
    let cast = shoot_cast();
    let ev = EventToClient::SomeoneCast { caster: 1, cast_id: 2, cast };
    let bytes = encode_event_to_client(&ev);
    match decode_event_to_client(&bytes) {
        Ok(EventToClient::SomeoneCast { caster, cast_id, cast: back }) => {
            assert_eq!((caster, cast_id), (1, 2));
            assert_eq!(back, cast);
        }
        other => panic!("bad decode: {other:?}"),
    }
}

#[test]
fn malformed_envelopes_are_rejected() {
    // Empty datagram.
    assert!(decode_event_to_server(&[]).is_err());
    assert!(decode_event_to_client(&[]).is_err());
    // Unknown tag.
    assert!(decode_event_to_server(&[9]).is_err());
    assert!(decode_event_to_client(&[0]).is_err());
    // Trailing bytes after a complete event.
    assert!(decode_event_to_server(&[2, 0]).is_err());
    // Truncated hit report.
    assert!(decode_event_to_server(&[4, 1, 2, 3]).is_err());
    // Cast with an unknown trajectory tag.
    let mut bytes = encode_event_to_server(&EventToServer::CastRequest { cast: shoot_cast() });
    let last = bytes.len() - 1;
    bytes[last] = 9;
    assert!(decode_event_to_server(&bytes).is_err());
}

#[test]
fn name_length_must_match_exactly() {
    let ev = EventToServer::ConnectRequest { name: Some(String::from("Ada")) };
    let mut bytes = encode_event_to_server(&ev);
    bytes.push(0);
    assert!(decode_event_to_server(&bytes).is_err());
    let mut short = encode_event_to_server(&ev);
    short.pop();
    assert!(decode_event_to_server(&short).is_err());
}

#[test]
fn invalid_utf8_names_are_rejected() {
    let ev = EventToServer::ConnectRequest { name: Some(String::from("AB")) };
    let mut bytes = encode_event_to_server(&ev);
    let last = bytes.len() - 1;
    bytes[last] = 0xFF;
    assert!(decode_event_to_server(&bytes).is_err());
}
