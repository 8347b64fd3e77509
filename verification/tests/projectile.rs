//! Tests for the deterministic projectile-trajectory model.

use arena_core::projectile::{Point, ProjectileRecord, TrajectoryKind};

fn record(kind: TrajectoryKind) -> ProjectileRecord {
    ProjectileRecord {
        id: 1,
        caster: 1,
        origin: Point { x: 0, y: 0 },
        target: Point { x: 10_000, y: 0 },
        speed: 5_000,
        kind,
        spawn_ms: 0,
    }
}

#[test]
fn direct_position_reaches_target_at_two_seconds() {
    let rec = record(TrajectoryKind::Direct);
    assert_eq!(rec.position(0), Point { x: 0, y: 0 });
    assert_eq!(rec.position(1000), Point { x: 5_000, y: 0 });
    assert_eq!(rec.position(2000), Point { x: 10_000, y: 0 });
}

#[test]
fn position_before_spawn_reads_as_spawn() {
    let rec = ProjectileRecord { spawn_ms: 500, ..record(TrajectoryKind::Direct) };
    assert_eq!(rec.position(100), Point { x: 0, y: 0 });
    assert_eq!(rec.position(500), Point { x: 0, y: 0 });
}

#[test]
fn position_is_deterministic_across_interleaved_calls() {
    let rec = record(TrajectoryKind::Wavy);
    let first = rec.position(1500);
    let _other = rec.position(700);
    let _later = rec.position(4900);
    let second = rec.position(1500);
    assert_eq!(first, second);

    let twin = record(TrajectoryKind::Wavy);
    assert_eq!(twin.position(1500), first);
}

#[test]
fn wavy_offsets_lie_on_the_perpendicular() {
    // Travel along +x: the wave of the sideways kind moves y only.
    let rec = record(TrajectoryKind::Wavy);
    let p = rec.position(1000);
    assert_eq!(p, Point { x: 5_000, y: 479 });
}

#[test]
fn secondary_wave_modulates_along_the_direction() {
    // Travel along +x: the wave of the speed-modulating kind moves x only.
    let rec = record(TrajectoryKind::WavySecondary);
    let p = rec.position(1000);
    assert_eq!(p, Point { x: 3_084, y: 0 });
}

#[test]
fn diagonal_direct_position() {
    // Origin to (3, 4): length 5 units, so at speed 5 the target is hit at 1 s.
    let rec = ProjectileRecord {
        target: Point { x: 3_000, y: 4_000 },
        ..record(TrajectoryKind::Direct)
    };
    assert_eq!(rec.position(1000), Point { x: 3_000, y: 4_000 });
}

#[test]
fn lifetime_expires_after_five_seconds() {
    let rec = record(TrajectoryKind::Direct);
    assert!(!rec.expired(0));
    assert!(!rec.expired(4_999));
    assert!(rec.expired(5_000));
    let late = ProjectileRecord { spawn_ms: 2_000, ..record(TrajectoryKind::Direct) };
    assert!(!late.expired(1_000));
    assert!(!late.expired(6_999));
    assert!(late.expired(7_000));
}
