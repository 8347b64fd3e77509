//! Tests for cast tracking, hit attribution and local damage.

use arena_core::projectile::{Point, ProjectileRecord, TrajectoryKind};
use arena_core::protocol::{Cast, ShotParams};
use arena_core::resolver::{
    on_someone_cast, resolve_hit, Attribution, DamageEvent, LocalCombat, PlayerEntry,
    ProjectileStore, HP_START,
};

const ALICE: u128 = 11;
const BOB: u128 = 22;

fn roster() -> Vec<PlayerEntry> {
    vec![
        PlayerEntry { id: ALICE, name: String::from("Alice"), is_local: false },
        PlayerEntry { id: BOB, name: String::from("Bob"), is_local: true },
    ]
}

fn bullet_record(id: u64, caster: u128) -> ProjectileRecord {
    ProjectileRecord {
        id,
        caster,
        origin: Point { x: 0, y: 0 },
        target: Point { x: 10_000, y: 0 },
        speed: 5_000,
        kind: TrajectoryKind::Direct,
        spawn_ms: 0,
    }
}

fn store_with(records: Vec<ProjectileRecord>) -> ProjectileStore {
    let mut store = ProjectileStore::new();
    for rec in records {
        store.spawn(rec);
    }
    store
}

#[test]
fn three_hits_drain_hp_with_exactly_one_death() {
    let store = store_with(vec![bullet_record(7, ALICE)]);
    let players = roster();
    let mut combat = LocalCombat::new();
    assert_eq!(combat.hp, 3);

    let first = resolve_hit(&store, &players, 7, BOB, &mut combat);
    assert_eq!(first.damage, DamageEvent::Hurt { hp_left: 2 });
    assert_eq!(combat.hp, 2);

    let second = resolve_hit(&store, &players, 7, BOB, &mut combat);
    assert_eq!(second.damage, DamageEvent::Hurt { hp_left: 1 });
    assert_eq!(combat.hp, 1);

    let third = resolve_hit(&store, &players, 7, BOB, &mut combat);
    assert_eq!(third.damage, DamageEvent::Died);
    assert_eq!(combat.hp, HP_START);

    let deaths = [&first, &second, &third]
        .iter()
        .filter(|r| r.damage == DamageEvent::Died)
        .count();
    assert_eq!(deaths, 1);
}

#[test]
fn a_valid_hit_names_both_sides() {
    let store = store_with(vec![bullet_record(7, ALICE)]);
    let players = roster();
    let mut combat = LocalCombat::new();
    let res = resolve_hit(&store, &players, 7, BOB, &mut combat);
    match res.outcome {
        Attribution::BothKnown { attacker, defender } => {
            assert_eq!(attacker, "Alice");
            assert_eq!(defender, "Bob");
        }
        _ => panic!("expected a both-known attribution"),
    }
}

#[test]
fn an_unknown_bullet_changes_nothing() {
    let store = store_with(vec![bullet_record(7, ALICE)]);
    let players = roster();
    let mut combat = LocalCombat::new();
    let res = resolve_hit(&store, &players, 99, BOB, &mut combat);
    assert!(matches!(res.outcome, Attribution::UnknownBullet));
    assert_eq!(res.damage, DamageEvent::Unharmed);
    assert_eq!(combat.hp, 3);
}

#[test]
fn an_unknown_attacker_is_named_as_such() {
    let store = store_with(vec![bullet_record(7, 404)]);
    let players = roster();
    let mut combat = LocalCombat::new();
    let res = resolve_hit(&store, &players, 7, BOB, &mut combat);
    match res.outcome {
        Attribution::UnknownAttacker { defender } => assert_eq!(defender, "Bob"),
        _ => panic!("expected an unknown-attacker attribution"),
    }
    assert_eq!(res.damage, DamageEvent::Unharmed);
    assert_eq!(combat.hp, 3);
}

#[test]
fn an_unknown_defender_is_named_as_such() {
    let store = store_with(vec![bullet_record(7, ALICE)]);
    let players = roster();
    let mut combat = LocalCombat::new();
    let res = resolve_hit(&store, &players, 7, 404, &mut combat);
    match res.outcome {
        Attribution::UnknownDefender { attacker } => assert_eq!(attacker, "Alice"),
        _ => panic!("expected an unknown-defender attribution"),
    }
    assert_eq!(res.damage, DamageEvent::Unharmed);
}

#[test]
fn neither_side_known_reads_as_unknown_bullet() {
    let store = store_with(vec![bullet_record(7, 404)]);
    let players = roster();
    let mut combat = LocalCombat::new();
    let res = resolve_hit(&store, &players, 7, 405, &mut combat);
    assert!(matches!(res.outcome, Attribution::UnknownBullet));
    assert_eq!(res.damage, DamageEvent::Unharmed);
}

#[test]
fn a_remote_victim_takes_no_local_damage() {
    let store = store_with(vec![bullet_record(7, BOB)]);
    let players = roster();
    let mut combat = LocalCombat::new();
    let res = resolve_hit(&store, &players, 7, ALICE, &mut combat);
    assert!(matches!(res.outcome, Attribution::BothKnown { .. }));
    assert_eq!(res.damage, DamageEvent::Unharmed);
    assert_eq!(combat.hp, 3);
}

#[test]
fn a_disconnected_caster_still_attributes_its_bullets() {
    // The record outlives its caster's session: attribution still works as
    // long as a roster entry for the caster is supplied.
    let store = store_with(vec![bullet_record(7, ALICE)]);
    let players: Vec<PlayerEntry> =
        vec![PlayerEntry { id: BOB, name: String::from("Bob"), is_local: true }];
    let mut combat = LocalCombat::new();
    let res = resolve_hit(&store, &players, 7, BOB, &mut combat);
    match res.outcome {
        Attribution::UnknownAttacker { defender } => assert_eq!(defender, "Bob"),
        _ => panic!("expected an unknown-attacker attribution"),
    }
}

#[test]
fn a_shoot_cast_from_a_known_player_spawns_a_record() {
    let mut store = ProjectileStore::new();
    let players = roster();
    let cast = Cast::Shoot {
        params: ShotParams {
            origin: Point { x: 0, y: 0 },
            target: Point { x: 10_000, y: 0 },
            speed: 5_000,
            kind: TrajectoryKind::Wavy,
        },
    };
    let spawned = on_someone_cast(&mut store, &players, ALICE, 31, &cast, 1234);
    assert!(spawned);
    assert_eq!(store.caster_of(31), Some(ALICE));
    assert_eq!(store.records.len(), 1);
    assert_eq!(store.records[0].spawn_ms, 1234);
    assert_eq!(store.records[0].kind, TrajectoryKind::Wavy);
}

#[test]
fn casts_from_unknown_players_spawn_nothing() {
    let mut store = ProjectileStore::new();
    let players = roster();
    let cast = Cast::Shoot {
        params: ShotParams {
            origin: Point { x: 0, y: 0 },
            target: Point { x: 10_000, y: 0 },
            speed: 5_000,
            kind: TrajectoryKind::Direct,
        },
    };
    assert!(!on_someone_cast(&mut store, &players, 404, 31, &cast, 0));
    assert_eq!(store.records.len(), 0);
}

#[test]
fn teleports_and_replayed_cast_ids_spawn_nothing() {
    let mut store = ProjectileStore::new();
    let players = roster();
    let teleport = Cast::Teleport { target: Point { x: 1, y: 2 } };
    assert!(!on_someone_cast(&mut store, &players, ALICE, 5, &teleport, 0));

    let shoot = Cast::Shoot {
        params: ShotParams {
            origin: Point { x: 0, y: 0 },
            target: Point { x: 10_000, y: 0 },
            speed: 5_000,
            kind: TrajectoryKind::Direct,
        },
    };
    assert!(on_someone_cast(&mut store, &players, ALICE, 5, &shoot, 0));
    assert!(!on_someone_cast(&mut store, &players, ALICE, 5, &shoot, 10));
    assert_eq!(store.records.len(), 1);
}

#[test]
fn pruning_drops_only_expired_records() {
    let mut store = ProjectileStore::new();
    store.spawn(bullet_record(1, ALICE));
    store.spawn(ProjectileRecord { id: 2, spawn_ms: 2_000, ..bullet_record(2, ALICE) });
    store.prune_expired(5_500);
    assert_eq!(store.records.len(), 1);
    assert_eq!(store.records[0].id, 2);
}
