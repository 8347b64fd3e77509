//! Cast and hit resolution.
//!
//! Spawned projectiles are tracked by id; a hit report is attributed by
//! looking up the bullet's caster and resolving attacker and defender
//! display names against the known players; damage applies to the local
//! player, whose health resets the moment it would run out.

use vstd::prelude::*;
use crate::projectile::ProjectileRecord;

verus! {

/// The health a player starts with, and returns to on death.
pub const HP_START: u32 = 3;

/// One player as the resolver knows it: identity, display name, and whether
/// it is the player this process controls.
pub struct PlayerEntry {
    /// The player's session id.
    pub id: u128,
    /// The player's display name.
    pub name: String,
    /// Whether this entry is the local player.
    pub is_local: bool,
}

/// The local player's combat state.
pub struct LocalCombat {
    /// Current health; always between one and the starting value, because a
    /// death resets it in the same step that would have exhausted it.
    pub hp: u32,
}

/// What a hit did to the local player.
#[derive(Clone, Copy, PartialEq, Eq, Structural, Debug)]
pub enum DamageEvent {
    /// The hit did not damage the local player.
    Unharmed,
    /// The local player was hurt and this much health remains.
    Hurt { hp_left: u32 },
    /// The hit was fatal: health returned to the starting value and the
    /// player respawns.
    Died,
}

/// The attribution of a hit report, carrying the resolved display names.
pub enum Attribution {
    /// Attacker and defender both resolved.
    BothKnown { attacker: String, defender: String },
    /// Only the attacker resolved.
    UnknownDefender { attacker: String },
    /// Only the defender resolved.
    UnknownAttacker { defender: String },
    /// The bullet is unknown, or neither side resolved.
    UnknownBullet,
}

/// The attribution of a hit report, over mathematical string values.
pub enum AttributionModel {
    /// Attacker and defender both resolved.
    BothKnown { attacker: Seq<char>, defender: Seq<char> },
    /// Only the attacker resolved.
    UnknownDefender { attacker: Seq<char> },
    /// Only the defender resolved.
    UnknownAttacker { defender: Seq<char> },
    /// The bullet is unknown, or neither side resolved.
    UnknownBullet,
}

impl View for Attribution {
    type V = AttributionModel;

    open spec fn view(&self) -> AttributionModel {
        match self {
            Attribution::BothKnown { attacker, defender } => AttributionModel::BothKnown {
                attacker: attacker@,
                defender: defender@,
            },
            Attribution::UnknownDefender { attacker } => AttributionModel::UnknownDefender {
                attacker: attacker@,
            },
            Attribution::UnknownAttacker { defender } => AttributionModel::UnknownAttacker {
                defender: defender@,
            },
            Attribution::UnknownBullet => AttributionModel::UnknownBullet,
        }
    }
}

/// The outcome of resolving one hit report.
pub struct HitResolution {
    /// Who hit whom, as far as it could be resolved.
    pub outcome: Attribution,
    /// What the hit did to the local player.
    pub damage: DamageEvent,
}

/// Some record in `rs` carries `id`.
pub open spec fn has_bullet(rs: Seq<ProjectileRecord>, id: u64) -> bool {
    exists|i: int| 0 <= i < rs.len() && rs[i].id == id
}

/// The index of the record carrying `id`.
pub open spec fn bullet_index(rs: Seq<ProjectileRecord>, id: u64) -> int {
    choose|i: int| 0 <= i < rs.len() && rs[i].id == id
}

/// The caster that fired bullet `id`.
pub open spec fn bullet_caster(rs: Seq<ProjectileRecord>, id: u64) -> u128 {
    rs[bullet_index(rs, id)].caster
}

/// No two records share an id.
pub open spec fn unique_bullet_ids(rs: Seq<ProjectileRecord>) -> bool {
    forall|i: int, j: int| 0 <= i < j < rs.len() ==> rs[i].id != rs[j].id
}

/// Some entry in `ps` carries `id`.
pub open spec fn has_player(ps: Seq<PlayerEntry>, id: u128) -> bool {
    exists|i: int| 0 <= i < ps.len() && ps[i].id == id
}

/// The index of the entry carrying `id`.
pub open spec fn player_index(ps: Seq<PlayerEntry>, id: u128) -> int {
    choose|i: int| 0 <= i < ps.len() && ps[i].id == id
}

/// The entry carrying `id`.
pub open spec fn player_of(ps: Seq<PlayerEntry>, id: u128) -> PlayerEntry {
    ps[player_index(ps, id)]
}

/// No two entries share an id.
pub open spec fn unique_player_ids(ps: Seq<PlayerEntry>) -> bool {
    forall|i: int, j: int| 0 <= i < j < ps.len() ==> ps[i].id != ps[j].id
}

/// How a hit report resolves against the tracked bullets and known players.
pub open spec fn spec_attribution(
    rs: Seq<ProjectileRecord>,
    ps: Seq<PlayerEntry>,
    bullet: u64,
    victim: u128,
) -> AttributionModel {
    if !has_bullet(rs, bullet) {
        AttributionModel::UnknownBullet
    } else {
        let caster = bullet_caster(rs, bullet);
        if has_player(ps, caster) && has_player(ps, victim) {
            AttributionModel::BothKnown {
                attacker: player_of(ps, caster).name@,
                defender: player_of(ps, victim).name@,
            }
        } else if has_player(ps, caster) {
            AttributionModel::UnknownDefender { attacker: player_of(ps, caster).name@ }
        } else if has_player(ps, victim) {
            AttributionModel::UnknownAttacker { defender: player_of(ps, victim).name@ }
        } else {
            AttributionModel::UnknownBullet
        }
    }
}

/// Whether the hit damages the local player: the bullet and both sides are
/// known, and the defender is the local player.
pub open spec fn spec_damage_applies(
    rs: Seq<ProjectileRecord>,
    ps: Seq<PlayerEntry>,
    bullet: u64,
    victim: u128,
) -> bool {
    &&& has_bullet(rs, bullet)
    &&& has_player(ps, bullet_caster(rs, bullet))
    &&& has_player(ps, victim)
    &&& player_of(ps, victim).is_local
}

impl LocalCombat {
    /// Health is between one and the starting value.
    pub open spec fn wf(self) -> bool {
        1 <= self.hp <= HP_START
    }

    /// A fresh local player at full health.
    pub fn new() -> (r: LocalCombat)
        ensures
            r.wf(),
            r.hp == HP_START,
    {
        LocalCombat { hp: HP_START }
    }
}

/// Those records not yet expired at `now_ms`, in order.
pub open spec fn retained(rs: Seq<ProjectileRecord>, now_ms: int) -> Seq<ProjectileRecord>
    decreases rs.len(),
{
    if rs.len() == 0 {
        Seq::empty()
    } else {
        let rest = retained(rs.drop_last(), now_ms);
        if rs.last().spec_expired(now_ms) {
            rest
        } else {
            rest.push(rs.last())
        }
    }
}

/// The projectile records currently being tracked, each under a unique id.
pub struct ProjectileStore {
    /// The live records, in spawn order.
    pub records: Vec<ProjectileRecord>,
}

impl ProjectileStore {
    /// No two tracked records share an id.
    pub open spec fn wf(self) -> bool {
        unique_bullet_ids(self.records@)
    }

    /// An empty store.
    pub fn new() -> (r: ProjectileStore)
        ensures
            r.wf(),
            r.records@.len() == 0,
    {
        ProjectileStore { records: Vec::new() }
    }

    /// Tracks a newly spawned projectile under its fresh id.
    pub fn spawn(&mut self, rec: ProjectileRecord)
        requires
            old(self).wf(),
            !has_bullet(old(self).records@, rec.id),
            old(self).records@.len() < usize::MAX,
        ensures
            final(self).wf(),
            final(self).records@ == old(self).records@.push(rec),
    {
        self.records.push(rec);
        proof {
            let s1 = self.records@;
            let s0 = old(self).records@;
            assert forall|a: int, b: int| 0 <= a < b < s1.len() implies (#[trigger] s1[a]).id != (
            #[trigger] s1[b]).id by {
                if b == s0.len() {
                    assert(s1[a] == s0[a]);
                    if s0[a].id == rec.id {
                        assert(has_bullet(s0, rec.id));
                    }
                } else {
                    assert(s1[a] == s0[a] && s1[b] == s0[b]);
                }
            };
        }
    }

    /// The caster that fired the given bullet, if the bullet is tracked.
    #[verifier::loop_isolation(false)]
    pub fn caster_of(&self, bullet: u64) -> (r: Option<u128>)
        requires
            self.wf(),
        ensures
            match r {
                Some(c) => has_bullet(self.records@, bullet) && c == bullet_caster(
                    self.records@,
                    bullet,
                ),
                None => !has_bullet(self.records@, bullet),
            },
    {
        let mut i: usize = 0;
        while i < self.records.len()
            invariant
                i <= self.records@.len(),
                forall|j: int| 0 <= j < i ==> (#[trigger] self.records@[j]).id != bullet,
            decreases self.records@.len() - i,
        {
            if self.records[i].id == bullet {
                proof {
                    let rs = self.records@;
                    assert(has_bullet(rs, bullet));
                    assert(bullet_index(rs, bullet) == i) by {
                        let w = bullet_index(rs, bullet);
                        assert(0 <= w < rs.len() && rs[w].id == bullet);
                        if w < i as int {
                            assert(rs[w].id != bullet);
                        } else if w > i as int {
                            assert(rs[i as int].id != rs[w].id);
                        }
                    };
                }
                return Some(self.records[i].caster);
            }
            i = i + 1;
        }
        None
    }

    /// Drops every record whose lifetime has elapsed at `now_ms`.
    #[verifier::loop_isolation(false)]
    pub fn prune_expired(&mut self, now_ms: u64)
        requires
            old(self).wf(),
        ensures
            final(self).wf(),
            final(self).records@ == retained(old(self).records@, now_ms as int),
    {
        let ghost s0 = self.records@;
        let mut kept: Vec<ProjectileRecord> = Vec::new();
        let mut i: usize = 0;
        while i < self.records.len()
            invariant
                self.records@ == s0,
                i <= s0.len(),
                kept@ == retained(s0.take(i as int), now_ms as int),
            decreases s0.len() - i,
        {
            let rec = self.records[i];
            if !rec.expired(now_ms) {
                kept.push(rec);
            }
            proof {
                assert(s0.take(i as int + 1).drop_last() =~= s0.take(i as int));
                assert(s0.take(i as int + 1).last() == s0[i as int]);
                assert(kept@ == retained(s0.take(i as int + 1), now_ms as int));
            }
            i = i + 1;
        }
        proof {
            assert(s0.take(s0.len() as int) =~= s0);
        }
        self.records = kept;
        proof {
            lemma_retained_is_subset(s0, now_ms as int);
        }
    }
}

/// Every retained record appears in the original sequence, so uniqueness of
/// ids survives pruning.
proof fn lemma_retained_is_subset(rs: Seq<ProjectileRecord>, now_ms: int)
    requires
        unique_bullet_ids(rs),
    ensures
        unique_bullet_ids(retained(rs, now_ms)),
        forall|i: int|
            0 <= i < retained(rs, now_ms).len() ==> rs.contains(
                #[trigger] retained(rs, now_ms)[i],
            ),
    decreases rs.len(),
{
    if rs.len() == 0 {
    } else {
        let rest = retained(rs.drop_last(), now_ms);
        assert(unique_bullet_ids(rs.drop_last())) by {
            assert forall|i: int, j: int|
                0 <= i < j < rs.drop_last().len() implies (#[trigger] rs.drop_last()[i]).id != (
            #[trigger] rs.drop_last()[j]).id by {
                assert(rs.drop_last()[i] == rs[i] && rs.drop_last()[j] == rs[j]);
            };
        };
        lemma_retained_is_subset(rs.drop_last(), now_ms);
        assert forall|i: int| 0 <= i < rest.len() implies rs.contains(#[trigger] rest[i]) by {
            assert(rs.drop_last().contains(rest[i]));
            let w = choose|w: int| 0 <= w < rs.drop_last().len() && rs.drop_last()[w] == rest[i];
            assert(rs[w] == rest[i]);
        };
        if !rs.last().spec_expired(now_ms) {
            let out = rest.push(rs.last());
            assert(rs.contains(rs.last())) by {
                assert(rs[rs.len() - 1] == rs.last());
            };
            assert forall|a: int, b: int| 0 <= a < b < out.len() implies (#[trigger] out[a]).id != (
            #[trigger] out[b]).id by {
                if b == rest.len() {
                    assert(rs.drop_last().contains(out[a]));
                    let w = choose|w: int|
                        0 <= w < rs.drop_last().len() && rs.drop_last()[w] == out[a];
                    assert(rs[w] == out[a]);
                    assert(rs[w].id != rs.last().id) by {
                        assert(rs.last() == rs[rs.len() - 1]);
                    };
                } else {
                    assert(rest[a].id != rest[b].id);
                }
            };
        }
    }
}

/// The index of the entry carrying `id`, if any.
#[verifier::loop_isolation(false)]
fn find_player(players: &Vec<PlayerEntry>, id: u128) -> (r: Option<usize>)
    requires
        unique_player_ids(players@),
    ensures
        match r {
            Some(i) => i < players@.len() && players@[i as int].id == id && player_index(
                players@,
                id,
            ) == i as int && has_player(players@, id),
            None => !has_player(players@, id),
        },
{
    let mut i: usize = 0;
    while i < players.len()
        invariant
            i <= players@.len(),
            forall|j: int| 0 <= j < i ==> (#[trigger] players@[j]).id != id,
        decreases players@.len() - i,
    {
        if players[i].id == id {
            proof {
                let ps = players@;
                assert(has_player(ps, id));
                assert(player_index(ps, id) == i) by {
                    let w = player_index(ps, id);
                    assert(0 <= w < ps.len() && ps[w].id == id);
                    if w < i as int {
                        assert(ps[w].id != id);
                    } else if w > i as int {
                        assert(ps[i as int].id != ps[w].id);
                    }
                };
            }
            return Some(i);
        }
        i = i + 1;
    }
    None
}

/// Applies one point of damage to the local player: health drops by one, or
/// resets to the start value on the point that would have exhausted it.
fn apply_local_damage(combat: &mut LocalCombat) -> (d: DamageEvent)
    requires
        old(combat).wf(),
    ensures
        final(combat).wf(),
        old(combat).hp > 1 ==> final(combat).hp == old(combat).hp - 1 && d
            == (DamageEvent::Hurt { hp_left: final(combat).hp }),
        old(combat).hp == 1 ==> final(combat).hp == HP_START && d == DamageEvent::Died,
{
    if combat.hp > 1 {
        combat.hp = combat.hp - 1;
        DamageEvent::Hurt { hp_left: combat.hp }
    } else {
        combat.hp = HP_START;
        DamageEvent::Died
    }
}

/// Resolves one hit report: attributes the bullet to its caster, resolves
/// both display names, and damages the local player exactly when the bullet
/// and both sides are known and the defender is local. An unknown bullet
/// changes nothing.
pub fn resolve_hit(
    store: &ProjectileStore,
    players: &Vec<PlayerEntry>,
    bullet: u64,
    victim: u128,
    combat: &mut LocalCombat,
) -> (out: HitResolution)
    requires
        store.wf(),
        unique_player_ids(players@),
        old(combat).wf(),
    ensures
        final(combat).wf(),
        out.outcome@ == spec_attribution(store.records@, players@, bullet, victim),
        spec_damage_applies(store.records@, players@, bullet, victim) ==> {
            &&& old(combat).hp > 1 ==> final(combat).hp == old(combat).hp - 1 && out.damage
                == (DamageEvent::Hurt { hp_left: final(combat).hp })
            &&& old(combat).hp == 1 ==> final(combat).hp == HP_START && out.damage
                == DamageEvent::Died
        },
        !spec_damage_applies(store.records@, players@, bullet, victim) ==> *final(combat)
            == *old(combat) && out.damage == DamageEvent::Unharmed,
{
    let caster_opt = store.caster_of(bullet);
    match caster_opt {
        None => HitResolution { outcome: Attribution::UnknownBullet, damage: DamageEvent::Unharmed },
        Some(caster) => {
            let ai = find_player(players, caster);
            let di = find_player(players, victim);
            match (ai, di) {
                (Some(a), Some(d)) => {
                    let attacker = players[a].name.clone();
                    let defender = players[d].name.clone();
                    let damage = if players[d].is_local {
                        apply_local_damage(combat)
                    } else {
                        DamageEvent::Unharmed
                    };
                    HitResolution { outcome: Attribution::BothKnown { attacker, defender }, damage }
                },
                (Some(a), None) => {
                    let attacker = players[a].name.clone();
                    HitResolution {
                        outcome: Attribution::UnknownDefender { attacker },
                        damage: DamageEvent::Unharmed,
                    }
                },
                (None, Some(d)) => {
                    let defender = players[d].name.clone();
                    HitResolution {
                        outcome: Attribution::UnknownAttacker { defender },
                        damage: DamageEvent::Unharmed,
                    }
                },
                (None, None) => HitResolution {
                    outcome: Attribution::UnknownBullet,
                    damage: DamageEvent::Unharmed,
                },
            }
        },
    }
}

/// Handles a cast broadcast on the receiving side: a shoot cast from a
/// known caster spawns a tracked projectile record under the broadcast
/// cast id, stamped with the local clock. Casts from unknown players,
/// teleports, and replayed cast ids spawn nothing.
pub fn on_someone_cast(
    store: &mut ProjectileStore,
    players: &Vec<PlayerEntry>,
    caster: u128,
    cast_id: u64,
    cast: &crate::protocol::Cast,
    now_ms: u64,
) -> (spawned: bool)
    requires
        old(store).wf(),
        old(store).records@.len() < usize::MAX,
    ensures
        final(store).wf(),
        spawned == (has_player(players@, caster) && (cast matches crate::protocol::Cast::Shoot {
            ..
        }) && !has_bullet(old(store).records@, cast_id)),
        spawned ==> match cast {
            crate::protocol::Cast::Shoot { params } => final(store).records@ == old(
                store,
            ).records@.push(
                ProjectileRecord {
                    id: cast_id,
                    caster,
                    origin: params.origin,
                    target: params.target,
                    speed: params.speed,
                    kind: params.kind,
                    spawn_ms: now_ms,
                },
            ),
            _ => false,
        },
        !spawned ==> final(store).records@ == old(store).records@,
{
    let mut known = false;
    let mut i: usize = 0;
    #[verifier::loop_isolation(false)]
    while i < players.len()
        invariant
            i <= players@.len(),
            known == exists|j: int| 0 <= j < i && (#[trigger] players@[j]).id == caster,
        decreases players@.len() - i,
    {
        if players[i].id == caster {
            known = true;
        }
        i = i + 1;
    }
    if !known {
        return false;
    }
    match cast {
        crate::protocol::Cast::Teleport { .. } => false,
        crate::protocol::Cast::Shoot { params } => {
            if store.caster_of(cast_id).is_some() {
                return false;
            }
            let rec = ProjectileRecord {
                id: cast_id,
                caster,
                origin: params.origin,
                target: params.target,
                speed: params.speed,
                kind: params.kind,
                spawn_ms: now_ms,
            };
            store.spawn(rec);
            true
        },
    }
}

/// A valid hit between two known players resolves to exactly one
/// `BothKnown` attribution naming them, and damages the defender exactly
/// when the defender is the local player — however the attacker and
/// defender entries are arranged.
pub proof fn lemma_valid_hit_both_known(
    rs: Seq<ProjectileRecord>,
    ps: Seq<PlayerEntry>,
    bullet: u64,
    victim: u128,
    a: int,
    d: int,
)
    requires
        unique_bullet_ids(rs),
        unique_player_ids(ps),
        has_bullet(rs, bullet),
        0 <= a < ps.len(),
        0 <= d < ps.len(),
        ps[a].id == bullet_caster(rs, bullet),
        ps[d].id == victim,
    ensures
        spec_attribution(rs, ps, bullet, victim) == (AttributionModel::BothKnown {
            attacker: ps[a].name@,
            defender: ps[d].name@,
        }),
        spec_damage_applies(rs, ps, bullet, victim) == ps[d].is_local,
{
    let caster = bullet_caster(rs, bullet);
    assert(has_player(ps, caster));
    assert(has_player(ps, victim));
    assert(player_index(ps, caster) == a) by {
        let w = player_index(ps, caster);
        assert(0 <= w < ps.len() && ps[w].id == caster);
        if w < a {
            assert(ps[w].id != ps[a].id);
        } else if w > a {
            assert(ps[a].id != ps[w].id);
        }
    };
    assert(player_index(ps, victim) == d) by {
        let w = player_index(ps, victim);
        assert(0 <= w < ps.len() && ps[w].id == victim);
        if w < d {
            assert(ps[w].id != ps[d].id);
        } else if w > d {
            assert(ps[d].id != ps[w].id);
        }
    };
}

} // verus!
