//! The deterministic projectile-trajectory model.
//!
//! A projectile's position is a pure function of its immutable record and the
//! elapsed time; it is never integrated frame by frame, so the server's hit
//! tests and every renderer agree on it exactly.

use vstd::prelude::*;
use crate::fixp::{
    FULL_WAVE, HALF_WAVE, SCALE, div_toward_zero_wide, is_isqrt, isqrt64, lemma_isqrt_lower,
    lemma_isqrt_unique, lemma_sdiv_abs_bound, sdiv, spec_wave, sqrt_floor, wave_milli,
};

verus! {

/// Largest coordinate magnitude the model accepts, in fixed-point units.
pub const COORD_LIMIT: i64 = 1_000_000_000;

/// Largest speed the model accepts, in fixed-point units per second.
pub const SPEED_LIMIT: i64 = 1_000_000;

/// How long a projectile lives before it is despawned, in milliseconds.
pub const LIFETIME_MS: u64 = 5000;

/// Largest elapsed time the position function accepts, in milliseconds:
/// far beyond any projectile lifetime, bounded so the result fits its type.
pub const ELAPSED_LIMIT_MS: u64 = 1_000_000_000_000;

/// A point on the ground plane, in fixed-point units.
#[derive(Clone, Copy, PartialEq, Eq, Structural, Debug)]
pub struct Point {
    pub x: i64,
    pub y: i64,
}

/// How a projectile moves from its origin toward its target.
#[derive(Clone, Copy, PartialEq, Eq, Structural, Debug)]
pub enum TrajectoryKind {
    /// Straight from origin to target.
    Direct,
    /// A sideways wave around the direct line, at half amplitude.
    Wavy,
    /// A wave along the direction of travel, at double amplitude.
    WavySecondary,
}

/// Everything that determines a projectile's position at any time.
/// Immutable after creation, so the position never drifts.
#[derive(Clone, Copy, PartialEq, Eq, Structural, Debug)]
pub struct ProjectileRecord {
    /// Identifier of the projectile itself.
    pub id: u64,
    /// Session id of the player or tower that fired it.
    pub caster: u128,
    /// Where the projectile was fired from.
    pub origin: Point,
    /// The aimed-at point; fixes the direction of travel.
    pub target: Point,
    /// Distance travelled per second, in fixed-point units.
    pub speed: i64,
    /// The shape of the flight path.
    pub kind: TrajectoryKind,
    /// When the projectile was fired, in milliseconds since simulation start.
    pub spawn_ms: u64,
}

/// Milliseconds since the spawn instant; an earlier clock reads as zero.
pub open spec fn spec_elapsed_ms(spawn_ms: int, now_ms: int) -> int {
    if now_ms >= spawn_ms {
        now_ms - spawn_ms
    } else {
        0
    }
}

/// Distance travelled, in fixed-point units.
pub open spec fn spec_distance(speed: int, elapsed_ms: int) -> int {
    (speed * elapsed_ms) / (SCALE as int)
}

/// One component of the unit direction vector, scaled by 1000 and truncated.
pub open spec fn spec_unit(delta: int, len: int) -> int {
    sdiv(delta * (SCALE as int), len)
}

/// Where a projectile with the given fields stands after `elapsed_ms`.
pub open spec fn spec_position_of(
    origin: Point,
    target: Point,
    speed: int,
    kind: TrajectoryKind,
    elapsed_ms: int,
) -> (int, int) {
    let dx = target.x - origin.x;
    let dy = target.y - origin.y;
    let len = sqrt_floor(dx * dx + dy * dy);
    let ux = spec_unit(dx, len);
    let uy = spec_unit(dy, len);
    let dist = spec_distance(speed, elapsed_ms);
    let base_x = origin.x + sdiv(dist * ux, SCALE as int);
    let base_y = origin.y + sdiv(dist * uy, SCALE as int);
    match kind {
        TrajectoryKind::Direct => (base_x, base_y),
        TrajectoryKind::Wavy => {
            let w = spec_wave(dist);
            (base_x + sdiv(uy * w, 2 * SCALE as int), base_y + sdiv(-ux * w, 2 * SCALE as int))
        },
        TrajectoryKind::WavySecondary => {
            let w = spec_wave(dist);
            (base_x + sdiv(2 * ux * w, SCALE as int), base_y + sdiv(2 * uy * w, SCALE as int))
        },
    }
}

/// Where a projectile stands at clock time `now_ms`.
pub open spec fn spec_position(rec: ProjectileRecord, now_ms: int) -> (int, int) {
    spec_position_of(
        rec.origin,
        rec.target,
        rec.speed as int,
        rec.kind,
        spec_elapsed_ms(rec.spawn_ms as int, now_ms),
    )
}

impl ProjectileRecord {
    /// The record describes a representable trajectory: coordinates and speed
    /// in range, and a direction to travel in.
    pub open spec fn wf(self) -> bool {
        &&& -COORD_LIMIT <= self.origin.x <= COORD_LIMIT
        &&& -COORD_LIMIT <= self.origin.y <= COORD_LIMIT
        &&& -COORD_LIMIT <= self.target.x <= COORD_LIMIT
        &&& -COORD_LIMIT <= self.target.y <= COORD_LIMIT
        &&& 0 < self.speed <= SPEED_LIMIT
        &&& self.target != self.origin
    }

    /// Whether the record describes a representable trajectory.
    pub fn range_ok(&self) -> (b: bool)
        ensures
            b == self.wf(),
    {
        -COORD_LIMIT <= self.origin.x && self.origin.x <= COORD_LIMIT && -COORD_LIMIT
            <= self.origin.y && self.origin.y <= COORD_LIMIT && -COORD_LIMIT <= self.target.x
            && self.target.x <= COORD_LIMIT && -COORD_LIMIT <= self.target.y && self.target.y
            <= COORD_LIMIT && 0 < self.speed && self.speed <= SPEED_LIMIT && !(self.target
            == self.origin)
    }

    /// Whether the projectile's lifetime has elapsed at clock time `now_ms`.
    pub open spec fn spec_expired(self, now_ms: int) -> bool {
        spec_elapsed_ms(self.spawn_ms as int, now_ms) >= LIFETIME_MS
    }

    /// Whether the projectile's lifetime has elapsed at clock time `now_ms`.
    pub fn expired(&self, now_ms: u64) -> (b: bool)
        ensures
            b == self.spec_expired(now_ms as int),
    {
        now_ms >= self.spawn_ms && now_ms - self.spawn_ms >= LIFETIME_MS
    }

    /// The projectile's position at clock time `now_ms`: a pure function of
    /// the record's fields and the elapsed time, computed afresh on each call.
    pub fn position(&self, now_ms: u64) -> (p: Point)
        requires
            self.wf(),
            spec_elapsed_ms(self.spawn_ms as int, now_ms as int) <= ELAPSED_LIMIT_MS,
        ensures
            p.x == spec_position(*self, now_ms as int).0,
            p.y == spec_position(*self, now_ms as int).1,
    {
        let elapsed: u64 = if now_ms >= self.spawn_ms {
            now_ms - self.spawn_ms
        } else {
            0
        };
        let dx: i64 = self.target.x - self.origin.x;
        let dy: i64 = self.target.y - self.origin.y;
        let dxa: u64 = if dx >= 0 {
            dx as u64
        } else {
            (-dx) as u64
        };
        let dya: u64 = if dy >= 0 {
            dy as u64
        } else {
            (-dy) as u64
        };
        proof {
            assert(dxa as int * dxa as int <= 2_000_000_000 * 2_000_000_000 && dya as int
                * dya as int <= 2_000_000_000 * 2_000_000_000 && dxa as int * dxa as int >= 0
                && dya as int * dya as int >= 0) by (nonlinear_arith)
                requires
                    dxa <= 2_000_000_000,
                    dya <= 2_000_000_000,
            {
            }
            assert(dx as int * dx as int == dxa as int * dxa as int && dy as int * dy as int
                == dya as int * dya as int) by (nonlinear_arith)
                requires
                    dxa == if dx >= 0 { dx as int } else { -(dx as int) },
                    dya == if dy >= 0 { dy as int } else { -(dy as int) },
            {
            }
        }
        let len_sq: u64 = dxa * dxa + dya * dya;
        proof {
            assert(len_sq >= 1) by (nonlinear_arith)
                requires
                    len_sq == dxa as int * dxa as int + dya as int * dya as int,
                    dxa >= 1 || dya >= 1,
            {
            }
        }
        let len: u64 = isqrt64(len_sq);
        proof {
            lemma_isqrt_unique(len_sq as int, len as int);
            assert(len >= 1) by (nonlinear_arith)
                requires
                    len_sq >= 1,
                    len >= 0,
                    (len as int) * (len as int) <= len_sq as int,
                    (len_sq as int) < (len as int + 1) * (len as int + 1),
            {
            }
            lemma_isqrt_lower(len_sq as int, len as int, dxa as int);
            lemma_isqrt_lower(len_sq as int, len as int, dya as int);
        }
        let ux: i64 = unit_component(dx, len);
        let uy: i64 = unit_component(dy, len);
        proof {
            assert(0 <= self.speed as int * elapsed as int
                <= 1_000_000_000_000_000_000) by (nonlinear_arith)
                requires
                    0 < self.speed <= 1_000_000,
                    0 <= elapsed <= 1_000_000_000_000,
            {
            }
            vstd::arithmetic::div_mod::lemma_div_is_ordered(
                self.speed as int * elapsed as int,
                1_000_000_000_000_000_000,
                1000,
            );
            vstd::arithmetic::div_mod::lemma_div_pos_is_pos(
                self.speed as int * elapsed as int,
                1000,
            );
        }
        let dist_wide: u128 = (self.speed as u128) * (elapsed as u128) / (SCALE as u128);
        let base_x: i64 = displaced(self.origin.x, dist_wide, ux);
        let base_y: i64 = displaced(self.origin.y, dist_wide, uy);
        match self.kind {
            TrajectoryKind::Direct => Point { x: base_x, y: base_y },
            TrajectoryKind::Wavy => {
                let w: i64 = wave_milli(dist_wide);
                let off_x: i64 = scaled_offset(uy, w, 2 * SCALE);
                let off_y: i64 = scaled_offset(-ux, w, 2 * SCALE);
                Point { x: base_x + off_x, y: base_y + off_y }
            },
            TrajectoryKind::WavySecondary => {
                let w: i64 = wave_milli(dist_wide);
                let off_x: i64 = scaled_offset(2 * ux, w, SCALE);
                let off_y: i64 = scaled_offset(2 * uy, w, SCALE);
                Point { x: base_x + off_x, y: base_y + off_y }
            },
        }
    }
}

/// A position depends on nothing but origin, target, speed, trajectory kind
/// and elapsed time: two records that agree on those agree on their position
/// at every instant, whatever other calls happen in between.
pub proof fn lemma_position_deterministic(
    r1: ProjectileRecord,
    r2: ProjectileRecord,
    t1: int,
    t2: int,
)
    requires
        r1.origin == r2.origin,
        r1.target == r2.target,
        r1.speed == r2.speed,
        r1.kind == r2.kind,
        spec_elapsed_ms(r1.spawn_ms as int, t1) == spec_elapsed_ms(r2.spawn_ms as int, t2),
    ensures
        spec_position(r1, t1) == spec_position(r2, t2),
{
}

/// One component of the unit direction vector, scaled by 1000.
fn unit_component(delta: i64, len: u64) -> (u: i64)
    requires
        1 <= len,
        -2_000_000_000 <= delta <= 2_000_000_000,
        (if delta >= 0 {
            delta as int
        } else {
            -(delta as int)
        }) <= len as int,
    ensures
        u == spec_unit(delta as int, len as int),
        -SCALE <= u <= SCALE,
{
    let q: i128 = div_toward_zero_wide((delta as i128) * 1000, len as i128);
    proof {
        let da: int = if delta >= 0 {
            delta as int
        } else {
            -(delta as int)
        };
        lemma_sdiv_abs_bound(delta as int * 1000, len as int, len as int * 1000);
        vstd::arithmetic::div_mod::lemma_div_multiples_vanish(1000, len as int);
    }
    q as i64
}

/// `start` plus the travelled distance along a scaled unit component.
fn displaced(start: i64, dist: u128, u: i64) -> (r: i64)
    requires
        -COORD_LIMIT <= start <= COORD_LIMIT,
        dist <= 1_000_000_000_000_000,
        -SCALE <= u <= SCALE,
    ensures
        r == start as int + sdiv(dist as int * u as int, SCALE as int),
        -1_000_001_000_000_000 <= r <= 1_000_001_000_000_000,
{
    proof {
        assert(-(dist as int) * 1000 <= dist as int * u as int <= dist as int
            * 1000 && dist as int * 1000 <= 1_000_000_000_000_000_000) by (nonlinear_arith)
            requires
                0 <= dist <= 1_000_000_000_000_000,
                -1000 <= u <= 1000,
        {
        }
        lemma_sdiv_abs_bound(dist as int * u as int, 1000, dist as int * 1000);
        vstd::arithmetic::div_mod::lemma_div_multiples_vanish(dist as int, 1000);
    }
    let prod: i128 = (dist as i128) * (u as i128);
    let q: i128 = div_toward_zero_wide(prod, 1000);
    start + (q as i64)
}

/// A wave offset: a scaled unit component times the wave amplitude, divided down.
fn scaled_offset(u: i64, w: i64, d: i64) -> (r: i64)
    requires
        -2 * SCALE <= u <= 2 * SCALE,
        -SCALE <= w <= SCALE,
        SCALE <= d,
    ensures
        r == sdiv(u as int * w as int, d as int),
        -2 * SCALE <= r <= 2 * SCALE,
{
    proof {
        assert(-2_000_000 <= u as int * w as int <= 2_000_000) by (nonlinear_arith)
            requires
                -2000 <= u <= 2000,
                -1000 <= w <= 1000,
        {
        }
        lemma_sdiv_abs_bound(u as int * w as int, d as int, 2_000_000);
        vstd::arithmetic::div_mod::lemma_div_is_ordered_by_denominator(2_000_000, 1000, d as int);
    }
    let prod: i128 = (u as i128) * (w as i128);
    div_toward_zero_wide(prod, d as i128) as i64
}

} // verus!
