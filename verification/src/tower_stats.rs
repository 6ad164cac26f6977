//! Per-rank stats tables of the tower models.
//!
//! Damage and health are in thousandths of a hit point, ranges and speeds in
//! thousandths of a pixel, delays in milliseconds, slow factors in
//! thousandths (660 means speed is scaled by 0.66).

use vstd::prelude::*;

use crate::tower::{Tower, Towers};

verus! {

/// Shortest reload delay of any tower rank, in milliseconds.
pub const MIN_RELOAD: u64 = 2_000;

/// Longest reload delay of any tower rank, in milliseconds.
pub const MAX_RELOAD: u64 = 6_000;

/// Weakest shot damage of any tower rank.
pub const MIN_DAMAGE: i64 = 2_000;

/// Strongest shot damage of any tower rank.
pub const MAX_DAMAGE: i64 = 18_000;

/// Damage of an exploding package.
pub const OMEGA_DAMAGES: i64 = 100_000;

pub open spec fn reload_delay_spec(model: Towers, rank: u8) -> u64 {
    match model {
        Towers::Lightning => if rank == 1 {
            3_000
        } else if rank == 2 {
            2_500
        } else {
            2_000
        },
        Towers::PaintBomb => if rank == 1 {
            6_000
        } else if rank == 2 {
            5_500
        } else {
            5_000
        },
        Towers::Scrambler => 5_000,
    }
}

/// Time between two shots, in milliseconds.
pub fn reload_delay(tower: &Tower) -> (r: u64)
    ensures
        r == reload_delay_spec(tower.model, tower.rank),
        MIN_RELOAD <= r <= MAX_RELOAD,
{
    match (tower.model, tower.rank) {
        (Towers::Lightning, 1) => 3_000,
        (Towers::Lightning, 2) => 2_500,
        (Towers::Lightning, _) => 2_000,
        (Towers::PaintBomb, 1) => 6_000,
        (Towers::PaintBomb, 2) => 5_500,
        (Towers::PaintBomb, _) => 5_000,
        (Towers::Scrambler, 1) => 5_000,
        (Towers::Scrambler, 2) => 5_000,
        (Towers::Scrambler, _) => 5_000,
    }
}

pub open spec fn range_spec(model: Towers, rank: u8) -> i64 {
    match model {
        Towers::Lightning => if rank == 1 {
            40_000
        } else if rank == 2 {
            48_000
        } else {
            56_000
        },
        Towers::PaintBomb => if rank == 1 {
            32_000
        } else if rank == 2 {
            36_000
        } else {
            40_000
        },
        Towers::Scrambler => if rank == 1 {
            32_000
        } else if rank == 2 {
            40_000
        } else {
            48_000
        },
    }
}

/// Radius of the circular range, in thousandths of a pixel.
pub fn range(tower: &Tower) -> (r: i64)
    ensures
        r == range_spec(tower.model, tower.rank),
        0 < r <= 56_000,
{
    match (tower.model, tower.rank) {
        (Towers::Lightning, 1) => 40_000,
        (Towers::Lightning, 2) => 48_000,
        (Towers::Lightning, _) => 56_000,
        (Towers::PaintBomb, 1) => 32_000,
        (Towers::PaintBomb, 2) => 36_000,
        (Towers::PaintBomb, _) => 40_000,
        (Towers::Scrambler, 1) => 32_000,
        (Towers::Scrambler, 2) => 40_000,
        (Towers::Scrambler, _) => 48_000,
    }
}

pub open spec fn damage_spec(model: Towers, rank: u8) -> i64 {
    match model {
        Towers::Lightning => if rank == 1 {
            MIN_DAMAGE
        } else if rank == 2 {
            3_500
        } else {
            6_000
        },
        Towers::PaintBomb => if rank == 1 {
            6_000
        } else if rank == 2 {
            11_000
        } else {
            MAX_DAMAGE
        },
        Towers::Scrambler => 0,
    }
}

/// Damage of this tower's shots; an effect-only tower deals none.
pub fn damage(tower: &Tower) -> (r: i64)
    ensures
        r == damage_spec(tower.model, tower.rank),
        0 <= r <= MAX_DAMAGE,
{
    match (tower.model, tower.rank) {
        (Towers::Lightning, 1) => MIN_DAMAGE,
        (Towers::Lightning, 2) => 3_500,
        (Towers::Lightning, _) => 6_000,
        (Towers::PaintBomb, 1) => 6_000,
        (Towers::PaintBomb, 2) => 11_000,
        (Towers::PaintBomb, _) => MAX_DAMAGE,
        _ => 0,
    }
}

/// Speed of this tower's shots, in thousandths of a pixel per second.
pub fn shot_speed(tower: &Tower) -> (r: i64)
    ensures
        r == 120_000,
{
    match (tower.model, tower.rank) {
        _ => 120_000,
    }
}

/// The valid slow factors: one per rank of the effect-only tower.
pub open spec fn is_slow_factor(f: i64) -> bool {
    f == 660 || f == 500 || f == 330
}

pub open spec fn slow_factor_spec(rank: u8) -> i64 {
    if rank == 1 {
        660
    } else if rank == 2 {
        500
    } else {
        330
    }
}

/// Speed multiplier, in thousandths, that this tower's aura applies. Only the
/// effect-only tower has one.
pub fn slow_factor(tower: &Tower) -> (r: i64)
    requires
        tower.model is Scrambler,
    ensures
        r == slow_factor_spec(tower.rank),
        0 < r < 1_000,
{
    match (tower.model, tower.rank) {
        (Towers::Scrambler, 1) => 660,
        (Towers::Scrambler, 2) => 500,
        (Towers::Scrambler, _) => 330,
        _ => 330,
    }
}

} // verus!
