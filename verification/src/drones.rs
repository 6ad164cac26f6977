//! Enemy drones: per-type stats, movement along the path, and damage.
//!
//! Health is in thousandths of a hit point, speed in thousandths of a tile
//! side per second, advance in thousandths of a tile side.

use vstd::prelude::*;

use crate::collision::{BodyType, HitBox};
use crate::path::Vec2i;
use crate::sprites::{DroneModels, TILE_PX};

verus! {

/// Largest advance a drone may accumulate, far beyond any path's length.
pub const MAX_ADVANCE: i64 = 4_000_000_000_000;

/// Longest time one tick may cover, in milliseconds.
pub const MAX_TICK_MS: u64 = 1_000_000;

/// Base stats of a drone type.
#[derive(Copy, Clone, Eq, PartialEq, Structural, Debug)]
pub struct Stats {
    /// Remaining health, in thousandths of a hit point; never negative.
    pub hp: i64,
    /// Base speed, in thousandths of a tile side per second.
    pub speed: i64,
}

pub open spec fn stats_ok(s: Stats) -> bool {
    &&& 0 <= s.hp <= 10_000_000
    &&& 0 <= s.speed <= 1_000
}

/// The drone types.
#[derive(Copy, Clone, Eq, PartialEq, Structural, Debug)]
pub enum Drones {
    Simple1,
    Simple2,
    Simple3,
    Medium1,
    Medium2,
    Medium3,
    Medium4,
    Big1,
    Big2,
    Invader,
}

/// A live drone: its type, its remaining stats and its advance along the
/// path, which never decreases while it is alive.
#[derive(Copy, Clone, Eq, PartialEq, Structural, Debug)]
pub struct Enemy {
    pub class: Drones,
    pub stats: Stats,
    pub advance: i64,
}

impl Enemy {
    pub open spec fn wf(&self) -> bool {
        &&& stats_ok(self.stats)
        &&& 0 <= self.advance <= MAX_ADVANCE
    }
}

impl Drones {
    pub open spec fn default_stats_spec(self) -> Stats {
        match self {
            Drones::Simple1 | Drones::Simple2 | Drones::Simple3 => Stats {
                hp: 25_000,
                speed: 500,
            },
            Drones::Medium1 | Drones::Medium2 | Drones::Medium3 | Drones::Medium4 => Stats {
                hp: 80_000,
                speed: 350,
            },
            Drones::Big1 | Drones::Big2 => Stats { hp: 300_000, speed: 250 },
            Drones::Invader => Stats { hp: 1_000_000, speed: 125 },
        }
    }

    /// The starting health and base speed of the drone type.
    pub fn get_default_stats(&self) -> (r: Stats)
        ensures
            r == self.default_stats_spec(),
            stats_ok(r),
    {
        match self {
            Drones::Simple1 | Drones::Simple2 | Drones::Simple3 => Stats {
                hp: 25_000,
                speed: 500,
            },
            Drones::Medium1 | Drones::Medium2 | Drones::Medium3 | Drones::Medium4 => Stats {
                hp: 80_000,
                speed: 350,
            },
            Drones::Big1 | Drones::Big2 => Stats { hp: 300_000, speed: 250 },
            Drones::Invader => Stats { hp: 1_000_000, speed: 125 },
        }
    }

    pub open spec fn model_spec(self) -> DroneModels {
        match self {
            Drones::Simple1 => DroneModels::Simple1,
            Drones::Simple2 => DroneModels::Simple2,
            Drones::Simple3 => DroneModels::Simple3,
            Drones::Medium1 => DroneModels::Medium1,
            Drones::Medium2 => DroneModels::Medium2,
            Drones::Medium3 => DroneModels::Medium3,
            Drones::Medium4 => DroneModels::Medium4,
            Drones::Big1 => DroneModels::Big1,
            Drones::Big2 => DroneModels::Big2,
            Drones::Invader => DroneModels::Invader,
        }
    }

    /// The visual model of the drone type.
    pub fn get_model(&self) -> (r: DroneModels)
        ensures
            r == self.model_spec(),
    {
        match self {
            Drones::Simple1 => DroneModels::Simple1,
            Drones::Simple2 => DroneModels::Simple2,
            Drones::Simple3 => DroneModels::Simple3,
            Drones::Medium1 => DroneModels::Medium1,
            Drones::Medium2 => DroneModels::Medium2,
            Drones::Medium3 => DroneModels::Medium3,
            Drones::Medium4 => DroneModels::Medium4,
            Drones::Big1 => DroneModels::Big1,
            Drones::Big2 => DroneModels::Big2,
            Drones::Invader => DroneModels::Invader,
        }
    }

    /// The sprite tiles of the drone's visual model.
    pub fn get_tiles(&self) -> (r: Vec<crate::sprites::TILE>)
        ensures
            r@.len() >= 1,
            crate::sprites::tiles_in_block(r@),
    {
        self.get_model().get_tiles()
    }

    /// A fresh drone of this type at the start of the path, with its
    /// multi-hit enemy hit-volume.
    pub fn instantiate(&self) -> (r: (Enemy, HitBox))
        ensures
            r.0 == (Enemy { class: *self, stats: self.default_stats_spec(), advance: 0 }),
            r.0.wf(),
            r.1 == (HitBox {
                body_type: BodyType::Enemy,
                width: self.model_spec().hitbox_spec().x,
                height: self.model_spec().hitbox_spec().y,
                offset: self.model_spec().offset_spec(),
                single_hit: false,
            }),
            crate::collision::hitbox_ok(r.1),
    {
        let model = self.get_model();
        let hitbox = model.get_hitbox();
        (
            Enemy { class: *self, stats: self.get_default_stats(), advance: 0 },
            HitBox {
                body_type: BodyType::Enemy,
                width: hitbox.x,
                height: hitbox.y,
                offset: model.get_offset(),
                single_hit: false,
            },
        )
    }
}

/// The effective speed of a drone: its base speed scaled by the active slow
/// factor in thousandths, if any.
pub open spec fn effective_speed(speed: i64, slow_factor: Option<i64>) -> int {
    match slow_factor {
        Some(f) => speed * f / 1_000,
        None => speed as int,
    }
}

/// One movement tick: the drone's advance grows by its effective speed times
/// the elapsed time, and never shrinks.
pub fn advance_drone(enemy: &mut Enemy, slow_factor: Option<i64>, dt_ms: u64)
    requires
        old(enemy).wf(),
        old(enemy).advance + 1_000_000 <= MAX_ADVANCE,
        dt_ms <= MAX_TICK_MS,
        match slow_factor {
            Some(f) => 0 <= f <= 1_000,
            None => true,
        },
    ensures
        final(enemy).advance == old(enemy).advance + effective_speed(
            old(enemy).stats.speed,
            slow_factor,
        ) * dt_ms / 1_000,
        final(enemy).advance >= old(enemy).advance,
        final(enemy).class == old(enemy).class,
        final(enemy).stats == old(enemy).stats,
        final(enemy).wf(),
{
    let modulator: i64 = match slow_factor {
        Some(f) => f,
        None => 1_000,
    };
    proof {
        assert(0 <= enemy.stats.speed * modulator <= 1_000_000) by (nonlinear_arith)
            requires 0 <= enemy.stats.speed <= 1_000 && 0 <= modulator <= 1_000;
    }
    let eff: i64 = enemy.stats.speed * modulator / 1_000;
    proof {
        if slow_factor is None {
            assert(enemy.stats.speed * 1_000 / 1_000 == enemy.stats.speed) by (nonlinear_arith)
                requires 0 <= enemy.stats.speed <= 1_000;
        }
        assert(eff == effective_speed(enemy.stats.speed, slow_factor));
        assert(0 <= eff * (dt_ms as i64) <= 1_000 * 1_000_000) by (nonlinear_arith)
            requires 0 <= eff <= 1_000 && 0 <= dt_ms as i64 <= 1_000_000;
    }
    let delta: i64 = eff * (dt_ms as i64) / 1_000;
    enemy.advance = enemy.advance + delta;
}

/// Damage application: health drops by the damage dealt, floored at zero.
pub fn apply_damage(enemy: &mut Enemy, damage: i64) -> (died: bool)
    requires
        old(enemy).wf(),
        0 <= damage,
    ensures
        final(enemy).stats.hp == if damage >= old(enemy).stats.hp {
            0
        } else {
            old(enemy).stats.hp - damage
        },
        died <==> final(enemy).stats.hp == 0 && old(enemy).stats.hp > 0,
        final(enemy).class == old(enemy).class,
        final(enemy).stats.speed == old(enemy).stats.speed,
        final(enemy).advance == old(enemy).advance,
        final(enemy).wf(),
{
    let was_alive = enemy.stats.hp > 0;
    if damage >= enemy.stats.hp {
        enemy.stats.hp = 0;
    } else {
        enemy.stats.hp = enemy.stats.hp - damage;
    }
    was_alive && enemy.stats.hp == 0
}

/// Where the drone's sprite stands for a path position: the path-grid
/// coordinates doubled into tiles and converted to world space, shifted so
/// the sprite centers on the lane and levitates over the road.
pub fn drone_translation(progress: Vec2i, size: Vec2i) -> (r: Vec2i)
    requires
        -1_000_000 <= progress.x <= 1_000_000,
        -1_000_000 <= progress.y <= 1_000_000,
        0 <= size.x <= 3 * TILE_PX,
        0 <= size.y <= 3 * TILE_PX,
    ensures
        r.x == 16 * progress.x - size.x / 2 + TILE_PX,
        r.y == 16 * progress.y + 6 * TILE_PX + TILE_PX * 3 / 2,
{
    Vec2i {
        x: 16 * progress.x - size.x / 2 + TILE_PX,
        y: 16 * progress.y + 6 * TILE_PX + TILE_PX * 3 / 2,
    }
}

} // verus!
