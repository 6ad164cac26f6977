//! Projectiles and area-effect bombs.
//!
//! A direct shot damages the enemy it contacts; a bomb shot does not damage
//! on contact but arms a `Bomb`, whose area-damage resolution hits every
//! enemy within its blast radius exactly once.

use vstd::prelude::*;

use crate::collision::{BodyType, HitBox};
use crate::path::{coord_ok, Vec2i, MAX_COORD};
use crate::sprites::TILE;
use crate::tower::{dist2, Tower};
use crate::tower_stats;

verus! {

/// Blast radius of a bomb shot, in thousandths of a pixel.
pub const BOMB_RANGE: i64 = 28_000;

/// Blast radius of an exploding package, in thousandths of a pixel.
pub const OMEGA_RANGE: i64 = 48_000;

/// The projectile classes.
#[derive(Copy, Clone, Eq, PartialEq, Structural, Debug)]
pub enum Shots {
    Electricity,
    Bomb,
}

/// A fired projectile's damage payload.
#[derive(Copy, Clone, Eq, PartialEq, Structural, Debug)]
pub struct Shot {
    pub class: Shots,
    /// Damage in thousandths of a hit point.
    pub damage: i64,
    /// Speed in thousandths of a pixel per second.
    pub speed: i64,
}

impl Shots {
    fn get_shot(&self, tower: &Tower) -> (r: Shot)
        ensures
            r.class == *self,
            r.damage == tower_stats::damage_spec(tower.model, tower.rank),
            r.speed == 120_000,
    {
        Shot { class: *self, damage: tower.damage(), speed: tower.shot_speed() }
    }

    /// The shot and its hit-volume, as spawned by the firing tower.
    pub fn instantiate(&self, tower: &Tower) -> (r: (Shot, HitBox))
        ensures
            r.0.class == *self,
            r.0.damage == tower_stats::damage_spec(tower.model, tower.rank),
            r.0.speed == 120_000,
            r.1 == (HitBox {
                body_type: BodyType::ShipShot,
                width: 4_000,
                height: 4_000,
                offset: Vec2i { x: 2_000, y: 2_000 },
                single_hit: true,
            }),
    {
        let shot = self.get_shot(tower);
        let solid_body = HitBox {
            body_type: BodyType::ShipShot,
            width: 4_000,
            height: 4_000,
            offset: self.get_offset(),
            single_hit: self.is_single_hit(),
        };
        (shot, solid_body)
    }

    /// Every projectile registers at most one contact in its lifetime.
    pub fn is_single_hit(&self) -> (r: bool)
        ensures
            r == true,
    {
        match self {
            Shots::Electricity => true,
            Shots::Bomb => true,
        }
    }

    pub fn get_tile(&self) -> (r: TILE)
        ensures
            match *self {
                Shots::Electricity => r == (0usize, 0usize, 35usize, 16u8, 8u8, false, 0u8),
                Shots::Bomb => r == (0usize, 0usize, 32usize, 16u8, 10u8, false, 0u8),
            },
    {
        match self {
            Shots::Electricity => (0, 0, 35, 16, 8, false, 0),
            Shots::Bomb => (0, 0, 32, 16, 10, false, 0),
        }
    }

    /// Extents of the projectile's hit-volume, in thousandths of a pixel.
    pub fn get_hitbox(&self) -> (r: Vec2i)
        ensures
            r == (Vec2i { x: 4_000, y: 4_000 }),
    {
        match self {
            _ => Vec2i { x: 4_000, y: 4_000 },
        }
    }

    /// Offset of the projectile's hit-volume from its position.
    pub fn get_offset(&self) -> (r: Vec2i)
        ensures
            r == (Vec2i { x: 2_000, y: 2_000 }),
    {
        match self {
            _ => Vec2i { x: 2_000, y: 2_000 },
        }
    }

    /// Blast radius: only a bomb shot has one.
    pub fn get_bomb_range(&self) -> (r: i64)
        ensures
            r == if self is Bomb {
                BOMB_RANGE
            } else {
                0
            },
    {
        match self {
            Shots::Bomb => BOMB_RANGE,
            _ => 0,
        }
    }
}

impl Shot {
    pub fn get_bomb_range(&self) -> (r: i64)
        ensures
            r == if self.class is Bomb {
                BOMB_RANGE
            } else {
                0
            },
    {
        self.class.get_bomb_range()
    }
}

/// An armed area-damage charge: blast center, radius and damage.
#[derive(Copy, Clone, Eq, PartialEq, Structural, Debug)]
pub struct Bomb {
    pub x: i64,
    pub y: i64,
    pub radius: i64,
    pub damages: i64,
}

impl Bomb {
    pub fn new(pos: Vec2i, radius: i64, damages: i64) -> (r: Self)
        ensures
            r == (Bomb { x: pos.x, y: pos.y, radius, damages }),
    {
        Bomb { x: pos.x, y: pos.y, radius, damages }
    }

    pub fn position(&self) -> (r: Vec2i)
        ensures
            r == (Vec2i { x: self.x, y: self.y }),
    {
        Vec2i { x: self.x, y: self.y }
    }

    /// The charge armed when a bomb shot lands: centered where the shot
    /// stopped, with the bomb blast radius and the shot's damage.
    pub fn from_shot_translation(shot: Shot, tr: Vec2i) -> (r: Self)
        requires
            shot.class is Bomb,
        ensures
            r == (Bomb { x: tr.x, y: tr.y, radius: BOMB_RANGE, damages: shot.damage }),
    {
        Bomb { x: tr.x, y: tr.y, radius: shot.get_bomb_range(), damages: shot.damage }
    }

    /// The point lies within the blast radius (inclusive), by squared
    /// distances.
    pub fn reaches(&self, p: Vec2i) -> (r: bool)
        requires
            coord_ok(Vec2i { x: self.x, y: self.y }),
            coord_ok(p),
            0 <= self.radius <= MAX_COORD,
        ensures
            r == in_blast(*self, p),
    {
        let dx = self.x - p.x;
        let dy = self.y - p.y;
        proof {
            crate::tower::lemma_square_bound(dx as int);
            crate::tower::lemma_square_bound(dy as int);
            crate::tower::lemma_square_bound(self.radius as int);
        }
        dx * dx + dy * dy <= self.radius * self.radius
    }
}

/// The point lies within the bomb's blast radius, inclusive.
pub open spec fn in_blast(bomb: Bomb, p: Vec2i) -> bool {
    dist2(Vec2i { x: bomb.x, y: bomb.y }, p) <= bomb.radius * bomb.radius
}

} // verus!
