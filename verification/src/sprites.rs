//! Sprite tile tables for drones and towers, and per-model geometry.
//!
//! A `TILE` is `(x, y, index, bg, fg, flip, rotation)`: a cell of the sprite
//! in tile coordinates from its bottom-left corner, its tileset index, its
//! palette indices, and its orientation. The geometry helpers return
//! world-space extents in thousandths of a pixel (one tile side is 8 pixels).

use vstd::prelude::*;

use crate::path::{Vec2i, MAX_COORD};

verus! {

pub type TILE = (usize, usize, usize, u8, u8, bool, u8);

/// One thousandth of a pixel, the unit of world-space geometry.
pub const PIXEL: i64 = 1000;

/// World-space length of one tile side: 8 pixels.
pub const TILE_PX: i64 = 8000;

/// The visual model of each drone kind.
#[derive(Copy, Clone, Eq, PartialEq, Structural, Debug)]
pub enum DroneModels {
    Simple1,
    Simple2,
    Simple3,
    Medium1,
    Medium2,
    Medium3,
    Medium4,
    Big1,
    Big2,
    Invader,
}

/// Every tile of a drone or tower sprite stays within a 3-by-3 cell block.
pub open spec fn tiles_in_block(s: Seq<TILE>) -> bool {
    forall|k: int| 0 <= k < s.len() ==> (#[trigger] s[k]).0 <= 2 && s[k].1 <= 2
}

impl DroneModels {
    /// Columns and rows of the model's sprite, in tiles.
    pub open spec fn block_size(self) -> (int, int) {
        match self {
            DroneModels::Simple1 | DroneModels::Simple2 | DroneModels::Simple3 => (1, 3),
            DroneModels::Medium1 | DroneModels::Medium2 | DroneModels::Medium3
            | DroneModels::Medium4 => (2, 3),
            DroneModels::Big1 | DroneModels::Big2 | DroneModels::Invader => (3, 3),
        }
    }

    /// The sprite tiles of the model. The tiles fill exactly the model's
    /// block: some tile reaches the rightmost column and some tile the top
    /// row, and none goes beyond.
    pub fn get_tiles(&self) -> (r: Vec<TILE>)
        ensures
            r@.len() >= 1,
            tiles_in_block(r@),
            forall|k: int|
                0 <= k < r@.len() ==> (#[trigger] r@[k]).0 < self.block_size().0 && r@[k].1
                    < self.block_size().1,
            exists|k: int| 0 <= k < r@.len() && (#[trigger] r@[k]).0 == self.block_size().0 - 1,
            exists|k: int| 0 <= k < r@.len() && (#[trigger] r@[k]).1 == self.block_size().1 - 1,
    {
        match self {
            DroneModels::Simple1 => vec![
                (0, 2, 17, 16, 9, false, 0),
                (0, 1, 19, 16, 9, false, 0),
                (0, 0, 46, 16, 9, false, 0),
            ],
            DroneModels::Simple2 => vec![
                (0, 2, 17, 16, 9, false, 0),
                (0, 1, 50, 16, 9, false, 0),
                (0, 0, 46, 16, 9, false, 0),
            ],
            DroneModels::Simple3 => vec![
                (0, 2, 17, 16, 9, false, 0),
                (0, 1, 52, 16, 9, false, 0),
                (0, 0, 46, 16, 9, false, 0),
            ],
            DroneModels::Medium1 => vec![
                (0, 2, 9, 16, 9, false, 0),
                (1, 2, 9, 16, 9, true, 0),
                (0, 1, 44, 16, 9, false, 0),
                (1, 1, 44, 16, 9, true, 0),
                (0, 0, 42, 16, 9, false, 0),
                (1, 0, 42, 16, 9, true, 0),
            ],
            DroneModels::Medium2 => vec![
                (0, 2, 9, 16, 9, false, 0),
                (1, 2, 9, 16, 9, true, 0),
                (0, 1, 40, 16, 9, false, 0),
                (1, 1, 40, 16, 9, true, 0),
                (0, 0, 38, 16, 9, false, 0),
                (1, 0, 38, 16, 9, true, 0),
            ],
            DroneModels::Medium3 => vec![
                (0, 2, 9, 16, 9, false, 0),
                (1, 2, 9, 16, 9, true, 0),
                (0, 1, 40, 16, 9, true, 0),
                (1, 1, 40, 16, 9, false, 0),
                (0, 0, 36, 16, 9, false, 0),
                (1, 0, 36, 16, 9, true, 0),
            ],
            DroneModels::Medium4 => vec![
                (0, 2, 9, 16, 9, false, 0),
                (1, 2, 9, 16, 9, true, 0),
                (0, 1, 5, 16, 9, false, 0),
                (1, 1, 5, 16, 9, true, 0),
                (0, 0, 13, 16, 9, true, 2),
                (1, 0, 13, 16, 9, false, 2),
            ],
            DroneModels::Big1 => vec![
                (0, 2, 21, 16, 9, false, 0),
                (1, 2, 22, 16, 9, false, 0),
                (2, 2, 21, 16, 9, true, 0),
                (0, 1, 53, 16, 9, false, 0),
                (1, 1, 54, 16, 9, true, 0),
                (2, 1, 53, 16, 9, true, 0),
                (0, 0, 85, 16, 9, false, 0),
                (1, 0, 86, 16, 9, true, 0),
                (2, 0, 85, 16, 9, true, 0),
            ],
            DroneModels::Big2 => vec![
                (0, 2, 21, 16, 9, false, 0),
                (1, 2, 22, 16, 9, false, 0),
                (2, 2, 21, 16, 9, true, 0),
                (0, 1, 149, 16, 9, false, 0),
                (1, 1, 150, 16, 9, false, 0),
                (2, 1, 149, 16, 9, true, 0),
                (0, 0, 181, 16, 9, false, 0),
                (1, 0, 182, 16, 9, false, 0),
                (2, 0, 181, 16, 9, true, 0),
            ],
            DroneModels::Invader => vec![
                (0, 2, 147, 16, 9, false, 0),
                (1, 2, 148, 16, 9, false, 0),
                (2, 2, 147, 16, 9, true, 0),
                (0, 1, 179, 16, 9, false, 0),
                (1, 1, 180, 16, 9, false, 0),
                (2, 1, 179, 16, 9, true, 0),
                (0, 0, 416, 16, 16, false, 0),
                (1, 0, 416, 16, 16, false, 0),
                (2, 0, 416, 16, 16, false, 0),
            ],
        }
    }

    /// Offset of the carried package from the model's bottom-left corner, in
    /// thousandths of a pixel.
    pub fn package_offset(&self) -> (r: Vec2i)
        ensures
            -8 * PIXEL <= r.x <= 8 * PIXEL,
            -8 * PIXEL <= r.y <= 8 * PIXEL,
    {
        match self {
            DroneModels::Simple1 => Vec2i { x: 0, y: -1_000 },
            DroneModels::Simple2 => Vec2i { x: 0, y: -1_000 },
            DroneModels::Simple3 => Vec2i { x: 0, y: -1_000 },
            DroneModels::Medium1 => Vec2i { x: 4_000, y: 7_000 },
            DroneModels::Medium2 => Vec2i { x: 4_000, y: -3_000 },
            DroneModels::Medium3 => Vec2i { x: 4_000, y: -2_000 },
            DroneModels::Medium4 => Vec2i { x: 4_000, y: -5_000 },
            DroneModels::Big1 => Vec2i { x: 8_000, y: -4_000 },
            DroneModels::Big2 => Vec2i { x: 8_000, y: -1_000 },
            DroneModels::Invader => Vec2i { x: 8_000, y: 2_000 },
        }
    }

    /// Extents of the model's hit-volume, as a value.
    pub open spec fn hitbox_spec(self) -> Vec2i {
        match self {
            DroneModels::Simple1 | DroneModels::Simple2 | DroneModels::Simple3 => Vec2i {
                x: 8_000,
                y: 13_000,
            },
            DroneModels::Medium1 => Vec2i { x: 14_000, y: 11_000 },
            DroneModels::Medium2 | DroneModels::Medium3 | DroneModels::Medium4 => Vec2i {
                x: 16_000,
                y: 8_000,
            },
            DroneModels::Big1 | DroneModels::Big2 => Vec2i { x: 24_000, y: 8_000 },
            DroneModels::Invader => Vec2i { x: 24_000, y: 24_000 },
        }
    }

    /// Extents of the model's hit-volume, in thousandths of a pixel.
    pub fn get_hitbox(&self) -> (r: Vec2i)
        ensures
            r == self.hitbox_spec(),
            0 < r.x <= MAX_COORD,
            0 < r.y <= MAX_COORD,
    {
        match self {
            DroneModels::Simple1 | DroneModels::Simple2 | DroneModels::Simple3 => Vec2i {
                x: 8_000,
                y: 13_000,
            },
            DroneModels::Medium1 => Vec2i { x: 14_000, y: 11_000 },
            DroneModels::Medium2 | DroneModels::Medium3 | DroneModels::Medium4 => Vec2i {
                x: 16_000,
                y: 8_000,
            },
            DroneModels::Big1 | DroneModels::Big2 => Vec2i { x: 24_000, y: 8_000 },
            // The invader's hit-volume covers its whole three-tile block.
            DroneModels::Invader => Vec2i { x: 24_000, y: 24_000 },
        }
    }

    /// Offset of the model's hit-volume from its position, as a value.
    pub open spec fn offset_spec(self) -> Vec2i {
        match self {
            DroneModels::Simple1 | DroneModels::Simple2 | DroneModels::Simple3 => Vec2i {
                x: 0,
                y: 5_000,
            },
            DroneModels::Medium1 => Vec2i { x: 1_000, y: 5_000 },
            DroneModels::Medium2 | DroneModels::Medium3 | DroneModels::Medium4 => Vec2i {
                x: 0,
                y: 8_000,
            },
            DroneModels::Big1 | DroneModels::Big2 => Vec2i { x: 0, y: 8_000 },
            DroneModels::Invader => Vec2i { x: 0, y: 0 },
        }
    }

    /// Offset of the model's hit-volume from its position, in thousandths of
    /// a pixel.
    pub fn get_offset(&self) -> (r: Vec2i)
        ensures
            r == self.offset_spec(),
            0 <= r.x <= MAX_COORD,
            0 <= r.y <= MAX_COORD,
    {
        match self {
            DroneModels::Simple1 | DroneModels::Simple2 | DroneModels::Simple3 => Vec2i {
                x: 0,
                y: 5_000,
            },
            DroneModels::Medium1 => Vec2i { x: 1_000, y: 5_000 },
            DroneModels::Medium2 | DroneModels::Medium3 | DroneModels::Medium4 => Vec2i {
                x: 0,
                y: 8_000,
            },
            DroneModels::Big1 | DroneModels::Big2 => Vec2i { x: 0, y: 8_000 },
            DroneModels::Invader => Vec2i { x: 0, y: 0 },
        }
    }
}

} // verus!
