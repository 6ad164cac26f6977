//! Core simulation engine of a tower-defense battle: path interpolation,
//! axis-aligned collision detection, enemy lifecycle, tower targeting and
//! economics, projectile and area damage, and the scripted wave scheduler.
//!
//! All geometry and time is modelled with fixed-point integers: lengths and
//! coordinates are thousandths of a tile side, durations are milliseconds.

pub mod battle;
pub mod collision;
pub mod drones;
pub mod grid;
pub mod package;
pub mod palette;
pub mod path;
pub mod shot;
pub mod sprites;
pub mod tower;
pub mod tower_stats;
pub mod waves;
