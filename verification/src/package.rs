//! Loot packages dropped by dying drones.
//!
//! A package's kind is drawn by weighted random selection from a fixed table;
//! the draw itself is the only unverified step, and the mapping from a
//! uniform roll to a kind is exact.

use vstd::prelude::*;

use crate::sprites::TILE;

verus! {

/// Marks a dropped package that can be collected by clicking it.
#[derive(Copy, Clone, Eq, PartialEq, Structural, Debug)]
pub struct ClickablePackage;

/// The package kinds and their selection weights.
#[derive(Copy, Clone, Eq, PartialEq, Structural, Debug)]
pub enum PackageKind {
    Common,
    Money,
    Cursed,
    Omega,
}

/// Sum of all package-kind weights.
pub const PACKAGE_WEIGHT_TOTAL: u64 = 25;

/// Money gained when a package is collected in sell mode.
pub const MONEY_SELL: u32 = 10;

/// Money gained from a common package.
pub const MONEY_SMALL: u32 = 20;

/// Money gained from a money package.
pub const MONEY_BIG: u32 = 60;

/// Money lost to a cursed package, floored at zero.
pub const MONEY_CURSE: u32 = 30;

impl PackageKind {
    /// Selection weight of the kind; a kind is drawn with probability
    /// weight over the total.
    pub open spec fn weight_spec(self) -> int {
        match self {
            PackageKind::Common => 20,
            PackageKind::Money => 2,
            PackageKind::Cursed => 2,
            PackageKind::Omega => 1,
        }
    }

    /// The kind a uniform roll below the weight total selects: each kind
    /// owns a band of rolls as wide as its weight.
    pub open spec fn from_roll_spec(roll: u64) -> PackageKind {
        if roll < 20 {
            PackageKind::Common
        } else if roll < 22 {
            PackageKind::Money
        } else if roll < 24 {
            PackageKind::Cursed
        } else {
            PackageKind::Omega
        }
    }

    /// Maps a uniform roll to the kind whose band it falls in.
    pub fn from_roll(roll: u64) -> (r: PackageKind)
        requires
            roll < PACKAGE_WEIGHT_TOTAL,
        ensures
            r == PackageKind::from_roll_spec(roll),
    {
        if roll < 20 {
            PackageKind::Common
        } else if roll < 22 {
            PackageKind::Money
        } else if roll < 24 {
            PackageKind::Cursed
        } else {
            PackageKind::Omega
        }
    }

    /// Tileset index of the kind's sprite.
    pub fn get_tile(&self) -> (r: usize)
        ensures
            r == match *self {
                PackageKind::Common => 393int,
                PackageKind::Money => 395int,
                PackageKind::Cursed => 397int,
                PackageKind::Omega => 401int,
            },
    {
        match self {
            PackageKind::Common => 393,
            PackageKind::Money => 395,
            PackageKind::Cursed => 397,
            PackageKind::Omega => 401,
        }
    }
}

/// Relies on rand::random_range over an integer range: the result is drawn
/// from the thread-local generator and always lies within the range; it
/// panics only on an empty range, which the bound excludes.
#[verifier::external_body]
fn random_below(n: u64) -> (r: u64)
    requires
        n > 0,
    ensures
        r < n,
{
    rand::random_range(0..n)
}

/// A loot package carried by a drone and dropped at its death.
#[derive(Copy, Clone, Eq, PartialEq, Structural, Debug)]
pub struct Package {
    pub kind: PackageKind,
}

impl Package {
    /// A package of a random kind, drawn by weighted selection: a uniform
    /// roll below the weight total picks the kind whose band it falls in.
    pub fn new() -> (r: Self)
    {
        let roll = random_below(PACKAGE_WEIGHT_TOTAL);
        Package { kind: PackageKind::from_roll(roll) }
    }

    /// The package's sprite tile.
    pub fn tile(&self) -> (r: TILE)
        ensures
            r.2 == match self.kind {
                PackageKind::Common => 393int,
                PackageKind::Money => 395int,
                PackageKind::Cursed => 397int,
                PackageKind::Omega => 401int,
            },
            r.0 == 0 && r.1 == 0 && r.3 == 14 && r.4 == 11 && r.5 == false && r.6 == 0,
    {
        (0, 0, self.kind.get_tile(), 14, 11, false, 0)
    }
}

} // verus!
