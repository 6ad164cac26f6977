//! The fixed sixteen-color palette, plus a transparent entry.

use vstd::prelude::*;

verus! {

/// A palette slot; rendering layers map each slot to a concrete color.
#[derive(Copy, Clone, Eq, PartialEq, Structural, Hash, Debug)]
pub enum Palette {
    A,
    B,
    C,
    D,
    E,
    F,
    G,
    H,
    I,
    J,
    K,
    L,
    M,
    N,
    O,
    P,
    Transparent,
}

pub open spec fn palette_of_index_spec(v: u8) -> Palette {
    if v == 0 {
        Palette::A
    } else if v == 1 {
        Palette::B
    } else if v == 2 {
        Palette::C
    } else if v == 3 {
        Palette::D
    } else if v == 4 {
        Palette::E
    } else if v == 5 {
        Palette::F
    } else if v == 6 {
        Palette::G
    } else if v == 7 {
        Palette::H
    } else if v == 8 {
        Palette::I
    } else if v == 9 {
        Palette::J
    } else if v == 10 {
        Palette::K
    } else if v == 11 {
        Palette::L
    } else if v == 12 {
        Palette::M
    } else if v == 13 {
        Palette::N
    } else if v == 14 {
        Palette::O
    } else if v == 15 {
        Palette::P
    } else {
        Palette::Transparent
    }
}

impl Palette {
    /// The palette slot a tile's color byte selects; anything past the
    /// sixteen colors is transparent.
    pub fn from_index(v: u8) -> (r: Palette)
        ensures
            r == palette_of_index_spec(v),
    {
        match v {
            0 => Palette::A,
            1 => Palette::B,
            2 => Palette::C,
            3 => Palette::D,
            4 => Palette::E,
            5 => Palette::F,
            6 => Palette::G,
            7 => Palette::H,
            8 => Palette::I,
            9 => Palette::J,
            10 => Palette::K,
            11 => Palette::L,
            12 => Palette::M,
            13 => Palette::N,
            14 => Palette::O,
            15 => Palette::P,
            _ => Palette::Transparent,
        }
    }
}

} // verus!
