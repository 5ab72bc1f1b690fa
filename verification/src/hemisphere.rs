//! The four hemispheres a geographic coordinate can name.

use vstd::prelude::*;

verus! {

/// One of the four hemispheres.
#[allow(non_camel_case_types)]
#[derive(Debug, Clone, Copy, PartialEq, Eq, Structural)]
pub enum Hemisphere {
    /// North of the equator.
    NORTH,
    /// East of the prime meridian.
    EAST,
    /// South of the equator.
    SOUTH,
    /// West of the prime meridian.
    WEST,
}

/// The one-letter abbreviation of each hemisphere.
pub open spec fn abbreviation_of(h: Hemisphere) -> char {
    match h {
        Hemisphere::NORTH => 'N',
        Hemisphere::EAST => 'E',
        Hemisphere::SOUTH => 'S',
        Hemisphere::WEST => 'W',
    }
}

impl Hemisphere {
    /// The hemisphere's one-letter abbreviation.
    pub fn abbreviation(self) -> (c: char)
        ensures
            c == abbreviation_of(self),
    {
        match self {
            Self::NORTH => 'N',
            Self::EAST => 'E',
            Self::SOUTH => 'S',
            Self::WEST => 'W',
        }
    }
}

} // verus!
