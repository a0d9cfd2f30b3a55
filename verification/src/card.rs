//! Tiles and melds.

use vstd::prelude::*;

verus! {

/// Number of physical tiles in the deck.
pub const TILES: u8 = 96;

/// One physical tile, identified by a single byte.
///
/// The tiles in play have ids below [`TILES`]: 24 kinds of four copies each, in 8 categories
/// of three kinds. The classification below is defined for every byte, so no function has
/// to refuse a stray id.
#[derive(Clone, Copy, Debug, PartialEq, Eq, Structural, Default)]
pub struct Card(pub u8);

/// A set of tiles a seat has revealed after claiming a discard.
#[derive(Clone, Copy, Debug, PartialEq, Eq, Structural)]
pub enum Pairing {
    /// Three copies: the claimed discard and two tiles from the hand.
    Triplet(Card),
    /// Four copies: the claimed discard and three tiles from the hand.
    Quadlet(Card),
}

impl Card {
    /// The kind of the tile: four consecutive ids are copies of one kind.
    pub open spec fn kind(self) -> int {
        self.0 as int / 4
    }

    /// The category of the tile: three consecutive kinds form a run family.
    pub open spec fn category(self) -> int {
        self.0 as int / 12
    }

    /// Whether the tile is one of the deck's tiles.
    pub open spec fn in_deck(self) -> bool {
        self.0 < TILES
    }

    /// Whether two tiles are copies of the same kind.
    pub fn is_same_kind(&self, other: &Card) -> (same: bool)
        ensures
            same == (self.kind() == other.kind()),
    {
        self.0 / 4 == other.0 / 4
    }
}

impl Pairing {
    /// The tile the meld was claimed on.
    pub open spec fn card(self) -> Card {
        match self {
            Pairing::Triplet(c) => c,
            Pairing::Quadlet(c) => c,
        }
    }

    /// The number of copies the meld reveals.
    pub open spec fn size(self) -> nat {
        match self {
            Pairing::Triplet(_) => 3,
            Pairing::Quadlet(_) => 4,
        }
    }
}

} // verus!
