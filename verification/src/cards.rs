//! Cards, suits and the small text helpers shared by the solvers.

use vstd::prelude::*;

verus! {

/// The four French suits, in foundation order.
#[derive(Debug, Clone, Copy, PartialEq, Eq, Hash, Structural)]
pub enum Suit {
    Clubs,
    Diamonds,
    Hearts,
    Spades,
}

/// A playing card: suit, rank (1 = ace .. 13 = king) and orientation.
#[derive(Debug, Clone, Copy, PartialEq, Eq, Hash, Structural)]
pub struct Card {
    pub suit: Suit,
    pub rank: u8,
    pub face_up: bool,
}

/// Foundation slot of a suit: clubs, diamonds, hearts, spades.
pub open spec fn suit_index_spec(suit: Suit) -> nat {
    match suit {
        Suit::Clubs => 0,
        Suit::Diamonds => 1,
        Suit::Hearts => 2,
        Suit::Spades => 3,
    }
}

pub open spec fn suit_is_red(suit: Suit) -> bool {
    suit == Suit::Diamonds || suit == Suit::Hearts
}

impl Suit {
    pub fn foundation_index(self) -> (r: usize)
        ensures
            r == suit_index_spec(self),
    {
        match self {
            Suit::Clubs => 0,
            Suit::Diamonds => 1,
            Suit::Hearts => 2,
            Suit::Spades => 3,
        }
    }
}

impl Card {
    pub fn color_red(self) -> (r: bool)
        ensures
            r == suit_is_red(self.suit),
    {
        match self.suit {
            Suit::Diamonds | Suit::Hearts => true,
            _ => false,
        }
    }
}

} // verus!
