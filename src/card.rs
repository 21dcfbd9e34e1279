use vstd::prelude::*;

verus! {

/// The four suits of a standard deck.
#[derive(Clone, Copy, Debug, PartialEq, Eq, Structural)]
pub enum Suit {
    Spades,
    Hearts,
    Diamonds,
    Clubs,
}

/// An immutable playing card; ranks run from 0 (ace) to 12 (king).
#[derive(Clone, Copy, Debug, PartialEq, Eq, Structural)]
pub struct Card {
    pub suit: Suit,
    pub rank: u8,
}

/// Number of ranks in each suit.
pub const RANKS: u8 = 13;

/// The suit numbered `i` (taken modulo four).
pub open spec fn suit_of(i: int) -> Suit {
    if i % 4 == 0 {
        Suit::Spades
    } else if i % 4 == 1 {
        Suit::Hearts
    } else if i % 4 == 2 {
        Suit::Diamonds
    } else {
        Suit::Clubs
    }
}

impl Card {
    /// A card that exists in a standard deck.
    pub open spec fn valid(self) -> bool {
        self.rank < RANKS
    }

    pub fn new(suit: Suit, rank: u8) -> (c: Card)
        ensures
            c.suit == suit,
            c.rank == rank,
    {
        Card { suit, rank }
    }

    pub fn get_suit(&self) -> (s: Suit)
        ensures
            s == self.suit,
    {
        self.suit
    }

    pub fn get_rank(&self) -> (r: u8)
        ensures
            r == self.rank,
    {
        self.rank
    }
}

/// Computes `suit_of(i)`.
pub fn suit_from_index(i: usize) -> (s: Suit)
    ensures
        s == suit_of(i as int),
{
    let m: usize = i % 4;
    if m == 0 {
        Suit::Spades
    } else if m == 1 {
        Suit::Hearts
    } else if m == 2 {
        Suit::Diamonds
    } else {
        Suit::Clubs
    }
}

} // verus!
