use vstd::prelude::*;

verus! {

/// The four suits of a standard deck.
#[derive(Clone, Copy, PartialEq, Eq, Structural, Debug)]
pub enum Suit {
    Hearts,
    Diamonds,
    Clubs,
    Spades,
}

impl Suit {
    pub open spec fn is_red_spec(self) -> bool {
        self == Suit::Hearts || self == Suit::Diamonds
    }

    /// Hearts and diamonds are red.
    pub fn is_red(&self) -> (r: bool)
        ensures
            r == self.is_red_spec(),
    {
        match self {
            Suit::Hearts | Suit::Diamonds => true,
            _ => false,
        }
    }
}

/// A playing card. `rank` runs from 1 (ace) to 13 (king); jack, queen and king
/// are 11, 12 and 13.
#[derive(Clone, Copy, PartialEq, Eq, Structural, Debug)]
pub struct Card {
    pub rank: u8,
    pub suit: Suit,
}

/// The blackjack value of a rank: face cards count 10, an ace counts 1.
pub open spec fn rank_value(rank: u8) -> u8 {
    if rank >= 10 {
        10
    } else {
        rank
    }
}

impl Card {
    pub open spec fn wf(self) -> bool {
        1 <= self.rank <= 13
    }

    pub open spec fn value(self) -> u8 {
        rank_value(self.rank)
    }

    pub open spec fn is_ace_spec(self) -> bool {
        self.rank == 1
    }

    /// A card of the given rank (1 for an ace up to 13 for a king) and suit.
    pub fn new(rank: u8, suit: Suit) -> (c: Card)
        requires
            1 <= rank <= 13,
        ensures
            c.wf(),
            c.rank == rank,
            c.suit == suit,
    {
        Card { rank, suit }
    }

    /// The card's numeric value, from 1 to 10.
    pub fn val(&self) -> (v: u8)
        ensures
            v == self.value(),
    {
        if self.rank >= 10 {
            10
        } else {
            self.rank
        }
    }

    /// Whether the card is an ace.
    pub fn is_ace(&self) -> (b: bool)
        ensures
            b == self.is_ace_spec(),
    {
        self.rank == 1
    }
}

} // verus!
