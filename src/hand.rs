use vstd::prelude::*;
use crate::card::Card;

verus! {

/// The sum of the cards' values, every ace counted as 1.
pub open spec fn hard_total(cards: Seq<Card>) -> nat
    decreases cards.len(),
{
    if cards.len() == 0 {
        0
    } else {
        hard_total(cards.drop_last()) + cards.last().value() as nat
    }
}

pub open spec fn holds_ace(cards: Seq<Card>) -> bool {
    exists|i: int| 0 <= i < cards.len() && #[trigger] cards[i].is_ace_spec()
}

/// The soft total: one ace counted as 11, present only while that does not bust.
pub open spec fn soft_total(cards: Seq<Card>) -> Option<nat> {
    if holds_ace(cards) && hard_total(cards) + 10 <= 21 {
        Some(hard_total(cards) + 10)
    } else {
        None
    }
}

/// The value of `cards` as a `HandValue`.
pub open spec fn value_of(cards: Seq<Card>) -> HandValue {
    HandValue {
        hard: hard_total(cards) as u8,
        soft: match soft_total(cards) {
            Some(s) => Some(s as u8),
            None => None,
        },
    }
}

/// The value of a hand: its hard total and, while an ace can count as 11
/// without busting, its soft total.
#[derive(Clone, Copy, PartialEq, Eq, Structural, Debug)]
pub struct HandValue {
    pub hard: u8,
    pub soft: Option<u8>,
}

impl HandValue {
    /// Whether `self` is the value of `cards`.
    pub open spec fn of(self, cards: Seq<Card>) -> bool {
        &&& self.hard as nat == hard_total(cards)
        &&& match soft_total(cards) {
            Some(s) => self.soft == Some(s as u8),
            None => self.soft.is_none(),
        }
    }

    /// A value that is the value of `cards` is `value_of(cards)`.
    pub proof fn lemma_of_is_value_of(self, cards: Seq<Card>)
        requires
            self.of(cards),
        ensures
            self == value_of(cards),
    {
    }

    /// The best total: the soft one when present, else the hard one.
    pub open spec fn best_spec(self) -> u8 {
        match self.soft {
            Some(s) => s,
            None => self.hard,
        }
    }

    pub open spec fn busted_spec(self) -> bool {
        self.hard > 21
    }

    /// The value of a hand with no cards.
    pub fn empty() -> (v: HandValue)
        ensures
            v.of(Seq::empty()),
    {
        HandValue { hard: 0, soft: None }
    }

    /// The value after one more card is received.
    pub fn add_card(&mut self, card: Card, Ghost(cards): Ghost<Seq<Card>>)
        requires
            old(self).of(cards),
            old(self).hard <= 21,
            card.wf(),
        ensures
            final(self).of(cards.push(card)),
            final(self).hard == old(self).hard + card.value(),
    {
        proof {
            lemma_push(cards, card);
        }
        let v = card.val();
        let hard = self.hard + v;
        let soft = match self.soft {
            Some(_) => {
                if hard + 10 <= 21 {
                    Some(hard + 10)
                } else {
                    None
                }
            },
            None => {
                if card.is_ace() && hard + 10 <= 21 {
                    Some(hard + 10)
                } else {
                    None
                }
            },
        };
        self.hard = hard;
        self.soft = soft;
    }

    /// The best total of the hand: the soft total when present, else the hard one.
    pub fn best(&self) -> (b: u8)
        ensures
            b == self.best_spec(),
    {
        match self.soft {
            Some(s) => s,
            None => self.hard,
        }
    }

    /// Whether every total of the hand is over 21.
    pub fn busted(&self) -> (b: bool)
        ensures
            b == self.busted_spec(),
    {
        self.hard > 21
    }

    /// Whether the hand has a soft total.
    pub fn is_soft(&self) -> (b: bool)
        ensures
            b == self.soft.is_some(),
    {
        self.soft.is_some()
    }
}

/// Adding a card adds its value to the hard total, and the hand holds an ace
/// exactly when it held one before or the new card is one.
pub proof fn lemma_push(cards: Seq<Card>, card: Card)
    ensures
        hard_total(cards.push(card)) == hard_total(cards) + card.value(),
        holds_ace(cards.push(card)) == (holds_ace(cards) || card.is_ace_spec()),
{
    let s = cards.push(card);
    assert(s.drop_last() =~= cards);
    if holds_ace(cards) {
        let i = choose|i: int| 0 <= i < cards.len() && #[trigger] cards[i].is_ace_spec();
        assert(s[i] == cards[i]);
    }
    if holds_ace(s) && !card.is_ace_spec() {
        let i = choose|i: int| 0 <= i < s.len() && #[trigger] s[i].is_ace_spec();
        assert(cards[i] == s[i]);
    }
    if card.is_ace_spec() {
        assert(s[cards.len() as int].is_ace_spec());
    }
}

} // verus!
