use vstd::prelude::*;
use crate::card::{Card, Suit};

verus! {

/// The card-counting systems. Each assigns every card a point value; the
/// running count is the sum of the points of the cards seen since the last
/// shuffle. Points are kept in half-points so that the halves systems stay exact.
#[derive(Clone, Copy, PartialEq, Eq, Structural, Debug)]
pub enum CountingSystem {
    HiLo,
    WongHalves,
    KO,
    HiOptI,
    HiOptII,
    RedSeven,
    OmegaII,
    AceFive,
    ZenCount,
    Halves,
    KISS,
    KISSII,
    KISSIII,
    JNoir,
    SilverFox,
    UnbalancedZen2,
}

/// The points, in half-points, that `system` gives a card of value `v` (1 for
/// an ace, 10 for a ten or face card), of a red suit when `red`.
pub open spec fn points(system: CountingSystem, v: u8, red: bool) -> int {
    match system {
        CountingSystem::HiLo => if 2 <= v <= 6 { 2 } else if 7 <= v <= 9 { 0 } else { -2 },
        CountingSystem::WongHalves | CountingSystem::Halves => {
            if v == 2 || v == 7 { 1 }
            else if v == 3 || v == 4 || v == 6 { 2 }
            else if v == 5 { 3 }
            else if v == 8 { 0 }
            else if v == 9 { -1 }
            else { -2 }
        },
        CountingSystem::KO => if 2 <= v <= 7 { 2 } else if v == 8 || v == 9 { 0 } else { -2 },
        CountingSystem::HiOptI => if 3 <= v <= 6 { 2 } else if v == 10 { -2 } else { 0 },
        CountingSystem::HiOptII => {
            if v == 4 || v == 5 { 4 }
            else if v == 2 || v == 3 || v == 6 || v == 7 { 2 }
            else if v == 10 { -4 }
            else { 0 }
        },
        CountingSystem::RedSeven => {
            if v == 7 { if red { 2 } else { 0 } }
            else if v == 8 || v == 9 { 0 }
            else { -2 }
        },
        CountingSystem::OmegaII => {
            if 4 <= v <= 6 { 4 }
            else if v == 2 || v == 3 || v == 7 { 2 }
            else if v == 9 { -2 }
            else if v == 10 { -4 }
            else { 0 }
        },
        CountingSystem::AceFive => if v == 5 { 2 } else if v == 1 { -2 } else { 0 },
        CountingSystem::ZenCount => {
            if 4 <= v <= 6 { 4 }
            else if v == 2 || v == 3 || v == 7 { 2 }
            else if v == 10 { -4 }
            else if v == 1 { -2 }
            else { 0 }
        },
        CountingSystem::KISS => if 4 <= v <= 6 { 2 } else if v == 10 { -2 } else { 0 },
        CountingSystem::KISSII => {
            if v == 2 || v == 3 { if red { 0 } else { 2 } }
            else if 4 <= v <= 6 { 2 }
            else if 7 <= v <= 9 { 0 }
            else { -2 }
        },
        CountingSystem::KISSIII => {
            if v == 2 { if red { 0 } else { 2 } }
            else if 3 <= v <= 7 { 2 }
            else if v == 8 || v == 9 { 0 }
            else { -2 }
        },
        CountingSystem::JNoir => if 3 <= v <= 9 { 2 } else { -4 },
        CountingSystem::SilverFox => if 2 <= v <= 7 { 2 } else if v == 8 { 0 } else { -2 },
        CountingSystem::UnbalancedZen2 => {
            if 3 <= v <= 6 { 4 }
            else if v == 2 || v == 7 { 2 }
            else if v == 8 || v == 9 { 0 }
            else if v == 10 { -4 }
            else { -2 }
        },
    }
}

/// The points, in half-points, that `system` gives `card`.
pub open spec fn card_points(system: CountingSystem, card: Card) -> int {
    points(system, card.value(), card.suit.is_red_spec())
}

/// The running count, in half-points, with which `system` starts a shoe of
/// `num_decks` decks: the knock-out count starts at 4 - 4 per deck.
pub open spec fn initial_count(system: CountingSystem, num_decks: u32) -> int {
    if system == CountingSystem::KO {
        8 - 8 * num_decks
    } else {
        0
    }
}

/// The sum of the points of `cards`, in half-points.
pub open spec fn points_sum(system: CountingSystem, cards: Seq<Card>) -> int
    decreases cards.len(),
{
    if cards.len() == 0 {
        0
    } else {
        points_sum(system, cards.drop_last()) + card_points(system, cards.last())
    }
}

/// Whether `system` keeps a true count; the others use the running count in
/// its place.
pub open spec fn keeps_true_count(system: CountingSystem) -> bool {
    system != CountingSystem::KO && system != CountingSystem::AceFive
}

/// The name of a counting system.
pub open spec fn system_name(system: CountingSystem) -> Seq<char> {
    match system {
        CountingSystem::HiLo => "HiLo"@,
        CountingSystem::WongHalves => "Wong Halves"@,
        CountingSystem::KO => "KO"@,
        CountingSystem::HiOptI => "HiOptI"@,
        CountingSystem::HiOptII => "HiOptII"@,
        CountingSystem::RedSeven => "Red Seven"@,
        CountingSystem::OmegaII => "OmegaII"@,
        CountingSystem::AceFive => "Ace/Five"@,
        CountingSystem::ZenCount => "Zen Count"@,
        CountingSystem::Halves => "Halves"@,
        CountingSystem::KISS => "KISS"@,
        CountingSystem::KISSII => "KISS II"@,
        CountingSystem::KISSIII => "KISS III"@,
        CountingSystem::JNoir => "J. Noir"@,
        CountingSystem::SilverFox => "Silver Fox"@,
        CountingSystem::UnbalancedZen2 => "Unbalanced Zen 2"@,
    }
}

/// The most cards a counter may see between two resets.
pub const MAX_CARDS_COUNTED: u64 = 0x100_0000_0000;

impl CountingSystem {
    /// The system's name.
    pub fn name(&self) -> (s: String)
        ensures
            s@ == system_name(*self),
    {
        let n: &str = match self {
            CountingSystem::HiLo => "HiLo",
            CountingSystem::WongHalves => "Wong Halves",
            CountingSystem::KO => "KO",
            CountingSystem::HiOptI => "HiOptI",
            CountingSystem::HiOptII => "HiOptII",
            CountingSystem::RedSeven => "Red Seven",
            CountingSystem::OmegaII => "OmegaII",
            CountingSystem::AceFive => "Ace/Five",
            CountingSystem::ZenCount => "Zen Count",
            CountingSystem::Halves => "Halves",
            CountingSystem::KISS => "KISS",
            CountingSystem::KISSII => "KISS II",
            CountingSystem::KISSIII => "KISS III",
            CountingSystem::JNoir => "J. Noir",
            CountingSystem::SilverFox => "Silver Fox",
            CountingSystem::UnbalancedZen2 => "Unbalanced Zen 2",
        };
        n.to_owned()
    }

    /// The points of `card` under this system, in half-points.
    pub fn card_points(&self, card: &Card) -> (p: i64)
        ensures
            p == card_points(*self, *card),
            -4 <= p <= 4,
    {
        let v = card.val();
        let red = card.suit.is_red();
        match self {
            CountingSystem::HiLo => if 2 <= v && v <= 6 { 2 } else if 7 <= v && v <= 9 { 0 } else { -2 },
            CountingSystem::WongHalves | CountingSystem::Halves => {
                if v == 2 || v == 7 { 1 }
                else if v == 3 || v == 4 || v == 6 { 2 }
                else if v == 5 { 3 }
                else if v == 8 { 0 }
                else if v == 9 { -1 }
                else { -2 }
            },
            CountingSystem::KO => if 2 <= v && v <= 7 { 2 } else if v == 8 || v == 9 { 0 } else { -2 },
            CountingSystem::HiOptI => if 3 <= v && v <= 6 { 2 } else if v == 10 { -2 } else { 0 },
            CountingSystem::HiOptII => {
                if v == 4 || v == 5 { 4 }
                else if v == 2 || v == 3 || v == 6 || v == 7 { 2 }
                else if v == 10 { -4 }
                else { 0 }
            },
            CountingSystem::RedSeven => {
                if v == 7 { if red { 2 } else { 0 } }
                else if v == 8 || v == 9 { 0 }
                else { -2 }
            },
            CountingSystem::OmegaII => {
                if 4 <= v && v <= 6 { 4 }
                else if v == 2 || v == 3 || v == 7 { 2 }
                else if v == 9 { -2 }
                else if v == 10 { -4 }
                else { 0 }
            },
            CountingSystem::AceFive => if v == 5 { 2 } else if v == 1 { -2 } else { 0 },
            CountingSystem::ZenCount => {
                if 4 <= v && v <= 6 { 4 }
                else if v == 2 || v == 3 || v == 7 { 2 }
                else if v == 10 { -4 }
                else if v == 1 { -2 }
                else { 0 }
            },
            CountingSystem::KISS => if 4 <= v && v <= 6 { 2 } else if v == 10 { -2 } else { 0 },
            CountingSystem::KISSII => {
                if v == 2 || v == 3 { if red { 0 } else { 2 } }
                else if 4 <= v && v <= 6 { 2 }
                else if 7 <= v && v <= 9 { 0 }
                else { -2 }
            },
            CountingSystem::KISSIII => {
                if v == 2 { if red { 0 } else { 2 } }
                else if 3 <= v && v <= 7 { 2 }
                else if v == 8 || v == 9 { 0 }
                else { -2 }
            },
            CountingSystem::JNoir => if 3 <= v && v <= 9 { 2 } else { -4 },
            CountingSystem::SilverFox => if 2 <= v && v <= 7 { 2 } else if v == 8 { 0 } else { -2 },
            CountingSystem::UnbalancedZen2 => {
                if 3 <= v && v <= 6 { 4 }
                else if v == 2 || v == 7 { 2 }
                else if v == 8 || v == 9 { 0 }
                else if v == 10 { -4 }
                else { -2 }
            },
        }
    }
}

/// A count kept by one counting system over the cards seen since the last
/// shuffle.
#[derive(Clone, Copy, Debug)]
pub struct Counter {
    pub system: CountingSystem,
    pub num_decks: u32,
    /// The running count, in half-points.
    pub running: i64,
    /// How many cards were counted since the last reset.
    pub seen: u64,
}

impl Counter {
    pub open spec fn wf(self) -> bool {
        &&& self.seen <= MAX_CARDS_COUNTED
        &&& initial_count(self.system, self.num_decks) - 4 * self.seen <= self.running
        &&& self.running <= initial_count(self.system, self.num_decks) + 4 * self.seen
    }

    /// Whether the counter has counted exactly `cards` since its last reset.
    pub open spec fn counted(self, cards: Seq<Card>) -> bool {
        &&& self.seen == cards.len()
        &&& self.running == initial_count(self.system, self.num_decks) + points_sum(
            self.system,
            cards,
        )
    }

    /// The denominator of the true count: the cards left in the shoe, at
    /// least one (the true count is the running count per 52 cards left).
    pub open spec fn cards_left(self) -> int {
        let d = 52 * self.num_decks - self.seen;
        if d >= 1 {
            d
        } else {
            1
        }
    }

    /// The true count as a fraction `(numerator, denominator)` with a
    /// positive denominator. Systems without a true count use the running count.
    pub open spec fn true_count_spec(self) -> (int, int) {
        if keeps_true_count(self.system) {
            (26 * self.running, self.cards_left())
        } else {
            (self.running as int, 2)
        }
    }

    /// A fresh counter for `system` over a shoe of `num_decks` decks.
    pub fn new(system: CountingSystem, num_decks: u32) -> (c: Counter)
        ensures
            c.wf(),
            c.system == system,
            c.num_decks == num_decks,
            c.counted(Seq::empty()),
    {
        let running: i64 = if let CountingSystem::KO = system {
            8 - 8 * (num_decks as i64)
        } else {
            0
        };
        Counter { system, num_decks, running, seen: 0 }
    }

    /// Counts one more card.
    pub fn update(&mut self, card: &Card)
        requires
            old(self).wf(),
            old(self).seen < MAX_CARDS_COUNTED,
        ensures
            final(self).wf(),
            final(self).system == old(self).system,
            final(self).num_decks == old(self).num_decks,
            final(self).seen == old(self).seen + 1,
            final(self).running == old(self).running + card_points(old(self).system, *card),
            forall|cards: Seq<Card>| old(self).counted(cards) ==> final(self).counted(
                #[trigger] cards.push(*card),
            ),
    {
        let p = self.system.card_points(card);
        self.running = self.running + p;
        self.seen = self.seen + 1;
        proof {
            assert forall|cards: Seq<Card>| old(self).counted(cards) implies self.counted(
                #[trigger] cards.push(*card),
            ) by {
                assert(cards.push(*card).drop_last() =~= cards);
            }
        }
    }

    /// Forgets every card counted, as after a shuffle.
    pub fn reset(&mut self)
        ensures
            final(self).wf(),
            final(self).system == old(self).system,
            final(self).num_decks == old(self).num_decks,
            final(self).counted(Seq::empty()),
    {
        *self = Counter::new(self.system, self.num_decks);
    }

    /// The running count, in half-points.
    pub fn running_count(&self) -> (r: i64)
        ensures
            r == self.running,
    {
        self.running
    }

    /// The true count as `(numerator, denominator)`, the denominator positive.
    pub fn true_count(&self) -> (r: (i64, i64))
        requires
            self.wf(),
        ensures
            (r.0 as int, r.1 as int) == self.true_count_spec(),
            r.1 > 0,
    {
        match self.system {
            CountingSystem::KO | CountingSystem::AceFive => (self.running, 2),
            _ => {
                let total: i64 = 52 * (self.num_decks as i64);
                let left: i64 = if total - (self.seen as i64) >= 1 {
                    total - (self.seen as i64)
                } else {
                    1
                };
                (26 * self.running, left)
            },
        }
    }
}

} // verus!

verus! {

/// The points of one rank across a deck's four suits: two red cards and two
/// black ones.
pub open spec fn rank_total(system: CountingSystem, rank: u8) -> int {
    2 * points(system, crate::card::rank_value(rank), true) + 2 * points(
        system,
        crate::card::rank_value(rank),
        false,
    )
}

/// The points of a whole deck under `system`, in half-points.
pub open spec fn deck_total(system: CountingSystem) -> int {
    rank_total(system, 1) + rank_total(system, 2) + rank_total(system, 3) + rank_total(system, 4)
        + rank_total(system, 5) + rank_total(system, 6) + rank_total(system, 7) + rank_total(
        system,
        8,
    ) + rank_total(system, 9) + rank_total(system, 10) + rank_total(system, 11) + rank_total(
        system,
        12,
    ) + rank_total(system, 13)
}

/// A balanced system: the points of a deck sum to zero.
pub open spec fn is_balanced(system: CountingSystem) -> bool {
    deck_total(system) == 0
}

/// An unshuffled shoe of `n` decks.
pub open spec fn ordered_shoe(n: nat) -> Seq<Card> {
    Seq::new(n * 52, |i: int| crate::shoe::ordered_card(i))
}

pub open spec fn suit_run(suit: crate::card::Suit) -> Seq<Card> {
    Seq::new(13, |i: int| Card { rank: (i + 1) as u8, suit })
}

proof fn lemma_points_append(system: CountingSystem, a: Seq<Card>, b: Seq<Card>)
    ensures
        points_sum(system, a + b) == points_sum(system, a) + points_sum(system, b),
    decreases b.len(),
{
    if b.len() == 0 {
        assert(a + b =~= a);
    } else {
        assert((a + b).drop_last() =~= a + b.drop_last());
        lemma_points_append(system, a, b.drop_last());
    }
}

proof fn lemma_points_remove(system: CountingSystem, s: Seq<Card>, j: int)
    requires
        0 <= j < s.len(),
    ensures
        points_sum(system, s) == points_sum(system, s.remove(j)) + card_points(system, s[j]),
    decreases s.len(),
{
    if j == s.len() - 1 {
        assert(s.remove(j) =~= s.drop_last());
    } else {
        assert(s.remove(j).drop_last() =~= s.drop_last().remove(j));
        lemma_points_remove(system, s.drop_last(), j);
    }
}

/// The sum of points does not depend on the order of the cards.
pub proof fn lemma_points_permutation(system: CountingSystem, s1: Seq<Card>, s2: Seq<Card>)
    requires
        s1.to_multiset() == s2.to_multiset(),
    ensures
        points_sum(system, s1) == points_sum(system, s2),
    decreases s1.len(),
{
    broadcast use vstd::seq_lib::group_to_multiset_ensures;
    broadcast use vstd::multiset::group_multiset_axioms;

    if s1.len() == 0 {
        assert(s1.to_multiset().len() == 0);
        assert(s2.to_multiset().len() == s2.len());
    } else {
        let x = s1.last();
        let rest = s1.drop_last();
        assert(s1 =~= rest.push(x));
        assert(s1.to_multiset() == rest.to_multiset().insert(x));
        assert(s2.to_multiset().count(x) > 0);
        assert(s2.contains(x));
        let j = choose|j: int| 0 <= j < s2.len() && s2[j] == x;
        assert(s2.remove(j).to_multiset() == s2.to_multiset().remove(x));
        assert(rest.to_multiset() =~= s2.remove(j).to_multiset());
        lemma_points_permutation(system, rest, s2.remove(j));
        lemma_points_remove(system, s2, j);
    }
}

proof fn lemma_suit_run(system: CountingSystem, suit: crate::card::Suit)
    ensures
        points_sum(system, suit_run(suit)) == points(system, 1, suit.is_red_spec()) + points(
            system,
            2,
            suit.is_red_spec(),
        ) + points(system, 3, suit.is_red_spec()) + points(system, 4, suit.is_red_spec()) + points(
            system,
            5,
            suit.is_red_spec(),
        ) + points(system, 6, suit.is_red_spec()) + points(system, 7, suit.is_red_spec()) + points(
            system,
            8,
            suit.is_red_spec(),
        ) + points(system, 9, suit.is_red_spec()) + 4 * points(system, 10, suit.is_red_spec()),
{
    reveal_with_fuel(points_sum, 14);
    let r = suit_run(suit);
    assert(r.drop_last() =~= r.take(12));
    assert(r.take(12).drop_last() =~= r.take(11));
    assert(r.take(11).drop_last() =~= r.take(10));
    assert(r.take(10).drop_last() =~= r.take(9));
    assert(r.take(9).drop_last() =~= r.take(8));
    assert(r.take(8).drop_last() =~= r.take(7));
    assert(r.take(7).drop_last() =~= r.take(6));
    assert(r.take(6).drop_last() =~= r.take(5));
    assert(r.take(5).drop_last() =~= r.take(4));
    assert(r.take(4).drop_last() =~= r.take(3));
    assert(r.take(3).drop_last() =~= r.take(2));
    assert(r.take(2).drop_last() =~= r.take(1));
    assert(r.take(1).drop_last() =~= r.take(0));
}

proof fn lemma_one_deck(system: CountingSystem)
    ensures
        points_sum(system, ordered_shoe(1)) == deck_total(system),
{
    let d = ordered_shoe(1);
    let h = suit_run(Suit::Hearts);
    let di = suit_run(Suit::Diamonds);
    let c = suit_run(Suit::Clubs);
    let sp = suit_run(Suit::Spades);
    assert(d =~= h + di + c + sp);
    lemma_points_append(system, h + di + c, sp);
    lemma_points_append(system, h + di, c);
    lemma_points_append(system, h, di);
    lemma_suit_run(system, Suit::Hearts);
    lemma_suit_run(system, Suit::Diamonds);
    lemma_suit_run(system, Suit::Clubs);
    lemma_suit_run(system, Suit::Spades);
}

proof fn lemma_shoe_split(m: nat)
    ensures
        ordered_shoe(m + 1) =~= ordered_shoe(m) + ordered_shoe(1),
{
    let l: int = (m * 52) as int;
    assert((m + 1) * 52 == l + 52) by (nonlinear_arith)
        requires
            l == m * 52,
    ;
    assert forall|i: int| 0 <= i < 52 implies crate::shoe::ordered_card(l + i)
        == #[trigger] crate::shoe::ordered_card(i) by {
        vstd::arithmetic::div_mod::lemma_mod_multiples_vanish(m as int, i, 52);
        assert(l + i == 52 * m + i);
    }
    let a = ordered_shoe(m + 1);
    let b = ordered_shoe(m) + ordered_shoe(1);
    assert(a.len() == b.len());
    assert forall|i: int| 0 <= i < a.len() implies a[i] == b[i] by {
        if i >= l {
            assert(crate::shoe::ordered_card(l + (i - l)) == crate::shoe::ordered_card(i - l));
        }
    }
}

proof fn lemma_ordered_shoe(system: CountingSystem, n: nat)
    ensures
        points_sum(system, ordered_shoe(n)) == n * deck_total(system),
    decreases n,
{
    if n == 0 {
        assert(ordered_shoe(0) =~= Seq::<Card>::empty());
    } else {
        let m = (n - 1) as nat;
        lemma_ordered_shoe(system, m);
        lemma_one_deck(system);
        lemma_shoe_split(m);
        lemma_points_append(system, ordered_shoe(m), ordered_shoe(1));
        assert(n * deck_total(system) == m * deck_total(system) + deck_total(system)) by (
        nonlinear_arith)
            requires
                m == n - 1,
        ;
    }
}

/// Counting every card of a full shoe of `n` decks, in whatever order a
/// shuffle left them, moves a count by `n` times the system's deck total; so
/// a balanced system, which starts at zero, ends at exactly zero.
pub proof fn lemma_full_shoe_count(system: CountingSystem, n: u32, cards: Seq<Card>)
    requires
        cards.to_multiset() == ordered_shoe(n as nat).to_multiset(),
    ensures
        points_sum(system, cards) == n * deck_total(system),
        is_balanced(system) ==> initial_count(system, n) + points_sum(system, cards) == 0,
{
    lemma_ordered_shoe(system, n as nat);
    lemma_points_permutation(system, cards, ordered_shoe(n as nat));
    assert(deck_total(CountingSystem::KO) == 8);
    assert(n * 0 == 0);
}

} // verus!
