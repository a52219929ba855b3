use vstd::prelude::*;
use rand::rngs::StdRng;
use crate::card::{Card, Suit};
use crate::rng::{random_index, seeded_rng};

verus! {

pub const CARDS_PER_DECK: usize = 52;

pub open spec fn suit_at(k: int) -> Suit {
    if k == 0 {
        Suit::Hearts
    } else if k == 1 {
        Suit::Diamonds
    } else if k == 2 {
        Suit::Clubs
    } else {
        Suit::Spades
    }
}

/// The card at position `i` of an unshuffled shoe: each deck lists the suits in
/// turn, each suit from ace to king.
pub open spec fn ordered_card(i: int) -> Card {
    Card { rank: ((i % 52) % 13 + 1) as u8, suit: suit_at((i % 52) / 13) }
}

/// Whether `cards` is an unshuffled shoe of `n_decks` decks.
pub open spec fn is_ordered_shoe(cards: Seq<Card>, n_decks: nat) -> bool {
    &&& cards.len() == n_decks * 52
    &&& forall|i: int| 0 <= i < cards.len() ==> #[trigger] cards[i] == ordered_card(i)
}

/// The draw position from which a reshuffle is due: `percent` percent into a
/// shoe of `len` cards.
pub open spec fn penetration_point(len: nat, percent: nat) -> nat {
    ((len - 1) * percent / 100) as nat
}

/// The penetration used unless another is asked for.
pub const DEFAULT_PENETRATION: u32 = 80;

/// `s` with the cards at `a` and `b` exchanged.
pub open spec fn swap_at(s: Seq<Card>, a: int, b: int) -> Seq<Card> {
    s.update(a, s[b]).update(b, s[a])
}

/// The cards after the first `j` steps of a Fisher-Yates pass over `s` with
/// draws `ks`: step `i` exchanges position `len - 1 - i` with `ks[i]`.
pub open spec fn fisher_yates_steps(s: Seq<Card>, ks: Seq<int>, j: nat) -> Seq<Card>
    decreases j,
{
    if j == 0 {
        s
    } else {
        swap_at(fisher_yates_steps(s, ks, (j - 1) as nat), s.len() - j, ks[j - 1])
    }
}

/// Whether `ks` are the draws of a full pass over `n` cards: one per step,
/// the draw of step `i` below `n - i`.
pub open spec fn fisher_yates_draws(ks: Seq<int>, n: nat) -> bool {
    &&& ks.len() == n - 1
    &&& forall|i: int| 0 <= i < ks.len() ==> 0 <= #[trigger] ks[i] < n - i
}

/// The cards after one full pass for each draw sequence in `draws`, in order.
pub open spec fn shuffled(s: Seq<Card>, draws: Seq<Seq<int>>) -> Seq<Card>
    decreases draws.len(),
{
    if draws.len() == 0 {
        s
    } else {
        let t = shuffled(s, draws.drop_last());
        fisher_yates_steps(t, draws.last(), (t.len() - 1) as nat)
    }
}

proof fn lemma_steps_prefix(s: Seq<Card>, ks: Seq<int>, ks2: Seq<int>, j: nat)
    requires
        j <= ks.len(),
        j <= ks2.len(),
        forall|i: int| 0 <= i < j ==> ks[i] == ks2[i],
    ensures
        fisher_yates_steps(s, ks, j) == fisher_yates_steps(s, ks2, j),
    decreases j,
{
    if j > 0 {
        lemma_steps_prefix(s, ks, ks2, (j - 1) as nat);
    }
}

/// An ordered stack of cards from several decks, drawn from the front.
pub struct Shoe {
    cards: Vec<Card>,
    cursor: usize,
    shuffle_point: usize,
    penetration: u32,
    shuffle_due: bool,
    rng: StdRng,
}

fn shuffle_point_for(n: usize, percent: u32) -> (r: usize)
    requires
        n >= 1,
        percent <= 100,
    ensures
        r == penetration_point(n as nat, percent as nat),
        r < n,
{
    let a = (n - 1) as u128;
    let b = percent as u128;
    assert(a * b <= a * 100) by (nonlinear_arith)
        requires
            b <= 100,
    ;
    assert(a * 100 <= 0xffff_ffff_ffff_ffff * 100) by (nonlinear_arith)
        requires
            a <= 0xffff_ffff_ffff_ffff,
    ;
    let p: u128 = a * b / 100;
    assert(p <= a) by (nonlinear_arith)
        requires
            p == a * b / 100,
            b <= 100,
    ;
    p as usize
}

fn suit_of(k: usize) -> (s: Suit)
    requires
        k < 4,
    ensures
        s == suit_at(k as int),
{
    if k == 0 {
        Suit::Hearts
    } else if k == 1 {
        Suit::Diamonds
    } else if k == 2 {
        Suit::Clubs
    } else {
        Suit::Spades
    }
}

impl Shoe {
    pub closed spec fn cards_spec(&self) -> Seq<Card> {
        self.cards@
    }

    pub closed spec fn cursor_spec(&self) -> nat {
        self.cursor as nat
    }

    pub closed spec fn shuffle_point_spec(&self) -> nat {
        self.shuffle_point as nat
    }

    /// The penetration, in percent, at which a reshuffle becomes due.
    pub closed spec fn penetration_spec(&self) -> nat {
        self.penetration as nat
    }

    pub closed spec fn shuffle_due_spec(&self) -> bool {
        self.shuffle_due
    }

    pub open spec fn len_spec(&self) -> nat {
        self.cards_spec().len()
    }

    pub closed spec fn wf(&self) -> bool {
        &&& self.cursor <= self.cards@.len()
        &&& self.cards@.len() > 0
        &&& self.cards@.len() % 52 == 0
        &&& self.penetration <= 100
        &&& self.shuffle_point as nat == penetration_point(
            self.cards@.len(),
            self.penetration as nat,
        )
        &&& forall|i: int| 0 <= i < self.cards@.len() ==> #[trigger] self.cards@[i].wf()
    }

    /// A well-formed shoe holds whole decks, at least one, and its cursor
    /// lies within it.
    pub proof fn lemma_wf(&self)
        requires
            self.wf(),
        ensures
            self.len_spec() >= 52,
            self.len_spec() % 52 == 0,
            self.cursor_spec() <= self.len_spec(),
            self.penetration_spec() <= 100,
            self.shuffle_point_spec() == penetration_point(self.len_spec(), self.penetration_spec()),
    {
    }

    /// An unshuffled shoe of `n_decks` decks, with a shuffle due before the
    /// first deal; its shuffles are reproducible from `seed`.
    pub fn new(n_decks: usize, seed: u64) -> (s: Shoe)
        requires
            n_decks > 0,
            n_decks * 52 <= usize::MAX,
        ensures
            s.wf(),
            is_ordered_shoe(s.cards_spec(), n_decks as nat),
            s.cursor_spec() == 0,
            s.shuffle_due_spec(),
            s.penetration_spec() == DEFAULT_PENETRATION,
    {
        Self::build(n_decks, DEFAULT_PENETRATION, seeded_rng(seed))
    }

    /// An unshuffled shoe of `n_decks` decks whose reshuffle becomes due
    /// `percent` percent into it; shuffles are reproducible from `seed`.
    pub fn with_penetration(n_decks: usize, percent: u32, seed: u64) -> (s: Shoe)
        requires
            n_decks > 0,
            n_decks * 52 <= usize::MAX,
            percent <= 100,
        ensures
            s.wf(),
            is_ordered_shoe(s.cards_spec(), n_decks as nat),
            s.cursor_spec() == 0,
            s.shuffle_due_spec(),
            s.penetration_spec() == percent,
    {
        Self::build(n_decks, percent, seeded_rng(seed))
    }

    /// A shoe holding `cards` in the given order, drawn from the front, with
    /// no shuffle due; later shuffles are reproducible from `seed`.
    pub fn from_cards(cards: Vec<Card>, seed: u64) -> (s: Shoe)
        requires
            cards@.len() > 0,
            cards@.len() % 52 == 0,
            forall|i: int| 0 <= i < cards@.len() ==> #[trigger] cards@[i].wf(),
        ensures
            s.wf(),
            s.cards_spec() == cards@,
            s.cursor_spec() == 0,
            !s.shuffle_due_spec(),
    {
        let shuffle_point = shuffle_point_for(cards.len(), DEFAULT_PENETRATION);
        Shoe {
            cards,
            cursor: 0,
            shuffle_point,
            penetration: DEFAULT_PENETRATION,
            shuffle_due: false,
            rng: seeded_rng(seed),
        }
    }

    fn build(n_decks: usize, percent: u32, rng: StdRng) -> (s: Shoe)
        requires
            n_decks > 0,
            n_decks * 52 <= usize::MAX,
            percent <= 100,
        ensures
            s.wf(),
            is_ordered_shoe(s.cards_spec(), n_decks as nat),
            s.cursor_spec() == 0,
            s.shuffle_due_spec(),
            s.penetration_spec() == percent,
    {
        let n: usize = n_decks * CARDS_PER_DECK;
        let mut cards: Vec<Card> = Vec::with_capacity(n);
        let mut i: usize = 0;
        while i < n
            invariant
                n == n_decks * 52,
                i <= n,
                cards@.len() == i,
                forall|j: int| 0 <= j < i ==> #[trigger] cards@[j] == ordered_card(j),
                forall|j: int| 0 <= j < i ==> #[trigger] cards@[j].wf(),
            decreases n - i,
        {
            let k: usize = i % CARDS_PER_DECK;
            let c = Card { rank: (k % 13 + 1) as u8, suit: suit_of(k / 13) };
            cards.push(c);
            i = i + 1;
        }
        let shuffle_point = shuffle_point_for(n, percent);
        Shoe { cards, cursor: 0, shuffle_point, penetration: percent, shuffle_due: true, rng }
    }

    /// The number of cards in the shoe.
    pub fn len(&self) -> (n: usize)
        ensures
            n == self.len_spec(),
    {
        self.cards.len()
    }

    /// The number of cards drawn since the last shuffle.
    pub fn cursor(&self) -> (n: usize)
        requires
            self.wf(),
        ensures
            n == self.cursor_spec(),
            n <= self.len_spec(),
    {
        self.cursor
    }

    /// Whether the cursor has reached the penetration point, so that the shoe
    /// should be shuffled before the next deal.
    pub fn shuffle_due(&self) -> (b: bool)
        ensures
            b == self.shuffle_due_spec(),
    {
        self.shuffle_due
    }

    /// Shuffles the whole shoe `n_passes` times, puts the cursor back to the
    /// front and clears the shuffle-due flag. Each pass is a Fisher-Yates
    /// pass: for each position from the last down to the second, it swaps
    /// that position with one drawn at random at or below it.
    pub fn shuffle(&mut self, n_passes: u32)
        requires
            old(self).wf(),
        ensures
            final(self).wf(),
            exists|draws: Seq<Seq<int>>|
                #![trigger shuffled(old(self).cards_spec(), draws)]
                draws.len() == n_passes && (forall|p: int|
                    0 <= p < draws.len() ==> fisher_yates_draws(
                        #[trigger] draws[p],
                        old(self).len_spec(),
                    )) && final(self).cards_spec() == shuffled(old(self).cards_spec(), draws),
            final(self).cards_spec().to_multiset() == old(self).cards_spec().to_multiset(),
            final(self).len_spec() == old(self).len_spec(),
            final(self).cursor_spec() == 0,
            !final(self).shuffle_due_spec(),
            final(self).penetration_spec() == old(self).penetration_spec(),
    {
        let ghost before = self.cards@;
        let ghost n = before.len();
        let ghost mut draws: Seq<Seq<int>> = Seq::empty();
        let mut pass: u32 = 0;
        while pass < n_passes
            invariant
                self.wf(),
                self.penetration == old(self).penetration,
                before == old(self).cards@,
                n == before.len(),
                self.cards@.len() == n,
                self.cards@.to_multiset() == before.to_multiset(),
                pass <= n_passes,
                draws.len() == pass,
                forall|p: int| 0 <= p < draws.len() ==> fisher_yates_draws(#[trigger] draws[p], n),
                self.cards@ == shuffled(before, draws),
            decreases n_passes - pass,
        {
            let ghost start = self.cards@;
            let ghost mut ks: Seq<int> = Seq::empty();
            let mut m: usize = self.cards.len();
            while m > 1
                invariant
                    self.wf(),
                    self.penetration == old(self).penetration,
                    1 <= m <= n,
                    n == start.len(),
                    self.cards@.len() == n,
                    self.cards@.to_multiset() == before.to_multiset(),
                    ks.len() == n - m,
                    forall|j: int| 0 <= j < ks.len() ==> 0 <= #[trigger] ks[j] < n - j,
                    self.cards@ == fisher_yates_steps(start, ks, (n - m) as nat),
                decreases m,
            {
                let k = random_index(&mut self.rng, m);
                let ghost old_ks = ks;
                proof {
                    ks = ks.push(k as int);
                    lemma_steps_prefix(start, old_ks, ks, (n - m) as nat);
                }
                self.swap(m - 1, k);
                m = m - 1;
            }
            proof {
                assert(fisher_yates_draws(ks, n));
                let d2 = draws.push(ks);
                assert(d2.drop_last() =~= draws);
                assert(forall|p: int| 0 <= p < draws.len() ==> d2[p] == draws[p]);
                draws = d2;
            }
            pass = pass + 1;
        }
        self.cursor = 0;
        self.shuffle_due = false;
        assert(draws.len() == n_passes && (forall|p: int|
            0 <= p < draws.len() ==> fisher_yates_draws(#[trigger] draws[p], old(self).len_spec()))
            && self.cards_spec() == shuffled(old(self).cards_spec(), draws));
    }

    fn swap(&mut self, a: usize, b: usize)
        requires
            old(self).wf(),
            a < old(self).cards@.len(),
            b < old(self).cards@.len(),
        ensures
            final(self).wf(),
            final(self).cards@.len() == old(self).cards@.len(),
            final(self).cards@.to_multiset() == old(self).cards@.to_multiset(),
            final(self).cards@ == swap_at(old(self).cards@, a as int, b as int),
            final(self).cursor == old(self).cursor,
            final(self).shuffle_due == old(self).shuffle_due,
            final(self).penetration == old(self).penetration,
    {
        broadcast use vstd::seq_lib::to_multiset_update;
        broadcast use vstd::seq_lib::to_multiset_contains;
        broadcast use vstd::multiset::group_multiset_axioms;

        let ghost s0 = self.cards@;
        let x = self.cards[a];
        let y = self.cards[b];
        self.cards.set(a, y);
        let ghost s1 = self.cards@;
        self.cards.set(b, x);
        proof {
            assert(s1.to_multiset() == s0.to_multiset().insert(y).remove(x));
            assert(self.cards@.to_multiset() == s1.to_multiset().insert(x).remove(s1[b as int]));
            assert(s1[b as int] == y);
            assert(s0.contains(x)) by {
                assert(s0[a as int] == x);
            }
            assert(s0.to_multiset().count(x) > 0);
            assert(s0.to_multiset().insert(y).remove(x).insert(x).remove(y) =~= s0.to_multiset());
        }
    }

    /// Draws the next card. `None` when every card has been drawn.
    pub fn draw(&mut self) -> (c: Option<Card>)
        requires
            old(self).wf(),
        ensures
            final(self).wf(),
            final(self).cards_spec() == old(self).cards_spec(),
            final(self).shuffle_point_spec() == old(self).shuffle_point_spec(),
            final(self).penetration_spec() == old(self).penetration_spec(),
            old(self).cursor_spec() < old(self).len_spec() ==> {
                &&& c == Some(old(self).cards_spec()[old(self).cursor_spec() as int])
                &&& final(self).cursor_spec() == old(self).cursor_spec() + 1
                &&& final(self).shuffle_due_spec() == (old(self).shuffle_due_spec()
                    || final(self).cursor_spec() >= old(self).shuffle_point_spec())
            },
            old(self).cursor_spec() >= old(self).len_spec() ==> c.is_none() && *final(self)
                == *old(self),
            c matches Some(card) ==> card.wf(),
    {
        if self.cursor < self.cards.len() {
            let card = self.cards[self.cursor];
            self.cursor = self.cursor + 1;
            if self.cursor >= self.shuffle_point {
                self.shuffle_due = true;
            }
            Some(card)
        } else {
            None
        }
    }
}

} // verus!
