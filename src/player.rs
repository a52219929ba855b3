use vstd::prelude::*;
use crate::card::Card;
use crate::count::MAX_CARDS_COUNTED;
use crate::hand::{HandValue, hard_total, holds_ace};
use crate::strategy::{Action, GameError, Options, PlayerStrategy, TableState, policy_decision};

verus! {

/// The largest stake one sub-hand can carry: a `u32` bet, doubled.
pub const MAX_STAKE: u64 = 0x1_ffff_fffe;

/// The largest balance, in cents, from which a hand may start.
pub const MAX_BASE: i128 = 0x10_0000_0000_0000_0000_0000_0000;

/// The most sub-hands one deal can grow into by splitting.
pub const MAX_HANDS: usize = 4;

/// One sub-hand of the player: its cards, their value, the stake in whole
/// units, and, once settled, the profit in cents (negative for a loss).
pub struct PlayerHand {
    pub cards: Vec<Card>,
    pub value: HandValue,
    pub bet: u64,
    pub outcome: Option<i64>,
}

impl PlayerHand {
    pub open spec fn wf(&self) -> bool {
        &&& self.value.of(self.cards@)
        &&& forall|i: int| 0 <= i < self.cards@.len() ==> #[trigger] self.cards@[i].wf()
        &&& self.bet <= MAX_STAKE
        &&& self.cards@.len() <= 2 ==> self.bet <= u32::MAX
        &&& self.outcome matches Some(o) ==> -100 * self.bet <= o <= 150 * self.bet
    }

    /// What the sub-hand adds to the player's ledger: its profit once settled,
    /// its stake (taken from the balance) while not.
    pub open spec fn ledger_term(&self) -> int {
        match self.outcome {
            Some(o) => o as int,
            None => -100 * self.bet,
        }
    }

    fn empty() -> (h: PlayerHand)
        ensures
            h.wf(),
            h.cards@.len() == 0,
            h.bet == 0,
            h.outcome.is_none(),
    {
        PlayerHand { cards: Vec::new(), value: HandValue::empty(), bet: 0, outcome: None }
    }
}

pub open spec fn term_at(hs: Seq<PlayerHand>, i: int) -> int {
    if 0 <= i < hs.len() {
        hs[i].ledger_term()
    } else {
        0
    }
}

/// The sum of the ledger terms of (at most four) sub-hands.
pub open spec fn ledger(hs: Seq<PlayerHand>) -> int {
    term_at(hs, 0) + term_at(hs, 1) + term_at(hs, 2) + term_at(hs, 3)
}

pub open spec fn profit_at(hs: Seq<PlayerHand>, i: int) -> int {
    if 0 <= i < hs.len() && hs[i].outcome.is_some() {
        hs[i].outcome.unwrap() as int
    } else {
        0
    }
}

/// The total profit of the settled sub-hands, in cents.
pub open spec fn profit(hs: Seq<PlayerHand>) -> int {
    profit_at(hs, 0) + profit_at(hs, 1) + profit_at(hs, 2) + profit_at(hs, 3)
}

/// Whether two cards, in order, are an ace and a ten-valued card in either order.
pub open spec fn is_natural(cards: Seq<Card>) -> bool {
    &&& cards.len() == 2
    &&& {
        ||| cards[0].value() == 10 && cards[1].is_ace_spec()
        ||| cards[0].is_ace_spec() && cards[1].value() == 10
    }
}

/// The result of a settled sub-hand against the dealer's final total: a win
/// pays even money, a tie pushes, anything else loses the stake.
pub open spec fn showdown_profit(player_total: u8, dealer_total: u8, bet: u64) -> int {
    if dealer_total > 21 || player_total > dealer_total {
        100 * bet
    } else if player_total == dealer_total {
        0
    } else {
        -100 * bet
    }
}

/// A seated player: the sub-hands of the current deal, the one being played,
/// the balance in cents, and the strategy.
pub struct Player {
    pub hands: Vec<PlayerHand>,
    pub hand_idx: usize,
    pub balance: i128,
    pub strategy: PlayerStrategy,
    pub surrender_allowed: bool,
    /// The balance before the current deal's bet was placed.
    pub base: Ghost<int>,
    /// The settled result, in cents, of this deal's insurance bet; zero when
    /// none was taken.
    pub insurance: i64,
}

impl Player {
    /// The player's invariant. Money is conserved: the balance is the balance
    /// before the deal, less the open stakes, plus the settled profits.
    pub open spec fn wf(&self) -> bool {
        &&& 1 <= self.hands@.len() <= MAX_HANDS
        &&& self.hand_idx <= self.hands@.len()
        &&& forall|i: int| 0 <= i < self.hands@.len() ==> #[trigger] self.hands@[i].wf()
        &&& forall|i: int|
            self.hand_idx <= i < self.hands@.len() ==> #[trigger] self.hands@[i].outcome.is_none()
                && self.hands@[i].value.hard <= 21
        &&& self.balance == self.base@ + ledger(self.hands@) + self.insurance
        &&& -50 * 0xffff_ffff <= self.insurance <= 100 * 0xffff_ffff
        &&& 0 <= self.balance
        &&& self.base@ <= MAX_BASE
        &&& self.strategy.wf()
    }

    /// Whether the player is between deals: one empty sub-hand without a bet.
    pub open spec fn is_fresh(&self) -> bool {
        &&& self.hands@.len() == 1
        &&& self.hand_idx == 0
        &&& self.hands@[0].cards@.len() == 0
        &&& self.hands@[0].bet == 0
        &&& self.hands@[0].outcome.is_none()
        &&& self.balance == self.base@
        &&& self.insurance == 0
    }

    pub open spec fn current(&self) -> PlayerHand {
        self.hands@[self.hand_idx as int]
    }

    pub open spec fn playing(&self) -> bool {
        self.hand_idx < self.hands@.len()
    }

    /// Whether the player holds a natural: an ace and a ten-valued card as the
    /// first sub-hand, before any split.
    pub open spec fn has_blackjack_spec(&self) -> bool {
        &&& self.hand_idx == 0
        &&& self.hands@.len() == 1
        &&& is_natural(self.hands@[0].cards@)
    }

    /// The actions legal for the current sub-hand against the dealer's
    /// up-card: stand and hit always; surrender on the untouched first hand
    /// against an ace or a ten where the table allows it; split on a pair of
    /// equal rank while fewer than four sub-hands exist and the balance covers a
    /// second stake; double down on the untouched first hand while the balance
    /// covers the stake again.
    pub open spec fn options_spec(&self, up: Card) -> Options {
        let h = self.current();
        let untouched = self.hand_idx == 0 && self.hands@.len() == 1 && h.cards@.len() == 2;
        let covered = 100 * h.bet <= self.balance;
        Options {
            stand: true,
            hit: true,
            surrender: self.surrender_allowed && untouched && (up.value() == 1 || up.value()
                == 10),
            split: self.hands@.len() < MAX_HANDS && h.cards@.len() == 2 && h.cards@[0].rank
                == h.cards@[1].rank && covered,
            double_down: untouched && covered,
        }
    }

    /// A player with `balance` cents, playing `strategy`; `surrender_allowed`
    /// says whether the table offers surrender.
    pub fn new(balance: i64, strategy: PlayerStrategy, surrender_allowed: bool) -> (p: Player)
        requires
            balance >= 0,
            strategy.wf(),
        ensures
            p.wf(),
            p.is_fresh(),
            p.balance == balance,
            p.strategy == strategy,
            p.surrender_allowed == surrender_allowed,
    {
        let mut hands: Vec<PlayerHand> = Vec::new();
        hands.push(PlayerHand::empty());
        Player {
            hands,
            hand_idx: 0,
            balance: balance as i128,
            strategy,
            surrender_allowed,
            base: Ghost(balance as int),
            insurance: 0,
        }
    }

    /// Puts `h` in place of sub-hand `i` and hands back the one it replaces.
    fn replace_hand(&mut self, i: usize, h: PlayerHand) -> (prev: PlayerHand)
        requires
            i < old(self).hands@.len(),
        ensures
            prev == old(self).hands@[i as int],
            final(self).hands@ == old(self).hands@.update(i as int, h),
            final(self).insurance == old(self).insurance,
            final(self).hand_idx == old(self).hand_idx,
            final(self).balance == old(self).balance,
            final(self).base == old(self).base,
            final(self).strategy == old(self).strategy,
            final(self).surrender_allowed == old(self).surrender_allowed,
    {
        let prev = self.hands.remove(i);
        self.hands.insert(i, h);
        assert(self.hands@ =~= old(self).hands@.update(i as int, h));
        prev
    }

    /// Clears the deal: one empty sub-hand, no bet.
    pub fn reset(&mut self)
        requires
            old(self).wf(),
            old(self).balance <= MAX_BASE,
        ensures
            final(self).wf(),
            final(self).is_fresh(),
            final(self).balance == old(self).balance,
            final(self).strategy == old(self).strategy,
            final(self).surrender_allowed == old(self).surrender_allowed,
    {
        let mut hands: Vec<PlayerHand> = Vec::new();
        hands.push(PlayerHand::empty());
        self.hands = hands;
        self.hand_idx = 0;
        self.insurance = 0;
        self.base = Ghost(self.balance as int);
    }

    /// Sets the balance, in cents, between deals.
    pub fn set_balance(&mut self, balance: i64)
        requires
            old(self).wf(),
            old(self).is_fresh(),
            balance >= 0,
        ensures
            final(self).wf(),
            final(self).is_fresh(),
            final(self).balance == balance,
            final(self).strategy == old(self).strategy,
            final(self).surrender_allowed == old(self).surrender_allowed,
    {
        self.balance = balance as i128;
        self.base = Ghost(balance as int);
    }

    /// Whether every sub-hand has been played.
    pub fn turn_is_over(&self) -> (b: bool)
        ensures
            b == (self.hand_idx == self.hands@.len()),
    {
        self.hand_idx == self.hands.len()
    }

    /// Whether the balance holds at least `min_bet` whole units.
    pub fn continue_play(&self, min_bet: u32) -> (b: bool)
        ensures
            b == (self.balance >= 100 * min_bet),
    {
        self.balance >= 100 * (min_bet as i128)
    }

    /// The balance, in cents.
    pub fn balance(&self) -> (b: i128)
        ensures
            b == self.balance,
    {
        self.balance
    }

    /// The stake of the current sub-hand.
    pub fn get_current_bet(&self) -> (b: u64)
        requires
            self.wf(),
            self.playing(),
        ensures
            b == self.current().bet,
    {
        self.hands[self.hand_idx].bet
    }

    /// The bet the strategy asks for at the current balance; zero means that
    /// the player cannot meet the table minimum.
    pub fn bet(&self) -> (b: u32)
        requires
            self.wf(),
        ensures
            b == self.bet_spec(),
    {
        let bal: i64 = if self.balance > i64::MAX as i128 {
            i64::MAX
        } else {
            self.balance as i64
        };
        let st = self.strategy.bet_state(bal);
        self.strategy.bet(&st)
    }

    /// The bet the strategy asks for at the current balance and count.
    pub open spec fn bet_spec(&self) -> int {
        crate::strategy::margin_bet(
            self.strategy.betting.margin,
            self.strategy.betting.min_bet,
            self.bet_state_spec(),
        )
    }

    /// The betting snapshot at the current balance and count; a balance past
    /// the range of `i64` is shown as `i64::MAX`.
    pub open spec fn bet_state_spec(&self) -> crate::strategy::BetState {
        crate::strategy::BetState {
            balance: if self.balance > i64::MAX {
                i64::MAX
            } else {
                self.balance as i64
            },
            running: self.strategy.counter.running,
            true_num: self.strategy.counter.true_count_spec().0 as i64,
            true_den: self.strategy.counter.true_count_spec().1 as i64,
            num_decks: self.strategy.counter.num_decks,
        }
    }

    /// Stakes `bet` whole units on the fresh hand, taken from the balance.
    pub fn place_bet(&mut self, bet: u32)
        requires
            old(self).wf(),
            old(self).is_fresh(),
            100 * bet <= old(self).balance,
        ensures
            final(self).insurance == old(self).insurance,
            final(self).wf(),
            final(self).balance == old(self).balance - 100 * bet,
            final(self).base == old(self).base,
            final(self).hands@.len() == 1,
            final(self).hand_idx == 0,
            final(self).hands@[0].cards@.len() == 0,
            final(self).hands@[0].bet == bet,
            final(self).strategy == old(self).strategy,
            final(self).surrender_allowed == old(self).surrender_allowed,
    {
        let mut h = self.replace_hand(0, PlayerHand::empty());
        assert(h.wf());
        h.bet = bet as u64;
        assert(h.wf());
        self.replace_hand(0, h);
        assert(self.hands@ =~= old(self).hands@.update(0, h));
        self.balance = self.balance - 100 * (bet as i128);
    }

    /// Adds `card` to the current sub-hand; if that busts it, the sub-hand
    /// loses its stake and play moves on to the next one.
    pub fn receive_card(&mut self, card: Card)
        requires
            old(self).wf(),
            old(self).playing(),
            card.wf(),
        ensures
            final(self).insurance == old(self).insurance,
            final(self).wf(),
            final(self).balance == old(self).balance,
            final(self).base == old(self).base,
            final(self).strategy == old(self).strategy,
            final(self).surrender_allowed == old(self).surrender_allowed,
            final(self).hands@.len() == old(self).hands@.len(),
            final(self).hands@[old(self).hand_idx as int].cards@ == old(self).current().cards@.push(card),
            final(self).hands@[old(self).hand_idx as int].bet == old(self).current().bet,
            final(self).hands@[old(self).hand_idx as int].value.hard == old(self).current().value.hard
                + card.value(),
            old(self).current().value.hard + card.value() > 21 ==> {
                &&& final(self).hand_idx == old(self).hand_idx + 1
                &&& final(self).hands@[old(self).hand_idx as int].outcome == Some(
                    (-100 * old(self).current().bet) as i64,
                )
            },
            old(self).current().value.hard + card.value() <= 21 ==> {
                &&& final(self).hand_idx == old(self).hand_idx
                &&& final(self).current().outcome.is_none()
            },
            forall|i: int|
                0 <= i < old(self).hands@.len() && i != old(self).hand_idx ==> final(self).hands@[i]
                    == old(self).hands@[i],
    {
        let i = self.hand_idx;
        assert(old(self).hands@[i as int].outcome.is_none());
        let mut h = self.replace_hand(i, PlayerHand::empty());
        assert(h.wf());
        let ghost cards = h.cards@;
        h.cards.push(card);
        h.value.add_card(card, Ghost(cards));
        assert forall|j: int| 0 <= j < h.cards@.len() implies #[trigger] h.cards@[j].wf() by {
            if j < cards.len() {
                assert(h.cards@[j] == cards[j]);
            }
        }
        let bet = h.bet;
        let bust = h.value.busted();
        if bust {
            h.outcome = Some(-100 * (bet as i64));
        }
        assert(h.wf());
        self.replace_hand(i, h);
        assert(self.hands@ =~= old(self).hands@.update(i as int, h));
        if bust {
            self.hand_idx = i + 1;
        }
        assert forall|k: int| self.hand_idx <= k < self.hands@.len() implies #[trigger] self.hands@[k].outcome.is_none()
            && self.hands@[k].value.hard <= 21 by {
            if k != i {
                assert(self.hands@[k] == old(self).hands@[k]);
            }
        }
    }

    /// Whether the balance covers an insurance bet of half the first stake.
    pub fn can_insure(&self) -> (b: bool)
        requires
            self.wf(),
        ensures
            b == (50 * self.hands@[0].bet <= self.balance),
    {
        50 * (self.hands[0].bet as i128) <= self.balance
    }

    /// Settles an insurance bet of half the stake of the untouched first
    /// hand: it pays 2:1 when the dealer holds a natural and is lost otherwise.
    pub fn insure(&mut self, dealer_natural: bool)
        requires
            old(self).wf(),
            old(self).hands@.len() == 1,
            old(self).hands@[0].cards@.len() == 2,
            old(self).insurance == 0,
            50 * old(self).hands@[0].bet <= old(self).balance,
        ensures
            final(self).wf(),
            final(self).insurance == (if dealer_natural {
                100 * old(self).hands@[0].bet
            } else {
                -50 * old(self).hands@[0].bet
            }),
            final(self).balance == old(self).balance + final(self).insurance,
            final(self).hands@ == old(self).hands@,
            final(self).hand_idx == old(self).hand_idx,
            final(self).base == old(self).base,
            final(self).strategy == old(self).strategy,
            final(self).surrender_allowed == old(self).surrender_allowed,
    {
        assert(self.hands@[0].wf());
        let bet = self.hands[0].bet as i64;
        let result: i64 = if dealer_natural {
            100 * bet
        } else {
            -50 * bet
        };
        self.insurance = result;
        self.balance = self.balance + result as i128;
    }

    /// Whether the current sub-hand is bust.
    pub fn busted(&self) -> (b: bool)
        requires
            self.wf(),
            self.playing(),
        ensures
            b == self.current().value.busted_spec(),
    {
        self.hands[self.hand_idx].value.busted()
    }

    /// Whether the player holds a natural on the first sub-hand before any split.
    pub fn has_blackjack(&self) -> (b: bool)
        requires
            self.wf(),
        ensures
            b == self.has_blackjack_spec(),
    {
        if self.hand_idx != 0 || self.hands.len() != 1 || self.hands[0].cards.len() != 2 {
            return false;
        }
        let c0 = self.hands[0].cards[0];
        let c1 = self.hands[0].cards[1];
        (c0.val() == 10 && c1.is_ace()) || (c0.is_ace() && c1.val() == 10)
    }

    /// The legal actions for the current sub-hand against the dealer's up-card.
    pub fn get_playing_options(&self, dealers_up_card: &Card) -> (o: Options)
        requires
            self.wf(),
            self.playing(),
        ensures
            o == self.options_spec(*dealers_up_card),
    {
        let h = &self.hands[self.hand_idx];
        let untouched = self.hand_idx == 0 && self.hands.len() == 1 && h.cards.len() == 2;
        let covered = 100 * (h.bet as i128) <= self.balance;
        let up = dealers_up_card.val();
        let pair = h.cards.len() == 2 && h.cards[0].rank == h.cards[1].rank;
        Options {
            stand: true,
            hit: true,
            surrender: self.surrender_allowed && untouched && (up == 1 || up == 10),
            split: self.hands.len() < MAX_HANDS && pair && covered,
            double_down: untouched && covered,
        }
    }

    /// The decision snapshot of the current sub-hand.
    pub open spec fn table_state_spec(&self, up: Card) -> TableState {
        TableState {
            first_card: self.current().cards@[0],
            second_card: self.current().cards@[1],
            value: self.current().value,
            bet: self.current().bet,
            balance: if self.balance > i64::MAX {
                i64::MAX
            } else {
                self.balance as i64
            },
            running: self.strategy.counter.running,
            true_num: self.strategy.counter.true_count_spec().0 as i64,
            true_den: self.strategy.counter.true_count_spec().1 as i64,
            num_decks: self.strategy.counter.num_decks,
            dealer_up: up,
        }
    }

    /// The strategy's action for the current sub-hand. It must be legal:
    /// anything else is `NoValidOption`.
    pub fn decide_option(&self, dealers_up_card: &Card) -> (r: Result<Action, GameError>)
        requires
            self.wf(),
            self.playing(),
            self.current().cards@.len() >= 2,
        ensures
            ({
                let d = policy_decision(
                    self.strategy.decision,
                    self.table_state_spec(*dealers_up_card),
                    self.options_spec(*dealers_up_card),
                );
                match d {
                    Some(a) => if self.options_spec(*dealers_up_card).has(a) {
                        r == Ok::<Action, GameError>(a)
                    } else {
                        r == Err::<Action, GameError>(GameError::NoValidOption)
                    },
                    None => r == Err::<Action, GameError>(GameError::NoValidOption),
                }
            }),
    {
        let options = self.get_playing_options(dealers_up_card);
        let h = &self.hands[self.hand_idx];
        let (true_num, true_den) = self.strategy.counter.true_count();
        let state = TableState {
            first_card: h.cards[0],
            second_card: h.cards[1],
            value: h.value,
            bet: h.bet,
            balance: if self.balance > i64::MAX as i128 {
                i64::MAX
            } else {
                self.balance as i64
            },
            running: self.strategy.counter.running,
            true_num,
            true_den,
            num_decks: self.strategy.counter.num_decks,
            dealer_up: *dealers_up_card,
        };
        let a = self.strategy.decide_option(&state, &options)?;
        if options.contains(a) {
            Ok(a)
        } else {
            Err(GameError::NoValidOption)
        }
    }

    /// Counts a card the player has seen.
    pub fn update_strategy(&mut self, card: &Card)
        requires
            old(self).wf(),
            old(self).strategy.counter.seen < MAX_CARDS_COUNTED,
        ensures
            final(self).insurance == old(self).insurance,
            final(self).wf(),
            final(self).hands@ == old(self).hands@,
            final(self).hand_idx == old(self).hand_idx,
            final(self).balance == old(self).balance,
            final(self).base == old(self).base,
            final(self).surrender_allowed == old(self).surrender_allowed,
            final(self).strategy.decision == old(self).strategy.decision,
            final(self).strategy.betting == old(self).strategy.betting,
            final(self).strategy.counter.system == old(self).strategy.counter.system,
            final(self).strategy.counter.num_decks == old(self).strategy.counter.num_decks,
            final(self).strategy.counter.seen == old(self).strategy.counter.seen + 1,
            final(self).strategy.counter.running == old(self).strategy.counter.running
                + crate::count::card_points(old(self).strategy.counter.system, *card),
    {
        self.strategy.update(card);
    }

    /// Resets the count, as after a shuffle.
    pub fn reset_strategy(&mut self)
        requires
            old(self).wf(),
        ensures
            final(self).insurance == old(self).insurance,
            final(self).wf(),
            final(self).hands@ == old(self).hands@,
            final(self).hand_idx == old(self).hand_idx,
            final(self).balance == old(self).balance,
            final(self).base == old(self).base,
            final(self).surrender_allowed == old(self).surrender_allowed,
            final(self).strategy.decision == old(self).strategy.decision,
            final(self).strategy.betting == old(self).strategy.betting,
            final(self).strategy.counter.system == old(self).strategy.counter.system,
            final(self).strategy.counter.num_decks == old(self).strategy.counter.num_decks,
            final(self).strategy.counter.counted(Seq::empty()),
    {
        self.strategy.reset();
    }

    /// Moves on to the next sub-hand.
    pub fn stand(&mut self)
        requires
            old(self).wf(),
            old(self).playing(),
        ensures
            final(self).wf(),
            final(self).hand_idx == old(self).hand_idx + 1,
            final(self).hands@ == old(self).hands@,
            final(self).balance == old(self).balance,
            final(self).base == old(self).base,
            final(self).strategy == old(self).strategy,
            final(self).surrender_allowed == old(self).surrender_allowed,
    {
        self.hand_idx = self.hand_idx + 1;
    }

    /// Settles the current sub-hand with `profit` cents, pays back the stake
    /// plus the profit, and moves on to the next sub-hand.
    fn settle_current(&mut self, profit: i64)
        requires
            old(self).hand_idx < old(self).hands@.len(),
            1 <= old(self).hands@.len() <= MAX_HANDS,
            forall|i: int| 0 <= i < old(self).hands@.len() ==> #[trigger] old(self).hands@[i].wf(),
            forall|i: int|
                old(self).hand_idx < i < old(self).hands@.len() ==> #[trigger] old(self).hands@[i].outcome.is_none()
                    && old(self).hands@[i].value.hard <= 21,
            old(self).current().outcome.is_none(),
            old(self).balance == old(self).base@ + ledger(old(self).hands@) + old(self).insurance,
            -50 * 0xffff_ffff <= old(self).insurance <= 100 * 0xffff_ffff,
            0 <= old(self).balance,
            old(self).base@ <= MAX_BASE,
            old(self).strategy.wf(),
            -100 * old(self).current().bet <= profit <= 150 * old(self).current().bet,
        ensures
            final(self).wf(),
            final(self).hand_idx == old(self).hand_idx + 1,
            final(self).hands@.len() == old(self).hands@.len(),
            final(self).hands@[old(self).hand_idx as int].outcome == Some(profit),
            final(self).hands@[old(self).hand_idx as int].cards@ == old(self).current().cards@,
            final(self).hands@[old(self).hand_idx as int].bet == old(self).current().bet,
            final(self).hands@[old(self).hand_idx as int].value == old(self).current().value,
            forall|i: int|
                0 <= i < old(self).hands@.len() && i != old(self).hand_idx ==> final(self).hands@[i]
                    == old(self).hands@[i],
            final(self).balance == old(self).balance + 100 * old(self).current().bet + profit,
            final(self).insurance == old(self).insurance,
            final(self).base == old(self).base,
            final(self).strategy == old(self).strategy,
            final(self).surrender_allowed == old(self).surrender_allowed,
    {
        let i = self.hand_idx;
        let mut h = self.replace_hand(i, PlayerHand::empty());
        assert(h.wf());
        let bet = h.bet;
        h.outcome = Some(profit);
        assert(h.wf());
        self.replace_hand(i, h);
        assert(self.hands@ =~= old(self).hands@.update(i as int, h));
        self.balance = self.balance + 100 * (bet as i128) + (profit as i128);
        self.hand_idx = i + 1;
    }

    /// A tie on a natural: the stake comes back.
    pub fn push_current_hand(&mut self)
        requires
            old(self).wf(),
            old(self).playing(),
        ensures
            final(self).insurance == old(self).insurance,
            final(self).hands@[old(self).hand_idx as int].cards@ == old(self).current().cards@,
            final(self).hands@[old(self).hand_idx as int].bet == old(self).current().bet,
            final(self).hands@[old(self).hand_idx as int].value == old(self).current().value,
            final(self).wf(),
            final(self).hand_idx == old(self).hand_idx + 1,
            final(self).hands@[old(self).hand_idx as int].outcome == Some(0i64),
            final(self).balance == old(self).balance + 100 * old(self).current().bet,
            final(self).strategy == old(self).strategy,
            final(self).base == old(self).base,
            final(self).surrender_allowed == old(self).surrender_allowed,
            final(self).hands@.len() == old(self).hands@.len(),
    {
        self.settle_current(0);
    }

    /// The current sub-hand loses its stake.
    pub fn lose_current_hand(&mut self)
        requires
            old(self).wf(),
            old(self).playing(),
        ensures
            final(self).insurance == old(self).insurance,
            final(self).hands@[old(self).hand_idx as int].cards@ == old(self).current().cards@,
            final(self).hands@[old(self).hand_idx as int].bet == old(self).current().bet,
            final(self).hands@[old(self).hand_idx as int].value == old(self).current().value,
            final(self).wf(),
            final(self).hand_idx == old(self).hand_idx + 1,
            final(self).hands@[old(self).hand_idx as int].outcome == Some(
                (-100 * old(self).current().bet) as i64,
            ),
            final(self).balance == old(self).balance,
            final(self).strategy == old(self).strategy,
            final(self).base == old(self).base,
            final(self).surrender_allowed == old(self).surrender_allowed,
            final(self).hands@.len() == old(self).hands@.len(),
            forall|i: int|
                0 <= i < old(self).hands@.len() && i != old(self).hand_idx ==> final(self).hands@[i]
                    == old(self).hands@[i],
    {
        let bet = self.hands[self.hand_idx].bet;
        assert(self.hands@[self.hand_idx as int].wf());
        self.settle_current(-100 * (bet as i64));
    }

    /// A natural against a dealer without one: the stake comes back with a
    /// profit of one and a half times the stake.
    pub fn blackjack(&mut self)
        requires
            old(self).wf(),
            old(self).playing(),
        ensures
            final(self).insurance == old(self).insurance,
            final(self).hands@[old(self).hand_idx as int].cards@ == old(self).current().cards@,
            final(self).hands@[old(self).hand_idx as int].bet == old(self).current().bet,
            final(self).hands@[old(self).hand_idx as int].value == old(self).current().value,
            final(self).wf(),
            final(self).hand_idx == old(self).hand_idx + 1,
            final(self).hands@[old(self).hand_idx as int].outcome == Some(
                (150 * old(self).current().bet) as i64,
            ),
            final(self).balance == old(self).balance + 250 * old(self).current().bet,
            final(self).strategy == old(self).strategy,
            final(self).base == old(self).base,
            final(self).surrender_allowed == old(self).surrender_allowed,
            final(self).hands@.len() == old(self).hands@.len(),
    {
        let bet = self.hands[self.hand_idx].bet;
        assert(self.hands@[self.hand_idx as int].wf());
        self.settle_current(150 * (bet as i64));
    }

    /// Gives up the current sub-hand: half the stake comes back.
    pub fn surrender(&mut self)
        requires
            old(self).wf(),
            old(self).playing(),
        ensures
            forall|i: int|
                0 <= i < old(self).hands@.len() && i != old(self).hand_idx ==> final(self).hands@[i]
                    == old(self).hands@[i],
            final(self).hands@[old(self).hand_idx as int].cards@ == old(self).current().cards@,
            final(self).hands@[old(self).hand_idx as int].bet == old(self).current().bet,
            final(self).hands@[old(self).hand_idx as int].value == old(self).current().value,
            final(self).wf(),
            final(self).hand_idx == old(self).hand_idx + 1,
            final(self).hands@[old(self).hand_idx as int].outcome == Some(
                (-50 * old(self).current().bet) as i64,
            ),
            final(self).balance == old(self).balance + 50 * old(self).current().bet,
            final(self).strategy == old(self).strategy,
            final(self).base == old(self).base,
            final(self).surrender_allowed == old(self).surrender_allowed,
            final(self).hands@.len() == old(self).hands@.len(),
    {
        let bet = self.hands[self.hand_idx].bet;
        assert(self.hands@[self.hand_idx as int].wf());
        self.settle_current(-50 * (bet as i64));
    }

    /// Doubles the stake of the current sub-hand (the addition taken from the
    /// balance), adds `card` to it and moves on to the next sub-hand.
    pub fn double_down(&mut self, card: Card)
        requires
            old(self).wf(),
            old(self).playing(),
            old(self).current().cards@.len() == 2,
            100 * old(self).current().bet <= old(self).balance,
            card.wf(),
        ensures
            final(self).wf(),
            final(self).hand_idx == old(self).hand_idx + 1,
            final(self).hands@.len() == old(self).hands@.len(),
            final(self).hands@[old(self).hand_idx as int].bet == 2 * old(self).current().bet,
            final(self).hands@[old(self).hand_idx as int].cards@ == old(self).current().cards@.push(card),
            final(self).hands@[old(self).hand_idx as int].outcome.is_none(),
            forall|i: int|
                0 <= i < old(self).hands@.len() && i != old(self).hand_idx ==> final(self).hands@[i]
                    == old(self).hands@[i],
            final(self).balance == old(self).balance - 100 * old(self).current().bet,
            final(self).strategy == old(self).strategy,
            final(self).base == old(self).base,
            final(self).surrender_allowed == old(self).surrender_allowed,
    {
        let i = self.hand_idx;
        assert(old(self).hands@[i as int].outcome.is_none());
        let mut h = self.replace_hand(i, PlayerHand::empty());
        assert(h.wf());
        let bet = h.bet;
        let ghost cards = h.cards@;
        h.cards.push(card);
        h.value.add_card(card, Ghost(cards));
        assert forall|j: int| 0 <= j < h.cards@.len() implies #[trigger] h.cards@[j].wf() by {
            if j < cards.len() {
                assert(h.cards@[j] == cards[j]);
            }
        }
        h.bet = 2 * bet;
        assert(h.wf());
        self.replace_hand(i, h);
        assert(self.hands@ =~= old(self).hands@.update(i as int, h));
        assert(ledger(self.hands@) == ledger(old(self).hands@) - 100 * bet);
        self.balance = self.balance - 100 * (bet as i128);
        self.hand_idx = i + 1;
        assert forall|k: int| self.hand_idx <= k < self.hands@.len() implies #[trigger] self.hands@[k].outcome.is_none()
            && self.hands@[k].value.hard <= 21 by {
            assert(self.hands@[k] == old(self).hands@[k]);
        }
    }

    fn two_card_hand(a: Card, b: Card, bet: u64) -> (h: PlayerHand)
        requires
            a.wf(),
            b.wf(),
            bet <= u32::MAX,
        ensures
            h.wf(),
            h.cards@ == seq![a, b],
            h.bet == bet,
            h.outcome.is_none(),
            h.value.hard <= 20,
    {
        let mut cards: Vec<Card> = Vec::new();
        let mut value = HandValue::empty();
        value.add_card(a, Ghost(cards@));
        cards.push(a);
        value.add_card(b, Ghost(cards@));
        cards.push(b);
        assert(cards@ =~= seq![a, b]);
        PlayerHand { cards, value, bet, outcome: None }
    }

    /// Splits the current pair: the second card starts a new sub-hand right
    /// after the current one with an equal stake (taken from the balance), and
    /// each of the two hands receives one fresh card, `card1` and `card2`.
    pub fn split(&mut self, card1: Card, card2: Card)
        requires
            old(self).wf(),
            old(self).playing(),
            old(self).current().cards@.len() == 2,
            old(self).hands@.len() < MAX_HANDS,
            100 * old(self).current().bet <= old(self).balance,
            card1.wf(),
            card2.wf(),
        ensures
            final(self).wf(),
            final(self).hand_idx == old(self).hand_idx,
            final(self).hands@.len() == old(self).hands@.len() + 1,
            final(self).current().cards@ == seq![old(self).current().cards@[0], card1],
            final(self).hands@[old(self).hand_idx + 1].cards@ == seq![
                old(self).current().cards@[1],
                card2,
            ],
            final(self).current().bet == old(self).current().bet,
            final(self).hands@[old(self).hand_idx + 1].bet == old(self).current().bet,
            forall|i: int| 0 <= i < old(self).hand_idx ==> final(self).hands@[i] == old(self).hands@[i],
            forall|i: int|
                old(self).hand_idx < i < old(self).hands@.len() ==> final(self).hands@[i + 1]
                    == old(self).hands@[i],
            final(self).balance == old(self).balance - 100 * old(self).current().bet,
            final(self).strategy == old(self).strategy,
            final(self).base == old(self).base,
            final(self).surrender_allowed == old(self).surrender_allowed,
    {
        let i = self.hand_idx;
        let h = self.replace_hand(i, PlayerHand::empty());
        assert(h.wf());
        let bet = h.bet;
        let first = h.cards[0];
        let second = h.cards[1];
        let h1 = Self::two_card_hand(first, card1, bet);
        let h2 = Self::two_card_hand(second, card2, bet);
        self.replace_hand(i, h1);
        let ghost mid = self.hands@;
        self.hands.insert(i + 1, h2);
        assert(mid =~= old(self).hands@.update(i as int, h1));
        assert(self.hands@ =~= old(self).hands@.update(i as int, h1).insert(i + 1, h2));
        self.balance = self.balance - 100 * (bet as i128);
    }

    /// Settles, against the dealer's final total, every sub-hand that is
    /// still open and carries a stake.
    pub fn settle_showdown(&mut self, dealer_total: u8)
        requires
            old(self).wf(),
            old(self).hand_idx == old(self).hands@.len(),
            dealer_total <= 31,
        ensures
            final(self).insurance == old(self).insurance,
            final(self).wf(),
            final(self).hand_idx == old(self).hand_idx,
            final(self).hands@.len() == old(self).hands@.len(),
            forall|i: int|
                0 <= i < old(self).hands@.len() ==> {
                    &&& (#[trigger] final(self).hands@[i]).cards@ == old(self).hands@[i].cards@
                    &&& final(self).hands@[i].bet == old(self).hands@[i].bet
                    &&& final(self).hands@[i].value == old(self).hands@[i].value
                    &&& final(self).hands@[i].outcome == settled(old(self).hands@[i], dealer_total)
                },
            final(self).strategy == old(self).strategy,
            final(self).base == old(self).base,
            final(self).surrender_allowed == old(self).surrender_allowed,
    {
        let n = self.hands.len();
        let mut j: usize = 0;
        while j < n
            invariant
                n == self.hands@.len(),
                n == old(self).hands@.len(),
                j <= n,
                self.wf(),
                self.hand_idx == n,
                self.insurance == old(self).insurance,
                self.strategy == old(self).strategy,
                self.base == old(self).base,
                self.surrender_allowed == old(self).surrender_allowed,
                forall|i: int|
                    0 <= i < n ==> {
                        &&& (#[trigger] self.hands@[i]).cards@ == old(self).hands@[i].cards@
                        &&& self.hands@[i].bet == old(self).hands@[i].bet
                        &&& self.hands@[i].value == old(self).hands@[i].value
                    },
                forall|i: int|
                    0 <= i < j ==> (#[trigger] self.hands@[i]).outcome == settled(
                        old(self).hands@[i],
                        dealer_total,
                    ),
                forall|i: int| j <= i < n ==> (#[trigger] self.hands@[i]).outcome == old(self).hands@[i].outcome,
            decreases n - j,
        {
            if self.hands[j].outcome.is_none() && self.hands[j].bet > 0 {
                let mut h = self.replace_hand(j, PlayerHand::empty());
                assert(h.wf());
                let bet = h.bet;
                let p = h.value.best();
                let profit: i64 = if dealer_total > 21 || p > dealer_total {
                    100 * (bet as i64)
                } else if p == dealer_total {
                    0
                } else {
                    -100 * (bet as i64)
                };
                h.outcome = Some(profit);
                assert(h.wf());
                self.replace_hand(j, h);
                self.balance = self.balance + 100 * (bet as i128) + (profit as i128);
            }
            j = j + 1;
        }
    }

    /// Whether some sub-hand carries a stake and is not settled.
    pub fn has_open_stake(&self) -> (b: bool)
        requires
            self.wf(),
        ensures
            b == exists|i: int|
                0 <= i < self.hands@.len() && (#[trigger] self.hands@[i]).outcome.is_none()
                    && self.hands@[i].bet > 0,
    {
        let n = self.hands.len();
        let mut j: usize = 0;
        while j < n
            invariant
                n == self.hands@.len(),
                j <= n,
                forall|i: int|
                    0 <= i < j ==> !((#[trigger] self.hands@[i]).outcome.is_none()
                        && self.hands@[i].bet > 0),
            decreases n - j,
        {
            if self.hands[j].outcome.is_none() && self.hands[j].bet > 0 {
                assert(self.hands@[j as int].outcome.is_none() && self.hands@[j as int].bet > 0);
                return true;
            }
            j = j + 1;
        }
        false
    }

    /// The result of the deal: its profit in cents over every sub-hand and the
    /// insurance bet, and the deal counted once as won, pushed or lost by the
    /// sign of that profit.
    pub fn hand_log(&self) -> (log: HandLog)
        requires
            self.wf(),
        ensures
            log.winnings == profit(self.hands@) + self.insurance,
            log.wins == (if log.winnings > 0 { 1u32 } else { 0 }),
            log.pushes == (if log.winnings == 0 { 1u32 } else { 0 }),
            log.losses == (if log.winnings < 0 { 1u32 } else { 0 }),
    {
        let mut winnings: i64 = 0;
        let n = self.hands.len();
        let mut j: usize = 0;
        while j < n
            invariant
                n == self.hands@.len(),
                1 <= n <= 4,
                j <= n,
                self.wf(),
                winnings == profit(self.hands@.take(j as int)),
                -1_288_490_188_500 * j <= winnings <= 1_288_490_188_500 * j,
            decreases n - j,
        {
            let ghost t = self.hands@.take(j as int);
            let ghost t1 = self.hands@.take(j + 1);
            assert(self.hands@[j as int].wf());
            assert(forall|k: int| 0 <= k < j ==> t1[k] == t[k]);
            if let Some(o) = self.hands[j].outcome {
                assert(-100 * self.hands@[j as int].bet <= o <= 150 * self.hands@[j as int].bet);
                assert(self.hands@[j as int].bet <= MAX_STAKE);
                winnings = winnings + o;
            }
            j = j + 1;
        }
        assert(self.hands@.take(n as int) =~= self.hands@);
        let winnings = winnings + self.insurance;
        HandLog {
            wins: if winnings > 0 { 1 } else { 0 },
            pushes: if winnings == 0 { 1 } else { 0 },
            losses: if winnings < 0 { 1 } else { 0 },
            winnings,
        }
    }
}

/// The outcome of sub-hand `h` once the showdown against `dealer_total` has
/// settled it.
pub open spec fn settled(h: PlayerHand, dealer_total: u8) -> Option<i64> {
    if h.outcome.is_none() && h.bet > 0 {
        Some(showdown_profit(h.value.best_spec(), dealer_total, h.bet) as i64)
    } else {
        h.outcome
    }
}

/// The results of one deal.
#[derive(Clone, Copy, PartialEq, Eq, Structural, Debug)]
pub struct HandLog {
    pub wins: u32,
    pub pushes: u32,
    pub losses: u32,
    /// Profit, in cents.
    pub winnings: i64,
}

} // verus!
