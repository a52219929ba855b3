use vstd::prelude::*;
use crate::card::Card;
use crate::count::{Counter, MAX_CARDS_COUNTED, card_points, points_sum};
use crate::hand::{HandValue, value_of};
use crate::player::{HandLog, MAX_HANDS, Player, is_natural, settled};
use crate::shoe::Shoe;
use crate::strategy::{Action, GameError, policy_insures};

verus! {

/// The largest shoe a table holds: 52 cards for each of up to 2^32 decks.
pub const MAX_SHOE: u64 = 0x40_0000_0000;

/// Whether a dealer holding `v` must draw: below 17, and on a soft 17 when
/// the table makes the dealer hit soft 17.
pub open spec fn dealer_should_hit(v: HandValue, soft_seventeen: bool) -> bool {
    v.best_spec() < 17 || (soft_seventeen && v.best_spec() == 17 && v.soft.is_some())
}

/// The dealer's cards: the first face up, the second face down until the
/// dealer plays.
pub struct DealerHand {
    pub cards: Vec<Card>,
    pub value: HandValue,
}

impl DealerHand {
    pub open spec fn wf(&self) -> bool {
        &&& self.value.of(self.cards@)
        &&& forall|i: int| 0 <= i < self.cards@.len() ==> #[trigger] self.cards@[i].wf()
    }

    pub fn new() -> (d: DealerHand)
        ensures
            d.wf(),
            d.cards@.len() == 0,
    {
        DealerHand { cards: Vec::new(), value: HandValue::empty() }
    }

    fn receive_card(&mut self, card: Card)
        requires
            old(self).wf(),
            old(self).value.hard <= 21,
            card.wf(),
        ensures
            final(self).wf(),
            final(self).cards@ == old(self).cards@.push(card),
            final(self).value.hard == old(self).value.hard + card.value(),
    {
        let ghost cards = self.cards@;
        self.value.add_card(card, Ghost(cards));
        self.cards.push(card);
        assert forall|j: int| 0 <= j < self.cards@.len() implies #[trigger] self.cards@[j].wf() by {
            if j < cards.len() {
                assert(self.cards@[j] == cards[j]);
            }
        }
    }

    /// Whether the dealer holds a natural.
    pub fn has_blackjack(&self) -> (b: bool)
        ensures
            b == is_natural(self.cards@),
    {
        if self.cards.len() != 2 {
            return false;
        }
        let c0 = self.cards[0];
        let c1 = self.cards[1];
        (c0.val() == 10 && c1.is_ace()) || (c0.is_ace() && c1.val() == 10)
    }

    /// Clears the hand for the next deal.
    pub fn reset(&mut self)
        ensures
            final(self).wf(),
            final(self).cards@.len() == 0,
    {
        *self = DealerHand::new();
    }
}

/// The table: the shoe, the dealer's hand and the house rules.
pub struct BlackjackTable {
    pub shoe: Shoe,
    pub dealer: DealerHand,
    pub n_shuffles: u32,
    pub soft_seventeen: bool,
    /// Whether the table offers insurance when the dealer shows an ace.
    pub insurance: bool,
    /// Naturals the player was dealt in the current deal.
    pub num_player_blackjacks: u32,
}

/// Whether every sub-hand still to be played holds at least two cards.
pub open spec fn in_play(p: &Player) -> bool {
    forall|i: int| p.hand_idx <= i < p.hands@.len() ==> (#[trigger] p.hands@[i]).cards@.len() >= 2
}

/// Whether the player carries a stake on a sub-hand that is not settled.
pub open spec fn has_open_stake(p: &Player) -> bool {
    exists|i: int|
        0 <= i < p.hands@.len() && (#[trigger] p.hands@[i]).outcome.is_none() && p.hands@[i].bet
            > 0
}

impl BlackjackTable {
    pub open spec fn wf(&self) -> bool {
        &&& self.shoe.wf()
        &&& self.shoe.len_spec() <= MAX_SHOE
        &&& self.dealer.wf()
        &&& self.num_player_blackjacks <= 1
    }

    /// Whether the player's count covers no more cards than were drawn since
    /// the shuffle.
    pub open spec fn synced(&self, p: &Player) -> bool {
        p.strategy.counter.seen <= self.shoe.cursor_spec()
    }

    /// A measure that every play action lowers: undrawn cards and sub-hands
    /// still to play.
    pub open spec fn progress(&self, p: &Player) -> int {
        2 * (self.shoe.len_spec() - self.shoe.cursor_spec()) + (MAX_HANDS - p.hand_idx)
    }

    pub open spec fn up_card(&self) -> Card {
        self.dealer.cards@[0]
    }

    /// A table with a fresh shoe of `n_decks` decks, shuffled `n_shuffles`
    /// times at each reshuffle, reproducibly from `seed`; `soft_seventeen`
    /// makes the dealer hit soft 17; `insurance` offers insurance.
    pub fn new(n_decks: usize, n_shuffles: u32, soft_seventeen: bool, insurance: bool, seed: u64)
        -> (t: BlackjackTable)
        requires
            n_decks > 0,
            n_decks <= u32::MAX,
            n_decks * 52 <= usize::MAX,
        ensures
            t.wf(),
            t.shoe.len_spec() == 52 * n_decks,
            t.shoe.cursor_spec() == 0,
            t.shoe.shuffle_due_spec(),
            t.dealer.cards@.len() == 0,
            t.n_shuffles == n_shuffles,
            t.soft_seventeen == soft_seventeen,
            t.insurance == insurance,
            t.num_player_blackjacks == 0,
    {
        let shoe = Shoe::new(n_decks, seed);
        BlackjackTable {
            shoe,
            dealer: DealerHand::new(),
            n_shuffles,
            soft_seventeen,
            insurance,
            num_player_blackjacks: 0,
        }
    }

    /// A table dealing from `shoe`.
    pub fn with_shoe(shoe: Shoe, n_shuffles: u32, soft_seventeen: bool, insurance: bool) -> (t:
        BlackjackTable)
        requires
            shoe.wf(),
            shoe.len_spec() <= MAX_SHOE,
        ensures
            t.wf(),
            t.shoe == shoe,
            t.dealer.cards@.len() == 0,
            t.n_shuffles == n_shuffles,
            t.soft_seventeen == soft_seventeen,
            t.insurance == insurance,
            t.num_player_blackjacks == 0,
    {
        BlackjackTable {
            shoe,
            dealer: DealerHand::new(),
            n_shuffles,
            soft_seventeen,
            insurance,
            num_player_blackjacks: 0,
        }
    }

    fn draw(&mut self) -> (r: Result<Card, GameError>)
        requires
            old(self).wf(),
        ensures
            final(self).insurance == old(self).insurance,
            final(self).wf(),
            final(self).dealer == old(self).dealer,
            final(self).n_shuffles == old(self).n_shuffles,
            final(self).soft_seventeen == old(self).soft_seventeen,
            final(self).num_player_blackjacks == old(self).num_player_blackjacks,
            final(self).shoe.cards_spec() == old(self).shoe.cards_spec(),
            final(self).shoe.shuffle_point_spec() == old(self).shoe.shuffle_point_spec(),
            old(self).shoe.cursor_spec() < old(self).shoe.len_spec() ==> {
                &&& r == Ok::<Card, GameError>(
                    old(self).shoe.cards_spec()[old(self).shoe.cursor_spec() as int],
                )
                &&& final(self).shoe.cursor_spec() == old(self).shoe.cursor_spec() + 1
            },
            old(self).shoe.cursor_spec() >= old(self).shoe.len_spec() ==> r == Err::<
                Card,
                GameError,
            >(GameError::ShoeExhausted) && final(self).shoe.cursor_spec()
                == old(self).shoe.cursor_spec(),
            r matches Ok(c) ==> c.wf(),
    {
        match self.shoe.draw() {
            Some(c) => Ok(c),
            None => Err(GameError::ShoeExhausted),
        }
    }

    /// Draws a card for the current sub-hand, which holds at most 11, and
    /// lets the player count it.
    fn draw_to_player(&mut self, player: &mut Player) -> (r: Result<Card, GameError>)
        requires
            old(self).wf(),
            old(player).wf(),
            old(player).playing(),
            old(player).current().value.hard <= 11,
            old(self).synced(old(player)),
        ensures
            final(self).insurance == old(self).insurance,
            final(player).insurance == old(player).insurance,
            final(self).wf(),
            final(player).wf(),
            final(self).synced(final(player)),
            final(self).dealer == old(self).dealer,
            final(self).n_shuffles == old(self).n_shuffles,
            final(self).soft_seventeen == old(self).soft_seventeen,
            final(self).num_player_blackjacks == old(self).num_player_blackjacks,
            final(self).shoe.cards_spec() == old(self).shoe.cards_spec(),
            final(self).shoe.len_spec() == old(self).shoe.len_spec(),
            r is Ok <==> old(self).shoe.cursor_spec() < old(self).shoe.len_spec(),
            r matches Ok(c) ==> {
                &&& c == old(self).shoe.cards_spec()[old(self).shoe.cursor_spec() as int]
                &&& final(self).shoe.cursor_spec() == old(self).shoe.cursor_spec() + 1
                &&& final(player).current().cards@ == old(player).current().cards@.push(c)
                &&& final(player).current().value.hard == old(player).current().value.hard
                    + c.value()
                &&& final(player).current().bet == old(player).current().bet
                &&& final(player).hand_idx == old(player).hand_idx
                &&& final(player).hands@.len() == old(player).hands@.len()
                &&& forall|i: int|
                    0 <= i < old(player).hands@.len() && i != old(player).hand_idx
                        ==> final(player).hands@[i] == old(player).hands@[i]
                &&& final(player).balance == old(player).balance
                &&& final(player).base == old(player).base
                &&& final(player).surrender_allowed == old(player).surrender_allowed
                &&& final(player).strategy.decision == old(player).strategy.decision
                &&& final(player).strategy.betting == old(player).strategy.betting
                &&& final(player).strategy.counter.system == old(player).strategy.counter.system
                &&& final(player).strategy.counter.num_decks
                    == old(player).strategy.counter.num_decks
                &&& final(player).strategy.counter.seen == old(player).strategy.counter.seen + 1
                &&& final(player).strategy.counter.running == old(player).strategy.counter.running
                    + card_points(old(player).strategy.counter.system, c)
            },
            r is Err ==> *final(player) == *old(player) && final(self).shoe.cursor_spec()
                == old(self).shoe.cursor_spec(),
    {
        let c = self.draw()?;
        player.receive_card(c);
        player.update_strategy(&c);
        Ok(c)
    }
}

impl BlackjackTable {
    /// Deals a hand: reshuffles first when a shuffle is due (and resets the
    /// player's count), then deals player, dealer up-card, player, dealer
    /// hole card; the player counts every card but the hole card. A dealer
    /// natural is revealed (and counted) at once: the player pushes with a
    /// natural (which is recorded) and loses otherwise. A player natural
    /// against a dealer without one is paid 3:2 at once. Either way the
    /// sub-hand is settled and takes no further play. Where the table offers
    /// insurance and the dealer shows an ace, the strategy may insure for half
    /// the stake (if the balance covers it) before the dealer checks for a
    /// natural: the bet pays 2:1 on a dealer natural and is lost otherwise.
    pub fn deal_hand(&mut self, player: &mut Player) -> (r: Result<(), GameError>)
        requires
            old(self).wf(),
            old(player).wf(),
            old(self).synced(old(player)),
            old(self).dealer.cards@.len() == 0,
            old(self).num_player_blackjacks == 0,
            old(player).hands@.len() == 1,
            old(player).hand_idx == 0,
            old(player).hands@[0].cards@.len() == 0,
            old(player).insurance == 0,
        ensures
            final(self).wf(),
            final(player).wf(),
            final(self).synced(final(player)),
            final(self).n_shuffles == old(self).n_shuffles,
            final(self).insurance == old(self).insurance,
            final(self).soft_seventeen == old(self).soft_seventeen,
            final(self).shoe.len_spec() == old(self).shoe.len_spec(),
            final(self).shoe.cards_spec().to_multiset() == old(self).shoe.cards_spec().to_multiset(),
            !old(self).shoe.shuffle_due_spec() ==> final(self).shoe.cards_spec() == old(
                self,
            ).shoe.cards_spec(),
            final(player).base == old(player).base,
            final(player).surrender_allowed == old(player).surrender_allowed,
            final(player).strategy.decision == old(player).strategy.decision,
            final(player).strategy.betting == old(player).strategy.betting,
            final(player).strategy.counter.system == old(player).strategy.counter.system,
            final(player).strategy.counter.num_decks == old(player).strategy.counter.num_decks,
            r is Err <==> !old(self).shoe.shuffle_due_spec() && old(self).shoe.cursor_spec() + 4
                > old(self).shoe.len_spec(),
            r is Err ==> r == Err::<(), GameError>(GameError::ShoeExhausted),
            r is Ok ==> ({
                let k: int = if old(self).shoe.shuffle_due_spec() {
                    0
                } else {
                    old(self).shoe.cursor_spec() as int
                };
                let s = final(self).shoe.cards_spec();
                let pc = seq![s[k], s[k + 2]];
                let dc = seq![s[k + 1], s[k + 3]];
                let bet = old(player).hands@[0].bet;
                let sys = old(player).strategy.counter.system;
                let start = if old(self).shoe.shuffle_due_spec() {
                    crate::count::initial_count(sys, old(player).strategy.counter.num_decks)
                } else {
                    old(player).strategy.counter.running as int
                };
                let start_seen: int = if old(self).shoe.shuffle_due_spec() {
                    0
                } else {
                    old(player).strategy.counter.seen as int
                };
                let counted_three = Counter {
                    system: sys,
                    num_decks: old(player).strategy.counter.num_decks,
                    running: (start + card_points(sys, s[k]) + card_points(sys, s[k + 1])
                        + card_points(sys, s[k + 2])) as i64,
                    seen: (start_seen + 3) as u64,
                };
                let insured = old(self).insurance && s[k + 1].is_ace_spec() && policy_insures(
                    old(player).strategy.decision,
                    counted_three.true_count_spec().0,
                    counted_three.true_count_spec().1,
                ) && 50 * bet <= old(player).balance;
                let ins: int = if !insured {
                    0
                } else if is_natural(dc) {
                    100 * bet
                } else {
                    -50 * bet
                };
                &&& final(self).shoe.cursor_spec() == k + 4
                &&& final(player).hands@.len() == 1
                &&& final(player).hands@[0].cards@ == pc
                &&& final(player).hands@[0].bet == bet
                &&& final(self).dealer.cards@ == dc
                &&& final(self).dealer.value.hard <= 20
                &&& final(player).insurance == ins
                &&& final(player).strategy.counter.seen == start_seen + 3 + (if is_natural(dc) {
                    1int
                } else {
                    0
                })
                &&& !is_natural(dc) ==> final(player).strategy.counter.seen
                    < final(self).shoe.cursor_spec()
                &&& final(player).strategy.counter.running == start + card_points(sys, s[k])
                    + card_points(sys, s[k + 1]) + card_points(sys, s[k + 2]) + (if is_natural(dc) {
                    card_points(sys, s[k + 3])
                } else {
                    0
                })
                &&& is_natural(dc) ==> {
                    &&& final(player).hand_idx == 1
                    &&& final(player).hands@[0].outcome == Some(
                        if is_natural(pc) {
                            0i64
                        } else {
                            (-100 * bet) as i64
                        },
                    )
                    &&& final(player).balance == old(player).balance + ins + (if is_natural(pc) {
                        100 * bet
                    } else {
                        0
                    })
                    &&& final(self).num_player_blackjacks == (if is_natural(pc) {
                        1u32
                    } else {
                        0
                    })
                }
                &&& !is_natural(dc) && is_natural(pc) ==> {
                    &&& final(player).hand_idx == 1
                    &&& final(player).hands@[0].outcome == Some((150 * bet) as i64)
                    &&& final(player).balance == old(player).balance + ins + 250 * bet
                    &&& final(self).num_player_blackjacks == 1
                }
                &&& !is_natural(dc) && !is_natural(pc) ==> {
                    &&& final(player).hand_idx == 0
                    &&& final(player).hands@[0].outcome.is_none()
                    &&& final(player).balance == old(player).balance + ins
                    &&& final(self).num_player_blackjacks == 0
                    &&& in_play(final(player))
                }
            }),
    {
        if self.shoe.shuffle_due() {
            self.shoe.shuffle(self.n_shuffles);
            player.reset_strategy();
            proof {
                self.shoe.lemma_wf();
            }
        }
        if self.shoe.len() - self.shoe.cursor() < 4 {
            return Err(GameError::ShoeExhausted);
        }
        let ghost s = self.shoe.cards_spec();
        let ghost k = self.shoe.cursor_spec() as int;
        let ghost start = player.strategy.counter.running as int;
        assert(player.hands@[0].wf());
        assert(player.current().cards@ =~= Seq::<Card>::empty());
        proof {
            self.shoe.lemma_wf();
        }
        let c1 = self.draw_to_player(player)?;
        let c2 = self.draw()?;
        self.dealer.receive_card(c2);
        player.update_strategy(&c2);
        let c3 = self.draw_to_player(player)?;
        let c4 = self.draw()?;
        self.dealer.receive_card(c4);
        assert(player.hands@[0].cards@ =~= seq![s[k], s[k + 2]]);
        assert(self.dealer.cards@ =~= seq![s[k + 1], s[k + 3]]);
        let dealer_natural = self.dealer.has_blackjack();
        if self.insurance && c2.is_ace() && player.strategy.take_insurance() && player.can_insure() {
            player.insure(dealer_natural);
        }
        if dealer_natural {
            player.update_strategy(&c4);
            if player.has_blackjack() {
                player.push_current_hand();
                self.num_player_blackjacks = 1;
            } else {
                player.lose_current_hand();
            }
        } else if player.has_blackjack() {
            player.blackjack();
            self.num_player_blackjacks = 1;
        }
        Ok(())
    }
}

/// The shoe card at the cursor of `t`.
pub open spec fn next_card(t: &BlackjackTable) -> Card {
    t.shoe.cards_spec()[t.shoe.cursor_spec() as int]
}

impl BlackjackTable {
    /// The dealer's face-up card.
    pub fn dealers_face_up_card(&self) -> (c: Card)
        requires
            self.dealer.cards@.len() >= 1,
        ensures
            c == self.up_card(),
    {
        self.dealer.cards[0]
    }

    /// Deals the next card to the current sub-hand and counts it; a bust
    /// loses the sub-hand and moves play on.
    pub fn hit(&mut self, player: &mut Player) -> (r: Result<(), GameError>)
        requires
            old(self).wf(),
            old(player).wf(),
            old(self).synced(old(player)),
            old(player).playing(),
            in_play(old(player)),
        ensures
            final(self).shoe.cursor_spec() - final(player).strategy.counter.seen
                == old(self).shoe.cursor_spec() - old(player).strategy.counter.seen,
            final(self).wf(),
            final(player).wf(),
            final(self).synced(final(player)),
            final(self).dealer == old(self).dealer,
            final(self).n_shuffles == old(self).n_shuffles,
            final(self).soft_seventeen == old(self).soft_seventeen,
            final(self).num_player_blackjacks == old(self).num_player_blackjacks,
            final(self).shoe.cards_spec() == old(self).shoe.cards_spec(),
            final(self).shoe.len_spec() == old(self).shoe.len_spec(),
            final(player).base == old(player).base,
            final(player).surrender_allowed == old(player).surrender_allowed,
            final(player).strategy.decision == old(player).strategy.decision,
            final(player).strategy.betting == old(player).strategy.betting,
            final(player).strategy.counter.system == old(player).strategy.counter.system,
            final(player).strategy.counter.num_decks == old(player).strategy.counter.num_decks,
            in_play(final(player)),
            r is Err <==> old(self).shoe.cursor_spec() >= old(self).shoe.len_spec(),
            r is Err ==> r == Err::<(), GameError>(GameError::ShoeExhausted),
            r is Ok ==> ({
                let c = next_card(old(self));
                let i = old(player).hand_idx as int;
                &&& final(self).shoe.cursor_spec() == old(self).shoe.cursor_spec() + 1
                &&& final(player).hands@.len() == old(player).hands@.len()
                &&& final(player).hands@[i].cards@ == old(player).current().cards@.push(c)
                &&& final(player).hands@[i].bet == old(player).current().bet
                &&& final(player).balance == old(player).balance
                &&& final(player).strategy.counter.running == old(player).strategy.counter.running
                    + card_points(old(player).strategy.counter.system, c)
                &&& if old(player).current().value.hard + c.value() > 21 {
                    &&& final(player).hand_idx == i + 1
                    &&& final(player).hands@[i].outcome == Some(
                        (-100 * old(player).current().bet) as i64,
                    )
                } else {
                    &&& final(player).hand_idx == i
                    &&& final(player).hands@[i].outcome.is_none()
                }
                &&& forall|j: int|
                    0 <= j < old(player).hands@.len() && j != i ==> final(player).hands@[j]
                        == old(player).hands@[j]
            }),
            r is Ok ==> final(self).progress(final(player)) < old(self).progress(old(player)),
    {
        proof {
            self.shoe.lemma_wf();
        }
        let c = self.draw()?;
        player.receive_card(c);
        player.update_strategy(&c);
        Ok(())
    }

    /// Ends play on the current sub-hand.
    pub fn stand(&self, player: &mut Player)
        requires
            old(player).wf(),
            old(player).playing(),
            in_play(old(player)),
        ensures
            final(player).wf(),
            final(player).hand_idx == old(player).hand_idx + 1,
            final(player).hands@ == old(player).hands@,
            final(player).balance == old(player).balance,
            final(player).base == old(player).base,
            final(player).strategy == old(player).strategy,
            final(player).surrender_allowed == old(player).surrender_allowed,
            in_play(final(player)),
    {
        player.stand();
    }

    /// Doubles the stake of the current two-card sub-hand, deals it exactly
    /// one card (counted) and ends play on it.
    pub fn double_down(&mut self, player: &mut Player) -> (r: Result<(), GameError>)
        requires
            old(self).wf(),
            old(player).wf(),
            old(self).synced(old(player)),
            old(player).playing(),
            in_play(old(player)),
            old(player).current().cards@.len() == 2,
            100 * old(player).current().bet <= old(player).balance,
        ensures
            final(self).shoe.cursor_spec() - final(player).strategy.counter.seen
                == old(self).shoe.cursor_spec() - old(player).strategy.counter.seen,
            final(self).wf(),
            final(player).wf(),
            final(self).synced(final(player)),
            final(self).dealer == old(self).dealer,
            final(self).n_shuffles == old(self).n_shuffles,
            final(self).soft_seventeen == old(self).soft_seventeen,
            final(self).num_player_blackjacks == old(self).num_player_blackjacks,
            final(self).shoe.cards_spec() == old(self).shoe.cards_spec(),
            final(self).shoe.len_spec() == old(self).shoe.len_spec(),
            final(player).base == old(player).base,
            final(player).surrender_allowed == old(player).surrender_allowed,
            final(player).strategy.decision == old(player).strategy.decision,
            final(player).strategy.betting == old(player).strategy.betting,
            final(player).strategy.counter.system == old(player).strategy.counter.system,
            final(player).strategy.counter.num_decks == old(player).strategy.counter.num_decks,
            in_play(final(player)),
            r is Err <==> old(self).shoe.cursor_spec() >= old(self).shoe.len_spec(),
            r is Err ==> r == Err::<(), GameError>(GameError::ShoeExhausted),
            r is Ok ==> ({
                let c = next_card(old(self));
                let i = old(player).hand_idx as int;
                &&& final(self).shoe.cursor_spec() == old(self).shoe.cursor_spec() + 1
                &&& final(player).hand_idx == i + 1
                &&& final(player).hands@.len() == old(player).hands@.len()
                &&& final(player).hands@[i].cards@ == old(player).current().cards@.push(c)
                &&& final(player).hands@[i].bet == 2 * old(player).current().bet
                &&& final(player).hands@[i].outcome.is_none()
                &&& final(player).balance == old(player).balance - 100 * old(player).current().bet
                &&& final(player).strategy.counter.running == old(player).strategy.counter.running
                    + card_points(old(player).strategy.counter.system, c)
                &&& forall|j: int|
                    0 <= j < old(player).hands@.len() && j != i ==> final(player).hands@[j]
                        == old(player).hands@[j]
            }),
            r is Ok ==> final(self).progress(final(player)) < old(self).progress(old(player)),
    {
        proof {
            self.shoe.lemma_wf();
        }
        let c = self.draw()?;
        player.double_down(c);
        player.update_strategy(&c);
        Ok(())
    }

    /// Splits the current pair into two sub-hands, the new one right after
    /// the current one with an equal stake; each receives one fresh card, and
    /// both are counted.
    pub fn split(&mut self, player: &mut Player) -> (r: Result<(), GameError>)
        requires
            old(self).wf(),
            old(player).wf(),
            old(self).synced(old(player)),
            old(player).playing(),
            in_play(old(player)),
            old(player).current().cards@.len() == 2,
            old(player).hands@.len() < MAX_HANDS,
            100 * old(player).current().bet <= old(player).balance,
        ensures
            final(self).shoe.cursor_spec() - final(player).strategy.counter.seen
                == old(self).shoe.cursor_spec() - old(player).strategy.counter.seen,
            final(self).wf(),
            final(player).wf(),
            final(self).synced(final(player)),
            final(self).dealer == old(self).dealer,
            final(self).n_shuffles == old(self).n_shuffles,
            final(self).soft_seventeen == old(self).soft_seventeen,
            final(self).num_player_blackjacks == old(self).num_player_blackjacks,
            final(self).shoe.cards_spec() == old(self).shoe.cards_spec(),
            final(self).shoe.len_spec() == old(self).shoe.len_spec(),
            final(player).base == old(player).base,
            final(player).surrender_allowed == old(player).surrender_allowed,
            final(player).strategy.decision == old(player).strategy.decision,
            final(player).strategy.betting == old(player).strategy.betting,
            final(player).strategy.counter.system == old(player).strategy.counter.system,
            final(player).strategy.counter.num_decks == old(player).strategy.counter.num_decks,
            in_play(final(player)),
            r is Err <==> old(self).shoe.cursor_spec() + 2 > old(self).shoe.len_spec(),
            r is Err ==> r == Err::<(), GameError>(GameError::ShoeExhausted),
            r is Ok ==> ({
                let s = old(self).shoe.cards_spec();
                let k = old(self).shoe.cursor_spec() as int;
                let i = old(player).hand_idx as int;
                let bet = old(player).current().bet;
                &&& final(self).shoe.cursor_spec() == k + 2
                &&& final(player).hand_idx == i
                &&& final(player).hands@.len() == old(player).hands@.len() + 1
                &&& final(player).hands@[i].cards@ == seq![old(player).current().cards@[0], s[k]]
                &&& final(player).hands@[i + 1].cards@ == seq![
                    old(player).current().cards@[1],
                    s[k + 1],
                ]
                &&& final(player).hands@[i].bet == bet
                &&& final(player).hands@[i + 1].bet == bet
                &&& final(player).balance == old(player).balance - 100 * bet
                &&& final(player).strategy.counter.running == old(player).strategy.counter.running
                    + card_points(old(player).strategy.counter.system, s[k]) + card_points(
                    old(player).strategy.counter.system,
                    s[k + 1],
                )
            }),
            r is Ok ==> final(self).progress(final(player)) < old(self).progress(old(player)),
    {
        proof {
            self.shoe.lemma_wf();
        }
        if self.shoe.len() - self.shoe.cursor() < 2 {
            return Err(GameError::ShoeExhausted);
        }
        let c1 = self.draw()?;
        let c2 = self.draw()?;
        player.split(c1, c2);
        player.update_strategy(&c1);
        player.update_strategy(&c2);
        Ok(())
    }

    /// Gives up the current sub-hand for half its stake.
    pub fn surrender(&self, player: &mut Player)
        requires
            old(player).wf(),
            old(player).playing(),
            in_play(old(player)),
        ensures
            final(player).wf(),
            final(player).hand_idx == old(player).hand_idx + 1,
            final(player).hands@.len() == old(player).hands@.len(),
            final(player).hands@[old(player).hand_idx as int].outcome == Some(
                (-50 * old(player).current().bet) as i64,
            ),
            final(player).balance == old(player).balance + 50 * old(player).current().bet,
            final(player).base == old(player).base,
            final(player).strategy == old(player).strategy,
            final(player).surrender_allowed == old(player).surrender_allowed,
            in_play(final(player)),
    {
        player.surrender();
    }

    /// Plays `action`, which must be legal for the current sub-hand.
    pub fn play_option(&mut self, player: &mut Player, action: Action) -> (r: Result<
        (),
        GameError,
    >)
        requires
            old(self).wf(),
            old(player).wf(),
            old(self).synced(old(player)),
            old(player).playing(),
            in_play(old(player)),
            old(self).dealer.cards@.len() >= 1,
            old(player).options_spec(old(self).up_card()).has(action),
        ensures
            final(self).shoe.cursor_spec() - final(player).strategy.counter.seen
                == old(self).shoe.cursor_spec() - old(player).strategy.counter.seen,
            final(self).wf(),
            final(player).wf(),
            final(self).synced(final(player)),
            final(self).dealer == old(self).dealer,
            final(self).n_shuffles == old(self).n_shuffles,
            final(self).soft_seventeen == old(self).soft_seventeen,
            final(self).num_player_blackjacks == old(self).num_player_blackjacks,
            final(self).shoe.cards_spec() == old(self).shoe.cards_spec(),
            final(self).shoe.len_spec() == old(self).shoe.len_spec(),
            final(player).base == old(player).base,
            final(player).surrender_allowed == old(player).surrender_allowed,
            final(player).strategy.decision == old(player).strategy.decision,
            final(player).strategy.betting == old(player).strategy.betting,
            final(player).strategy.counter.system == old(player).strategy.counter.system,
            final(player).strategy.counter.num_decks == old(player).strategy.counter.num_decks,
            in_play(final(player)),
            r is Ok ==> final(self).progress(final(player)) < old(self).progress(old(player)),
            r is Err ==> r == Err::<(), GameError>(GameError::ShoeExhausted),
            action == Action::Stand ==> r is Ok && final(player).hand_idx == old(player).hand_idx
                + 1 && final(player).hands@ == old(player).hands@,
            action == Action::Surrender ==> r is Ok && final(player).hands@[old(
                player,
            ).hand_idx as int].outcome == Some((-50 * old(player).current().bet) as i64),
            action == Action::Hit ==> (r is Ok <==> old(self).shoe.cursor_spec()
                < old(self).shoe.len_spec()) && (r is Ok ==> final(player).hands@[old(
                player,
            ).hand_idx as int].cards@ == old(player).current().cards@.push(next_card(old(self)))),
            action == Action::DoubleDown ==> (r is Ok <==> old(self).shoe.cursor_spec()
                < old(self).shoe.len_spec()) && (r is Ok ==> {
                &&& final(player).hands@[old(player).hand_idx as int].bet == 2 * old(
                    player,
                ).current().bet
                &&& final(player).hands@[old(player).hand_idx as int].cards@ == old(
                    player,
                ).current().cards@.push(next_card(old(self)))
                &&& final(player).hand_idx == old(player).hand_idx + 1
            }),
            action == Action::Split ==> (r is Ok <==> old(self).shoe.cursor_spec() + 2
                <= old(self).shoe.len_spec()) && (r is Ok ==> {
                &&& final(player).hands@.len() == old(player).hands@.len() + 1
                &&& final(player).hand_idx == old(player).hand_idx
                &&& final(player).hands@[old(player).hand_idx + 1].bet == old(player).current().bet
            }),
    {
        match action {
            Action::Stand => {
                self.stand(player);
                Ok(())
            },
            Action::Hit => self.hit(player),
            Action::DoubleDown => self.double_down(player),
            Action::Split => self.split(player),
            Action::Surrender => {
                self.surrender(player);
                Ok(())
            },
        }
    }
}

/// Adding a card to a sequence adds its points to the sequence's sum.
pub proof fn lemma_points_push(system: crate::count::CountingSystem, cards: Seq<Card>, c: Card)
    ensures
        points_sum(system, cards.push(c)) == points_sum(system, cards) + card_points(system, c),
{
    assert(cards.push(c).drop_last() =~= cards);
}

impl BlackjackTable {
    /// The dealer's play: reveals the hole card (counted), then draws
    /// (counting each card) while the house rule says to hit. Returns the
    /// dealer's best total.
    pub fn get_dealers_optimal_final_hand(&mut self, player: &mut Player) -> (r: Result<
        u8,
        GameError,
    >)
        requires
            old(self).wf(),
            old(player).wf(),
            old(player).strategy.counter.seen < old(self).shoe.cursor_spec(),
            old(self).dealer.cards@.len() == 2,
            old(self).dealer.value.hard <= 21,
        ensures
            final(self).wf(),
            final(player).wf(),
            final(self).synced(final(player)),
            final(self).n_shuffles == old(self).n_shuffles,
            final(self).soft_seventeen == old(self).soft_seventeen,
            final(self).num_player_blackjacks == old(self).num_player_blackjacks,
            final(self).shoe.cards_spec() == old(self).shoe.cards_spec(),
            final(self).shoe.len_spec() == old(self).shoe.len_spec(),
            final(player).hands@ == old(player).hands@,
            final(player).hand_idx == old(player).hand_idx,
            final(player).insurance == old(player).insurance,
            final(player).balance == old(player).balance,
            final(player).base == old(player).base,
            final(player).surrender_allowed == old(player).surrender_allowed,
            final(player).strategy.decision == old(player).strategy.decision,
            final(player).strategy.betting == old(player).strategy.betting,
            final(player).strategy.counter.system == old(player).strategy.counter.system,
            final(player).strategy.counter.num_decks == old(player).strategy.counter.num_decks,
            ({
                let s = old(self).shoe.cards_spec();
                let c0 = old(self).shoe.cursor_spec() as int;
                let c1 = final(self).shoe.cursor_spec() as int;
                let drawn = s.subrange(c0, c1);
                &&& c0 <= c1
                &&& final(self).dealer.cards@ == old(self).dealer.cards@ + drawn
                &&& forall|k: int|
                    c0 <= k < c1 ==> dealer_should_hit(
                        value_of(old(self).dealer.cards@ + #[trigger] s.subrange(c0, k)),
                        old(self).soft_seventeen,
                    )
                &&& final(player).strategy.counter.running == old(player).strategy.counter.running
                    + points_sum(
                    old(player).strategy.counter.system,
                    seq![old(self).dealer.cards@[1]] + drawn,
                )
                &&& final(player).strategy.counter.seen == old(player).strategy.counter.seen + 1 + (c1
                    - c0)
                &&& r is Ok ==> !dealer_should_hit(final(self).dealer.value, old(self).soft_seventeen)
                &&& r is Err ==> r == Err::<u8, GameError>(GameError::ShoeExhausted) && c1
                    == final(self).shoe.len_spec()
            }),
            r matches Ok(t) ==> t == final(self).dealer.value.best_spec() && t <= 26,
    {
        proof {
            self.shoe.lemma_wf();
        }
        let ghost s = self.shoe.cards_spec();
        let ghost c0 = self.shoe.cursor_spec() as int;
        let ghost d0 = self.dealer.cards@;
        let ghost sys = player.strategy.counter.system;
        let ghost r0 = player.strategy.counter.running as int;
        let hole = self.dealer.cards[1];
        player.update_strategy(&hole);
        proof {
            lemma_points_push(sys, Seq::empty(), hole);
            assert(Seq::<Card>::empty().push(hole) =~= seq![hole]);
            assert(seq![hole] + s.subrange(c0, c0) =~= seq![hole]);
            assert(d0 + s.subrange(c0, c0) =~= d0);
        }
        while self.dealer.value.best() < 17 || (self.soft_seventeen && self.dealer.value.best() == 17
            && self.dealer.value.is_soft())
            invariant
                self.wf(),
                player.wf(),
                self.synced(player),
                self.n_shuffles == old(self).n_shuffles,
                self.soft_seventeen == old(self).soft_seventeen,
                self.num_player_blackjacks == old(self).num_player_blackjacks,
                s == old(self).shoe.cards_spec(),
                c0 == old(self).shoe.cursor_spec(),
                d0 == old(self).dealer.cards@,
                sys == old(player).strategy.counter.system,
                r0 == old(player).strategy.counter.running,
                hole == old(self).dealer.cards@[1],
                player.strategy.counter.seen == old(player).strategy.counter.seen + 1 + (
                self.shoe.cursor_spec() - c0),
                self.shoe.cards_spec() == s,
                self.shoe.len_spec() == s.len(),
                c0 <= self.shoe.cursor_spec(),
                self.dealer.value.hard <= 26,
                self.dealer.cards@ == d0 + s.subrange(c0, self.shoe.cursor_spec() as int),
                forall|k: int|
                    c0 <= k < self.shoe.cursor_spec() ==> dealer_should_hit(
                        value_of(d0 + #[trigger] s.subrange(c0, k)),
                        old(self).soft_seventeen,
                    ),
                player.hands@ == old(player).hands@,
                player.hand_idx == old(player).hand_idx,
                player.insurance == old(player).insurance,
                player.balance == old(player).balance,
                player.base == old(player).base,
                player.surrender_allowed == old(player).surrender_allowed,
                player.strategy.decision == old(player).strategy.decision,
                player.strategy.betting == old(player).strategy.betting,
                player.strategy.counter.system == sys,
                player.strategy.counter.num_decks == old(player).strategy.counter.num_decks,
                player.strategy.counter.running == r0 + points_sum(
                    sys,
                    seq![hole] + s.subrange(c0, self.shoe.cursor_spec() as int),
                ),
            decreases 30 - self.dealer.value.hard,
        {
            proof {
                self.shoe.lemma_wf();
                self.dealer.value.lemma_of_is_value_of(self.dealer.cards@);
            }
            let ghost k = self.shoe.cursor_spec() as int;
            let drawn = self.draw();
            let c = match drawn {
                Ok(c) => c,
                Err(e) => {
                    assert(self.shoe.cards_spec() == s);
                    return Err(e);
                },
            };
            assert(c == s[k]);
            self.dealer.receive_card(c);
            player.update_strategy(&c);
            proof {
                assert(s.subrange(c0, k + 1) =~= s.subrange(c0, k).push(c));
                assert(d0 + s.subrange(c0, k + 1) =~= (d0 + s.subrange(c0, k)).push(c));
                assert(seq![hole] + s.subrange(c0, k + 1) =~= (seq![hole] + s.subrange(c0, k)).push(c));
                lemma_points_push(sys, seq![hole] + s.subrange(c0, k), c);
            }
        }
        Ok(self.dealer.value.best())
    }

    /// Finishes the deal: if some sub-hand is still open with a stake, the
    /// dealer plays and every such sub-hand is settled against the dealer's
    /// total (a dealer bust or a higher total wins even money, a tie pushes,
    /// a lower total loses). Returns the deal's results.
    pub fn finish_hand(&mut self, player: &mut Player) -> (r: Result<HandLog, GameError>)
        requires
            old(self).wf(),
            old(player).wf(),
            old(self).synced(old(player)),
            old(self).dealer.cards@.len() == 2,
            old(self).dealer.value.hard <= 21,
            has_open_stake(old(player)) ==> old(player).strategy.counter.seen
                < old(self).shoe.cursor_spec(),
            old(player).hand_idx == old(player).hands@.len(),
        ensures
            final(self).wf(),
            final(player).wf(),
            final(self).synced(final(player)),
            final(self).n_shuffles == old(self).n_shuffles,
            final(self).soft_seventeen == old(self).soft_seventeen,
            final(self).num_player_blackjacks == old(self).num_player_blackjacks,
            final(self).shoe.len_spec() == old(self).shoe.len_spec(),
            final(player).hand_idx == old(player).hand_idx,
            final(player).hands@.len() == old(player).hands@.len(),
            final(player).base == old(player).base,
            final(player).surrender_allowed == old(player).surrender_allowed,
            final(player).strategy.decision == old(player).strategy.decision,
            final(player).strategy.betting == old(player).strategy.betting,
            final(player).strategy.counter.system == old(player).strategy.counter.system,
            final(player).strategy.counter.num_decks == old(player).strategy.counter.num_decks,
            final(self).shoe.cards_spec() == old(self).shoe.cards_spec(),
            final(player).insurance == old(player).insurance,
            !has_open_stake(old(player)) ==> r is Ok && *final(player) == *old(player)
                && *final(self) == *old(self),
            r is Err ==> r == Err::<HandLog, GameError>(GameError::ShoeExhausted)
                && final(self).shoe.cursor_spec() == final(self).shoe.len_spec(),
            has_open_stake(old(player)) ==> ({
                let s = old(self).shoe.cards_spec();
                let c0 = old(self).shoe.cursor_spec() as int;
                let c1 = final(self).shoe.cursor_spec() as int;
                let drawn = s.subrange(c0, c1);
                &&& c0 <= c1
                &&& final(self).dealer.cards@ == old(self).dealer.cards@ + drawn
                &&& forall|k: int|
                    c0 <= k < c1 ==> dealer_should_hit(
                        value_of(old(self).dealer.cards@ + #[trigger] s.subrange(c0, k)),
                        old(self).soft_seventeen,
                    )
                &&& r is Ok ==> !dealer_should_hit(final(self).dealer.value, old(self).soft_seventeen)
                &&& final(player).strategy.counter.seen == old(player).strategy.counter.seen + 1 + (c1
                    - c0)
                &&& final(player).strategy.counter.running == old(player).strategy.counter.running
                    + points_sum(
                    old(player).strategy.counter.system,
                    seq![old(self).dealer.cards@[1]] + drawn,
                )
            }),
            r matches Ok(log) ==> {
                &&& has_open_stake(old(player)) ==> forall|i: int|
                    0 <= i < old(player).hands@.len() ==> (#[trigger] final(player).hands@[i]).outcome
                        == settled(old(player).hands@[i], final(self).dealer.value.best_spec())
                &&& forall|i: int|
                    0 <= i < old(player).hands@.len() ==> (#[trigger] final(player).hands@[i]).cards@
                        == old(player).hands@[i].cards@ && final(player).hands@[i].bet == old(
                        player,
                    ).hands@[i].bet
                &&& log.winnings == crate::player::profit(final(player).hands@)
                    + final(player).insurance
                &&& log.wins == (if log.winnings > 0 { 1u32 } else { 0 })
                &&& log.pushes == (if log.winnings == 0 { 1u32 } else { 0 })
                &&& log.losses == (if log.winnings < 0 { 1u32 } else { 0 })
                &&& final(player).balance == final(player).base@ + log.winnings
            },
    {
        if player.has_open_stake() {
            let t = self.get_dealers_optimal_final_hand(player)?;
            player.settle_showdown(t);
        }
        let log = player.hand_log();
        assert(crate::player::ledger(player.hands@) == crate::player::profit(player.hands@)) by {
            assert(forall|i: int|
                0 <= i < player.hands@.len() ==> (#[trigger] player.hands@[i]).outcome.is_some()
                    || player.hands@[i].bet == 0);
        }
        Ok(log)
    }

    /// Clears the dealer's hand and the deal's record for the next deal; the
    /// shoe is kept.
    pub fn reset(&mut self)
        requires
            old(self).wf(),
        ensures
            final(self).wf(),
            final(self).dealer.cards@.len() == 0,
            final(self).num_player_blackjacks == 0,
            final(self).shoe == old(self).shoe,
            final(self).n_shuffles == old(self).n_shuffles,
            final(self).soft_seventeen == old(self).soft_seventeen,
    {
        self.dealer.reset();
        self.num_player_blackjacks = 0;
    }
}

} // verus!
