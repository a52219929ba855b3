use vstd::prelude::*;
use crate::player::{MAX_BASE, Player};
use crate::strategy::GameError;
use crate::table::{BlackjackTable, has_open_stake, in_play};

verus! {

/// The largest balance, in cents, from which a series of hands may start.
pub const MAX_START_BALANCE: i128 = 0x1_0000_0000_0000_0000_0000;

/// The most a single deal can move the balance, in cents.
pub const MAX_DEAL_SWING: i128 = 0x800_0000_0000;

/// One player at one table, playing a series of hands.
pub struct BlackjackGameSim {
    pub table: BlackjackTable,
    pub player: Player,
    pub min_bet: u32,
    pub num_hands: u32,
    pub total_wins: u64,
    pub total_pushes: u64,
    pub total_losses: u64,
    /// Profit over the series, in cents.
    pub total_winnings: i128,
    pub num_player_blackjacks: u64,
    /// Hands dealt in the series.
    pub hands_played: u64,
    pub ended_early: bool,
    /// The table's balance, in cents: it pays the player's winnings and
    /// takes the player's losses.
    pub table_balance: i128,
}

impl BlackjackGameSim {
    /// Between hands: the player is fresh, the dealer holds nothing, and the
    /// player's count covers no more than the cards drawn since the shuffle.
    pub open spec fn wf(&self) -> bool {
        &&& self.table.wf()
        &&& self.player.wf()
        &&& self.player.is_fresh()
        &&& self.table.dealer.cards@.len() == 0
        &&& self.table.num_player_blackjacks == 0
        &&& self.table.synced(&self.player)
    }

    /// A series of at most `num_hands` hands with table minimum `min_bet`, the
    /// table holding `table_balance` cents.
    pub fn new(
        table: BlackjackTable,
        player: Player,
        num_hands: u32,
        min_bet: u32,
        table_balance: i64,
    ) -> (g: BlackjackGameSim)
        requires
            table.wf(),
            player.wf(),
            player.is_fresh(),
            table.dealer.cards@.len() == 0,
            table.num_player_blackjacks == 0,
            table.synced(&player),
        ensures
            g.wf(),
            g.table == table,
            g.player == player,
            g.num_hands == num_hands,
            g.min_bet == min_bet,
            g.total_wins == 0,
            g.total_pushes == 0,
            g.total_losses == 0,
            g.total_winnings == 0,
            g.num_player_blackjacks == 0,
            g.hands_played == 0,
            !g.ended_early,
            g.table_balance == table_balance,
    {
        BlackjackGameSim {
            table,
            player,
            min_bet,
            num_hands,
            total_wins: 0,
            total_pushes: 0,
            total_losses: 0,
            total_winnings: 0,
            num_player_blackjacks: 0,
            hands_played: 0,
            ended_early: false,
            table_balance: table_balance as i128,
        }
    }

    /// Plays one deal with a bet of `bet` units: deal, play every sub-hand by
    /// the strategy, finish. Returns the deal's results.
    fn play_hand(&mut self, bet: u32) -> (r: Result<crate::player::HandLog, GameError>)
        requires
            old(self).wf(),
            bet > 0,
            100 * bet <= old(self).player.balance,
        ensures
            r is Ok ==> ({
                let log = r.unwrap();
                &&& final(self).table.wf()
                &&& final(self).player.wf()
                &&& final(self).table.synced(&final(self).player)
                &&& final(self).player.hand_idx == final(self).player.hands@.len()
                &&& final(self).player.balance == old(self).player.balance + log.winnings
                &&& -MAX_DEAL_SWING <= log.winnings <= MAX_DEAL_SWING
                &&& log.wins + log.pushes + log.losses == 1
                &&& final(self).table.num_player_blackjacks <= 1
            }),
            final(self).min_bet == old(self).min_bet,
            final(self).num_hands == old(self).num_hands,
            r is Err ==> r == Err::<crate::player::HandLog, GameError>(GameError::NoValidOption)
                || r == Err::<crate::player::HandLog, GameError>(GameError::ShoeExhausted),
            final(self).total_wins == old(self).total_wins,
            final(self).total_pushes == old(self).total_pushes,
            final(self).total_losses == old(self).total_losses,
            final(self).total_winnings == old(self).total_winnings,
            final(self).num_player_blackjacks == old(self).num_player_blackjacks,
            final(self).hands_played == old(self).hands_played,
            final(self).ended_early == old(self).ended_early,
            final(self).table_balance == old(self).table_balance,
            final(self).player.strategy.decision == old(self).player.strategy.decision,
            final(self).player.strategy.betting == old(self).player.strategy.betting,
            final(self).player.strategy.counter.system == old(self).player.strategy.counter.system,
            final(self).player.surrender_allowed == old(self).player.surrender_allowed,
    {
        self.player.place_bet(bet);
        self.table.deal_hand(&mut self.player)?;
        while !self.player.turn_is_over()
            invariant
                self.table.wf(),
                self.player.wf(),
                self.table.synced(&self.player),
                in_play(&self.player),
                self.table.dealer.cards@.len() == 2,
                self.table.dealer.value.hard <= 20,
                self.player.hand_idx < self.player.hands@.len() ==> self.player.strategy.counter.seen
                    < self.table.shoe.cursor_spec(),
                self.player.strategy.counter.seen < self.table.shoe.cursor_spec()
                    || !has_open_stake(&self.player),
                self.player.base == old(self).player.base,
                self.player.strategy.decision == old(self).player.strategy.decision,
                self.player.strategy.betting == old(self).player.strategy.betting,
                self.player.strategy.counter.system == old(self).player.strategy.counter.system,
                self.player.surrender_allowed == old(self).player.surrender_allowed,
                self.table.num_player_blackjacks <= 1,
                self.min_bet == old(self).min_bet,
                self.num_hands == old(self).num_hands,
                self.total_wins == old(self).total_wins,
                self.total_pushes == old(self).total_pushes,
                self.total_losses == old(self).total_losses,
                self.total_winnings == old(self).total_winnings,
                self.num_player_blackjacks == old(self).num_player_blackjacks,
                self.hands_played == old(self).hands_played,
                self.ended_early == old(self).ended_early,
                self.table_balance == old(self).table_balance,
            decreases self.table.progress(&self.player),
        {
            proof {
                self.table.shoe.lemma_wf();
            }
            let up = self.table.dealers_face_up_card();
            let action = self.player.decide_option(&up)?;
            self.table.play_option(&mut self.player, action)?;
            proof {
                self.table.shoe.lemma_wf();
            }
        }
        let log = self.table.finish_hand(&mut self.player)?;
        assert(self.player.balance == old(self).player.balance + log.winnings);
        assert(forall|i: int| 0 <= i < self.player.hands@.len() ==> (#[trigger] self.player.hands@[i]).wf());
        assert(-MAX_DEAL_SWING <= log.winnings <= MAX_DEAL_SWING);
        Ok(log)
    }
}

impl BlackjackGameSim {
    /// Plays a new series of up to `num_hands` hands, recording its totals.
    /// Before each hand the player must hold the table minimum and the
    /// betting policy must offer a bet; otherwise the series ends early. A
    /// positive bet under the minimum is `BetBelowMinimum`. Each deal counts
    /// once as won, pushed or lost. Money is conserved: the player's balance
    /// moves by exactly the series' winnings, and the table's by their opposite.
    pub fn run(&mut self) -> (r: Result<(), GameError>)
        requires
            old(self).wf(),
            old(self).player.balance <= MAX_START_BALANCE,
            -MAX_START_BALANCE <= old(self).table_balance <= MAX_START_BALANCE,
        ensures
            final(self).min_bet == old(self).min_bet,
            final(self).num_hands == old(self).num_hands,
            r is Err ==> r == Err::<(), GameError>(GameError::BetBelowMinimum) || r == Err::<
                (),
                GameError,
            >(GameError::NoValidOption) || r == Err::<(), GameError>(GameError::ShoeExhausted),
            old(self).num_hands == 0 ==> r is Ok && final(self).hands_played == 0
                && !final(self).ended_early,
            old(self).num_hands > 0 && (old(self).player.balance < 100 * old(self).min_bet
                || old(self).player.bet_spec() == 0) ==> r is Ok && final(self).ended_early
                && final(self).hands_played == 0,
            old(self).num_hands > 0 && 100 * old(self).min_bet <= old(self).player.balance && 0
                < old(self).player.bet_spec() < old(self).min_bet ==> r == Err::<(), GameError>(
                GameError::BetBelowMinimum,
            ),
            r == Err::<(), GameError>(GameError::BetBelowMinimum) ==> {
                &&& final(self).wf()
                &&& 100 * final(self).min_bet <= final(self).player.balance
                &&& 0 < final(self).player.bet_spec() < final(self).min_bet
            },
            r is Ok ==> {
                &&& final(self).wf()
                &&& final(self).hands_played <= old(self).num_hands
                &&& final(self).ended_early <==> final(self).hands_played < old(self).num_hands
                &&& final(self).ended_early ==> final(self).player.balance < 100
                    * final(self).min_bet || final(self).player.bet_spec() == 0
                &&& final(self).total_wins + final(self).total_pushes + final(self).total_losses
                    == final(self).hands_played
                &&& final(self).player.balance == old(self).player.balance
                    + final(self).total_winnings
                &&& final(self).table_balance == old(self).table_balance
                    - final(self).total_winnings
                &&& final(self).num_player_blackjacks <= final(self).hands_played
                &&& -0x800_0000_0000 * final(self).hands_played <= final(self).total_winnings
                    <= 0x800_0000_0000 * final(self).hands_played
                &&& final(self).player.strategy.decision == old(self).player.strategy.decision
                &&& final(self).player.strategy.betting == old(self).player.strategy.betting
                &&& final(self).player.strategy.counter.system
                    == old(self).player.strategy.counter.system
                &&& final(self).player.surrender_allowed == old(self).player.surrender_allowed
            },
    {
        self.total_wins = 0;
        self.total_pushes = 0;
        self.total_losses = 0;
        self.total_winnings = 0;
        self.num_player_blackjacks = 0;
        self.hands_played = 0;
        self.ended_early = false;
        let ghost start = self.player.balance;
        let ghost house = self.table_balance;
        let mut i: u32 = 0;
        while i < self.num_hands
            invariant_except_break
                !self.ended_early,
            invariant
                self.wf(),
                i <= self.num_hands,
                self.num_hands == old(self).num_hands,
                self.min_bet == old(self).min_bet,
                start == old(self).player.balance,
                house == old(self).table_balance,
                start <= MAX_START_BALANCE,
                -MAX_START_BALANCE <= house <= MAX_START_BALANCE,
                i == 0 ==> self.player == old(self).player,
                i > 0 ==> 100 * old(self).min_bet <= old(self).player.balance
                    && old(self).player.bet_spec() != 0 && old(self).min_bet
                    <= old(self).player.bet_spec(),
                self.hands_played == i,
                self.player.balance == start + self.total_winnings,
                self.table_balance == house - self.total_winnings,
                -0x800_0000_0000 * i <= self.total_winnings <= 0x800_0000_0000 * i,
                self.total_wins + self.total_pushes + self.total_losses == i,
                self.num_player_blackjacks <= i,
                self.player.strategy.decision == old(self).player.strategy.decision,
                self.player.strategy.betting == old(self).player.strategy.betting,
                self.player.strategy.counter.system == old(self).player.strategy.counter.system,
                self.player.surrender_allowed == old(self).player.surrender_allowed,
            ensures
                self.ended_early ==> i < self.num_hands && (self.player.balance < 100
                    * self.min_bet || self.player.bet_spec() == 0),
                !self.ended_early ==> i == self.num_hands,
                old(self).num_hands > 0 && (old(self).player.balance < 100 * old(self).min_bet
                    || old(self).player.bet_spec() == 0) ==> self.ended_early && i == 0,
            decreases self.num_hands - i,
        {
            if !self.player.continue_play(self.min_bet) {
                self.ended_early = true;
                break;
            }
            let bet = self.player.bet();
            if bet == 0 {
                self.ended_early = true;
                break;
            }
            if bet < self.min_bet {
                return Err(GameError::BetBelowMinimum);
            }
            proof {
                lemma_bet_covered(self.player.balance, self.player.bet_spec());
            }
            let log = self.play_hand(bet)?;
            self.total_wins = self.total_wins + log.wins as u64;
            self.total_pushes = self.total_pushes + log.pushes as u64;
            self.total_losses = self.total_losses + log.losses as u64;
            self.total_winnings = self.total_winnings + log.winnings as i128;
            self.table_balance = self.table_balance - log.winnings as i128;
            self.num_player_blackjacks = self.num_player_blackjacks
                + self.table.num_player_blackjacks as u64;
            self.hands_played = self.hands_played + 1;
            self.player.reset();
            self.table.reset();
            i = i + 1;
        }
        Ok(())
    }

    /// Restores the table's and the player's balances to `table_balance` and
    /// `player_balance` cents and clears the series' totals, keeping the shoe
    /// and the count.
    pub fn reset(&mut self, table_balance: i64, player_balance: i64)
        requires
            old(self).wf(),
            player_balance >= 0,
        ensures
            final(self).wf(),
            final(self).player.balance == player_balance,
            final(self).table_balance == table_balance,
            final(self).total_wins == 0,
            final(self).total_pushes == 0,
            final(self).total_losses == 0,
            final(self).total_winnings == 0,
            final(self).num_player_blackjacks == 0,
            final(self).hands_played == 0,
            !final(self).ended_early,
            final(self).min_bet == old(self).min_bet,
            final(self).num_hands == old(self).num_hands,
            final(self).player.strategy == old(self).player.strategy,
            final(self).player.surrender_allowed == old(self).player.surrender_allowed,
    {
        self.player.set_balance(player_balance);
        self.table_balance = table_balance as i128;
        self.total_wins = 0;
        self.total_pushes = 0;
        self.total_losses = 0;
        self.total_winnings = 0;
        self.num_player_blackjacks = 0;
        self.hands_played = 0;
        self.ended_early = false;
    }

    /// The label of the player's strategy.
    pub fn label(&self) -> (s: String)
        ensures
            s@ == crate::count::system_name(self.player.strategy.counter.system),
    {
        self.player.strategy.label()
    }
}

/// A bet the margin policy offers is covered by the balance it was offered at.
pub proof fn lemma_bet_covered(balance: i128, bet: int)
    requires
        balance >= 0,
        bet <= crate::strategy::stake_cap(
            if balance > i64::MAX {
                i64::MAX as int
            } else {
                balance as int
            },
        ),
    ensures
        100 * bet <= balance,
{
}

} // verus!
