use vstd::prelude::*;
use crate::count::{Counter, system_name};
use crate::game::BlackjackGameSim;
use crate::player::Player;
use crate::strategy::{GameError, PlayerStrategy};
use crate::shoe::Shoe;
use crate::table::BlackjackTable;

verus! {

/// The failures of a simulation run.
#[derive(Debug, PartialEq, Eq)]
pub enum SimulationError {
    /// A worker's game failed.
    GameError(GameError),
    /// A worker could not hand its report to the aggregator.
    SendingError(String),
    /// The report could not be written.
    WriteError(String),
}

/// The position of the first failure among the workers' results, if any.
/// The run fails with that error once every worker has finished.
pub fn first_error(results: &Vec<Result<(), SimulationError>>) -> (r: Option<usize>)
    ensures
        r matches Some(i) ==> i < results@.len() && results@[i as int] is Err && forall|j: int|
            0 <= j < i ==> results@[j] is Ok,
        r is None ==> forall|j: int| 0 <= j < results@.len() ==> results@[j] is Ok,
{
    let mut i: usize = 0;
    while i < results.len()
        invariant
            i <= results@.len(),
            forall|j: int| 0 <= j < i ==> results@[j] is Ok,
        decreases results@.len() - i,
    {
        if results[i].is_err() {
            return Some(i);
        }
        i = i + 1;
    }
    None
}

/// The totals of one strategy over one or more simulation runs. Money is in
/// cents.
pub struct SimulationSummary {
    pub wins: u128,
    pub pushes: u128,
    pub losses: u128,
    pub early_endings: u128,
    pub winnings: i128,
    pub player_blackjacks: u128,
    pub hands_played: u128,
    pub label: String,
}

/// Whether two summaries can be added without leaving the counters' range.
pub open spec fn summaries_fit(a: &SimulationSummary, b: &SimulationSummary) -> bool {
    &&& a.wins + b.wins <= u128::MAX
    &&& a.pushes + b.pushes <= u128::MAX
    &&& a.losses + b.losses <= u128::MAX
    &&& a.early_endings + b.early_endings <= u128::MAX
    &&& i128::MIN <= a.winnings + b.winnings <= i128::MAX
    &&& a.player_blackjacks + b.player_blackjacks <= u128::MAX
    &&& a.hands_played + b.hands_played <= u128::MAX
}

/// Whether `r` holds the field-by-field sums of `a` and `b`, with the label of `a`.
pub open spec fn is_sum(r: &SimulationSummary, a: &SimulationSummary, b: &SimulationSummary) -> bool {
    &&& r.wins == a.wins + b.wins
    &&& r.pushes == a.pushes + b.pushes
    &&& r.losses == a.losses + b.losses
    &&& r.early_endings == a.early_endings + b.early_endings
    &&& r.winnings == a.winnings + b.winnings
    &&& r.player_blackjacks == a.player_blackjacks + b.player_blackjacks
    &&& r.hands_played == a.hands_played + b.hands_played
    &&& r.label@ == a.label@
}

impl SimulationSummary {
    /// An empty summary for the strategy labelled `label`.
    pub fn new(label: String) -> (s: SimulationSummary)
        ensures
            s.wins == 0 && s.pushes == 0 && s.losses == 0 && s.early_endings == 0,
            s.winnings == 0 && s.player_blackjacks == 0 && s.hands_played == 0,
            s.label@ == label@,
    {
        SimulationSummary {
            wins: 0,
            pushes: 0,
            losses: 0,
            early_endings: 0,
            winnings: 0,
            player_blackjacks: 0,
            hands_played: 0,
            label,
        }
    }

    /// Whether `other` can be merged into `self`.
    pub fn can_merge(&self, other: &SimulationSummary) -> (b: bool)
        ensures
            b == summaries_fit(self, other),
    {
        self.wins <= u128::MAX - other.wins && self.pushes <= u128::MAX - other.pushes
            && self.losses <= u128::MAX - other.losses && self.early_endings <= u128::MAX
            - other.early_endings && (if other.winnings >= 0 {
            self.winnings <= i128::MAX - other.winnings
        } else {
            self.winnings >= i128::MIN - other.winnings
        }) && self.player_blackjacks <= u128::MAX - other.player_blackjacks && self.hands_played
            <= u128::MAX - other.hands_played
    }

    /// Adds `other`'s counters to `self`'s; the label stays.
    pub fn merge(&mut self, other: &SimulationSummary)
        requires
            summaries_fit(old(self), other),
        ensures
            is_sum(final(self), old(self), other),
    {
        self.wins = self.wins + other.wins;
        self.pushes = self.pushes + other.pushes;
        self.losses = self.losses + other.losses;
        self.early_endings = self.early_endings + other.early_endings;
        self.winnings = self.winnings + other.winnings;
        self.player_blackjacks = self.player_blackjacks + other.player_blackjacks;
        self.hands_played = self.hands_played + other.hands_played;
    }

    /// Sub-hands resolved: won, pushed or lost.
    pub fn resolved_hands(&self) -> (n: u128)
        requires
            self.wins + self.pushes + self.losses <= u128::MAX,
        ensures
            n == self.wins + self.pushes + self.losses,
    {
        self.wins + self.pushes + self.losses
    }
}

/// The table and series settings shared by every simulated strategy. Money
/// is in cents.
#[derive(Clone, Copy, Debug)]
pub struct BlackjackSimulatorConfig {
    pub player_starting_balance: i64,
    pub table_starting_balance: i64,
    pub num_simulations: u32,
    pub num_decks: usize,
    pub num_shuffles: u32,
    /// How far into the shoe, in percent, a reshuffle becomes due.
    pub penetration: u32,
    pub min_bet: u32,
    pub hands_per_simulation: u32,
    pub surrender: bool,
    pub soft_seventeen: bool,
    /// Whether the table offers insurance when the dealer shows an ace.
    pub insurance: bool,
}

impl BlackjackSimulatorConfig {
    /// Whether the settings can run: a non-negative balance and a shoe of
    /// at least one deck that fits in memory.
    pub open spec fn valid(&self) -> bool {
        &&& self.player_starting_balance >= 0
        &&& 0 < self.num_decks <= u32::MAX
        &&& self.num_decks * 52 <= usize::MAX
        &&& self.penetration <= 100
    }

    /// Whether the settings can run.
    pub fn is_valid(&self) -> (b: bool)
        ensures
            b == self.valid(),
    {
        self.player_starting_balance >= 0 && 0 < self.num_decks && self.num_decks <= u32::MAX as usize
            && self.num_decks <= usize::MAX / 52 && self.penetration <= 100
    }
}

impl Default for BlackjackSimulatorConfig {
    /// A $500 player at a six-deck table with all the money the house can
    /// hold with a $5 minimum, seven shuffle
    /// passes, a reshuffle 80% into the shoe, surrender offered and the
    /// dealer standing on soft 17, no insurance: 100 runs of 50 hands.
    fn default() -> (c: BlackjackSimulatorConfig)
        ensures
            c.player_starting_balance == 50_000,
            c.table_starting_balance == i64::MAX,
            c.num_simulations == 100,
            c.num_decks == 6,
            c.num_shuffles == 7,
            c.penetration == 80,
            c.min_bet == 5,
            c.hands_per_simulation == 50,
            c.surrender,
            !c.soft_seventeen,
            !c.insurance,
    {
        BlackjackSimulatorConfig {
            player_starting_balance: 50_000,
            table_starting_balance: i64::MAX,
            num_simulations: 100,
            num_decks: 6,
            num_shuffles: 7,
            penetration: 80,
            min_bet: 5,
            hands_per_simulation: 50,
            surrender: true,
            soft_seventeen: false,
            insurance: false,
        }
    }
}

/// Runs repeated series of hands for one strategy.
pub struct BlackjackSimulator {
    pub game: BlackjackGameSim,
    pub player_starting_balance: i64,
    pub table_starting_balance: i64,
    pub num_simulations: u32,
}

/// Whether `e` is one of the errors a series can end with.
pub open spec fn series_error(e: GameError) -> bool {
    e == GameError::BetBelowMinimum || e == GameError::NoValidOption || e
        == GameError::ShoeExhausted
}

impl BlackjackSimulator {
    pub open spec fn wf(&self) -> bool {
        &&& self.game.wf()
        &&& self.player_starting_balance >= 0
    }

    /// A simulator for `strategy` under `config`, its shuffles reproducible
    /// from `seed`.
    pub fn new(strategy: PlayerStrategy, config: &BlackjackSimulatorConfig, seed: u64) -> (s:
        BlackjackSimulator)
        requires
            config.valid(),
            strategy.wf(),
            strategy.counter.seen == 0,
        ensures
            s.wf(),
            s.game.player.strategy == strategy,
            s.game.num_hands == config.hands_per_simulation,
            s.game.min_bet == config.min_bet,
            s.num_simulations == config.num_simulations,
            s.player_starting_balance == config.player_starting_balance,
            s.table_starting_balance == config.table_starting_balance,
    {
        let shoe = Shoe::with_penetration(config.num_decks, config.penetration, seed);
        let table = BlackjackTable::with_shoe(
            shoe,
            config.num_shuffles,
            config.soft_seventeen,
            config.insurance,
        );
        let player = Player::new(config.player_starting_balance, strategy, config.surrender);
        let game = BlackjackGameSim::new(
            table,
            player,
            config.hands_per_simulation,
            config.min_bet,
            config.table_starting_balance,
        );
        BlackjackSimulator {
            game,
            player_starting_balance: config.player_starting_balance,
            table_starting_balance: config.table_starting_balance,
            num_simulations: config.num_simulations,
        }
    }

    /// Restores the starting balances, plays one series of hands and returns
    /// its totals, which the game keeps too. The shoe and the count carry on
    /// from the previous series.
    pub fn run_single_simulation(&mut self) -> (r: Result<SimulationSummary, GameError>)
        requires
            old(self).wf(),
        ensures
            final(self).num_simulations == old(self).num_simulations,
            final(self).player_starting_balance == old(self).player_starting_balance,
            final(self).table_starting_balance == old(self).table_starting_balance,
            final(self).game.num_hands == old(self).game.num_hands,
            final(self).game.min_bet == old(self).game.min_bet,
            old(self).game.num_hands == 0 ==> r is Ok,
            r matches Err(e) ==> series_error(e),
            r is Ok ==> final(self).wf() && final(self).game.player.strategy.counter.system
                == old(self).game.player.strategy.counter.system,
            r matches Ok(d) ==> {
                &&& d.wins == final(self).game.total_wins
                &&& d.pushes == final(self).game.total_pushes
                &&& d.losses == final(self).game.total_losses
                &&& d.early_endings == (if final(self).game.ended_early { 1u128 } else { 0 })
                &&& d.winnings == final(self).game.total_winnings
                &&& d.player_blackjacks == final(self).game.num_player_blackjacks
                &&& d.hands_played == final(self).game.hands_played
                &&& final(self).game.player.balance == old(self).player_starting_balance
                    + d.winnings
                &&& final(self).game.table_balance == old(self).table_starting_balance
                    - d.winnings
                &&& d.hands_played <= old(self).game.num_hands
                &&& (d.early_endings == 0 <==> d.hands_played == old(self).game.num_hands)
                &&& d.wins + d.pushes + d.losses == d.hands_played
                &&& d.player_blackjacks <= d.hands_played
                &&& -0x800_0000_0000 * d.hands_played <= d.winnings <= 0x800_0000_0000
                    * d.hands_played
                &&& d.label@ == system_name(old(self).game.player.strategy.counter.system)
            },
    {
        self.game.reset(self.table_starting_balance, self.player_starting_balance);
        self.game.run()?;
        let summary = SimulationSummary {
            wins: self.game.total_wins as u128,
            pushes: self.game.total_pushes as u128,
            losses: self.game.total_losses as u128,
            early_endings: if self.game.ended_early {
                1
            } else {
                0
            },
            winnings: self.game.total_winnings,
            player_blackjacks: self.game.num_player_blackjacks as u128,
            hands_played: self.game.hands_played as u128,
            label: self.game.label(),
        };
        Ok(summary)
    }

    /// Runs every series and returns their sum; stops at the first failing
    /// series and returns its error.
    pub fn run(&mut self) -> (r: Result<SimulationSummary, GameError>)
        requires
            old(self).wf(),
        ensures
            old(self).game.num_hands == 0 ==> r is Ok,
            r matches Err(e) ==> series_error(e),
            r is Ok ==> final(self).wf(),
            r matches Ok(total) ==> {
                &&& total.hands_played <= old(self).num_simulations as int * old(self).game.num_hands
                &&& total.early_endings == 0 ==> total.hands_played == old(self).num_simulations as int
                    * old(self).game.num_hands
                &&& total.early_endings <= old(self).num_simulations
                &&& total.wins + total.pushes + total.losses == total.hands_played
                &&& total.player_blackjacks <= total.hands_played
                &&& total.label@ == system_name(old(self).game.player.strategy.counter.system)
            },
    {
        let mut total = SimulationSummary::new(self.game.label());
        let mut k: u32 = 0;
        while k < self.num_simulations
            invariant
                self.wf(),
                k <= self.num_simulations,
                self.num_simulations == old(self).num_simulations,
                self.game.num_hands == old(self).game.num_hands,
                self.game.player.strategy.counter.system == old(self).game.player.strategy.counter.system,
                total.hands_played <= k as int * self.game.num_hands,
                total.early_endings == 0 ==> total.hands_played == k as int * self.game.num_hands,
                total.early_endings <= k,
                total.wins + total.pushes + total.losses == total.hands_played,
                total.player_blackjacks <= total.hands_played,
                -0x800_0000_0000 * total.hands_played <= total.winnings <= 0x800_0000_0000
                    * total.hands_played,
                total.label@ == system_name(old(self).game.player.strategy.counter.system),
            decreases self.num_simulations - k,
        {
            let d = self.run_single_simulation()?;
            assert(total.hands_played + d.hands_played <= (k + 1) as int * self.game.num_hands)
                by (nonlinear_arith)
                requires
                    total.hands_played <= k as int * self.game.num_hands,
                    d.hands_played <= self.game.num_hands,
            ;
            assert((k + 1) as int * self.game.num_hands == k as int * self.game.num_hands
                + self.game.num_hands) by (nonlinear_arith);
            assert((k + 1) as int * self.game.num_hands <= 0xffff_ffff * 0xffff_ffff)
                by (nonlinear_arith)
                requires
                    k < 0xffff_ffff,
                    self.game.num_hands <= 0xffff_ffff,
            ;
            total.merge(&d);
            k = k + 1;
        }
        Ok(total)
    }
}

/// What a worker does next.
#[derive(Clone, Copy, PartialEq, Eq, Structural, Debug)]
pub enum WorkerAction {
    /// Run one more series and report its totals.
    RunSeries,
    /// Send the sentinel that retires this worker's id.
    SendSentinel,
    /// Nothing more.
    Stop,
}

/// A worker's next step, after `done` of its `total` series, `failed`
/// telling whether one failed and `retired` whether the sentinel went out:
/// series run until all are done or one fails, then the sentinel goes out,
/// failure or not, and then the worker stops.
pub fn worker_step(done: u32, total: u32, failed: bool, retired: bool) -> (a: WorkerAction)
    ensures
        retired ==> a == WorkerAction::Stop,
        !retired && (failed || done >= total) ==> a == WorkerAction::SendSentinel,
        !retired && !failed && done < total ==> a == WorkerAction::RunSeries,
{
    if retired {
        WorkerAction::Stop
    } else if failed || done >= total {
        WorkerAction::SendSentinel
    } else {
        WorkerAction::RunSeries
    }
}

} // verus!
