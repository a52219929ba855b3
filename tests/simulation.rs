use blackjack_sim::aggregate::Aggregator;
use blackjack_sim::count::{Counter, CountingSystem};
use blackjack_sim::game::BlackjackGameSim;
use blackjack_sim::player::Player;
use blackjack_sim::sim::{
    first_error, worker_step, WorkerAction, BlackjackSimulator, BlackjackSimulatorConfig, SimulationError, SimulationSummary,
};
use blackjack_sim::strategy::{BasicStrategy, DecisionPolicy, MarginBettingStrategy, PlayerStrategy};
use blackjack_sim::table::BlackjackTable;

fn strategy(system: CountingSystem, decks: u32, min_bet: u32) -> PlayerStrategy {
    PlayerStrategy::new(
        Counter::new(system, decks),
        DecisionPolicy::Basic(BasicStrategy::new()),
        MarginBettingStrategy::new(3, min_bet),
    )
}

fn delta(wins: u128, losses: u128, winnings: i128) -> SimulationSummary {
    let mut s = SimulationSummary::new("x".to_string());
    s.wins = wins;
    s.losses = losses;
    s.winnings = winnings;
    s.hands_played = wins + losses;
    s
}

#[test]
fn game_test_game() {
    const MIN_BET: u32 = 5;
    const NUM_HANDS: u32 = 300;
    let player = Player::new(50_000, strategy(CountingSystem::HiLo, 6, MIN_BET), true);
    let table = BlackjackTable::new(6, 7, false, false, 17);
    let mut game = BlackjackGameSim::new(table, player, NUM_HANDS, MIN_BET, i64::MAX);
    if let Err(e) = game.run() {
        panic!("error occured {:?}", e);
    }
    assert!(game.hands_played <= 300);
    assert_eq!(game.player.balance(), 50_000 + game.total_winnings);
    assert_eq!(game.table_balance, i64::MAX as i128 - game.total_winnings);
    assert_eq!(game.total_wins + game.total_pushes + game.total_losses, game.hands_played);
}

#[test]
fn test_game() {
    let player = Player::new(50_000, strategy(CountingSystem::HiLo, 6, 5), true);
    let table = BlackjackTable::new(6, 7, false, false, 3);
    let mut game = BlackjackGameSim::new(table, player, 300, 5, i64::MAX);
    if let Err(e) = game.run() {
        panic!("error occured {:?}", e);
    }
    assert!(game.ended_early || game.hands_played == 300);
}

#[test]
fn simple_simulation_test() {
    const MIN_BET: u32 = 5;
    let config = BlackjackSimulatorConfig {
        player_starting_balance: 50_000,
        table_starting_balance: i64::MAX,
        num_simulations: 50,
        num_decks: 6,
        num_shuffles: 7,
        penetration: 80,
        min_bet: MIN_BET,
        hands_per_simulation: 400,
        surrender: true,
        soft_seventeen: false,
        insurance: false,
    };
    let mut simulator = BlackjackSimulator::new(strategy(CountingSystem::KO, 6, MIN_BET), &config, 8);
    let total = match simulator.run() {
        Ok(t) => t,
        Err(e) => panic!("error: {:?}", e),
    };
    assert!(total.hands_played <= 50 * 400);
    assert_eq!(total.label, "KO");
}

#[test]
fn run_multiple_simulations() {
    let config = BlackjackSimulatorConfig::default();
    let systems = [CountingSystem::KO, CountingSystem::WongHalves, CountingSystem::HiLo];
    let mut aggregator = Aggregator::new(systems.len());
    for (i, system) in systems.iter().enumerate() {
        let id = i + 1;
        let mut simulator = BlackjackSimulator::new(strategy(*system, 6, 5), &config, id as u64);
        for _ in 0..config.num_simulations {
            let d = simulator.run_single_simulation().unwrap();
            let msg = Some(d);
            assert!(aggregator.can_receive(&msg, id));
            aggregator.receive(msg, id);
        }
        aggregator.receive(None, id);
    }
    assert!(aggregator.is_complete());
    let labels: Vec<String> = aggregator.merged.iter().map(|m| m.as_ref().unwrap().label.clone()).collect();
    assert_eq!(labels, vec!["KO", "Wong Halves", "HiLo"]);
}

#[test]
fn aggregation_completes_on_the_last_sentinel_in_any_order() {
    let mut agg = Aggregator::new(3);
    let msgs: Vec<(Option<SimulationSummary>, usize)> = vec![
        (Some(delta(1, 2, 500)), 2),
        (Some(delta(3, 0, 1_500)), 1),
        (None, 2),
        (Some(delta(0, 4, -2_000)), 3),
        (Some(delta(2, 2, 0)), 1),
        (None, 1),
        (Some(delta(5, 1, 100)), 3),
    ];
    for (m, id) in msgs {
        assert!(!agg.is_complete());
        agg.receive(m, id);
    }
    assert!(!agg.is_complete());
    agg.receive(None, 3);
    assert!(agg.is_complete());
    let one = agg.merged[0].as_ref().unwrap();
    assert_eq!((one.wins, one.losses, one.winnings, one.hands_played), (5, 2, 1_500, 7));
    let three = agg.merged[2].as_ref().unwrap();
    assert_eq!((three.wins, three.losses, three.winnings), (5, 5, -1_900));
}

#[test]
fn merge_refuses_an_overflow() {
    let mut a = delta(u128::MAX, 0, 0);
    a.hands_played = 0;
    let b = delta(1, 0, 0);
    assert!(!a.can_merge(&b));
    let c = delta(0, 1, -5);
    assert!(a.can_merge(&c));
    a.merge(&c);
    assert_eq!((a.wins, a.losses, a.winnings, a.hands_played), (u128::MAX, 1, -5, 1));
}

#[test]
fn thousand_hand_run_resolves_every_hand() {
    let config = BlackjackSimulatorConfig {
        player_starting_balance: 50_000,
        table_starting_balance: i64::MAX,
        num_simulations: 1,
        num_decks: 6,
        num_shuffles: 7,
        penetration: 80,
        min_bet: 5,
        hands_per_simulation: 1000,
        surrender: true,
        soft_seventeen: false,
        insurance: false,
    };
    let mut simulator = BlackjackSimulator::new(strategy(CountingSystem::HiLo, 6, 5), &config, 42);
    let total = simulator.run().unwrap();
    let resolved = total.resolved_hands();
    assert!(resolved <= 1000);
    if total.early_endings == 0 {
        assert_eq!(resolved, 1000);
    }
    assert_eq!(resolved, total.hands_played);
    let r = resolved as f64;
    let sum = total.wins as f64 / r + total.pushes as f64 / r + total.losses as f64 / r;
    assert!((sum - 1.0).abs() < 1e-9);
}

#[test]
fn a_player_below_the_minimum_ends_early() {
    let player = Player::new(400, strategy(CountingSystem::HiLo, 6, 5), true);
    let table = BlackjackTable::new(6, 7, false, false, 9);
    let mut game = BlackjackGameSim::new(table, player, 10, 5, i64::MAX);
    game.run().unwrap();
    assert!(game.ended_early);
    assert_eq!(game.hands_played, 0);
}

#[test]
fn a_bet_under_the_minimum_is_an_error() {
    let player = Player::new(50_000, strategy(CountingSystem::HiLo, 6, 2), true);
    let table = BlackjackTable::new(6, 7, false, false, 9);
    let mut game = BlackjackGameSim::new(table, player, 10, 5, i64::MAX);
    assert_eq!(game.run(), Err(blackjack_sim::strategy::GameError::BetBelowMinimum));
}

#[test]
fn default_config_is_valid() {
    let c = BlackjackSimulatorConfig::default();
    assert!(c.is_valid());
    assert_eq!((c.num_decks, c.min_bet, c.player_starting_balance), (6, 5, 50_000));
    let bad = BlackjackSimulatorConfig { num_decks: 0, ..c };
    assert!(!bad.is_valid());
}

#[test]
fn first_failure_is_reported() {
    let results = vec![
        Ok(()),
        Err(SimulationError::GameError(blackjack_sim::strategy::GameError::NoValidOption)),
        Err(SimulationError::SendingError("closed".to_string())),
    ];
    assert_eq!(first_error(&results), Some(1));
    assert_eq!(first_error(&vec![Ok(()), Ok(())]), None);
    assert_eq!(first_error(&vec![]), None);
}

#[test]
fn a_game_of_no_hands_succeeds() {
    let player = Player::new(50_000, strategy(CountingSystem::HiLo, 6, 5), true);
    let table = BlackjackTable::new(6, 7, false, false, 2);
    let mut game = BlackjackGameSim::new(table, player, 0, 5, 1_000);
    assert_eq!(game.run(), Ok(()));
    assert!(!game.ended_early);
    assert_eq!(game.hands_played, 0);
    game.reset(7, 100);
    assert_eq!((game.table_balance, game.player.balance()), (7, 100));
}

#[test]
fn a_zero_bet_ends_the_series_early() {
    let player = Player::new(50_000, strategy(CountingSystem::HiLo, 6, 0), true);
    let table = BlackjackTable::new(6, 7, false, false, 2);
    let mut game = BlackjackGameSim::new(table, player, 10, 0, 0);
    assert_eq!(game.run(), Ok(()));
    assert!(game.ended_early);
    assert_eq!(game.hands_played, 0);
}

#[test]
fn a_series_summary_is_the_games_totals() {
    let config = BlackjackSimulatorConfig { hands_per_simulation: 40, ..BlackjackSimulatorConfig::default() };
    let mut simulator = BlackjackSimulator::new(strategy(CountingSystem::HiLo, 6, 5), &config, 5);
    let d = simulator.run_single_simulation().unwrap();
    assert_eq!(d.wins, simulator.game.total_wins as u128);
    assert_eq!(d.winnings, simulator.game.total_winnings);
    assert_eq!(d.hands_played, simulator.game.hands_played as u128);
    assert_eq!(simulator.game.player.balance(), 50_000 + d.winnings);
}

#[test]
fn workers_run_their_series_then_retire() {
    assert_eq!(worker_step(0, 3, false, false), WorkerAction::RunSeries);
    assert_eq!(worker_step(3, 3, false, false), WorkerAction::SendSentinel);
    assert_eq!(worker_step(1, 3, true, false), WorkerAction::SendSentinel);
    assert_eq!(worker_step(1, 3, true, true), WorkerAction::Stop);
}
