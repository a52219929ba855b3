use blackjack_sim::card::{Card, Suit};
use blackjack_sim::count::{Counter, CountingSystem};
use blackjack_sim::hand::HandValue;
use blackjack_sim::player::Player;
use blackjack_sim::shoe::Shoe;
use blackjack_sim::strategy::{
    Action, BasicStrategy, DecisionPolicy, GameError, H17DeviationStrategy, MarginBettingStrategy,
    Options, PlayerStrategy, S17DeviationStrategy, TableState,
};
use blackjack_sim::table::BlackjackTable;

fn card(rank: u8) -> Card {
    Card::new(rank, Suit::Spades)
}

fn hilo_basic(decks: u32) -> PlayerStrategy {
    PlayerStrategy::new(
        Counter::new(CountingSystem::HiLo, decks),
        DecisionPolicy::Basic(BasicStrategy::new()),
        MarginBettingStrategy::new(3, 5),
    )
}

/// A one-deck shoe whose first cards are `top`, filled up with twos.
fn stacked_table(top: &[Card]) -> BlackjackTable {
    let mut cards: Vec<Card> = top.to_vec();
    while cards.len() < 52 {
        cards.push(Card::new(2, Suit::Clubs));
    }
    BlackjackTable::with_shoe(Shoe::from_cards(cards, 1), 7, false, false)
}

fn value_of(cards: &[Card]) -> HandValue {
    let mut v = HandValue::empty();
    for c in cards {
        v.hard += c.val();
        v.soft = match v.soft {
            Some(_) if v.hard + 10 <= 21 => Some(v.hard + 10),
            Some(_) => None,
            None if c.is_ace() && v.hard + 10 <= 21 => Some(v.hard + 10),
            None => None,
        };
    }
    v
}

fn state(first: Card, second: Card, value: HandValue, up: Card, running: i64, true_num: i64) -> TableState {
    TableState {
        first_card: first,
        second_card: second,
        value,
        bet: 5,
        balance: 50_000,
        running,
        true_num,
        true_den: 1,
        num_decks: 6,
        dealer_up: up,
    }
}

fn options(double_down: bool, split: bool, surrender: bool) -> Options {
    Options { stand: true, hit: true, double_down, split, surrender }
}

#[test]
fn soft_total_ace_six_then_nine() {
    let mut player = Player::new(50_000, hilo_basic(1), false);
    player.place_bet(5);
    player.receive_card(Card::new(1, Suit::Hearts));
    player.receive_card(Card::new(6, Suit::Clubs));
    assert_eq!(player.hands[0].value, HandValue { hard: 7, soft: Some(17) });
    player.receive_card(Card::new(9, Suit::Diamonds));
    assert_eq!(player.hands[0].value, HandValue { hard: 16, soft: None });
    assert_eq!(player.hands[0].value.best(), 16);
    assert!(!player.busted());
    assert_eq!(player.hand_idx, 0);
}

#[test]
fn two_aces_count_two_or_twelve() {
    let v = value_of(&[card(1), card(1)]);
    assert_eq!(v, HandValue { hard: 2, soft: Some(12) });
    assert_eq!(v.best(), 12);
}

#[test]
fn bust_on_hit_loses_the_stake() {
    let mut player = Player::new(50_000, hilo_basic(1), false);
    player.place_bet(10);
    player.receive_card(card(10));
    player.receive_card(card(6));
    player.receive_card(card(9));
    assert_eq!(player.hand_idx, 1);
    assert_eq!(player.hands[0].outcome, Some(-1_000));
    assert_eq!(player.balance(), 49_000);
}

#[test]
fn basic_hits_hard_sixteen_against_ten() {
    let st = state(card(10), card(6), value_of(&[card(10), card(6)]), card(13), 0, 0);
    let basic = BasicStrategy::new();
    assert_eq!(basic.decide_option(&st, &options(false, false, false)), Ok(Action::Hit));
    assert_eq!(basic.decide_option(&st, &options(false, false, true)), Ok(Action::Surrender));
}

#[test]
fn basic_doubles_eleven_against_every_up_card() {
    let basic = BasicStrategy::new();
    for up in 1..=13u8 {
        let st = state(card(5), card(6), value_of(&[card(5), card(6)]), card(up), 0, 0);
        assert_eq!(basic.decide_option(&st, &options(true, false, false)), Ok(Action::DoubleDown));
        assert_eq!(basic.decide_option(&st, &options(false, false, false)), Ok(Action::Hit));
    }
}

#[test]
fn basic_splits_eights_and_stands_on_twenty() {
    let basic = BasicStrategy::new();
    let eights = state(card(8), card(8), value_of(&[card(8), card(8)]), card(10), 0, 0);
    assert_eq!(basic.decide_option(&eights, &options(false, true, false)), Ok(Action::Split));
    let tens = state(card(10), card(12), value_of(&[card(10), card(12)]), card(6), 0, 0);
    assert_eq!(basic.decide_option(&tens, &options(true, true, false)), Ok(Action::Stand));
}

#[test]
fn basic_soft_eighteen_against_nine_hits() {
    let basic = BasicStrategy::new();
    let st = state(card(1), card(7), value_of(&[card(1), card(7)]), card(9), 0, 0);
    assert_eq!(basic.decide_option(&st, &options(false, false, false)), Ok(Action::Hit));
    let st6 = state(card(1), card(7), value_of(&[card(1), card(7)]), card(6), 0, 0);
    assert_eq!(basic.decide_option(&st6, &options(true, false, false)), Ok(Action::DoubleDown));
}

#[test]
fn no_legal_table_action_is_an_error() {
    let basic = BasicStrategy::new();
    let st = state(card(10), card(7), value_of(&[card(10), card(7)]), card(5), 0, 0);
    let only_hit = Options { stand: false, hit: true, double_down: false, split: false, surrender: false };
    assert_eq!(basic.decide_option(&st, &only_hit), Err(GameError::NoValidOption));
}

#[test]
fn s17_stands_sixteen_against_ten_at_positive_count() {
    let s17 = S17DeviationStrategy::new();
    let st = state(card(10), card(6), value_of(&[card(10), card(6)]), card(10), 2, 0);
    assert_eq!(s17.decide_option(&st, &options(false, false, false)), Ok(Action::Stand));
    let st0 = state(card(10), card(6), value_of(&[card(10), card(6)]), card(10), 0, 0);
    assert_eq!(s17.decide_option(&st0, &options(false, false, false)), Ok(Action::Hit));
    assert!(s17.take_insurance(3, 1));
    assert!(!s17.take_insurance(5, 2));
}

#[test]
fn h17_splits_tens_against_six_at_true_count_four() {
    let h17 = H17DeviationStrategy::new();
    let st = state(card(10), card(10), value_of(&[card(10), card(10)]), card(6), 8, 4);
    assert_eq!(h17.decide_option(&st, &options(false, true, false)), Ok(Action::Split));
    let low = state(card(10), card(10), value_of(&[card(10), card(10)]), card(6), 8, 3);
    assert_eq!(h17.decide_option(&low, &options(false, true, false)), Ok(Action::Stand));
}

#[test]
fn margin_bet_scales_with_true_count() {
    let betting = MarginBettingStrategy::new(3, 5);
    let st = blackjack_sim::strategy::BetState { balance: 50_000, running: 0, true_num: 5, true_den: 2, num_decks: 6 };
    assert_eq!(betting.bet(&st), 45);
    let zero = blackjack_sim::strategy::BetState { balance: 50_000, running: 0, true_num: 0, true_den: 2, num_decks: 6 };
    assert_eq!(betting.bet(&zero), 5);
    let poor = blackjack_sim::strategy::BetState { balance: 1_050, running: 0, true_num: 9, true_den: 1, num_decks: 6 };
    assert_eq!(betting.bet(&poor), 10);
}

#[test]
fn counter_true_count_uses_cards_left() {
    let mut c = Counter::new(CountingSystem::HiLo, 1);
    c.update(&card(5));
    c.update(&card(3));
    assert_eq!(c.running_count(), 4);
    assert_eq!(c.true_count(), (104, 50));
    let ko = Counter::new(CountingSystem::KO, 6);
    assert_eq!(ko.running_count(), -40);
    assert_eq!(ko.true_count(), (-40, 2));
    assert_eq!(CountingSystem::WongHalves.card_points(&card(5)), 3);
}

#[test]
fn balanced_systems_return_to_zero_over_a_full_shoe() {
    let balanced = [
        CountingSystem::HiLo,
        CountingSystem::WongHalves,
        CountingSystem::Halves,
        CountingSystem::HiOptI,
        CountingSystem::HiOptII,
        CountingSystem::OmegaII,
        CountingSystem::ZenCount,
        CountingSystem::AceFive,
        CountingSystem::SilverFox,
    ];
    for system in balanced {
        let mut shoe = Shoe::new(6, 11);
        shoe.shuffle(3);
        let mut c = Counter::new(system, 6);
        while let Some(card) = shoe.draw() {
            c.update(&card);
        }
        assert_eq!(c.seen, 312);
        assert_eq!(c.running_count(), 0, "{:?}", system);
    }
    let mut shoe = Shoe::new(6, 11);
    let mut ko = Counter::new(CountingSystem::KO, 6);
    while let Some(card) = shoe.draw() {
        ko.update(&card);
    }
    assert_eq!(ko.running_count(), 8);
}

#[test]
fn fresh_shoe_is_ordered_and_shuffle_permutes_it() {
    let mut shoe = Shoe::new(1, 5);
    assert_eq!(shoe.len(), 52);
    assert!(shoe.shuffle_due());
    let mut ordered = Vec::new();
    while let Some(c) = shoe.draw() {
        ordered.push(c);
    }
    assert_eq!(ordered[0], Card::new(1, Suit::Hearts));
    assert_eq!(ordered[13], Card::new(1, Suit::Diamonds));
    assert_eq!(ordered[51], Card::new(13, Suit::Spades));
    assert_eq!(shoe.draw(), None);
    shoe.shuffle(1);
    assert_eq!(shoe.cursor(), 0);
    assert!(!shoe.shuffle_due());
    let mut shuffled = Vec::new();
    while let Some(c) = shoe.draw() {
        shuffled.push(c);
    }
    assert_ne!(shuffled, ordered);
    let mut a: Vec<(u8, u8)> = ordered.iter().map(|c| (c.rank, c.suit as u8)).collect();
    let mut b: Vec<(u8, u8)> = shuffled.iter().map(|c| (c.rank, c.suit as u8)).collect();
    a.sort();
    b.sort();
    assert_eq!(a, b);
}

#[test]
fn shuffle_becomes_due_at_penetration() {
    let mut shoe = Shoe::new(1, 5);
    shoe.shuffle(1);
    for _ in 0..39 {
        shoe.draw();
        assert!(!shoe.shuffle_due());
    }
    shoe.draw();
    assert!(shoe.shuffle_due());
}

#[test]
fn natural_against_dealer_without_one_pays_three_to_two() {
    let mut table = stacked_table(&[card(1), card(9), card(13), card(7)]);
    let mut player = Player::new(50_000, hilo_basic(1), true);
    player.place_bet(10);
    table.deal_hand(&mut player).unwrap();
    assert!(player.turn_is_over());
    assert_eq!(player.hands[0].outcome, Some(1_500));
    assert_eq!(player.balance(), 51_500);
    assert_eq!(table.num_player_blackjacks, 1);
    let log = table.finish_hand(&mut player).unwrap();
    assert_eq!((log.wins, log.pushes, log.losses, log.winnings), (1, 0, 0, 1_500));
    assert_eq!(table.dealer.cards.len(), 2);
}

#[test]
fn naturals_on_both_sides_push() {
    let mut table = stacked_table(&[card(1), card(1), card(13), card(12)]);
    let mut player = Player::new(50_000, hilo_basic(1), true);
    player.place_bet(10);
    table.deal_hand(&mut player).unwrap();
    assert!(player.turn_is_over());
    assert_eq!(player.hands[0].outcome, Some(0));
    assert_eq!(player.balance(), 50_000);
    assert_eq!(table.num_player_blackjacks, 1);
}

#[test]
fn dealer_natural_beats_a_plain_hand() {
    let mut table = stacked_table(&[card(10), card(1), card(9), card(13)]);
    let mut player = Player::new(50_000, hilo_basic(1), true);
    player.place_bet(10);
    table.deal_hand(&mut player).unwrap();
    assert_eq!(player.hands[0].outcome, Some(-1_000));
    assert_eq!(player.balance(), 49_000);
    assert_eq!(table.num_player_blackjacks, 0);
}

#[test]
fn splitting_eights_makes_two_hands_with_equal_bets() {
    let mut table = stacked_table(&[card(8), card(9), Card::new(8, Suit::Hearts), card(7), card(3), card(5)]);
    let mut player = Player::new(50_000, hilo_basic(1), true);
    player.place_bet(10);
    table.deal_hand(&mut player).unwrap();
    let up = table.dealers_face_up_card();
    assert!(player.get_playing_options(&up).split);
    table.play_option(&mut player, Action::Split).unwrap();
    assert_eq!(player.hands.len(), 2);
    assert_eq!(player.hands[0].cards, vec![card(8), card(3)]);
    assert_eq!(player.hands[1].cards, vec![Card::new(8, Suit::Hearts), card(5)]);
    assert_eq!(player.hands[0].bet, 10);
    assert_eq!(player.hands[1].bet, 10);
    assert_eq!(player.balance(), 48_000);
}

#[test]
fn splits_stop_at_four_hands() {
    let eight = card(8);
    let mut top = vec![eight, card(10), eight, card(9)];
    top.extend([eight, eight, eight, eight, eight, eight, eight, eight]);
    let mut table = stacked_table(&top);
    let mut player = Player::new(500_000, hilo_basic(1), false);
    player.place_bet(10);
    table.deal_hand(&mut player).unwrap();
    let up = table.dealers_face_up_card();
    while player.get_playing_options(&up).split {
        table.play_option(&mut player, Action::Split).unwrap();
    }
    assert_eq!(player.hands.len(), 4);
    assert!(player.hands.iter().all(|h| h.bet == 10));
}

#[test]
fn double_down_doubles_and_stands() {
    let mut table = stacked_table(&[card(5), card(6), card(6), card(10), card(10), card(9)]);
    let mut player = Player::new(50_000, hilo_basic(1), true);
    player.place_bet(10);
    table.deal_hand(&mut player).unwrap();
    let up = table.dealers_face_up_card();
    assert_eq!(player.decide_option(&up), Ok(Action::DoubleDown));
    table.play_option(&mut player, Action::DoubleDown).unwrap();
    assert!(player.turn_is_over());
    assert_eq!(player.hands[0].bet, 20);
    assert_eq!(player.hands[0].value.best(), 21);
    let log = table.finish_hand(&mut player).unwrap();
    assert_eq!(table.dealer.value.best(), 25);
    assert_eq!((log.wins, log.losses, log.winnings), (1, 0, 2_000));
    assert_eq!(player.balance(), 52_000);
}

#[test]
fn surrender_returns_half_the_stake() {
    let mut table = stacked_table(&[card(10), card(10), card(6), card(8)]);
    let mut player = Player::new(50_000, hilo_basic(1), true);
    player.place_bet(10);
    table.deal_hand(&mut player).unwrap();
    let up = table.dealers_face_up_card();
    assert!(player.get_playing_options(&up).surrender);
    assert_eq!(player.decide_option(&up), Ok(Action::Surrender));
    table.play_option(&mut player, Action::Surrender).unwrap();
    assert_eq!(player.balance(), 49_500);
    let log = table.finish_hand(&mut player).unwrap();
    assert_eq!((log.wins, log.pushes, log.losses, log.winnings), (0, 0, 1, -500));
}

#[test]
fn dealer_hits_soft_seventeen_only_under_that_rule() {
    for (rule, expected) in [(false, 17u8), (true, 21u8)] {
        let mut cards = vec![card(10), card(1), card(9), card(6), card(4)];
        while cards.len() < 52 {
            cards.push(Card::new(2, Suit::Clubs));
        }
        let mut table = BlackjackTable::with_shoe(Shoe::from_cards(cards, 1), 7, rule, false);
        let mut player = Player::new(50_000, hilo_basic(1), false);
        player.place_bet(10);
        table.deal_hand(&mut player).unwrap();
        table.stand(&mut player);
        table.finish_hand(&mut player).unwrap();
        assert_eq!(table.dealer.value.best(), expected);
    }
}

#[test]
fn test_single_hand() {
    let strategy = hilo_basic(6);
    let mut player = Player::new(50_000, strategy, true);
    let mut table = BlackjackTable::new(6, 7, false, false, 21);
    let bet = player.bet();
    if bet == 0 {
        panic!("player returned a bet of 0");
    }
    player.place_bet(bet);
    table.deal_hand(&mut player).unwrap();
    if player.turn_is_over() || !player.continue_play(5) {
        println!("ended early, either player or dealer has blackjack");
        return;
    }
    let up = table.dealers_face_up_card();
    let options = player.get_playing_options(&up);
    println!("playing options = {:?}", options);
    let decision = match player.decide_option(&up) {
        Ok(d) => d,
        Err(_) => panic!("player did not choose a valid option"),
    };
    if let Err(e) = table.play_option(&mut player, decision) {
        panic!("error occurred: {:?}", e);
    }
    assert!(true);
}

#[test]
fn test_single_hand_loop() {
    let mut player = Player::new(50_000, hilo_basic(6), true);
    let mut table = BlackjackTable::new(6, 7, false, false, 21);
    let bet = player.bet();
    if bet < 5 {
        println!("error: {} is not a valid bet with a minimum bet of 5", bet);
        return;
    }
    player.place_bet(bet);
    table.deal_hand(&mut player).unwrap();
    while !player.turn_is_over() {
        let up = table.dealers_face_up_card();
        let decision = match player.decide_option(&up) {
            Ok(d) => d,
            Err(e) => {
                println!("error: {:?}", e);
                return;
            }
        };
        if let Err(e) = table.play_option(&mut player, decision) {
            println!("error: {:?}", e);
            return;
        }
    }
    let log = table.finish_hand(&mut player).unwrap();
    assert!(log.wins + log.pushes + log.losses >= 1);
    assert_eq!(player.balance(), 50_000 + log.winnings as i128);
}

#[test]
fn test_dynamic_strategy_creation() {
    let strategies = vec![
        PlayerStrategy::new(
            Counter::new(CountingSystem::HiLo, 6),
            DecisionPolicy::Basic(BasicStrategy::new()),
            MarginBettingStrategy::new(3, 5),
        ),
        PlayerStrategy::new(
            Counter::new(CountingSystem::WongHalves, 6),
            DecisionPolicy::Basic(BasicStrategy::new()),
            MarginBettingStrategy::new(3, 5),
        ),
    ];
    assert_eq!(strategies[0].label(), "HiLo");
    assert_eq!(strategies[1].label(), "Wong Halves");
}

#[test]
fn penetration_sets_when_a_reshuffle_is_due() {
    let mut shoe = Shoe::with_penetration(1, 50, 3);
    shoe.shuffle(2);
    for _ in 0..24 {
        shoe.draw();
    }
    assert!(!shoe.shuffle_due());
    shoe.draw();
    assert!(shoe.shuffle_due());
}

#[test]
fn dealing_past_the_last_card_is_shoe_exhausted() {
    let mut shoe = Shoe::with_penetration(1, 100, 4);
    shoe.shuffle(1);
    for _ in 0..49 {
        shoe.draw();
    }
    assert!(!shoe.shuffle_due());
    let mut table = BlackjackTable::with_shoe(shoe, 7, false, false);
    let mut player = Player::new(50_000, hilo_basic(1), true);
    player.place_bet(5);
    assert_eq!(table.deal_hand(&mut player), Err(GameError::ShoeExhausted));
}

#[test]
fn a_decision_outside_the_legal_set_is_refused() {
    let basic = BasicStrategy::new();
    let eleven = state(card(5), card(6), value_of(&[card(5), card(6)]), card(6), 0, 0);
    let only_stand = Options { stand: true, hit: false, double_down: false, split: false, surrender: false };
    assert_eq!(basic.decide_option(&eleven, &only_stand), Err(GameError::NoValidOption));
    let s17 = S17DeviationStrategy::new();
    let ace_eight = state(card(1), card(8), value_of(&[card(1), card(8)]), card(9), 0, 0);
    let only_hit = Options { stand: false, hit: true, double_down: false, split: false, surrender: false };
    assert_eq!(s17.decide_option(&ace_eight, &only_hit), Err(GameError::NoValidOption));
    let h17 = H17DeviationStrategy::new();
    let nine = state(card(4), card(5), value_of(&[card(4), card(5)]), card(2), 0, 3);
    assert_eq!(h17.decide_option(&nine, &only_stand), Err(GameError::NoValidOption));
    assert_eq!(h17.decide_option(&nine, &options(true, false, false)), Ok(Action::DoubleDown));
}

#[test]
fn double_down_is_legal_on_any_untouched_two_card_hand() {
    let mut table = stacked_table(&[card(10), card(9), card(4), card(7)]);
    let mut player = Player::new(50_000, hilo_basic(1), true);
    player.place_bet(10);
    table.deal_hand(&mut player).unwrap();
    let up = table.dealers_face_up_card();
    assert!(player.get_playing_options(&up).double_down);
    let mut poor = Player::new(1_500, hilo_basic(1), true);
    let mut table2 = stacked_table(&[card(10), card(9), card(4), card(7)]);
    poor.place_bet(10);
    table2.deal_hand(&mut poor).unwrap();
    assert!(!poor.get_playing_options(&up).double_down);
}

#[test]
fn deal_counts_three_cards_and_the_hole_card_only_on_a_dealer_natural() {
    let mut table = stacked_table(&[card(10), card(9), card(4), card(7)]);
    let mut player = Player::new(50_000, hilo_basic(1), true);
    player.place_bet(10);
    table.deal_hand(&mut player).unwrap();
    assert_eq!(player.strategy.counter.seen, 3);
    let mut table = stacked_table(&[card(10), card(1), card(9), card(13)]);
    let mut player = Player::new(50_000, hilo_basic(1), true);
    player.place_bet(10);
    table.deal_hand(&mut player).unwrap();
    assert_eq!(player.strategy.counter.seen, 4);
}

fn insured_deal(top: &[Card]) -> (BlackjackTable, Player) {
    let mut cards: Vec<Card> = top.to_vec();
    while cards.len() < 52 {
        cards.push(Card::new(2, Suit::Clubs));
    }
    let mut table = BlackjackTable::with_shoe(Shoe::from_cards(cards, 1), 7, false, true);
    let strategy = PlayerStrategy::new(
        Counter::new(CountingSystem::HiLo, 1),
        DecisionPolicy::S17Deviation(S17DeviationStrategy::new()),
        MarginBettingStrategy::new(3, 5),
    );
    let mut player = Player::new(50_000, strategy, true);
    for _ in 0..4 {
        player.update_strategy(&card(5));
    }
    player.place_bet(10);
    table.deal_hand(&mut player).unwrap();
    (table, player)
}

#[test]
fn insurance_pays_two_to_one_on_a_dealer_natural() {
    let (mut table, mut player) = insured_deal(&[card(2), card(1), card(3), card(13)]);
    assert_eq!(player.insurance, 1_000);
    assert_eq!(player.hands[0].outcome, Some(-1_000));
    assert_eq!(player.balance(), 50_000);
    let log = table.finish_hand(&mut player).unwrap();
    assert_eq!((log.pushes, log.winnings), (1, 0));
}

#[test]
fn insurance_is_lost_without_a_dealer_natural() {
    let (_, player) = insured_deal(&[card(2), card(1), card(3), card(9)]);
    assert_eq!(player.insurance, -500);
    assert_eq!(player.balance(), 48_500);
}

#[test]
fn no_insurance_where_the_table_does_not_offer_it() {
    let mut table = stacked_table(&[card(2), card(1), card(3), card(9)]);
    let mut player = Player::new(50_000, hilo_basic(1), true);
    player.place_bet(10);
    table.deal_hand(&mut player).unwrap();
    assert_eq!(player.insurance, 0);
}
