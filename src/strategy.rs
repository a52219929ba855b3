use vstd::prelude::*;
use crate::card::Card;
use crate::count::{Counter, CountingSystem, MAX_CARDS_COUNTED};
use crate::hand::HandValue;

verus! {

/// A way to play the current hand.
#[derive(Clone, Copy, PartialEq, Eq, Structural, Debug)]
pub enum Action {
    Stand,
    Hit,
    DoubleDown,
    Split,
    Surrender,
}

/// A set of actions: the ones that are legal at a decision point.
#[derive(Clone, Copy, PartialEq, Eq, Structural, Debug)]
pub struct Options {
    pub stand: bool,
    pub hit: bool,
    pub double_down: bool,
    pub split: bool,
    pub surrender: bool,
}

impl Options {
    pub open spec fn has(self, a: Action) -> bool {
        match a {
            Action::Stand => self.stand,
            Action::Hit => self.hit,
            Action::DoubleDown => self.double_down,
            Action::Split => self.split,
            Action::Surrender => self.surrender,
        }
    }

    /// Whether `a` is in the set.
    pub fn contains(&self, a: Action) -> (b: bool)
        ensures
            b == self.has(a),
    {
        match a {
            Action::Stand => self.stand,
            Action::Hit => self.hit,
            Action::DoubleDown => self.double_down,
            Action::Split => self.split,
            Action::Surrender => self.surrender,
        }
    }
}

/// What a decision policy sees of the table when the current hand is to be
/// played: the hand's first two cards and value, the stake, the balance
/// (in cents), the counts and the dealer's up-card.
#[derive(Clone, Copy, Debug)]
pub struct TableState {
    pub first_card: Card,
    pub second_card: Card,
    pub value: HandValue,
    pub bet: u64,
    pub balance: i64,
    /// The running count, in half-points.
    pub running: i64,
    /// The true count is `true_num / true_den`.
    pub true_num: i64,
    pub true_den: i64,
    pub num_decks: u32,
    pub dealer_up: Card,
}

/// What a betting policy sees: the balance (in cents) and the counts.
#[derive(Clone, Copy, Debug)]
pub struct BetState {
    pub balance: i64,
    /// The running count, in half-points.
    pub running: i64,
    /// The true count is `true_num / true_den`.
    pub true_num: i64,
    pub true_den: i64,
    pub num_decks: u32,
}

/// The failures of a game.
#[derive(Clone, Copy, PartialEq, Eq, Structural, Debug)]
pub enum GameError {
    /// The betting policy asked for a positive bet under the table minimum.
    BetBelowMinimum,
    /// The decision policy found no legal action.
    NoValidOption,
    /// Every card of the shoe was drawn in the middle of a hand.
    ShoeExhausted,
}

/// Whether the true count `num / den` (with `den > 0`) is at least `k`; for an
/// integer `k` this is also whether its floor is at least `k`.
pub open spec fn tc_at_least(num: int, den: int, k: int) -> bool {
    num >= k * den
}

fn true_count_at_least(num: i64, den: i64, k: i64) -> (b: bool)
    requires
        -8 <= k <= 8,
    ensures
        b == tc_at_least(num as int, den as int, k as int),
{
    assert(-8 * 0x8000_0000_0000_0000 <= (k as int) * (den as int) <= 8 * 0x8000_0000_0000_0000)
        by (nonlinear_arith)
        requires
            -8 <= k <= 8,
            -0x8000_0000_0000_0000 <= den <= 0x7fff_ffff_ffff_ffff,
    ;
    let kd: i128 = (k as i128) * (den as i128);
    (num as i128) >= kd
}

/// The basic-strategy action for a hard total against the dealer's up-card
/// value (1 for an ace); `None` off the table.
pub open spec fn hard_table(total: u8, up: u8) -> Option<Action> {
    if !(2 <= total <= 21 && 1 <= up <= 10) {
        None
    } else if total == 9 {
        Some(if 3 <= up <= 6 { Action::DoubleDown } else { Action::Hit })
    } else if total == 10 {
        Some(if 2 <= up <= 9 { Action::DoubleDown } else { Action::Hit })
    } else if total == 11 {
        Some(Action::DoubleDown)
    } else if total == 12 {
        Some(if 4 <= up <= 6 { Action::Stand } else { Action::Hit })
    } else if 13 <= total <= 16 {
        Some(if 2 <= up <= 6 { Action::Stand } else { Action::Hit })
    } else if total >= 17 {
        Some(Action::Stand)
    } else {
        Some(Action::Hit)
    }
}

/// The basic-strategy action for a soft hand, keyed by its hard total (the
/// ace counted as 1), against the dealer's up-card value; `None` off the table.
pub open spec fn soft_table(total: u8, up: u8) -> Option<Action> {
    if !(3 <= total <= 10 && 1 <= up <= 10) {
        None
    } else if total <= 7 {
        Some(Action::Hit)
    } else if total == 8 {
        Some(
            if 2 <= up <= 6 {
                Action::DoubleDown
            } else if up == 7 || up == 8 {
                Action::Stand
            } else {
                Action::Hit
            },
        )
    } else if total == 9 {
        Some(if up == 6 { Action::DoubleDown } else { Action::Stand })
    } else {
        Some(Action::Stand)
    }
}

/// Whether basic strategy splits a pair whose hard total is `total`.
pub open spec fn pair_splits(total: u8, up: u8) -> bool {
    &&& 1 <= up <= 10
    &&& {
        ||| total == 2
        ||| (total == 4 || total == 6) && 2 <= up <= 7
        ||| total == 8 && (up == 5 || up == 6)
        ||| total == 12 && 2 <= up <= 6
        ||| total == 14 && 2 <= up <= 7
        ||| total == 16
        ||| total == 18 && (2 <= up <= 6 || up == 8 || up == 9)
    }
}

/// Whether basic strategy surrenders a hard total.
pub open spec fn basic_surrenders(total: u8, up: u8) -> bool {
    ||| total == 15 && up == 10
    ||| total == 16 && (up == 9 || up == 10 || up == 1)
}

/// A table's action, played if legal; a double down that is not legal
/// becomes a hit where hitting is legal; `None` otherwise.
pub open spec fn table_choice(a: Action, o: Options) -> Option<Action> {
    if o.has(a) {
        Some(a)
    } else if a == Action::DoubleDown && o.hit {
        Some(Action::Hit)
    } else {
        None
    }
}

/// Basic strategy: surrender, then pair splitting, then the soft-total table
/// for a soft hand, else the hard-total table. `None` when the table's choice
/// is not legal.
pub open spec fn basic_choice(st: TableState, o: Options) -> Option<Action> {
    let up = st.dealer_up.value();
    let h = st.value.hard;
    if o.surrender && basic_surrenders(h, up) {
        Some(Action::Surrender)
    } else if o.split && pair_splits(h, up) {
        Some(Action::Split)
    } else if st.value.soft.is_some() && soft_table(h, up).is_some() {
        table_choice(soft_table(h, up).unwrap(), o)
    } else {
        match hard_table(h, up) {
            Some(a) => table_choice(a, o),
            None => None,
        }
    }
}

/// Basic strategy hits a hard 16 against a ten-valued up-card when hitting and
/// standing are the only legal actions, whatever the count; and it doubles a
/// hard 11 against any up-card whenever doubling is legal.
pub proof fn lemma_basic_sixteen_and_eleven(st: TableState, o: Options)
    requires
        st.dealer_up.wf(),
    ensures
        st.value.hard == 16 && st.value.soft.is_none() && st.dealer_up.value() == 10 && o
            == (Options { stand: true, hit: true, double_down: false, split: false, surrender: false })
            ==> basic_decision(st, o) == Some(Action::Hit),
        st.value.hard == 11 && o.double_down ==> basic_decision(st, o) == Some(Action::DoubleDown),
{
}

/// `r` when it is a legal action, else `None`.
pub open spec fn keep_legal(r: Option<Action>, o: Options) -> Option<Action> {
    match r {
        Some(a) => if o.has(a) {
            Some(a)
        } else {
            None
        },
        None => None,
    }
}

/// The basic-strategy decision: the choice, when it is legal.
pub open spec fn basic_decision(st: TableState, o: Options) -> Option<Action> {
    keep_legal(basic_choice(st, o), o)
}

/// The decision when the dealer stands on soft 17: the choice, when it is legal.
pub open spec fn s17_decision(st: TableState, o: Options) -> Option<Action> {
    keep_legal(s17_choice(st, o), o)
}

/// The decision when the dealer hits soft 17: the choice, when it is legal.
pub open spec fn h17_decision(st: TableState, o: Options) -> Option<Action> {
    keep_legal(h17_choice(st, o), o)
}

/// A policy's decision, when there is one, is among the legal actions.
pub proof fn lemma_decisions_are_legal(policy: DecisionPolicy, st: TableState, o: Options)
    ensures
        policy_decision(policy, st, o) matches Some(a) ==> o.has(a),
{
}

fn legal_only(r: Result<Action, GameError>, o: &Options) -> (res: Result<Action, GameError>)
    ensures
        r matches Ok(a) ==> res == (if o.has(a) {
            Ok::<Action, GameError>(a)
        } else {
            Err::<Action, GameError>(GameError::NoValidOption)
        }),
        r is Err ==> res == r,
{
    match r {
        Ok(a) => if o.contains(a) {
            Ok(a)
        } else {
            Err(GameError::NoValidOption)
        },
        Err(e) => Err(e),
    }
}

fn hard_table_lookup(total: u8, up: u8) -> (r: Option<Action>)
    ensures
        r == hard_table(total, up),
{
    if !(2 <= total && total <= 21 && 1 <= up && up <= 10) {
        None
    } else if total == 9 {
        Some(if 3 <= up && up <= 6 { Action::DoubleDown } else { Action::Hit })
    } else if total == 10 {
        Some(if 2 <= up && up <= 9 { Action::DoubleDown } else { Action::Hit })
    } else if total == 11 {
        Some(Action::DoubleDown)
    } else if total == 12 {
        Some(if 4 <= up && up <= 6 { Action::Stand } else { Action::Hit })
    } else if 13 <= total && total <= 16 {
        Some(if 2 <= up && up <= 6 { Action::Stand } else { Action::Hit })
    } else if total >= 17 {
        Some(Action::Stand)
    } else {
        Some(Action::Hit)
    }
}

fn soft_table_lookup(total: u8, up: u8) -> (r: Option<Action>)
    ensures
        r == soft_table(total, up),
{
    if !(3 <= total && total <= 10 && 1 <= up && up <= 10) {
        None
    } else if total <= 7 {
        Some(Action::Hit)
    } else if total == 8 {
        Some(
            if 2 <= up && up <= 6 {
                Action::DoubleDown
            } else if up == 7 || up == 8 {
                Action::Stand
            } else {
                Action::Hit
            },
        )
    } else if total == 9 {
        Some(if up == 6 { Action::DoubleDown } else { Action::Stand })
    } else {
        Some(Action::Stand)
    }
}

fn pair_splits_lookup(total: u8, up: u8) -> (b: bool)
    ensures
        b == pair_splits(total, up),
{
    1 <= up && up <= 10 && (total == 2 || ((total == 4 || total == 6) && 2 <= up && up <= 7) || (
    total == 8 && (up == 5 || up == 6)) || (total == 12 && 2 <= up && up <= 6) || (total == 14 && 2
        <= up && up <= 7) || total == 16 || (total == 18 && ((2 <= up && up <= 6) || up == 8 || up
        == 9)))
}

fn choose_from_table(a: Action, o: &Options) -> (r: Option<Action>)
    ensures
        r == table_choice(a, *o),
{
    if o.contains(a) {
        Some(a)
    } else if a == Action::DoubleDown && o.hit {
        Some(Action::Hit)
    } else {
        None
    }
}

fn to_result(r: Option<Action>) -> (res: Result<Action, GameError>)
    ensures
        r matches Some(a) ==> res == Ok::<Action, GameError>(a),
        r.is_none() ==> res == Err::<Action, GameError>(GameError::NoValidOption),
{
    match r {
        Some(a) => Ok(a),
        None => Err(GameError::NoValidOption),
    }
}

/// Plays by basic strategy alone, ignoring the count.
#[derive(Clone, Copy, Debug)]
pub struct BasicStrategy {}

impl BasicStrategy {
    pub fn new() -> (s: BasicStrategy) {
        BasicStrategy {  }
    }

    /// The basic-strategy action for `state` among `options`.
    /// The action for `state` among `options`: the policy's choice when it
    /// is legal, else `NoValidOption`.
    pub fn decide_option(&self, state: &TableState, options: &Options) -> (r: Result<
        Action,
        GameError,
    >)
        ensures
            basic_decision(*state, *options) matches Some(a) ==> r == Ok::<Action, GameError>(a),
            basic_decision(*state, *options).is_none() ==> r == Err::<Action, GameError>(
                GameError::NoValidOption,
            ),
    {
        legal_only(self.pick(state, options), options)
    }

    fn pick(&self, state: &TableState, options: &Options) -> (r: Result<
        Action,
        GameError,
    >)
        ensures
            basic_choice(*state, *options) matches Some(a) ==> r == Ok::<Action, GameError>(a),
            basic_choice(*state, *options).is_none() ==> r == Err::<Action, GameError>(
                GameError::NoValidOption,
            ),
    {
        let up = state.dealer_up.val();
        let h = state.value.hard;
        if options.surrender && ((h == 15 && up == 10) || (h == 16 && (up == 9 || up == 10 || up
            == 1))) {
            return Ok(Action::Surrender);
        }
        if options.split && pair_splits_lookup(h, up) {
            return Ok(Action::Split);
        }
        if state.value.is_soft() {
            if let Some(a) = soft_table_lookup(h, up) {
                return to_result(choose_from_table(a, options));
            }
        }
        match hard_table_lookup(h, up) {
            Some(a) => to_result(choose_from_table(a, options)),
            None => Err(GameError::NoValidOption),
        }
    }

    /// Basic strategy never takes insurance.
    pub fn take_insurance(&self, true_num: i64, true_den: i64) -> (b: bool)
        ensures
            !b,
    {
        false
    }
}

/// Whether the hand's hard or soft total is `t`.
pub open spec fn has_total(v: HandValue, t: u8) -> bool {
    v.hard == t || v.soft == Some(t)
}

/// Whether the first two cards have the values `a` and `b`, in either order.
pub open spec fn first_two_are(st: TableState, a: u8, b: u8) -> bool {
    ||| st.first_card.value() == a && st.second_card.value() == b
    ||| st.first_card.value() == b && st.second_card.value() == a
}

/// Whether the true count of `st` is at least `k`.
pub open spec fn tc_ge(st: TableState, k: int) -> bool {
    tc_at_least(st.true_num as int, st.true_den as int, k)
}

/// The split decision of both deviation policies: a pair of tens splits only
/// against a 4, 5 or 6 at true counts of 6, 5 and 4; other pairs follow basic
/// strategy.
pub open spec fn deviation_splits(st: TableState) -> bool {
    let up = st.dealer_up.value();
    if st.first_card.value() == 10 && st.second_card.value() == 10 {
        (tc_ge(st, 6) && up == 4) || (tc_ge(st, 5) && up == 5) || (tc_ge(st, 4) && up == 6)
    } else {
        pair_splits(st.value.hard, up)
    }
}

/// A double down when legal, else a hit.
pub open spec fn double_or_hit(o: Options) -> Action {
    if o.double_down {
        Action::DoubleDown
    } else {
        Action::Hit
    }
}

/// The basic-strategy tail shared by the deviation policies: the soft table for
/// a soft hand, else the hard table.
pub open spec fn table_decision(st: TableState, o: Options) -> Option<Action> {
    let up = st.dealer_up.value();
    let h = st.value.hard;
    if st.value.soft.is_some() && soft_table(h, up).is_some() {
        table_choice(soft_table(h, up).unwrap(), o)
    } else {
        match hard_table(h, up) {
            Some(a) => table_choice(a, o),
            None => None,
        }
    }
}

/// When the dealer stands on soft 17: surrender 16, and 15 against a ten while
/// the running count is above -1 or against an ace at a true count of 2.
pub open spec fn s17_surrenders(st: TableState) -> bool {
    let up = st.dealer_up.value();
    ||| has_total(st.value, 16)
    ||| has_total(st.value, 15) && ((up == 10 && st.running > -2) || (up == 1 && tc_ge(st, 2)))
}

/// The count-based departures from the hard-total table when the dealer stands
/// on soft 17.
pub open spec fn s17_hard_deviation(st: TableState, o: Options) -> Option<Action> {
    let up = st.dealer_up.value();
    let h = st.value.hard;
    if h == 16 && ((up == 9 && tc_ge(st, 4)) || (up == 10 && st.running >= 2)) {
        Some(Action::Stand)
    } else if h == 15 && up == 10 && tc_ge(st, 4) {
        Some(Action::Stand)
    } else if h == 13 && st.true_num < 0 {
        Some(Action::Hit)
    } else if h == 12 && ((up == 2 && tc_ge(st, 3)) || (up == 3 && tc_ge(st, 2))) {
        Some(Action::Stand)
    } else if h == 12 && up == 4 && st.running < 0 {
        Some(Action::Hit)
    } else if h == 11 && up == 1 && tc_ge(st, 1) {
        Some(Action::Hit)
    } else if h == 10 && (up == 10 || up == 1) && tc_ge(st, 4) {
        Some(double_or_hit(o))
    } else if h == 9 && ((up == 2 && tc_ge(st, 1)) || (up == 7 && tc_ge(st, 3))) {
        Some(double_or_hit(o))
    } else {
        None
    }
}

/// The decision when the dealer stands on soft 17: surrender, split, the soft
/// ace-eight departures, then the basic tables after the hard-total departures.
pub open spec fn s17_choice(st: TableState, o: Options) -> Option<Action> {
    let up = st.dealer_up.value();
    if o.surrender && s17_surrenders(st) {
        Some(Action::Surrender)
    } else if o.split && deviation_splits(st) {
        Some(Action::Split)
    } else if st.value.soft.is_some() && first_two_are(st, 1, 8) {
        if up == 4 && tc_ge(st, 3) {
            Some(Action::Hit)
        } else if (up == 5 || up == 6) && tc_ge(st, 1) {
            Some(Action::Hit)
        } else {
            Some(Action::Stand)
        }
    } else if st.value.soft.is_some() && soft_table(st.value.hard, up).is_some() {
        table_decision(st, o)
    } else if s17_hard_deviation(st, o).is_some() {
        s17_hard_deviation(st, o)
    } else {
        table_decision(st, o)
    }
}

/// When the dealer hits soft 17, a hard hand surrenders 17 against an ace, any
/// 16, and 15 against a ten at a negative running count or against an ace at a
/// true count of 1.
pub open spec fn h17_surrenders(st: TableState) -> bool {
    let up = st.dealer_up.value();
    let h = st.value.hard;
    &&& st.value.soft.is_none()
    &&& {
        ||| h == 17 && up == 1
        ||| h == 16
        ||| h == 15 && ((up == 10 && st.running < 0) || (up == 1 && tc_ge(st, 1)))
    }
}

/// The count-based departures for soft hands when the dealer hits soft 17.
pub open spec fn h17_soft_deviation(st: TableState) -> Option<Action> {
    let up = st.dealer_up.value();
    if first_two_are(st, 1, 8) && ((tc_ge(st, 3) && up == 4) || (tc_ge(st, 1) && up == 5) || (
    st.running < 0 && up == 6)) {
        Some(Action::Hit)
    } else if first_two_are(st, 1, 6) && tc_ge(st, 1) && up == 2 {
        Some(Action::Stand)
    } else {
        None
    }
}

/// The count-based departures from the hard-total table when the dealer hits
/// soft 17.
pub open spec fn h17_hard_deviation(st: TableState, o: Options) -> Option<Action> {
    let up = st.dealer_up.value();
    let h = st.value.hard;
    if h == 16 && ((up == 9 && tc_ge(st, 4)) || (up == 10 && st.running > 0) || (up == 1 && tc_ge(
        st,
        3,
    ))) {
        Some(Action::Stand)
    } else if h == 15 && ((up == 4 && tc_ge(st, 4)) || (up == 1 && tc_ge(st, 5))) {
        Some(Action::Stand)
    } else if h == 13 && up == 2 && st.true_num < 0 {
        Some(Action::Hit)
    } else if h == 12 && ((up == 2 && tc_ge(st, 3)) || (up == 3 && tc_ge(st, 2))) {
        Some(Action::Stand)
    } else if h == 12 && up == 4 && st.running < 0 {
        Some(Action::Hit)
    } else if h == 10 && ((up == 10 && tc_ge(st, 4)) || (up == 1 && tc_ge(st, 3))) {
        Some(double_or_hit(o))
    } else if h == 9 && ((up == 2 && tc_ge(st, 1)) || (up == 7 && tc_ge(st, 3))) {
        Some(double_or_hit(o))
    } else if h == 8 && up == 6 && tc_ge(st, 2) {
        Some(double_or_hit(o))
    } else {
        None
    }
}

/// The decision when the dealer hits soft 17.
pub open spec fn h17_choice(st: TableState, o: Options) -> Option<Action> {
    if o.surrender && h17_surrenders(st) {
        Some(Action::Surrender)
    } else if o.split && deviation_splits(st) {
        Some(Action::Split)
    } else if st.value.soft.is_some() && h17_soft_deviation(st).is_some() {
        h17_soft_deviation(st)
    } else if st.value.soft.is_some() && soft_table(st.value.hard, st.dealer_up.value()).is_some() {
        table_decision(st, o)
    } else if h17_hard_deviation(st, o).is_some() {
        h17_hard_deviation(st, o)
    } else {
        table_decision(st, o)
    }
}

fn tc_ge_exec(st: &TableState, k: i64) -> (b: bool)
    requires
        -8 <= k <= 8,
    ensures
        b == tc_ge(*st, k as int),
{
    true_count_at_least(st.true_num, st.true_den, k)
}

fn has_total_exec(v: &HandValue, t: u8) -> (b: bool)
    ensures
        b == has_total(*v, t),
{
    v.hard == t || v.soft == Some(t)
}

fn first_two_are_exec(st: &TableState, a: u8, b: u8) -> (r: bool)
    ensures
        r == first_two_are(*st, a, b),
{
    let x = st.first_card.val();
    let y = st.second_card.val();
    (x == a && y == b) || (x == b && y == a)
}

fn deviation_splits_exec(st: &TableState) -> (b: bool)
    ensures
        b == deviation_splits(*st),
{
    let up = st.dealer_up.val();
    if st.first_card.val() == 10 && st.second_card.val() == 10 {
        (tc_ge_exec(st, 6) && up == 4) || (tc_ge_exec(st, 5) && up == 5) || (tc_ge_exec(st, 4)
            && up == 6)
    } else {
        pair_splits_lookup(st.value.hard, up)
    }
}

fn double_or_hit_exec(o: &Options) -> (a: Action)
    ensures
        a == double_or_hit(*o),
{
    if o.double_down {
        Action::DoubleDown
    } else {
        Action::Hit
    }
}

fn table_decision_exec(st: &TableState, o: &Options) -> (r: Option<Action>)
    ensures
        r == table_decision(*st, *o),
{
    let up = st.dealer_up.val();
    let h = st.value.hard;
    if st.value.is_soft() {
        if let Some(a) = soft_table_lookup(h, up) {
            return choose_from_table(a, o);
        }
    }
    match hard_table_lookup(h, up) {
        Some(a) => choose_from_table(a, o),
        None => None,
    }
}

fn s17_hard_deviation_exec(st: &TableState, o: &Options) -> (r: Option<Action>)
    ensures
        r == s17_hard_deviation(*st, *o),
{
    let up = st.dealer_up.val();
    let h = st.value.hard;
    if h == 16 && ((up == 9 && tc_ge_exec(st, 4)) || (up == 10 && st.running >= 2)) {
        Some(Action::Stand)
    } else if h == 15 && up == 10 && tc_ge_exec(st, 4) {
        Some(Action::Stand)
    } else if h == 13 && st.true_num < 0 {
        Some(Action::Hit)
    } else if h == 12 && ((up == 2 && tc_ge_exec(st, 3)) || (up == 3 && tc_ge_exec(st, 2))) {
        Some(Action::Stand)
    } else if h == 12 && up == 4 && st.running < 0 {
        Some(Action::Hit)
    } else if h == 11 && up == 1 && tc_ge_exec(st, 1) {
        Some(Action::Hit)
    } else if h == 10 && (up == 10 || up == 1) && tc_ge_exec(st, 4) {
        Some(double_or_hit_exec(o))
    } else if h == 9 && ((up == 2 && tc_ge_exec(st, 1)) || (up == 7 && tc_ge_exec(st, 3))) {
        Some(double_or_hit_exec(o))
    } else {
        None
    }
}

fn h17_soft_deviation_exec(st: &TableState) -> (r: Option<Action>)
    ensures
        r == h17_soft_deviation(*st),
{
    let up = st.dealer_up.val();
    if first_two_are_exec(st, 1, 8) && ((tc_ge_exec(st, 3) && up == 4) || (tc_ge_exec(st, 1) && up
        == 5) || (st.running < 0 && up == 6)) {
        Some(Action::Hit)
    } else if first_two_are_exec(st, 1, 6) && tc_ge_exec(st, 1) && up == 2 {
        Some(Action::Stand)
    } else {
        None
    }
}

fn h17_hard_deviation_exec(st: &TableState, o: &Options) -> (r: Option<Action>)
    ensures
        r == h17_hard_deviation(*st, *o),
{
    let up = st.dealer_up.val();
    let h = st.value.hard;
    if h == 16 && ((up == 9 && tc_ge_exec(st, 4)) || (up == 10 && st.running > 0) || (up == 1
        && tc_ge_exec(st, 3))) {
        Some(Action::Stand)
    } else if h == 15 && ((up == 4 && tc_ge_exec(st, 4)) || (up == 1 && tc_ge_exec(st, 5))) {
        Some(Action::Stand)
    } else if h == 13 && up == 2 && st.true_num < 0 {
        Some(Action::Hit)
    } else if h == 12 && ((up == 2 && tc_ge_exec(st, 3)) || (up == 3 && tc_ge_exec(st, 2))) {
        Some(Action::Stand)
    } else if h == 12 && up == 4 && st.running < 0 {
        Some(Action::Hit)
    } else if h == 10 && ((up == 10 && tc_ge_exec(st, 4)) || (up == 1 && tc_ge_exec(st, 3))) {
        Some(double_or_hit_exec(o))
    } else if h == 9 && ((up == 2 && tc_ge_exec(st, 1)) || (up == 7 && tc_ge_exec(st, 3))) {
        Some(double_or_hit_exec(o))
    } else if h == 8 && up == 6 && tc_ge_exec(st, 2) {
        Some(double_or_hit_exec(o))
    } else {
        None
    }
}

/// Basic strategy with the count-based departures for a dealer who stands on
/// soft 17.
#[derive(Clone, Copy, Debug)]
pub struct S17DeviationStrategy {}

impl S17DeviationStrategy {
    pub fn new() -> (s: S17DeviationStrategy) {
        S17DeviationStrategy {  }
    }

    /// The action for `state` among `options`: the policy's choice when it
    /// is legal, else `NoValidOption`.
    pub fn decide_option(&self, state: &TableState, options: &Options) -> (r: Result<
        Action,
        GameError,
    >)
        ensures
            s17_decision(*state, *options) matches Some(a) ==> r == Ok::<Action, GameError>(a),
            s17_decision(*state, *options).is_none() ==> r == Err::<Action, GameError>(
                GameError::NoValidOption,
            ),
    {
        legal_only(self.pick(state, options), options)
    }

    fn pick(&self, state: &TableState, options: &Options) -> (r: Result<
        Action,
        GameError,
    >)
        ensures
            s17_choice(*state, *options) matches Some(a) ==> r == Ok::<Action, GameError>(a),
            s17_choice(*state, *options).is_none() ==> r == Err::<Action, GameError>(
                GameError::NoValidOption,
            ),
    {
        let up = state.dealer_up.val();
        if options.surrender && (has_total_exec(&state.value, 16) || (has_total_exec(
            &state.value,
            15,
        ) && ((up == 10 && state.running > -2) || (up == 1 && tc_ge_exec(state, 2))))) {
            return Ok(Action::Surrender);
        }
        if options.split && deviation_splits_exec(state) {
            return Ok(Action::Split);
        }
        if state.value.is_soft() && first_two_are_exec(state, 1, 8) {
            if up == 4 && tc_ge_exec(state, 3) {
                return Ok(Action::Hit);
            } else if (up == 5 || up == 6) && tc_ge_exec(state, 1) {
                return Ok(Action::Hit);
            } else {
                return Ok(Action::Stand);
            }
        }
        if state.value.is_soft() && soft_table_lookup(state.value.hard, up).is_some() {
            return to_result(table_decision_exec(state, options));
        }
        if let Some(a) = s17_hard_deviation_exec(state, options) {
            return Ok(a);
        }
        to_result(table_decision_exec(state, options))
    }

    /// Insurance is taken at a true count of 3 or more.
    pub fn take_insurance(&self, true_num: i64, true_den: i64) -> (b: bool)
        ensures
            b == tc_at_least(true_num as int, true_den as int, 3),
    {
        true_count_at_least(true_num, true_den, 3)
    }
}

/// Basic strategy with the count-based departures for a dealer who hits soft 17.
#[derive(Clone, Copy, Debug)]
pub struct H17DeviationStrategy {}

impl H17DeviationStrategy {
    pub fn new() -> (s: H17DeviationStrategy) {
        H17DeviationStrategy {  }
    }

    /// The action for `state` among `options`: the policy's choice when it
    /// is legal, else `NoValidOption`.
    pub fn decide_option(&self, state: &TableState, options: &Options) -> (r: Result<
        Action,
        GameError,
    >)
        ensures
            h17_decision(*state, *options) matches Some(a) ==> r == Ok::<Action, GameError>(a),
            h17_decision(*state, *options).is_none() ==> r == Err::<Action, GameError>(
                GameError::NoValidOption,
            ),
    {
        legal_only(self.pick(state, options), options)
    }

    fn pick(&self, state: &TableState, options: &Options) -> (r: Result<
        Action,
        GameError,
    >)
        ensures
            h17_choice(*state, *options) matches Some(a) ==> r == Ok::<Action, GameError>(a),
            h17_choice(*state, *options).is_none() ==> r == Err::<Action, GameError>(
                GameError::NoValidOption,
            ),
    {
        let up = state.dealer_up.val();
        let h = state.value.hard;
        if options.surrender && !state.value.is_soft() && ((h == 17 && up == 1) || h == 16 || (h
            == 15 && ((up == 10 && state.running < 0) || (up == 1 && tc_ge_exec(state, 1))))) {
            return Ok(Action::Surrender);
        }
        if options.split && deviation_splits_exec(state) {
            return Ok(Action::Split);
        }
        if state.value.is_soft() {
            if let Some(a) = h17_soft_deviation_exec(state) {
                return Ok(a);
            }
            if soft_table_lookup(h, up).is_some() {
                return to_result(table_decision_exec(state, options));
            }
        }
        if let Some(a) = h17_hard_deviation_exec(state, options) {
            return Ok(a);
        }
        to_result(table_decision_exec(state, options))
    }

    /// Insurance is taken at a true count of 3 or more.
    pub fn take_insurance(&self, true_num: i64, true_den: i64) -> (b: bool)
        ensures
            b == tc_at_least(true_num as int, true_den as int, 3),
    {
        true_count_at_least(true_num, true_den, 3)
    }
}

/// One of the decision policies.
#[derive(Clone, Copy, Debug)]
pub enum DecisionPolicy {
    Basic(BasicStrategy),
    S17Deviation(S17DeviationStrategy),
    H17Deviation(H17DeviationStrategy),
}

/// The action that `policy` picks; `None` when it finds no legal one.
pub open spec fn policy_decision(policy: DecisionPolicy, st: TableState, o: Options) -> Option<
    Action,
> {
    match policy {
        DecisionPolicy::Basic(_) => basic_decision(st, o),
        DecisionPolicy::S17Deviation(_) => s17_decision(st, o),
        DecisionPolicy::H17Deviation(_) => h17_decision(st, o),
    }
}

/// Whether `policy` takes insurance at the true count `num / den`.
pub open spec fn policy_insures(policy: DecisionPolicy, num: int, den: int) -> bool {
    match policy {
        DecisionPolicy::Basic(_) => false,
        _ => tc_at_least(num, den, 3),
    }
}

impl DecisionPolicy {
    /// The action for `state` among `options`.
    pub fn decide_option(&self, state: &TableState, options: &Options) -> (r: Result<
        Action,
        GameError,
    >)
        ensures
            policy_decision(*self, *state, *options) matches Some(a) ==> r == Ok::<
                Action,
                GameError,
            >(a),
            policy_decision(*self, *state, *options).is_none() ==> r == Err::<Action, GameError>(
                GameError::NoValidOption,
            ),
    {
        match self {
            DecisionPolicy::Basic(p) => p.decide_option(state, options),
            DecisionPolicy::S17Deviation(p) => p.decide_option(state, options),
            DecisionPolicy::H17Deviation(p) => p.decide_option(state, options),
        }
    }

    /// Whether to take insurance at the true count `true_num / true_den`.
    pub fn take_insurance(&self, true_num: i64, true_den: i64) -> (b: bool)
        ensures
            b == policy_insures(*self, true_num as int, true_den as int),
    {
        match self {
            DecisionPolicy::Basic(p) => p.take_insurance(true_num, true_den),
            DecisionPolicy::S17Deviation(p) => p.take_insurance(true_num, true_den),
            DecisionPolicy::H17Deviation(p) => p.take_insurance(true_num, true_den),
        }
    }
}

/// The most a betting policy can stake from `balance` cents: the whole units
/// it holds, and no more than a `u32`.
pub open spec fn stake_cap(balance: int) -> int {
    if balance < 100 {
        0
    } else if balance / 100 > u32::MAX {
        u32::MAX as int
    } else {
        balance / 100
    }
}

/// The smallest integer at least `num / den`, for `den > 0`.
pub open spec fn ceil_div(num: int, den: int) -> int {
    (num + den - 1) / den
}

/// The margin bet: at a positive true count, `min_bet * margin` times the true
/// count rounded up; otherwise `min_bet`. Never more than the stake cap.
pub open spec fn margin_bet(margin: u32, min_bet: u32, st: BetState) -> int {
    let want = if st.true_num > 0 {
        min_bet * margin * ceil_div(st.true_num as int, st.true_den as int)
    } else {
        min_bet as int
    };
    if want < stake_cap(st.balance as int) {
        want
    } else {
        stake_cap(st.balance as int)
    }
}

/// Bets the table minimum, raised in proportion to a positive true count.
#[derive(Clone, Copy, Debug)]
pub struct MarginBettingStrategy {
    pub margin: u32,
    pub min_bet: u32,
}

impl MarginBettingStrategy {
    /// A margin betting policy: `min_bet * margin * ceil(true count)` at a
    /// positive true count, else `min_bet`.
    pub fn new(margin: u32, min_bet: u32) -> (s: MarginBettingStrategy)
        ensures
            s.margin == margin,
            s.min_bet == min_bet,
    {
        MarginBettingStrategy { margin, min_bet }
    }

    /// The bet, in whole units, for `state`.
    pub fn bet(&self, state: &BetState) -> (b: u32)
        requires
            state.true_den > 0,
        ensures
            b == margin_bet(self.margin, self.min_bet, *state),
    {
        let cap: u64 = if state.balance < 100 {
            0
        } else if state.balance / 100 > u32::MAX as i64 {
            u32::MAX as u64
        } else {
            (state.balance / 100) as u64
        };
        let want: u128 = if state.true_num > 0 {
            let num = state.true_num as i128;
            let den = state.true_den as i128;
            let q: i128 = (num + den - 1) / den;
            assert(0 < q <= num) by (nonlinear_arith)
                requires
                    num > 0,
                    den > 0,
                    q as int == (num + den - 1) as int / den as int,
            ;
            let c = q as u128;
            let a = self.min_bet as u128;
            let b = self.margin as u128;
            assert(a * b <= 0xffff_ffff * 0xffff_ffff) by (nonlinear_arith)
                requires
                    a <= 0xffff_ffff,
                    b <= 0xffff_ffff,
            ;
            let mm: u128 = a * b;
            assert(mm * c <= 0xffff_ffff * 0xffff_ffff * 0x7fff_ffff_ffff_ffff) by (
            nonlinear_arith)
                requires
                    mm <= 0xffff_ffff * 0xffff_ffff,
                    c <= 0x7fff_ffff_ffff_ffff,
            ;
            mm * c
        } else {
            self.min_bet as u128
        };
        if want < cap as u128 {
            want as u32
        } else {
            cap as u32
        }
    }
}

/// A complete strategy: a count, a decision policy and a betting policy.
#[derive(Clone, Copy, Debug)]
pub struct PlayerStrategy {
    pub counter: Counter,
    pub decision: DecisionPolicy,
    pub betting: MarginBettingStrategy,
}

impl PlayerStrategy {
    pub open spec fn wf(self) -> bool {
        self.counter.wf()
    }

    /// The strategy that counts with `counter`, decides with `decision` and
    /// bets with `betting`.
    pub fn new(counter: Counter, decision: DecisionPolicy, betting: MarginBettingStrategy) -> (s:
        PlayerStrategy)
        ensures
            s.counter == counter,
            s.decision == decision,
            s.betting == betting,
    {
        PlayerStrategy { counter, decision, betting }
    }

    /// Counts one more seen card.
    pub fn update(&mut self, card: &Card)
        requires
            old(self).wf(),
            old(self).counter.seen < MAX_CARDS_COUNTED,
        ensures
            final(self).wf(),
            final(self).decision == old(self).decision,
            final(self).betting == old(self).betting,
            final(self).counter.system == old(self).counter.system,
            final(self).counter.num_decks == old(self).counter.num_decks,
            final(self).counter.seen == old(self).counter.seen + 1,
            final(self).counter.running == old(self).counter.running + crate::count::card_points(
                old(self).counter.system,
                *card,
            ),
    {
        self.counter.update(card);
    }

    /// Resets the count, as after a shuffle.
    pub fn reset(&mut self)
        ensures
            final(self).wf(),
            final(self).decision == old(self).decision,
            final(self).betting == old(self).betting,
            final(self).counter.system == old(self).counter.system,
            final(self).counter.num_decks == old(self).counter.num_decks,
            final(self).counter.counted(Seq::empty()),
    {
        self.counter.reset();
    }

    /// The betting snapshot for a player holding `balance` cents.
    pub fn bet_state(&self, balance: i64) -> (s: BetState)
        requires
            self.wf(),
        ensures
            s.balance == balance,
            s.running == self.counter.running,
            (s.true_num as int, s.true_den as int) == self.counter.true_count_spec(),
            s.num_decks == self.counter.num_decks,
            s.true_den > 0,
    {
        let (true_num, true_den) = self.counter.true_count();
        BetState {
            balance,
            running: self.counter.running,
            true_num,
            true_den,
            num_decks: self.counter.num_decks,
        }
    }

    /// The bet, in whole units, for `state`.
    pub fn bet(&self, state: &BetState) -> (b: u32)
        requires
            state.true_den > 0,
        ensures
            b == margin_bet(self.betting.margin, self.betting.min_bet, *state),
    {
        self.betting.bet(state)
    }

    /// The action for `state` among `options`.
    pub fn decide_option(&self, state: &TableState, options: &Options) -> (r: Result<
        Action,
        GameError,
    >)
        ensures
            policy_decision(self.decision, *state, *options) matches Some(a) ==> r == Ok::<
                Action,
                GameError,
            >(a),
            policy_decision(self.decision, *state, *options).is_none() ==> r == Err::<
                Action,
                GameError,
            >(GameError::NoValidOption),
    {
        self.decision.decide_option(state, options)
    }

    /// Whether to take insurance at the current true count.
    pub fn take_insurance(&self) -> (b: bool)
        requires
            self.wf(),
        ensures
            b == policy_insures(
                self.decision,
                self.counter.true_count_spec().0,
                self.counter.true_count_spec().1,
            ),
    {
        let (n, d) = self.counter.true_count();
        self.decision.take_insurance(n, d)
    }

    /// The strategy's label: the name of its counting system.
    pub fn label(&self) -> (s: String)
        ensures
            s@ == crate::count::system_name(self.counter.system),
    {
        self.counter.system.name()
    }
}

} // verus!
