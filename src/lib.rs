//! A blackjack simulator for comparing card-counting strategies.
//!
//! The library holds the rules engine (shoe, hands, dealer play and
//! settlement), the counting, decision and betting policies, the game and
//! simulation loops, and the aggregation of per-strategy results.
pub mod aggregate;
pub mod card;
pub mod count;
pub mod game;
pub mod hand;
pub mod player;
mod rng;
pub mod shoe;
pub mod sim;
pub mod strategy;
pub mod table;
