use vstd::prelude::*;

verus! {

/// Number of 52-card decks in the shoe.
pub const NUM_DECKS: usize = 6;

/// The shoe is replaced before a round once fewer than
/// `RESHUFFLE_THRESHOLD_NUM / RESHUFFLE_THRESHOLD_DEN` of its cards remain.
pub const RESHUFFLE_THRESHOLD_NUM: u64 = 1;

pub const RESHUFFLE_THRESHOLD_DEN: u64 = 4;

/// Seats at the table, the human seat included.
pub const NUM_PLAYERS: usize = 3;

/// All money amounts are integer cents.
pub const STARTING_BALANCE: i64 = 100_000;

pub const DEFAULT_BET: i64 = 2_500;

pub const MIN_BET_ALLOWED: i64 = 100;

/// A natural blackjack pays NUMERATOR/DENOMINATOR times the bet (6:5).
pub const BLACKJACK_PAYOUT_NUMERATOR: i64 = 6;

pub const BLACKJACK_PAYOUT_DENOMINATOR: i64 = 5;

pub const DEFAULT_SIM_ITERATIONS: u32 = 1000;

/// Bound within which every balance and bet the engine handles stays, so
/// that settlement arithmetic cannot overflow an i64 (one trillion cents).
pub const MONEY_CAP: i64 = 100_000_000_000_000;

} // verus!
