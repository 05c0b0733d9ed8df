//! A roulette wagering and settlement engine.
//!
//! Wagers are accepted against a pool account only when the pool can cover the
//! worst case over every possible draw; each round resolves every pending wager
//! against one draw and hands back the ledger operations that move the funds.
pub mod error;
pub mod outcome;
pub mod pallet;
pub mod risk;

pub use error::Error;
pub use outcome::{
    amount_won, is_winner, saturating_mul, AccountId, Balance, Bet, BetData, BlockNumber,
    DozenOrColumn, Half, OddOrEven, RouletteColor, RouletteNumber, Wager,
};
pub use pallet::{DefaultBetNonce, Effects, Event, LedgerOp, LockId, Pallet};
pub use risk::{check_solvency, max_payout, total_payout_at};
