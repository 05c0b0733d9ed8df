//! Why a wager is refused.
use vstd::prelude::*;

verus! {

#[derive(Clone, Copy, Debug, PartialEq, Eq, Structural)]
pub enum Error {
    /// Not enough balance to afford the bet.
    NotEnoughBalance,
    /// The pool cannot take the bet, as it could not afford the worst case with it.
    NotEnoughBalanceInPalletAccount,
    /// Number must be between 0 and 36.
    OutOfRange,
    /// The identifier handed out for the bet is already taken.
    DuplicateId,
}

} // verus!
