//! The risk engine: the most the pool can owe over every possible draw.
use vstd::prelude::*;

use crate::error::Error;
use crate::outcome::{amount_won, is_winner, payout_of, saturate, wins, Balance, Wager};

verus! {

/// The largest number the wheel can draw.
pub const HIGHEST_NUMBER: u32 = 36;

/// What the pool owes `b` when `n` is drawn.
pub open spec fn owed(b: Wager, n: u32) -> Balance {
    if wins(b.bet, n) {
        payout_of(b.bet, b.amount)
    } else {
        0
    }
}

/// The exact sum of what the pool owes `bets` when `n` is drawn.
pub open spec fn exposure(bets: Seq<Wager>, n: u32) -> int
    decreases bets.len(),
{
    if bets.len() == 0 {
        0
    } else {
        exposure(bets.drop_last(), n) + owed(bets.last(), n)
    }
}

/// What the pool owes `bets` when `n` is drawn, capped at the largest balance.
pub open spec fn total_payout(bets: Seq<Wager>, n: u32) -> Balance {
    saturate(exposure(bets, n))
}

/// The largest of `total_payout(bets, n)` for `n` from 0 to `k`.
pub open spec fn max_payout_upto(bets: Seq<Wager>, k: nat) -> Balance
    decreases k,
{
    if k == 0 {
        total_payout(bets, 0)
    } else {
        let m = max_payout_upto(bets, (k - 1) as nat);
        let t = total_payout(bets, k as u32);
        if t > m {
            t
        } else {
            m
        }
    }
}

/// The worst case for the pool: the most it owes `bets` over every draw.
pub open spec fn max_payout_of(bets: Seq<Wager>) -> Balance {
    max_payout_upto(bets, HIGHEST_NUMBER as nat)
}

pub proof fn lemma_exposure_nonnegative(bets: Seq<Wager>, n: u32)
    ensures
        exposure(bets, n) >= 0,
    decreases bets.len(),
{
    if bets.len() > 0 {
        lemma_exposure_nonnegative(bets.drop_last(), n);
    }
}

/// What the pool owes `bets` when `winner_number` is drawn, summed with
/// saturating arithmetic.
pub fn total_payout_at(bets: &Vec<Wager>, winner_number: u32) -> (r: Balance)
    ensures
        r == total_payout(bets@, winner_number),
{
    let mut acc: Balance = 0;
    let mut i: usize = 0;
    while i < bets.len()
        invariant
            i <= bets.len(),
            acc == total_payout(bets@.subrange(0, i as int), winner_number),
        decreases bets.len() - i,
    {
        let bet_data = bets[i];
        let mut payout: Balance = 0;
        if is_winner(bet_data.bet, winner_number) {
            payout = amount_won(bet_data.bet, bet_data.amount);
        }
        proof {
            let prefix = bets@.subrange(0, i as int + 1);
            assert(prefix.drop_last() == bets@.subrange(0, i as int));
            lemma_exposure_nonnegative(bets@.subrange(0, i as int), winner_number);
        }
        acc = acc.saturating_add(payout);
        i = i + 1;
    }
    assert(bets@.subrange(0, bets.len() as int) == bets@);
    acc
}

/// The most the pool can owe `bets` over every draw from 0 to 36.
pub fn max_payout(bets: &Vec<Wager>) -> (r: Balance)
    ensures
        r == max_payout_of(bets@),
{
    let mut max: Balance = 0;
    let mut winner_number: u32 = 0;
    while winner_number <= HIGHEST_NUMBER
        invariant
            winner_number <= HIGHEST_NUMBER + 1,
            winner_number == 0 ==> max == 0,
            winner_number > 0 ==> max == max_payout_upto(bets@, (winner_number - 1) as nat),
        decreases HIGHEST_NUMBER + 1 - winner_number,
    {
        let total = total_payout_at(bets, winner_number);
        if total > max {
            max = total;
        }
        winner_number = winner_number + 1;
    }
    max
}

/// The pool's worst case over `bets`, if `reserve` covers it.
pub fn check_solvency(bets: &Vec<Wager>, reserve: Balance) -> (r: Result<Balance, Error>)
    ensures
        reserve >= max_payout_of(bets@) ==> r == Ok::<Balance, Error>(max_payout_of(bets@)),
        reserve < max_payout_of(bets@) ==> r == Err::<Balance, Error>(
            Error::NotEnoughBalanceInPalletAccount,
        ),
{
    let max = max_payout(bets);
    if reserve < max {
        Err(Error::NotEnoughBalanceInPalletAccount)
    } else {
        Ok(max)
    }
}

proof fn lemma_max_payout_upto_grows(bets: Seq<Wager>, b: Wager, k: nat)
    ensures
        max_payout_upto(bets, k) <= max_payout_upto(bets.push(b), k),
    decreases k,
{
    assert(bets.push(b).drop_last() == bets);
    lemma_exposure_nonnegative(bets, k as u32);
    if k > 0 {
        lemma_max_payout_upto_grows(bets, b, (k - 1) as nat);
    }
}

/// Adding a wager never lowers the pool's worst case.
pub proof fn lemma_max_payout_monotone(bets: Seq<Wager>, b: Wager)
    ensures
        max_payout_of(bets) <= max_payout_of(bets.push(b)),
{
    lemma_max_payout_upto_grows(bets, b, HIGHEST_NUMBER as nat);
}

} // verus!
