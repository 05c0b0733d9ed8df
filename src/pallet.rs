//! The engine: the wager book, placement with its solvency check, and the
//! settlement of a round.
//!
//! The engine holds no balances. Placement is handed the balances it decides
//! on, and every decision comes back as a list of ledger operations for the
//! host to carry out, in order.
use vstd::prelude::*;

use std::collections::HashMap;

use crate::error::Error;
use crate::outcome::{
    amount_won, color_of, is_winner, multiplier, payout_of, saturate, wins, AccountId, Balance, Bet, BetData,
    BlockNumber, RouletteColor, RouletteNumber, Wager,
};
use crate::risk::{max_payout, max_payout_of, total_payout, HIGHEST_NUMBER};

verus! {

broadcast use vstd::std_specs::hash::group_hash_axioms;

/// Which lock a ledger operation is about.
#[derive(Clone, Copy, Debug, PartialEq, Eq, Structural)]
pub enum LockId {
    /// The lock on a bettor's funds for one pending bet, by bet id.
    Bet(u64),
    /// The lock on the pool's funds that covers its worst case.
    Pool,
}

/// An operation on the ledger that the host carries out for the engine.
#[derive(Clone, Copy, Debug, PartialEq, Eq, Structural)]
pub enum LedgerOp {
    /// Lock `amount` of `who`'s funds under `lock`, replacing what it held.
    SetLock { lock: LockId, who: AccountId, amount: Balance },
    /// Release `lock` on `who`'s funds; releasing a lock twice is harmless.
    RemoveLock { lock: LockId, who: AccountId },
    /// Move `amount` from `from` to `to`. A failed transfer is reported by the
    /// ledger and does not stop the round.
    Transfer { from: AccountId, to: AccountId, amount: Balance },
}

/// What the engine reports.
#[derive(Clone, Copy, Debug, PartialEq, Eq, Structural)]
pub enum Event {
    /// A bet has been placed.
    BetPlaced { bet_id: u64, who: AccountId, bet: Bet, amount: Balance },
    /// A round has been played.
    RoulettePlayed {
        winner_number: u32,
        winner_color: Option<RouletteColor>,
        players: u32,
        income: Balance,
        payout: Balance,
    },
}

/// The result of a step of the engine: what it reports, and the ledger
/// operations that the host must carry out, in order.
#[derive(Debug)]
pub struct Effects {
    pub event: Event,
    pub ops: Vec<LedgerOp>,
}

/// The nonce that the first bet's id is taken from.
#[allow(non_snake_case)]
pub fn DefaultBetNonce() -> (r: u64)
    ensures
        r == 0,
{
    0u64
}

/// The state of the engine.
pub struct Pallet {
    account: AccountId,
    block_number: BlockNumber,
    bet_nonce: u64,
    ongoing_bets: Vec<Wager>,
    bets: HashMap<u64, Wager>,
}

/// The engine as a mathematical value.
pub struct PalletView {
    /// The pool account, which backs every payout.
    pub account: AccountId,
    /// The current block.
    pub block_number: BlockNumber,
    /// The id of the next bet.
    pub bet_nonce: u64,
    /// The bets that wait for the next round, in the order they were placed.
    pub ongoing_bets: Seq<Wager>,
    /// The settled bets, by id.
    pub bets: Map<u64, Wager>,
}

impl PalletView {
    /// Ids are unique among the pending bets and apart from the settled
    /// ones, each settled bet is filed under its own id, and every pending
    /// amount is positive.
    pub open spec fn wf(self) -> bool {
        &&& forall|i: int, j: int|
            0 <= i < j < self.ongoing_bets.len() ==> self.ongoing_bets[i].id
                != self.ongoing_bets[j].id
        &&& forall|i: int|
            0 <= i < self.ongoing_bets.len() ==> !self.bets.contains_key(
                #[trigger] self.ongoing_bets[i].id,
            )
        &&& forall|i: int| 0 <= i < self.ongoing_bets.len() ==> #[trigger] self.ongoing_bets[i].amount > 0
        &&& forall|k: u64| #[trigger] self.bets.contains_key(k) ==> self.bets[k].id == k
    }

    /// Whether `id` belongs to a pending or a settled bet.
    pub open spec fn id_taken(self, id: u64) -> bool {
        ||| self.bets.contains_key(id)
        ||| exists|i: int| 0 <= i < self.ongoing_bets.len() && self.ongoing_bets[i].id == id
    }

    /// The bet that `who` would place now.
    pub open spec fn next_bet(self, who: AccountId, amount: Balance, bet: Bet) -> Wager {
        BetData { id: self.bet_nonce, owner: who, amount, block: self.block_number, bet }
    }

    /// Why a bet would be refused, checks in order: the number, the bettor's
    /// balance, the id, then the pool's balance against its worst case with
    /// the bet.
    pub open spec fn placement_error(
        self,
        who: AccountId,
        amount: Balance,
        bet: Bet,
        who_balance: Balance,
        pallet_balance: Balance,
    ) -> Option<Error> {
        if bet matches Bet::Full(n) && n > HIGHEST_NUMBER {
            Some(Error::OutOfRange)
        } else if who_balance < amount {
            Some(Error::NotEnoughBalance)
        } else if self.id_taken(self.bet_nonce) {
            Some(Error::DuplicateId)
        } else if pallet_balance < max_payout_of(
            self.ongoing_bets.push(self.next_bet(who, amount, bet)),
        ) {
            Some(Error::NotEnoughBalanceInPalletAccount)
        } else {
            None
        }
    }
}

/// The ledger operations that settle `b` when `n` is drawn: release its lock,
/// then pay it out of the pool or take its stake into the pool.
pub open spec fn bet_ops(b: Wager, n: u32, pool: AccountId) -> Seq<LedgerOp> {
    let release = LedgerOp::RemoveLock { lock: LockId::Bet(b.id), who: b.owner };
    if wins(b.bet, n) {
        seq![release, LedgerOp::Transfer { from: pool, to: b.owner, amount: payout_of(b.bet, b.amount) }]
    } else {
        seq![release, LedgerOp::Transfer { from: b.owner, to: pool, amount: b.amount }]
    }
}

/// The ledger operations that settle `bets`, one bet after another.
pub open spec fn settle_ops(bets: Seq<Wager>, n: u32, pool: AccountId) -> Seq<LedgerOp>
    decreases bets.len(),
{
    if bets.len() == 0 {
        seq![]
    } else {
        settle_ops(bets.drop_last(), n, pool) + bet_ops(bets.last(), n, pool)
    }
}

/// The exact sum of the stakes of `bets` that lose when `n` is drawn.
pub open spec fn losses(bets: Seq<Wager>, n: u32) -> int
    decreases bets.len(),
{
    if bets.len() == 0 {
        0
    } else {
        losses(bets.drop_last(), n) + if wins(bets.last().bet, n) {
            0
        } else {
            bets.last().amount as int
        }
    }
}

/// What the pool takes in from `bets` when `n` is drawn, capped at the
/// largest balance.
pub open spec fn income_of(bets: Seq<Wager>, n: u32) -> Balance {
    saturate(losses(bets, n))
}

/// The settled bets `history` with `bets` filed in, each under its id.
pub open spec fn file_bets(history: Map<u64, Wager>, bets: Seq<Wager>) -> Map<u64, Wager>
    decreases bets.len(),
{
    if bets.len() == 0 {
        history
    } else {
        file_bets(history, bets.drop_last()).insert(bets.last().id, bets.last())
    }
}

/// A count of players, capped at the largest `u32`.
pub open spec fn player_count(n: nat) -> u32 {
    if n > u32::MAX {
        u32::MAX
    } else {
        n as u32
    }
}

/// The round report for `bets` when `n` is drawn.
pub open spec fn round_event(bets: Seq<Wager>, n: u32) -> Event {
    Event::RoulettePlayed {
        winner_number: n,
        winner_color: color_of(n),
        players: player_count(bets.len()),
        income: income_of(bets, n),
        payout: total_payout(bets, n),
    }
}

/// The number that `seed` draws: its first four bytes read as a little-endian
/// integer, modulo the 37 numbers of the wheel.
pub open spec fn drawn_number(seed: Seq<u8>) -> int {
    (seed[0] + 256 * seed[1] + 65536 * seed[2] + 16777216 * seed[3]) % 37
}

pub proof fn lemma_losses_nonnegative(bets: Seq<Wager>, n: u32)
    ensures
        losses(bets, n) >= 0,
    decreases bets.len(),
{
    if bets.len() > 0 {
        lemma_losses_nonnegative(bets.drop_last(), n);
    }
}

proof fn lemma_settle_ops_index(bets: Seq<Wager>, n: u32, pool: AccountId)
    ensures
        settle_ops(bets, n, pool).len() == 2 * bets.len(),
        forall|i: int|
            0 <= i < bets.len() ==> {
                &&& #[trigger] settle_ops(bets, n, pool)[2 * i] == bet_ops(bets[i], n, pool)[0]
                &&& settle_ops(bets, n, pool)[2 * i + 1] == bet_ops(bets[i], n, pool)[1]
            },
    decreases bets.len(),
{
    if bets.len() > 0 {
        let prefix = bets.drop_last();
        lemma_settle_ops_index(prefix, n, pool);
        let front = settle_ops(prefix, n, pool);
        let back = bet_ops(bets.last(), n, pool);
        assert(settle_ops(bets, n, pool) == front + back);
        assert forall|i: int| 0 <= i < bets.len() implies {
            &&& #[trigger] settle_ops(bets, n, pool)[2 * i] == bet_ops(bets[i], n, pool)[0]
            &&& settle_ops(bets, n, pool)[2 * i + 1] == bet_ops(bets[i], n, pool)[1]
        } by {
            if i < prefix.len() {
                assert(bets[i] == prefix[i]);
                assert(front[2 * i] == bet_ops(prefix[i], n, pool)[0]);
                assert((front + back)[2 * i] == front[2 * i]);
                assert((front + back)[2 * i + 1] == front[2 * i + 1]);
            } else {
                assert((front + back)[2 * i] == back[0]);
                assert((front + back)[2 * i + 1] == back[1]);
            }
        }
    }
}

/// When a bet wins on the draw, settling the round first releases its lock
/// and then pays it its stake times its multiplier (capped at the largest
/// balance) out of the pool, and nothing else between.
pub proof fn lemma_winner_paid_after_release(bets: Seq<Wager>, i: int, n: u32, pool: AccountId)
    requires
        0 <= i < bets.len(),
        wins(bets[i].bet, n),
    ensures
        settle_ops(bets, n, pool)[2 * i] == (LedgerOp::RemoveLock {
            lock: LockId::Bet(bets[i].id),
            who: bets[i].owner,
        }),
        settle_ops(bets, n, pool)[2 * i + 1] == (LedgerOp::Transfer {
            from: pool,
            to: bets[i].owner,
            amount: payout_of(bets[i].bet, bets[i].amount),
        }),
        bets[i].amount * multiplier(bets[i].bet) <= Balance::MAX ==> payout_of(
            bets[i].bet,
            bets[i].amount,
        ) == bets[i].amount * multiplier(bets[i].bet),
{
    lemma_settle_ops_index(bets, n, pool);
}

/// A round with no bet pending reports no player, no income and no payout,
/// asks nothing of the ledger and leaves the settled bets as they were.
pub proof fn lemma_empty_round(history: Map<u64, Wager>, n: u32, pool: AccountId)
    ensures
        round_event(Seq::<Wager>::empty(), n) == (Event::RoulettePlayed {
            winner_number: n,
            winner_color: color_of(n),
            players: 0,
            income: 0,
            payout: 0,
        }),
        settle_ops(Seq::<Wager>::empty(), n, pool) == Seq::<LedgerOp>::empty(),
        file_bets(history, Seq::<Wager>::empty()) == history,
{
}

/// Settling keeps every bet settled before and files every pending bet,
/// unchanged, under its id: no settled bet is overwritten and none is lost.
pub proof fn lemma_settling_files_each_bet(s: PalletView)
    requires
        s.wf(),
    ensures
        s.bets.submap_of(file_bets(s.bets, s.ongoing_bets)),
        forall|i: int|
            0 <= i < s.ongoing_bets.len() ==> {
                let filed = file_bets(s.bets, s.ongoing_bets);
                &&& filed.contains_key(#[trigger] s.ongoing_bets[i].id)
                &&& filed[s.ongoing_bets[i].id] == s.ongoing_bets[i]
            },
    decreases s.ongoing_bets.len(),
{
    let bets = s.ongoing_bets;
    if bets.len() > 0 {
        let prefix = bets.drop_last();
        let t = PalletView { ongoing_bets: prefix, ..s };
        assert forall|i: int, j: int| 0 <= i < j < prefix.len() implies prefix[i].id
            != prefix[j].id by {
            assert(prefix[i] == bets[i] && prefix[j] == bets[j]);
        }
        assert forall|i: int| 0 <= i < prefix.len() implies !s.bets.contains_key(
            #[trigger] prefix[i].id,
        ) by {
            assert(prefix[i] == bets[i]);
        }
        assert forall|i: int| 0 <= i < prefix.len() implies #[trigger] prefix[i].amount > 0 by {
            assert(prefix[i] == bets[i]);
        }
        lemma_settling_files_each_bet(t);
        let last = bets.last();
        let filed_prefix = file_bets(s.bets, prefix);
        assert(bets[bets.len() - 1] == last);
        assert(!s.bets.contains_key(last.id));
        assert forall|i: int| 0 <= i < bets.len() implies {
            let filed = file_bets(s.bets, bets);
            &&& filed.contains_key(#[trigger] bets[i].id)
            &&& filed[bets[i].id] == bets[i]
        } by {
            if i < prefix.len() {
                assert(prefix[i] == bets[i]);
                assert(bets[i].id != last.id);
            }
        }
    }
}

impl View for Pallet {
    type V = PalletView;

    closed spec fn view(&self) -> PalletView {
        PalletView {
            account: self.account,
            block_number: self.block_number,
            bet_nonce: self.bet_nonce,
            ongoing_bets: self.ongoing_bets@,
            bets: self.bets@,
        }
    }
}

impl Pallet {
    /// An engine with no bets, backed by the pool `account`.
    pub fn new(account: AccountId) -> (r: Pallet)
        ensures
            r@.wf(),
            r@.account == account,
            r@.block_number == 0,
            r@.bet_nonce == 0,
            r@.ongoing_bets == Seq::<Wager>::empty(),
            r@.bets == Map::<u64, Wager>::empty(),
    {
        Pallet {
            account,
            block_number: 0,
            bet_nonce: DefaultBetNonce(),
            ongoing_bets: Vec::new(),
            bets: HashMap::new(),
        }
    }

    /// The pool account.
    pub fn account_id(&self) -> (r: AccountId)
        ensures
            r == self@.account,
    {
        self.account
    }

    /// The current block.
    pub fn block_number(&self) -> (r: BlockNumber)
        ensures
            r == self@.block_number,
    {
        self.block_number
    }

    /// The id that the next bet will get.
    pub fn bet_nonce(&self) -> (r: u64)
        ensures
            r == self@.bet_nonce,
    {
        self.bet_nonce
    }

    /// The bets that wait for the next round.
    pub fn ongoing_bets(&self) -> (r: &Vec<Wager>)
        ensures
            r@ == self@.ongoing_bets,
    {
        &self.ongoing_bets
    }

    /// The settled bet with id `id`, if there is one.
    pub fn bet(&self, id: u64) -> (r: Option<Wager>)
        ensures
            r == (if self@.bets.contains_key(id) {
                Some(self@.bets[id])
            } else {
                None::<Wager>
            }),
    {
        match self.bets.get(&id) {
            Some(b) => Some(*b),
            None => None,
        }
    }

    /// The number of settled bets.
    pub fn history_len(&self) -> (r: usize)
        ensures
            r == self@.bets.len(),
    {
        self.bets.len()
    }

    /// Hands out the current nonce as a bet id and advances it, wrapping.
    fn get_and_increment_nonce(&mut self) -> (r: u64)
        ensures
            r == old(self)@.bet_nonce,
            final(self)@ == (PalletView { bet_nonce: r.wrapping_add(1), ..old(self)@ }),
    {
        let nonce = self.bet_nonce;
        self.bet_nonce = nonce.wrapping_add(1);
        nonce
    }

    /// Places a bet of `amount` on `bet` for `who`, whose spendable balance
    /// is `who_balance`, while the pool's is `pallet_balance`.
    ///
    /// On success the bet waits for the next round under the current nonce,
    /// the nonce advances, and the ledger is asked to lock the stake and to
    /// lock on the pool the worst case over every pending bet. On failure
    /// nothing changes.
    pub fn place_bet(
        &mut self,
        who: AccountId,
        amount: Balance,
        bet: Bet,
        who_balance: Balance,
        pallet_balance: Balance,
    ) -> (r: Result<Effects, Error>)
        requires
            old(self)@.wf(),
            amount > 0,
        ensures
            final(self)@.wf(),
            ({
                let s = old(self)@;
                let err = s.placement_error(who, amount, bet, who_balance, pallet_balance);
                let pending = s.ongoing_bets.push(s.next_bet(who, amount, bet));
                match r {
                    Err(e) => err == Some(e) && final(self)@ == s,
                    Ok(effects) => {
                        &&& err is None
                        &&& final(self)@ == (PalletView {
                            bet_nonce: s.bet_nonce.wrapping_add(1),
                            ongoing_bets: pending,
                            ..s
                        })
                        &&& effects.event == (Event::BetPlaced {
                            bet_id: s.bet_nonce,
                            who,
                            bet,
                            amount,
                        })
                        &&& effects.ops@ == seq![
                            LedgerOp::SetLock { lock: LockId::Bet(s.bet_nonce), who, amount },
                            LedgerOp::SetLock {
                                lock: LockId::Pool,
                                who: s.account,
                                amount: max_payout_of(pending),
                            },
                        ]
                    },
                }
            }),
            r is Ok ==> pallet_balance >= max_payout_of(final(self)@.ongoing_bets),
    {
        match bet {
            Bet::Full(number) => {
                if number > HIGHEST_NUMBER {
                    return Err(Error::OutOfRange);
                }
            },
            _ => {},
        }
        if who_balance < amount {
            return Err(Error::NotEnoughBalance);
        }
        let bet_id = self.bet_nonce;
        if self.bets.contains_key(&bet_id) || self.is_ongoing(bet_id) {
            return Err(Error::DuplicateId);
        }
        let bet_data = BetData { id: bet_id, owner: who, amount, block: self.block_number, bet };
        self.ongoing_bets.push(bet_data);
        let max = max_payout(&self.ongoing_bets);
        if pallet_balance < max {
            self.ongoing_bets.pop();
            proof {
                assert(self.ongoing_bets@ =~= old(self)@.ongoing_bets);
            }
            return Err(Error::NotEnoughBalanceInPalletAccount);
        }
        self.get_and_increment_nonce();
        let mut ops: Vec<LedgerOp> = Vec::new();
        ops.push(LedgerOp::SetLock { lock: LockId::Bet(bet_id), who, amount });
        ops.push(LedgerOp::SetLock { lock: LockId::Pool, who: self.account, amount: max });
        proof {
            assert(ops@ =~= seq![
                LedgerOp::SetLock { lock: LockId::Bet(bet_id), who, amount },
                LedgerOp::SetLock { lock: LockId::Pool, who: self.account, amount: max },
            ]);
        }
        Ok(Effects { event: Event::BetPlaced { bet_id, who, bet, amount }, ops })
    }

    /// Starts block `now`; tells whether a round is to be played, which is
    /// when bets are pending. Only then does the host draw a seed.
    pub fn on_initialize(&mut self, now: BlockNumber) -> (draw_needed: bool)
        requires
            old(self)@.wf(),
        ensures
            final(self)@.wf(),
            final(self)@ == (PalletView { block_number: now, ..old(self)@ }),
            draw_needed == (old(self)@.ongoing_bets.len() > 0),
    {
        self.block_number = now;
        self.ongoing_bets.len() > 0
    }

    /// The number drawn by a random `seed`.
    pub fn random_number(seed: &[u8; 32]) -> (r: u32)
        ensures
            r == drawn_number(seed@),
            r <= HIGHEST_NUMBER,
    {
        let low = seed[0] as u32 + 256 * (seed[1] as u32);
        let high = seed[2] as u32 + 256 * (seed[3] as u32);
        let random_number = low + 65536 * high;
        random_number % 37
    }

    /// Plays the round on the number that `seed` draws.
    pub fn play(&mut self, seed: &[u8; 32]) -> (r: Effects)
        requires
            old(self)@.wf(),
        ensures
            final(self)@.wf(),
            ({
                let s = old(self)@;
                let n = drawn_number(seed@) as u32;
                &&& r.event == round_event(s.ongoing_bets, n)
                &&& final(self)@ == (PalletView {
                    ongoing_bets: Seq::<Wager>::empty(),
                    bets: file_bets(s.bets, s.ongoing_bets),
                    ..s
                })
                &&& s.ongoing_bets.len() == 0 ==> r.ops@ == Seq::<LedgerOp>::empty()
                &&& s.ongoing_bets.len() > 0 ==> r.ops@ == settle_ops(s.ongoing_bets, n, s.account)
                    + seq![LedgerOp::RemoveLock { lock: LockId::Pool, who: s.account }]
            }),
    {
        let winner_number = Self::random_number(seed);
        self.play_number(winner_number)
    }

    /// Settles every pending bet against `winner_number`.
    ///
    /// Each bet in turn has its lock released, is paid out of the pool or
    /// has its stake taken into the pool, and is filed as settled, unchanged.
    /// Then the pool's lock is released, as nothing is pending. With no bet
    /// pending nothing changes and nothing is asked of the ledger.
    pub fn play_number(&mut self, winner_number: u32) -> (r: Effects)
        requires
            old(self)@.wf(),
            winner_number <= HIGHEST_NUMBER,
        ensures
            final(self)@.wf(),
            ({
                let s = old(self)@;
                &&& r.event == round_event(s.ongoing_bets, winner_number)
                &&& final(self)@ == (PalletView {
                    ongoing_bets: Seq::<Wager>::empty(),
                    bets: file_bets(s.bets, s.ongoing_bets),
                    ..s
                })
                &&& s.ongoing_bets.len() == 0 ==> r.ops@ == Seq::<LedgerOp>::empty()
                &&& s.ongoing_bets.len() > 0 ==> r.ops@ == settle_ops(
                    s.ongoing_bets,
                    winner_number,
                    s.account,
                ) + seq![LedgerOp::RemoveLock { lock: LockId::Pool, who: s.account }]
            }),
    {
        let ghost s = self@;
        let ghost bets = self.ongoing_bets@;
        let mut ops: Vec<LedgerOp> = Vec::new();
        let mut income: Balance = 0;
        let mut payout: Balance = 0;
        let mut i: usize = 0;
        while i < self.ongoing_bets.len()
            invariant
                i <= bets.len(),
                self.ongoing_bets@ == bets,
                self.account == s.account,
                self.block_number == s.block_number,
                self.bet_nonce == s.bet_nonce,
                s.wf(),
                s.ongoing_bets == bets,
                self.bets@ == file_bets(s.bets, bets.subrange(0, i as int)),
                forall|k: u64| #[trigger] self.bets@.contains_key(k) ==> self.bets@[k].id == k,
                forall|j: int| i <= j < bets.len() ==> !self.bets@.contains_key(#[trigger] bets[j].id),
                ops@ == settle_ops(bets.subrange(0, i as int), winner_number, s.account),
                income == income_of(bets.subrange(0, i as int), winner_number),
                payout == total_payout(bets.subrange(0, i as int), winner_number),
            decreases bets.len() - i,
        {
            let bet_data = self.ongoing_bets[i];
            let ghost prefix = bets.subrange(0, i as int);
            proof {
                assert(bets.subrange(0, i as int + 1).drop_last() == prefix);
                lemma_losses_nonnegative(prefix, winner_number);
                crate::risk::lemma_exposure_nonnegative(prefix, winner_number);
            }
            ops.push(LedgerOp::RemoveLock { lock: LockId::Bet(bet_data.id), who: bet_data.owner });
            if is_winner(bet_data.bet, winner_number) {
                let payout_amount = amount_won(bet_data.bet, bet_data.amount);
                payout = payout.saturating_add(payout_amount);
                ops.push(
                    LedgerOp::Transfer {
                        from: self.account,
                        to: bet_data.owner,
                        amount: payout_amount,
                    },
                );
            } else {
                income = income.saturating_add(bet_data.amount);
                ops.push(
                    LedgerOp::Transfer {
                        from: bet_data.owner,
                        to: self.account,
                        amount: bet_data.amount,
                    },
                );
            }
            self.bets.insert(bet_data.id, bet_data);
            proof {
                assert(ops@ =~= settle_ops(bets.subrange(0, i as int + 1), winner_number, s.account));
                assert forall|j: int| i + 1 <= j < bets.len() implies !self.bets@.contains_key(
                    #[trigger] bets[j].id,
                ) by {
                    assert(bets[j].id != bets[i as int].id);
                }
            }
            i = i + 1;
        }
        proof {
            assert(bets.subrange(0, bets.len() as int) == bets);
        }
        let players: u32 = if self.ongoing_bets.len() > u32::MAX as usize {
            u32::MAX
        } else {
            self.ongoing_bets.len() as u32
        };
        if self.ongoing_bets.len() > 0 {
            ops.push(LedgerOp::RemoveLock { lock: LockId::Pool, who: self.account });
        }
        self.ongoing_bets.clear();
        proof {
            assert(self.ongoing_bets@ =~= Seq::<Wager>::empty());
        }
        Effects {
            event: Event::RoulettePlayed {
                winner_number,
                winner_color: winner_number.to_color(),
                players,
                income,
                payout,
            },
            ops,
        }
    }

    /// Whether a pending bet has id `id`.
    fn is_ongoing(&self, id: u64) -> (r: bool)
        ensures
            r == exists|i: int| 0 <= i < self@.ongoing_bets.len() && self@.ongoing_bets[i].id == id,
    {
        let mut i: usize = 0;
        while i < self.ongoing_bets.len()
            invariant
                i <= self.ongoing_bets.len(),
                forall|j: int| 0 <= j < i ==> self.ongoing_bets@[j].id != id,
            decreases self.ongoing_bets.len() - i,
        {
            if self.ongoing_bets[i].id == id {
                return true;
            }
            i = i + 1;
        }
        false
    }
}

} // verus!
