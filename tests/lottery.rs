use lottery::{
    amount_won, check_solvency, is_winner, max_payout, saturating_mul, total_payout_at, Balance,
    Bet, BetData, DefaultBetNonce, DozenOrColumn, Error, Event, Half, LedgerOp, LockId, OddOrEven,
    Pallet, RouletteColor, RouletteNumber, Wager,
};

const POOL: u64 = 99;
const RICH: Balance = 1_000_000;

fn run_to_block(lottery: &mut Pallet, n: u32) {
    while lottery.block_number() < n {
        let next = lottery.block_number() + 1;
        lottery.on_initialize(next);
    }
}

fn wager(id: u64, owner: u64, amount: Balance, bet: Bet) -> Wager {
    BetData { id, owner, amount, block: 1, bet }
}

fn round_totals(event: &Event) -> (u32, Option<RouletteColor>, u32, Balance, Balance) {
    match event {
        Event::RoulettePlayed { winner_number, winner_color, players, income, payout } => {
            (*winner_number, *winner_color, *players, *income, *payout)
        }
        _ => panic!("not a round report"),
    }
}

#[test]
fn fake_test_example() {
    let mut lottery = Pallet::new(POOL);
    lottery.on_initialize(1);
    assert_eq!(lottery.block_number(), 1);
    run_to_block(&mut lottery, 5);
    assert_eq!(lottery.block_number(), 5);
}

#[test]
fn colors_follow_the_wheel() {
    assert_eq!(0u32.to_color(), Some(RouletteColor::Green));
    assert_eq!(1u32.to_color(), Some(RouletteColor::Red));
    assert_eq!(2u32.to_color(), Some(RouletteColor::Black));
    assert_eq!(10u32.to_color(), Some(RouletteColor::Black));
    assert_eq!(11u32.to_color(), Some(RouletteColor::Black));
    assert_eq!(12u32.to_color(), Some(RouletteColor::Red));
    assert_eq!(19u32.to_color(), Some(RouletteColor::Red));
    assert_eq!(28u32.to_color(), Some(RouletteColor::Black));
    assert_eq!(29u32.to_color(), Some(RouletteColor::Black));
    assert_eq!(36u32.to_color(), Some(RouletteColor::Red));
    assert_eq!(37u32.to_color(), None);
    for n in 1u32..=36 {
        assert_ne!(n.to_color(), Some(RouletteColor::Green));
        assert!(n.to_color().is_some());
    }
}

#[test]
fn classifiers_at_the_edges() {
    assert_eq!(0u32.to_dozen(), None);
    assert_eq!(12u32.to_dozen(), Some(DozenOrColumn::First));
    assert_eq!(13u32.to_dozen(), Some(DozenOrColumn::Second));
    assert_eq!(36u32.to_dozen(), Some(DozenOrColumn::Third));
    assert_eq!(0u32.to_column(), None);
    assert_eq!(1u32.to_column(), Some(DozenOrColumn::First));
    assert_eq!(2u32.to_column(), Some(DozenOrColumn::Second));
    assert_eq!(36u32.to_column(), Some(DozenOrColumn::Third));
    assert_eq!(0u32.to_half(), None);
    assert_eq!(18u32.to_half(), Some(Half::First));
    assert_eq!(19u32.to_half(), Some(Half::Second));
    assert!(!0u32.is_even());
    assert!(36u32.is_even());
    assert!(!35u32.is_even());
    assert!(!38u32.is_even());
}

#[test]
fn zero_loses_every_outside_bet() {
    assert!(!is_winner(Bet::OddOrEven(OddOrEven::Odd), 0));
    assert!(!is_winner(Bet::OddOrEven(OddOrEven::Even), 0));
    assert!(!is_winner(Bet::Dozen(DozenOrColumn::First), 0));
    assert!(!is_winner(Bet::Column(DozenOrColumn::Third), 0));
    assert!(!is_winner(Bet::Half(Half::First), 0));
    assert!(is_winner(Bet::Color(RouletteColor::Green), 0));
    assert!(is_winner(Bet::Full(0), 0));
    assert!(is_winner(Bet::OddOrEven(OddOrEven::Odd), 35));
    assert!(is_winner(Bet::Column(DozenOrColumn::Second), 35));
    assert!(is_winner(Bet::Half(Half::Second), 35));
    assert!(is_winner(Bet::Dozen(DozenOrColumn::Third), 35));
    assert!(!is_winner(Bet::Full(34), 35));
}

#[test]
fn payout_multipliers() {
    assert_eq!(amount_won(Bet::Color(RouletteColor::Red), 10), 20);
    assert_eq!(amount_won(Bet::Full(3), 10), 360);
    assert_eq!(amount_won(Bet::Dozen(DozenOrColumn::First), 10), 30);
    assert_eq!(amount_won(Bet::Column(DozenOrColumn::First), 10), 30);
    assert_eq!(amount_won(Bet::Half(Half::First), 10), 20);
    assert_eq!(amount_won(Bet::OddOrEven(OddOrEven::Even), 10), 20);
}

#[test]
fn payout_saturates_at_the_largest_balance() {
    assert_eq!(saturating_mul(Balance::MAX, 2), Balance::MAX);
    assert_eq!(saturating_mul(7, 6), 42);
    assert_eq!(amount_won(Bet::Full(1), Balance::MAX / 2), Balance::MAX);
    let bets = vec![
        wager(0, 1, Balance::MAX / 2, Bet::Full(1)),
        wager(1, 2, Balance::MAX / 2, Bet::Full(1)),
    ];
    assert_eq!(total_payout_at(&bets, 1), Balance::MAX);
    assert_eq!(max_payout(&bets), Balance::MAX);
}

#[test]
fn max_payout_takes_the_worst_number() {
    let bets = vec![
        wager(0, 1, 10, Bet::Full(5)),
        wager(1, 2, 10, Bet::Color(RouletteColor::Red)),
        wager(2, 3, 10, Bet::OddOrEven(OddOrEven::Even)),
    ];
    assert_eq!(total_payout_at(&bets, 5), 380);
    assert_eq!(total_payout_at(&bets, 4), 20);
    assert_eq!(total_payout_at(&bets, 12), 40);
    assert_eq!(total_payout_at(&bets, 0), 0);
    assert_eq!(max_payout(&bets), 380);
    assert_eq!(max_payout(&Vec::new()), 0);
    assert_eq!(check_solvency(&bets, 380), Ok(380));
    assert_eq!(check_solvency(&bets, 379), Err(Error::NotEnoughBalanceInPalletAccount));
}

#[test]
fn adding_a_wager_never_lowers_max_payout() {
    let mut bets: Vec<Wager> = Vec::new();
    let shapes = [
        Bet::Dozen(DozenOrColumn::Second),
        Bet::Full(17),
        Bet::Half(Half::First),
        Bet::Color(RouletteColor::Black),
        Bet::Column(DozenOrColumn::Third),
    ];
    let mut last = max_payout(&bets);
    for (i, shape) in shapes.iter().enumerate() {
        bets.push(wager(i as u64, i as u64, 5 + i as Balance, *shape));
        let now = max_payout(&bets);
        assert!(now >= last);
        last = now;
    }
    // Worst on 17: the second dozen, the number, the low half and black.
    assert_eq!(last, 5 * 3 + 6 * 36 + 7 * 2 + 8 * 2);
}

#[test]
fn three_wagers_settle_against_five() {
    let mut lottery = Pallet::new(POOL);
    lottery.on_initialize(1);
    let placed = [
        (1u64, Bet::Full(5)),
        (2u64, Bet::Color(RouletteColor::Red)),
        (3u64, Bet::OddOrEven(OddOrEven::Even)),
    ];
    for (who, bet) in placed.iter() {
        assert!(lottery.place_bet(*who, 10, *bet, 100, RICH).is_ok());
    }
    assert!(lottery.on_initialize(2));
    let round = lottery.play_number(5);
    assert_eq!(round_totals(&round.event), (5, Some(RouletteColor::Red), 3, 10, 380));
    assert_eq!(
        round.ops,
        vec![
            LedgerOp::RemoveLock { lock: LockId::Bet(0), who: 1 },
            LedgerOp::Transfer { from: POOL, to: 1, amount: 360 },
            LedgerOp::RemoveLock { lock: LockId::Bet(1), who: 2 },
            LedgerOp::Transfer { from: POOL, to: 2, amount: 20 },
            LedgerOp::RemoveLock { lock: LockId::Bet(2), who: 3 },
            LedgerOp::Transfer { from: 3, to: POOL, amount: 10 },
            LedgerOp::RemoveLock { lock: LockId::Pool, who: POOL },
        ]
    );
    assert!(lottery.ongoing_bets().is_empty());
    assert_eq!(lottery.history_len(), 3);
    assert_eq!(lottery.bet(2), Some(BetData { id: 2, owner: 3, amount: 10, block: 1, bet: Bet::OddOrEven(OddOrEven::Even) }));
    assert_eq!(lottery.bet(3), None);
}

#[test]
fn bet_beyond_balance_is_refused() {
    let mut lottery = Pallet::new(POOL);
    assert!(lottery.place_bet(1, 10, Bet::Half(Half::First), 100, RICH).is_ok());
    let r = lottery.place_bet(2, 101, Bet::Color(RouletteColor::Red), 100, RICH);
    assert_eq!(r.unwrap_err(), Error::NotEnoughBalance);
    assert_eq!(lottery.ongoing_bets().len(), 1);
    assert_eq!(lottery.bet_nonce(), 1);
}

#[test]
fn number_forty_is_out_of_range() {
    let mut lottery = Pallet::new(POOL);
    let r = lottery.place_bet(1, 10, Bet::Full(40), 0, 0);
    assert_eq!(r.unwrap_err(), Error::OutOfRange);
    let r = lottery.place_bet(1, 10, Bet::Full(37), 100, RICH);
    assert_eq!(r.unwrap_err(), Error::OutOfRange);
    assert!(lottery.ongoing_bets().is_empty());
    assert_eq!(lottery.bet_nonce(), 0);
    assert!(lottery.place_bet(1, 10, Bet::Full(36), 100, RICH).is_ok());
}

#[test]
fn pool_that_cannot_cover_the_worst_case_refuses() {
    let mut lottery = Pallet::new(POOL);
    let r = lottery.place_bet(1, 10, Bet::Full(7), 100, 359);
    assert_eq!(r.unwrap_err(), Error::NotEnoughBalanceInPalletAccount);
    assert!(lottery.ongoing_bets().is_empty());
    assert_eq!(lottery.bet_nonce(), 0);
    let placed = lottery.place_bet(1, 10, Bet::Full(7), 100, 360).unwrap();
    assert_eq!(
        placed.event,
        Event::BetPlaced { bet_id: 0, who: 1, bet: Bet::Full(7), amount: 10 }
    );
    assert_eq!(
        placed.ops,
        vec![
            LedgerOp::SetLock { lock: LockId::Bet(0), who: 1, amount: 10 },
            LedgerOp::SetLock { lock: LockId::Pool, who: POOL, amount: 360 },
        ]
    );
    // A second bet on the same number doubles the worst case.
    let r = lottery.place_bet(2, 10, Bet::Full(7), 100, 719);
    assert_eq!(r.unwrap_err(), Error::NotEnoughBalanceInPalletAccount);
    assert_eq!(lottery.ongoing_bets().len(), 1);
}

#[test]
fn winning_full_bet_is_released_then_paid() {
    let mut lottery = Pallet::new(POOL);
    lottery.on_initialize(3);
    assert!(lottery.place_bet(4, 3, Bet::Full(7), 3, RICH).is_ok());
    let round = lottery.play_number(7);
    assert_eq!(
        round.ops,
        vec![
            LedgerOp::RemoveLock { lock: LockId::Bet(0), who: 4 },
            LedgerOp::Transfer { from: POOL, to: 4, amount: 108 },
            LedgerOp::RemoveLock { lock: LockId::Pool, who: POOL },
        ]
    );
    assert_eq!(round_totals(&round.event), (7, Some(RouletteColor::Red), 1, 0, 108));
    assert_eq!(lottery.bet(0).unwrap().block, 3);
}

#[test]
fn reserve_bound_holds_after_each_placement() {
    let mut lottery = Pallet::new(POOL);
    let mut seed: u64 = 0x2545_f491_4f6c_dd1d;
    let mut next = move || {
        seed ^= seed << 13;
        seed ^= seed >> 7;
        seed ^= seed << 17;
        seed
    };
    let mut accepted = 0;
    for _ in 0..200 {
        let who = next() % 10;
        let amount = (next() % 50 + 1) as Balance;
        let bet = match next() % 6 {
            0 => Bet::Color(RouletteColor::Black),
            1 => Bet::Full((next() % 40) as u32),
            2 => Bet::Dozen(DozenOrColumn::Third),
            3 => Bet::Column(DozenOrColumn::First),
            4 => Bet::Half(Half::Second),
            _ => Bet::OddOrEven(OddOrEven::Odd),
        };
        let pool_balance = (next() % 5000) as Balance;
        if lottery.place_bet(who, amount, bet, 60, pool_balance).is_ok() {
            accepted += 1;
            assert!(pool_balance >= max_payout(lottery.ongoing_bets()));
        }
    }
    assert!(accepted > 0);
    assert_eq!(lottery.ongoing_bets().len(), accepted);
}

#[test]
fn empty_round_draws_nothing() {
    let mut lottery = Pallet::new(POOL);
    assert!(!lottery.on_initialize(1));
    let round = lottery.play_number(17);
    assert_eq!(round_totals(&round.event).2, 0);
    assert_eq!(round_totals(&round.event).3, 0);
    assert_eq!(round_totals(&round.event).4, 0);
    assert!(round.ops.is_empty());
    assert_eq!(lottery.history_len(), 0);
    assert_eq!(lottery.block_number(), 1);
}

#[test]
fn seed_draws_little_endian_modulo_wheel() {
    let mut seed = [0u8; 32];
    assert_eq!(Pallet::random_number(&seed), 0);
    seed[0] = 1;
    assert_eq!(Pallet::random_number(&seed), 1);
    seed[0] = 0;
    seed[1] = 1;
    assert_eq!(Pallet::random_number(&seed), 34);
    let seed = [1u8, 2, 3, 4, 9, 9, 9, 9, 9, 9, 9, 9, 9, 9, 9, 9, 9, 9, 9, 9, 9, 9, 9, 9, 9, 9, 9, 9, 9, 9, 9, 9];
    assert_eq!(Pallet::random_number(&seed), 25);
    assert_eq!(Pallet::random_number(&[255u8; 32]), 6);
}

#[test]
fn play_uses_the_drawn_number() {
    let mut lottery = Pallet::new(POOL);
    assert!(lottery.place_bet(1, 10, Bet::Full(25), 10, RICH).is_ok());
    assert!(lottery.place_bet(2, 10, Bet::Dozen(DozenOrColumn::First), 10, RICH).is_ok());
    let seed = [1u8, 2, 3, 4, 9, 9, 9, 9, 9, 9, 9, 9, 9, 9, 9, 9, 9, 9, 9, 9, 9, 9, 9, 9, 9, 9, 9, 9, 9, 9, 9, 9];
    let round = lottery.play(&seed);
    assert_eq!(round_totals(&round.event), (25, Some(RouletteColor::Red), 2, 10, 360));
    assert_eq!(lottery.history_len(), 2);
}

#[test]
fn nonce_starts_at_default_and_counts_bets() {
    assert_eq!(DefaultBetNonce(), 0);
    let mut lottery = Pallet::new(POOL);
    assert_eq!(lottery.account_id(), POOL);
    for i in 0..4u64 {
        let placed = lottery.place_bet(i, 1, Bet::Half(Half::First), 1, RICH).unwrap();
        assert_eq!(placed.ops[0], LedgerOp::SetLock { lock: LockId::Bet(i), who: i, amount: 1 });
    }
    assert_eq!(lottery.bet_nonce(), 4);
    lottery.play_number(3);
    assert!(lottery.place_bet(7, 1, Bet::Half(Half::First), 1, RICH).is_ok());
    assert_eq!(lottery.ongoing_bets()[0].id, 4);
}
