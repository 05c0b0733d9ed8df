//! The outcome model: how a drawn number classifies, which wagers it pays,
//! and how much a winning wager is paid.
use vstd::prelude::*;

verus! {

/// An account, by its identifier.
pub type AccountId = u64;

/// A block of the host chain; one settlement round per block.
pub type BlockNumber = u32;

/// An amount of funds.
pub type Balance = u128;

/// A wager record as the engine keeps it.
pub type Wager = BetData<AccountId, BlockNumber, Balance>;

/// A dozen (1-12, 13-24, 25-36) or a column (by the number modulo 3).
#[derive(Clone, Copy, Debug, PartialEq, Eq, Structural)]
pub enum DozenOrColumn {
    First,
    Second,
    Third,
}

/// The low (1-18) or the high (19-36) half of the wheel.
#[derive(Clone, Copy, Debug, PartialEq, Eq, Structural)]
pub enum Half {
    First,
    Second,
}

/// Parity of a non-zero number.
#[derive(Clone, Copy, Debug, PartialEq, Eq, Structural)]
pub enum OddOrEven {
    Odd,
    Even,
}

/// The colour of a pocket on the wheel.
#[derive(Clone, Copy, Debug, PartialEq, Eq, Structural)]
pub enum RouletteColor {
    Red,
    Black,
    Green,
}

/// The shape of a wager.
#[derive(Clone, Copy, Debug, PartialEq, Eq, Structural)]
pub enum Bet {
    Color(RouletteColor),
    /// A single number; only 0 to 36 can be placed.
    Full(u32),
    Dozen(DozenOrColumn),
    Column(DozenOrColumn),
    Half(Half),
    OddOrEven(OddOrEven),
}

/// A wager record.
#[derive(Clone, Copy, Debug, PartialEq, Eq)]
pub struct BetData<AccountId, BlockNumber, Balance> {
    /// Bet id.
    pub id: u64,
    /// Owner of the bet.
    pub owner: AccountId,
    /// Bet amount.
    pub amount: Balance,
    /// Block in which the bet was placed.
    pub block: BlockNumber,
    /// Type of bet.
    pub bet: Bet,
}

/// Colour of `n`: green for 0, alternating red and black on the wheel's two
/// runs of numbers, none beyond 36.
pub open spec fn color_of(n: u32) -> Option<RouletteColor> {
    if n == 0 {
        Some(RouletteColor::Green)
    } else if (1 <= n <= 10) || (19 <= n <= 28) {
        if n % 2 == 0 {
            Some(RouletteColor::Black)
        } else {
            Some(RouletteColor::Red)
        }
    } else if (11 <= n <= 18) || (29 <= n <= 36) {
        if n % 2 == 0 {
            Some(RouletteColor::Red)
        } else {
            Some(RouletteColor::Black)
        }
    } else {
        None
    }
}

pub open spec fn dozen_of(n: u32) -> Option<DozenOrColumn> {
    if 1 <= n <= 12 {
        Some(DozenOrColumn::First)
    } else if 13 <= n <= 24 {
        Some(DozenOrColumn::Second)
    } else if 25 <= n <= 36 {
        Some(DozenOrColumn::Third)
    } else {
        None
    }
}

pub open spec fn column_of(n: u32) -> Option<DozenOrColumn> {
    if 1 <= n <= 36 {
        if n % 3 == 1 {
            Some(DozenOrColumn::First)
        } else if n % 3 == 2 {
            Some(DozenOrColumn::Second)
        } else {
            Some(DozenOrColumn::Third)
        }
    } else {
        None
    }
}

pub open spec fn half_of(n: u32) -> Option<Half> {
    if 1 <= n <= 18 {
        Some(Half::First)
    } else if 19 <= n <= 36 {
        Some(Half::Second)
    } else {
        None
    }
}

/// Parity of `n`, for the non-zero numbers of the wheel only.
pub open spec fn parity_of(n: u32) -> Option<OddOrEven> {
    if 1 <= n <= 36 {
        if n % 2 == 0 {
            Some(OddOrEven::Even)
        } else {
            Some(OddOrEven::Odd)
        }
    } else {
        None
    }
}

/// Classification of a drawn number.
pub trait RouletteNumber {
    spec fn color_spec(&self) -> Option<RouletteColor>;

    spec fn dozen_spec(&self) -> Option<DozenOrColumn>;

    spec fn column_spec(&self) -> Option<DozenOrColumn>;

    spec fn even_spec(&self) -> bool;

    spec fn half_spec(&self) -> Option<Half>;

    fn to_color(&self) -> (r: Option<RouletteColor>)
        ensures
            r == self.color_spec(),
    ;

    fn to_dozen(&self) -> (r: Option<DozenOrColumn>)
        ensures
            r == self.dozen_spec(),
    ;

    fn to_column(&self) -> (r: Option<DozenOrColumn>)
        ensures
            r == self.column_spec(),
    ;

    fn is_even(&self) -> (r: bool)
        ensures
            r == self.even_spec(),
    ;

    fn to_half(&self) -> (r: Option<Half>)
        ensures
            r == self.half_spec(),
    ;
}

impl RouletteNumber for u32 {
    open spec fn color_spec(&self) -> Option<RouletteColor> {
        color_of(*self)
    }

    open spec fn dozen_spec(&self) -> Option<DozenOrColumn> {
        dozen_of(*self)
    }

    open spec fn column_spec(&self) -> Option<DozenOrColumn> {
        column_of(*self)
    }

    open spec fn even_spec(&self) -> bool {
        parity_of(*self) == Some(OddOrEven::Even)
    }

    open spec fn half_spec(&self) -> Option<Half> {
        half_of(*self)
    }

    fn to_color(&self) -> (r: Option<RouletteColor>) {
        let n = *self;
        if n == 0 {
            Some(RouletteColor::Green)
        } else if (1 <= n && n <= 10) || (19 <= n && n <= 28) {
            if n % 2 == 0 {
                Some(RouletteColor::Black)
            } else {
                Some(RouletteColor::Red)
            }
        } else if (11 <= n && n <= 18) || (29 <= n && n <= 36) {
            if n % 2 == 0 {
                Some(RouletteColor::Red)
            } else {
                Some(RouletteColor::Black)
            }
        } else {
            None
        }
    }

    fn to_dozen(&self) -> (r: Option<DozenOrColumn>) {
        let n = *self;
        if 1 <= n && n <= 12 {
            Some(DozenOrColumn::First)
        } else if 13 <= n && n <= 24 {
            Some(DozenOrColumn::Second)
        } else if 25 <= n && n <= 36 {
            Some(DozenOrColumn::Third)
        } else {
            None
        }
    }

    fn to_column(&self) -> (r: Option<DozenOrColumn>) {
        let n = *self;
        if 1 <= n && n <= 36 {
            if n % 3 == 1 {
                Some(DozenOrColumn::First)
            } else if n % 3 == 2 {
                Some(DozenOrColumn::Second)
            } else {
                Some(DozenOrColumn::Third)
            }
        } else {
            None
        }
    }

    fn is_even(&self) -> (r: bool) {
        let n = *self;
        1 <= n && n <= 36 && n % 2 == 0
    }

    fn to_half(&self) -> (r: Option<Half>) {
        let n = *self;
        if 1 <= n && n <= 18 {
            Some(Half::First)
        } else if 19 <= n && n <= 36 {
            Some(Half::Second)
        } else {
            None
        }
    }
}

/// Every number of the wheel has exactly one colour, green only for zero, and
/// no number beyond the wheel has one.
pub proof fn lemma_each_number_has_one_color(n: u32)
    ensures
        n <= 36 <==> color_of(n) is Some,
        color_of(n) == Some(RouletteColor::Green) <==> n == 0,
{
}

/// Whether `bet` wins when `n` is drawn. Zero, or a number beyond the wheel,
/// loses every dozen, column, half and parity wager.
pub open spec fn wins(bet: Bet, n: u32) -> bool {
    match bet {
        Bet::Color(c) => color_of(n) == Some(c),
        Bet::Full(k) => n == k,
        Bet::Dozen(d) => dozen_of(n) == Some(d),
        Bet::Column(c) => column_of(n) == Some(c),
        Bet::Half(h) => half_of(n) == Some(h),
        Bet::OddOrEven(p) => parity_of(n) == Some(p),
    }
}

/// What a winning wager is paid per unit staked, the stake included.
pub open spec fn multiplier(bet: Bet) -> Balance {
    match bet {
        Bet::Color(_) => 2,
        Bet::Full(_) => 36,
        Bet::Dozen(_) => 3,
        Bet::Column(_) => 3,
        Bet::Half(_) => 2,
        Bet::OddOrEven(_) => 2,
    }
}

/// `x` capped at the largest balance.
pub open spec fn saturate(x: int) -> Balance {
    if x > Balance::MAX {
        Balance::MAX
    } else {
        x as Balance
    }
}

/// The payout of a winning wager of `amount` on `bet`.
pub open spec fn payout_of(bet: Bet, amount: Balance) -> Balance {
    saturate(amount * multiplier(bet))
}

/// The product of two balances, capped at the largest balance.
pub fn saturating_mul(a: Balance, b: Balance) -> (r: Balance)
    ensures
        r == saturate(a * b),
{
    match a.checked_mul(b) {
        Some(p) => p,
        None => Balance::MAX,
    }
}

fn is_color_winner(color: RouletteColor, winner_number: u32) -> (r: bool)
    ensures
        r == (color_of(winner_number) == Some(color)),
{
    match winner_number.to_color() {
        Some(winner_color) => winner_color == color,
        None => false,
    }
}

fn is_dozen_winner(dozen: DozenOrColumn, winner_number: u32) -> (r: bool)
    ensures
        r == (dozen_of(winner_number) == Some(dozen)),
{
    match winner_number.to_dozen() {
        Some(winner_dozen) => winner_dozen == dozen,
        None => false,
    }
}

fn is_column_winner(column: DozenOrColumn, winner_number: u32) -> (r: bool)
    ensures
        r == (column_of(winner_number) == Some(column)),
{
    match winner_number.to_column() {
        Some(winner_column) => winner_column == column,
        None => false,
    }
}

fn is_full_winner(number: u32, winner_number: u32) -> (r: bool)
    ensures
        r == (winner_number == number),
{
    winner_number == number
}

fn is_half_winner(half: Half, winner_number: u32) -> (r: bool)
    ensures
        r == (half_of(winner_number) == Some(half)),
{
    match winner_number.to_half() {
        Some(winner_half) => winner_half == half,
        None => false,
    }
}

fn is_odd_or_even_winner(odd_or_even: OddOrEven, winner_number: u32) -> (r: bool)
    ensures
        r == (parity_of(winner_number) == Some(odd_or_even)),
{
    if winner_number == 0 || winner_number > 36 {
        false
    } else if winner_number.is_even() {
        odd_or_even == OddOrEven::Even
    } else {
        odd_or_even == OddOrEven::Odd
    }
}

/// Whether `pick` wins when `winner_number` is drawn.
pub fn is_winner(pick: Bet, winner_number: u32) -> (r: bool)
    ensures
        r == wins(pick, winner_number),
{
    match pick {
        Bet::Color(color) => is_color_winner(color, winner_number),
        Bet::Full(number) => is_full_winner(number, winner_number),
        Bet::Dozen(dozen) => is_dozen_winner(dozen, winner_number),
        Bet::Column(column) => is_column_winner(column, winner_number),
        Bet::Half(half) => is_half_winner(half, winner_number),
        Bet::OddOrEven(odd_or_even) => is_odd_or_even_winner(odd_or_even, winner_number),
    }
}

/// What a winning wager of `amount` on `pick` is paid, capped at the largest
/// balance.
pub fn amount_won(pick: Bet, amount: Balance) -> (r: Balance)
    ensures
        r == payout_of(pick, amount),
{
    match pick {
        Bet::Color(_) => saturating_mul(amount, 2),
        Bet::Full(_) => saturating_mul(amount, 36),
        Bet::Dozen(_) => saturating_mul(amount, 3),
        Bet::Column(_) => saturating_mul(amount, 3),
        Bet::Half(_) => saturating_mul(amount, 2),
        Bet::OddOrEven(_) => saturating_mul(amount, 2),
    }
}

} // verus!
