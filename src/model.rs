use vstd::prelude::*;

verus! {

/// Basis points in a ratio of 1.0.
pub const RATIO_SCALE: i64 = 10000;

/// Smallest copy ratio that is refused, in basis points (0.01); larger ones up
/// to `RATIO_SCALE` are accepted.
pub const MIN_RATIO_EXCLUSIVE: i64 = 100;

#[derive(Debug, Clone, Copy, PartialEq, Eq, Structural)]
pub enum TradeDirection {
    Long,
    Short,
}

#[derive(Debug, Clone, Copy, PartialEq, Eq, Structural)]
pub enum TradeStatus {
    Open,
    Closed,
}

/// A registered account. `balance` and `total_pnl` are in minor units,
/// `win_rate` in basis points.
#[derive(Debug)]
pub struct User {
    pub id: u128,
    pub username: String,
    pub balance: i64,
    pub total_pnl: i64,
    pub win_rate: u32,
    pub followers_count: i32,
    pub is_trader: bool,
    pub created_at: i64,
}

#[derive(Debug)]
pub struct Trade {
    pub id: u128,
    pub trader_id: u128,
    pub symbol: String,
    pub direction: TradeDirection,
    pub entry_price: i64,
    pub exit_price: Option<i64>,
    pub quantity: i64,
    pub pnl: Option<i128>,
    pub status: TradeStatus,
    pub created_at: i64,
    pub closed_at: Option<i64>,
}

/// A standing instruction that `follower_id` mirrors the trades of `trader_id`;
/// `copy_ratio` is in basis points.
#[derive(Debug, Clone, Copy, PartialEq, Eq, Structural)]
pub struct CopyRelation {
    pub id: u128,
    pub follower_id: u128,
    pub trader_id: u128,
    pub copy_ratio: i64,
    pub active: bool,
    pub created_at: i64,
}

#[derive(Debug, Clone, Copy, PartialEq, Eq, Structural)]
pub struct CopiedTrade {
    pub id: u128,
    pub original_trade_id: u128,
    pub follower_id: u128,
    pub quantity: i64,
    pub pnl: Option<i128>,
    pub status: TradeStatus,
}

impl Clone for User {
    fn clone(&self) -> (r: Self)
        ensures
            r == *self,
    {
        User {
            id: self.id,
            username: self.username.clone(),
            balance: self.balance,
            total_pnl: self.total_pnl,
            win_rate: self.win_rate,
            followers_count: self.followers_count,
            is_trader: self.is_trader,
            created_at: self.created_at,
        }
    }
}

impl Clone for Trade {
    fn clone(&self) -> (r: Self)
        ensures
            r == *self,
    {
        Trade {
            id: self.id,
            trader_id: self.trader_id,
            symbol: self.symbol.clone(),
            direction: self.direction,
            entry_price: self.entry_price,
            exit_price: self.exit_price,
            quantity: self.quantity,
            pnl: self.pnl,
            status: self.status,
            created_at: self.created_at,
            closed_at: self.closed_at,
        }
    }
}

/// Profit or loss of a position of `quantity` entered at `entry` and left at
/// `exit`: a long gains when the price rises, a short when it falls.
pub open spec fn pnl_of(direction: TradeDirection, entry: int, exit: int, quantity: int) -> int {
    match direction {
        TradeDirection::Long => (exit - entry) * quantity,
        TradeDirection::Short => (entry - exit) * quantity,
    }
}

/// Size of the position copied from one of `quantity` lots at `ratio` basis
/// points, rounded down to whole lots.
pub open spec fn copied_quantity(quantity: int, ratio: int) -> int {
    quantity * ratio / (RATIO_SCALE as int)
}

/// Whether `ratio` (in basis points) lies in the accepted range (0.01, 1.0].
pub open spec fn valid_ratio(ratio: int) -> bool {
    MIN_RATIO_EXCLUSIVE < ratio <= RATIO_SCALE
}

impl Trade {
    /// Exit price, profit/loss and closing time are all set exactly when the
    /// trade is closed.
    pub open spec fn wf(&self) -> bool {
        &&& (self.status == TradeStatus::Closed) == self.exit_price.is_some()
        &&& (self.status == TradeStatus::Closed) == self.pnl.is_some()
        &&& (self.status == TradeStatus::Closed) == self.closed_at.is_some()
    }
}

impl CopiedTrade {
    /// Profit/loss is set exactly when the copied trade is closed.
    pub open spec fn wf(&self) -> bool {
        (self.status == TradeStatus::Closed) == self.pnl.is_some()
    }
}

/// The profit or loss of `i64` prices and quantity always fits in an `i128`:
/// a price difference is below 2^64 in size and a quantity at most 2^63.
pub proof fn lemma_pnl_fits(direction: TradeDirection, entry: i64, exit: i64, quantity: i64)
    ensures
        i128::MIN < pnl_of(direction, entry as int, exit as int, quantity as int) < i128::MAX,
{
    let d: int = match direction {
        TradeDirection::Long => exit - entry,
        TradeDirection::Short => entry - exit,
    };
    let q: int = quantity as int;
    assert(-0x8000_0000_0000_0000_0000_0000_0000_0000 < d * q < 0x7fff_ffff_ffff_ffff_ffff_ffff_ffff_ffff)
        by (nonlinear_arith)
        requires
            -0x1_0000_0000_0000_0000 < d < 0x1_0000_0000_0000_0000,
            -0x8000_0000_0000_0000 <= q < 0x8000_0000_0000_0000,
    ;
}

/// Exact profit or loss.
pub fn compute_pnl(direction: TradeDirection, entry: i64, exit: i64, quantity: i64) -> (r: i128)
    ensures
        r == pnl_of(direction, entry as int, exit as int, quantity as int),
{
    proof {
        lemma_pnl_fits(direction, entry, exit, quantity);
    }
    let diff: i128 = match direction {
        TradeDirection::Long => exit as i128 - entry as i128,
        TradeDirection::Short => entry as i128 - exit as i128,
    };
    diff * (quantity as i128)
}

/// A copy of a position with a positive size at an accepted ratio is no
/// larger than the original and never negative.
pub proof fn lemma_copied_quantity_bounds(quantity: int, ratio: int)
    requires
        quantity > 0,
        valid_ratio(ratio),
    ensures
        0 <= copied_quantity(quantity, ratio) <= quantity,
{
    assert(0 < quantity * ratio <= quantity * 10000) by (nonlinear_arith)
        requires
            quantity > 0,
            0 < ratio <= 10000,
    ;
    assert(0 <= (quantity * ratio) / 10000 <= quantity) by (nonlinear_arith)
        requires
            0 < quantity * ratio <= quantity * 10000,
    ;
}

/// Quantity of a copy of a `quantity`-lot position at `ratio` basis points.
pub fn compute_copied_quantity(quantity: i64, ratio: i64) -> (r: i64)
    requires
        quantity > 0,
        valid_ratio(ratio as int),
    ensures
        r == copied_quantity(quantity as int, ratio as int),
        0 <= r <= quantity,
{
    proof {
        lemma_copied_quantity_bounds(quantity as int, ratio as int);
    }
    let r: i128 = (quantity as i128 * ratio as i128) / (RATIO_SCALE as i128);
    r as i64
}

} // verus!
