//! The marketplace record: its setup, its pricing parameters, and the
//! operation that recomputes its current price.
use vstd::prelude::*;
use crate::error::MarketplaceError;
use crate::pricing::{
    compute_price, lemma_on_schedule_price, lemma_price_rises_with_sales, lemma_price_within_bounds,
    price_at, price_fits,
    sales_weight, schedule_weight, SECONDS_PER_DAY,
};

verus! {

/// Pricing state of one marketplace.
#[derive(Clone, Copy, PartialEq, Eq, Structural, Debug)]
pub struct Marketplace {
    /// Lowest price the rule may set (inclusive).
    pub price_floor: u64,
    /// Highest price the rule may set (inclusive).
    pub price_cap: u64,
    /// Units planned to sell over the whole horizon.
    pub initial_supply: u64,
    /// Units sold so far.
    pub sold_amount: u64,
    /// Length of the sale horizon in days.
    pub period_days: u64,
    /// Clock reading, in seconds, when the marketplace was set up.
    pub start_time: i64,
    /// Price when sales are exactly on schedule.
    pub initial_price: u64,
    /// Last price computed by `update_price`.
    pub current_price: u64,
    /// Elasticity of the price, in units of `1 / SENSITIVITY_SCALE`.
    pub sensitivity_coefficient: u64,
}

/// The records that `initialize` sets up.
pub struct Initialize {
    pub marketplace: Marketplace,
}

/// The records that `update_price` and `configure_pricing` change.
pub struct UpdatePrice {
    pub marketplace: Marketplace,
}

/// Seconds between the start of the sale and `current_time`.
pub open spec fn elapsed_since_start(m: Marketplace, current_time: i64) -> int {
    current_time - m.start_time
}

/// Numerator of the schedule adherence of `m`.
pub open spec fn market_sales(m: Marketplace) -> int {
    sales_weight(m.sold_amount as int, m.period_days as int)
}

/// Denominator of the schedule adherence of `m` at `current_time`.
pub open spec fn market_expected(m: Marketplace, current_time: i64) -> int {
    schedule_weight(m.initial_supply as int, elapsed_since_start(m, current_time))
}

/// What a price update on `m` at `current_time` yields: the new price, or
/// the reason it cannot be computed.
pub open spec fn price_outcome(m: Marketplace, current_time: i64) -> Result<u64, MarketplaceError> {
    let sales = market_sales(m);
    let expected = market_expected(m, current_time);
    if m.period_days == 0 || m.price_floor > m.price_cap {
        Err(MarketplaceError::InvalidConfiguration)
    } else if elapsed_since_start(m, current_time) <= 0 || m.initial_supply == 0 {
        Err(MarketplaceError::NumericDegenerate)
    } else if sales > u128::MAX
        || !price_fits(
            m.initial_price as int,
            m.price_floor as int,
            m.price_cap as int,
            m.sensitivity_coefficient as int,
            sales,
            expected,
        ) {
        Err(MarketplaceError::ArithmeticOverflow)
    } else {
        Ok(
            price_at(
                m.initial_price as int,
                m.price_floor as int,
                m.price_cap as int,
                m.sensitivity_coefficient as int,
                sales,
                expected,
            ) as u64,
        )
    }
}

/// Sets up the marketplace: bounds and schedule as given, nothing sold,
/// the sale starting at `now`, no price computed yet. The initial price and
/// the sensitivity are left as they were (see `configure_pricing`).
pub fn initialize(
    ctx: &mut Initialize,
    price_floor: u64,
    price_cap: u64,
    initial_supply: u64,
    period_days: u64,
    now: i64,
) -> (r: Result<(), MarketplaceError>)
    ensures
        period_days == 0 || price_floor > price_cap ==> {
            &&& r == Err::<(), MarketplaceError>(MarketplaceError::InvalidConfiguration)
            &&& final(ctx).marketplace == old(ctx).marketplace
        },
        period_days > 0 && price_floor <= price_cap ==> {
            &&& r == Ok::<(), MarketplaceError>(())
            &&& final(ctx).marketplace == (Marketplace {
                price_floor,
                price_cap,
                initial_supply,
                sold_amount: 0,
                period_days,
                start_time: now,
                current_price: 0,
                ..old(ctx).marketplace
            })
        },
{
    if period_days == 0 || price_floor > price_cap {
        return Err(MarketplaceError::InvalidConfiguration);
    }
    let marketplace = &mut ctx.marketplace;
    marketplace.price_floor = price_floor;
    marketplace.price_cap = price_cap;
    marketplace.initial_supply = initial_supply;
    marketplace.sold_amount = 0;
    marketplace.period_days = period_days;
    marketplace.start_time = now;
    marketplace.current_price = 0;
    Ok(())
}

/// Sets the on-schedule price and the sensitivity. The initial price must
/// lie within the marketplace's bounds.
pub fn configure_pricing(
    ctx: &mut UpdatePrice,
    initial_price: u64,
    sensitivity_coefficient: u64,
) -> (r: Result<(), MarketplaceError>)
    ensures
        !(old(ctx).marketplace.price_floor <= initial_price <= old(ctx).marketplace.price_cap) ==> {
            &&& r == Err::<(), MarketplaceError>(MarketplaceError::InvalidConfiguration)
            &&& final(ctx).marketplace == old(ctx).marketplace
        },
        old(ctx).marketplace.price_floor <= initial_price <= old(ctx).marketplace.price_cap ==> {
            &&& r == Ok::<(), MarketplaceError>(())
            &&& final(ctx).marketplace == (Marketplace {
                initial_price,
                sensitivity_coefficient,
                ..old(ctx).marketplace
            })
        },
{
    if initial_price < ctx.marketplace.price_floor || initial_price > ctx.marketplace.price_cap {
        return Err(MarketplaceError::InvalidConfiguration);
    }
    ctx.marketplace.initial_price = initial_price;
    ctx.marketplace.sensitivity_coefficient = sensitivity_coefficient;
    Ok(())
}

/// The price that the rule gives for `marketplace` at `current_time`.
pub fn current_price_for(marketplace: &Marketplace, current_time: i64) -> (r: Result<u64, MarketplaceError>)
    ensures
        r == price_outcome(*marketplace, current_time),
{
    let m = marketplace;
    if m.period_days == 0 || m.price_floor > m.price_cap {
        return Err(MarketplaceError::InvalidConfiguration);
    }
    let elapsed: i128 = current_time as i128 - m.start_time as i128;
    if elapsed <= 0 || m.initial_supply == 0 {
        return Err(MarketplaceError::NumericDegenerate);
    }
    assert(elapsed <= u64::MAX);
    let seconds: u128 = elapsed as u128;
    proof {
        let a = m.sold_amount as int;
        let b = m.period_days as int;
        let c = m.initial_supply as int;
        let e = seconds as int;
        assert(a * b <= u64::MAX * u64::MAX) by (nonlinear_arith)
            requires 0 <= a <= u64::MAX, 0 <= b <= u64::MAX;
        assert(c * e <= u64::MAX * u64::MAX) by (nonlinear_arith)
            requires 0 <= c <= u64::MAX, 0 <= e <= u64::MAX;
    }
    let expected: u128 = (m.initial_supply as u128) * seconds;
    let per_days: u128 = (m.sold_amount as u128) * (m.period_days as u128);
    let sales: u128 = match per_days.checked_mul(SECONDS_PER_DAY as u128) {
        Some(v) => v,
        None => return Err(MarketplaceError::ArithmeticOverflow),
    };
    assert(expected > 0) by (nonlinear_arith)
        requires expected == m.initial_supply as int * seconds, m.initial_supply > 0, seconds > 0;
    match compute_price(
        m.initial_price,
        m.price_floor,
        m.price_cap,
        m.sensitivity_coefficient,
        sales,
        expected,
    ) {
        Some(p) => Ok(p),
        None => Err(MarketplaceError::ArithmeticOverflow),
    }
}

/// Recomputes the current price at `current_time`. On success only
/// `current_price` changes; on failure nothing does.
pub fn update_price(ctx: &mut UpdatePrice, current_time: i64) -> (r: Result<(), MarketplaceError>)
    ensures
        match price_outcome(old(ctx).marketplace, current_time) {
            Ok(p) => {
                &&& r == Ok::<(), MarketplaceError>(())
                &&& final(ctx).marketplace == (Marketplace { current_price: p, ..old(ctx).marketplace })
            },
            Err(e) => {
                &&& r == Err::<(), MarketplaceError>(e)
                &&& final(ctx).marketplace == old(ctx).marketplace
            },
        },
{
    match current_price_for(&ctx.marketplace, current_time) {
        Ok(p) => {
            ctx.marketplace.current_price = p;
            Ok(())
        },
        Err(e) => Err(e),
    }
}

proof fn lemma_expected_positive(m: Marketplace, current_time: i64)
    requires
        m.initial_supply > 0,
        elapsed_since_start(m, current_time) > 0,
    ensures
        market_expected(m, current_time) > 0,
{
    let c = m.initial_supply as int;
    let e = elapsed_since_start(m, current_time);
    assert(c * e > 0) by (nonlinear_arith)
        requires c > 0, e > 0;
}

/// Every price that an update computes lies within
/// `[price_floor, price_cap]`.
pub proof fn lemma_updated_price_within_bounds(m: Marketplace, current_time: i64)
    ensures
        price_outcome(m, current_time) matches Ok(p) ==> m.price_floor <= p <= m.price_cap,
{
    if price_outcome(m, current_time) is Ok {
        lemma_expected_positive(m, current_time);
        lemma_price_within_bounds(
            m.initial_price as int,
            m.price_floor as int,
            m.price_cap as int,
            m.sensitivity_coefficient as int,
            market_sales(m),
            market_expected(m, current_time),
        );
    }
}

/// When units have sold exactly at the target rate (`f_t == 1`), an update
/// sets the price to the initial price, when it lies within the bounds.
pub proof fn lemma_on_schedule_keeps_initial_price(m: Marketplace, current_time: i64)
    requires
        m.price_floor <= m.initial_price <= m.price_cap,
        market_sales(m) == market_expected(m, current_time),
    ensures
        price_outcome(m, current_time) matches Ok(p) ==> p == m.initial_price,
{
    if price_outcome(m, current_time) is Ok {
        lemma_expected_positive(m, current_time);
        lemma_on_schedule_price(
            m.initial_price as int,
            m.price_floor as int,
            m.price_cap as int,
            m.sensitivity_coefficient as int,
            market_sales(m),
            market_expected(m, current_time),
        );
    }
}

/// Of two marketplaces that differ only in the units sold, updated at the
/// same time, the one that sold more never gets the lower price.
pub proof fn lemma_more_sales_never_lower_price(fewer: Marketplace, more: Marketplace, current_time: i64)
    requires
        more == (Marketplace { sold_amount: more.sold_amount, ..fewer }),
        fewer.sold_amount <= more.sold_amount,
    ensures
        (price_outcome(fewer, current_time), price_outcome(more, current_time)) matches (Ok(p), Ok(q)) ==> p <= q,
{
    if price_outcome(fewer, current_time) is Ok && price_outcome(more, current_time) is Ok {
        lemma_expected_positive(fewer, current_time);
        let (a, b, c) = (fewer.sold_amount as int, more.sold_amount as int, fewer.period_days as int);
        assert(a * c * SECONDS_PER_DAY <= b * c * SECONDS_PER_DAY) by (nonlinear_arith)
            requires 0 <= a <= b, c >= 0;
        lemma_price_rises_with_sales(
            fewer.initial_price as int,
            fewer.price_floor as int,
            fewer.price_cap as int,
            fewer.sensitivity_coefficient as int,
            market_sales(fewer),
            market_sales(more),
            market_expected(fewer, current_time),
        );
    }
}

/// With no time elapsed since the start, or a clock that reads before it,
/// an update computes no price: it fails and `current_price` keeps its value.
pub proof fn lemma_no_price_without_elapsed_time(m: Marketplace, current_time: i64)
    requires
        current_time <= m.start_time,
    ensures
        price_outcome(m, current_time) is Err,
        m.period_days > 0 && m.price_floor <= m.price_cap
            ==> price_outcome(m, current_time) == Err::<u64, MarketplaceError>(MarketplaceError::NumericDegenerate),
{
}

} // verus!
