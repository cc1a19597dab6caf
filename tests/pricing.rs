use solabay::error::MarketplaceError;
use solabay::market::{
    configure_pricing, current_price_for, initialize, update_price, Initialize, Marketplace,
    UpdatePrice,
};
use solabay::pricing::{compute_price, SECONDS_PER_DAY, SENSITIVITY_SCALE};

const START: i64 = 1_700_000_000;

fn blank() -> Marketplace {
    Marketplace {
        price_floor: 0,
        price_cap: 0,
        initial_supply: 0,
        sold_amount: 0,
        period_days: 0,
        start_time: 0,
        initial_price: 0,
        current_price: 0,
        sensitivity_coefficient: 0,
    }
}

/// floor 10, cap 1000, 1000 units over 10 days, on-schedule price 100.
fn market(sensitivity: u64, sold: u64) -> Marketplace {
    let mut init = Initialize { marketplace: blank() };
    assert_eq!(initialize(&mut init, 10, 1000, 1000, 10, START), Ok(()));
    let mut ctx = UpdatePrice { marketplace: init.marketplace };
    assert_eq!(configure_pricing(&mut ctx, 100, sensitivity), Ok(()));
    ctx.marketplace.sold_amount = sold;
    ctx.marketplace
}

fn price_after(sensitivity: u64, sold: u64, elapsed: i64) -> Result<u64, MarketplaceError> {
    current_price_for(&market(sensitivity, sold), START + elapsed)
}

const DAY: i64 = SECONDS_PER_DAY as i64;
const HALF: u64 = SENSITIVITY_SCALE / 2;

#[test]
fn on_pace_update_keeps_initial_price() {
    let mut ctx = UpdatePrice { marketplace: market(HALF, 100) };
    assert_eq!(update_price(&mut ctx, START + DAY), Ok(()));
    assert_eq!(ctx.marketplace.current_price, 100);
}

#[test]
fn on_pace_at_other_points_of_the_schedule() {
    assert_eq!(price_after(HALF, 500, 5 * DAY), Ok(100));
    assert_eq!(price_after(3 * SENSITIVITY_SCALE, 1000, 10 * DAY), Ok(100));
    assert_eq!(price_after(0, 300, 3 * DAY), Ok(100));
}

#[test]
fn ahead_of_schedule_rises_with_sensitivity() {
    // f_t = 2
    assert_eq!(price_after(0, 200, DAY), Ok(100));
    assert_eq!(price_after(HALF, 200, DAY), Ok(150));
    assert_eq!(price_after(SENSITIVITY_SCALE, 200, DAY), Ok(200));
    assert_eq!(price_after(5 * SENSITIVITY_SCALE, 200, DAY), Ok(600));
}

#[test]
fn ahead_of_schedule_saturates_at_cap() {
    assert_eq!(price_after(9 * SENSITIVITY_SCALE, 200, DAY), Ok(1000));
    assert_eq!(price_after(20 * SENSITIVITY_SCALE, 200, DAY), Ok(1000));
    assert_eq!(price_after(u64::MAX / 1_000_000, 200, DAY), Ok(1000));
}

#[test]
fn behind_schedule_falls_with_sensitivity() {
    // f_t = 1/2
    assert_eq!(price_after(0, 50, DAY), Ok(100));
    assert_eq!(price_after(HALF, 50, DAY), Ok(75));
    assert_eq!(price_after(SENSITIVITY_SCALE, 50, DAY), Ok(50));
}

#[test]
fn behind_schedule_saturates_at_floor() {
    assert_eq!(price_after(3 * SENSITIVITY_SCALE, 50, DAY), Ok(10));
    assert_eq!(price_after(2 * SENSITIVITY_SCALE, 50, DAY), Ok(10));
    assert_eq!(price_after(SENSITIVITY_SCALE, 0, DAY), Ok(10));
}

#[test]
fn behind_schedule_falls_with_fewer_sales() {
    let prices: Vec<u64> = [0u64, 20, 50, 80, 99]
        .iter()
        .map(|&sold| price_after(SENSITIVITY_SCALE, sold, DAY).unwrap())
        .collect();
    assert_eq!(prices, vec![10, 20, 50, 80, 99]);
}

#[test]
fn price_is_rounded_down() {
    // f_t = 1/3, s = 1: 100 * (1 - 2/3) = 33.3...
    assert_eq!(price_after(SENSITIVITY_SCALE, 100, 3 * DAY), Ok(33));
    // f_t = 3/2, s = 1/3 (to six places): 100 * (1 + 0.333333 / 2) = 116.66665
    assert_eq!(price_after(333_333, 100, 2 * DAY / 3), Ok(116));
    // f_t = 1/2, s = 0.3: 100 * (1 - 0.15) = 85 exactly
    assert_eq!(price_after(300_000, 50, DAY), Ok(85));
}

#[test]
fn price_stays_within_bounds() {
    for sold in [0u64, 1, 10, 99, 100, 101, 150, 999, 1000] {
        for s in [0u64, 1, HALF, SENSITIVITY_SCALE, 7 * SENSITIVITY_SCALE, u64::MAX / 1_000_000] {
            let p = price_after(s, sold, DAY).unwrap();
            assert!((10..=1000).contains(&p), "sold {} sensitivity {} gave {}", sold, s, p);
        }
    }
}

#[test]
fn no_elapsed_time_is_refused() {
    let mut ctx = UpdatePrice { marketplace: market(HALF, 100) };
    ctx.marketplace.current_price = 77;
    assert_eq!(update_price(&mut ctx, START), Err(MarketplaceError::NumericDegenerate));
    assert_eq!(ctx.marketplace.current_price, 77);
}

#[test]
fn clock_before_start_is_refused() {
    let mut ctx = UpdatePrice { marketplace: market(HALF, 100) };
    let before = ctx.marketplace;
    assert_eq!(update_price(&mut ctx, START - 1), Err(MarketplaceError::NumericDegenerate));
    assert_eq!(ctx.marketplace, before);
    assert_eq!(
        current_price_for(&market(HALF, 100), i64::MIN),
        Err(MarketplaceError::NumericDegenerate)
    );
}

#[test]
fn zero_supply_is_refused() {
    let mut m = market(HALF, 100);
    m.initial_supply = 0;
    assert_eq!(current_price_for(&m, START + DAY), Err(MarketplaceError::NumericDegenerate));
}

#[test]
fn unusable_configuration_is_refused_at_update() {
    let mut m = market(HALF, 100);
    m.period_days = 0;
    assert_eq!(current_price_for(&m, START + DAY), Err(MarketplaceError::InvalidConfiguration));
    let mut m = market(HALF, 100);
    m.price_floor = 2000;
    assert_eq!(current_price_for(&m, START + DAY), Err(MarketplaceError::InvalidConfiguration));
}

#[test]
fn overflowing_quantities_are_refused() {
    let mut m = market(HALF, u64::MAX);
    m.period_days = u64::MAX;
    assert_eq!(current_price_for(&m, START + DAY), Err(MarketplaceError::ArithmeticOverflow));
    // far ahead of schedule, with a cap too far above the initial price to
    // be shown reached in 128 bits
    let mut m = market(u64::MAX, u64::MAX);
    m.initial_price = 1;
    m.price_floor = 0;
    m.price_cap = u64::MAX;
    m.initial_supply = 1 << 20;
    m.period_days = 1 << 46;
    assert_eq!(current_price_for(&m, START + (1i64 << 60)), Err(MarketplaceError::ArithmeticOverflow));
    let mut m = market(HALF, 0);
    m.initial_supply = u64::MAX;
    assert_eq!(current_price_for(&m, i64::MAX), Err(MarketplaceError::ArithmeticOverflow));
}

#[test]
fn update_changes_only_the_current_price() {
    let mut ctx = UpdatePrice { marketplace: market(HALF, 200) };
    let before = ctx.marketplace;
    assert_eq!(update_price(&mut ctx, START + DAY), Ok(()));
    assert_eq!(ctx.marketplace, Marketplace { current_price: 150, ..before });
}

#[test]
fn initialize_sets_schedule_and_keeps_pricing() {
    let mut m = blank();
    m.initial_price = 42;
    m.sensitivity_coefficient = 7;
    m.sold_amount = 9;
    m.current_price = 5;
    let mut init = Initialize { marketplace: m };
    assert_eq!(initialize(&mut init, 1, 2, 3, 4, -5), Ok(()));
    assert_eq!(
        init.marketplace,
        Marketplace {
            price_floor: 1,
            price_cap: 2,
            initial_supply: 3,
            sold_amount: 0,
            period_days: 4,
            start_time: -5,
            initial_price: 42,
            current_price: 0,
            sensitivity_coefficient: 7,
        }
    );
}

#[test]
fn initialize_refuses_bad_configuration() {
    let mut init = Initialize { marketplace: blank() };
    assert_eq!(initialize(&mut init, 10, 1000, 1000, 0, START), Err(MarketplaceError::InvalidConfiguration));
    assert_eq!(initialize(&mut init, 1001, 1000, 1000, 10, START), Err(MarketplaceError::InvalidConfiguration));
    assert_eq!(init.marketplace, blank());
    assert_eq!(initialize(&mut init, 1000, 1000, 0, 1, START), Ok(()));
}

#[test]
fn configure_pricing_refuses_price_outside_bounds() {
    let mut ctx = UpdatePrice { marketplace: market(HALF, 0) };
    let before = ctx.marketplace;
    assert_eq!(configure_pricing(&mut ctx, 9, 1), Err(MarketplaceError::InvalidConfiguration));
    assert_eq!(configure_pricing(&mut ctx, 1001, 1), Err(MarketplaceError::InvalidConfiguration));
    assert_eq!(ctx.marketplace, before);
    assert_eq!(configure_pricing(&mut ctx, 1000, 3), Ok(()));
    assert_eq!(ctx.marketplace.initial_price, 1000);
    assert_eq!(ctx.marketplace.sensitivity_coefficient, 3);
}

#[test]
fn compute_price_exact_values() {
    // f_t = 3/2, s = 1
    assert_eq!(compute_price(100, 10, 1000, SENSITIVITY_SCALE, 3, 2), Some(150));
    // f_t = 1/4, s = 1/2: 100 * (1 - 3/8) = 62.5
    assert_eq!(compute_price(100, 10, 1000, HALF, 1, 4), Some(62));
    // an initial price above the cap is capped when ahead
    assert_eq!(compute_price(2000, 10, 1000, 0, 5, 5), Some(1000));
    // and when behind
    assert_eq!(compute_price(2000, 10, 1000, 0, 4, 5), Some(1000));
    // an initial price below the floor is raised to it either way
    assert_eq!(compute_price(3, 10, 1000, SENSITIVITY_SCALE, 4, 2), Some(10));
    assert_eq!(compute_price(3, 10, 1000, SENSITIVITY_SCALE, 1, 2), Some(10));
    assert_eq!(compute_price(1, 0, 10, 1, u128::MAX, 1), Some(10));
    assert_eq!(compute_price(1, 0, u64::MAX, 1, 0, u128::MAX), None);
}

#[test]
fn compute_price_reaches_bounds_beyond_128_bits() {
    // the deviation weight overflows, but the step provably passes the bound
    assert_eq!(compute_price(2, 0, 10, 1, u128::MAX, 1), Some(10));
    assert_eq!(compute_price(1, 0, 10, u64::MAX, u128::MAX, 1), Some(10));
    assert_eq!(compute_price(u64::MAX, 5, u64::MAX, u64::MAX, 0, 1 << 40), Some(5));
    // here neither the weight nor the distance to the bound fits
    assert_eq!(compute_price(1, 0, u64::MAX, u64::MAX, 1 << 127, 1 << 80), None);
}

#[test]
fn initial_price_outside_bounds_is_clamped() {
    // a fresh account: initial price still 0, below the floor of 10
    let mut ahead = market(HALF, 200);
    ahead.initial_price = 0;
    assert_eq!(current_price_for(&ahead, START + DAY), Ok(10));
    let mut behind = market(HALF, 50);
    behind.initial_price = 0;
    assert_eq!(current_price_for(&behind, START + DAY), Ok(10));
    // above the cap of 1000
    let mut high = market(HALF, 50);
    high.initial_price = 5000;
    assert_eq!(current_price_for(&high, START + DAY), Ok(1000));
}

#[test]
fn more_sales_never_lower_the_price() {
    for initial in [0u64, 10, 100, 1000, 5000] {
        let mut last = 0u64;
        for sold in [0u64, 20, 50, 99, 100, 101, 150, 200, 1000, 100_000] {
            let mut m = market(HALF, sold);
            m.initial_price = initial;
            let p = current_price_for(&m, START + DAY).unwrap();
            assert!(p >= last, "initial {} sold {} gave {} after {}", initial, sold, p, last);
            assert!((10..=1000).contains(&p));
            last = p;
        }
    }
}
