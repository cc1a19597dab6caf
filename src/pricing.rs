//! The dynamic pricing rule, in exact integer arithmetic.
//!
//! Schedule adherence `f_t` is the ratio of units sold to units that should
//! have sold by now. The horizon is given in days and elapsed time in
//! seconds; elapsed time is converted to days, so with `sold` units sold,
//! `supply` planned over `period_days` days and `elapsed` seconds gone,
//! `f_t = (sold * period_days * SECONDS_PER_DAY) / (supply * elapsed)`.
//! The sensitivity coefficient is a fixed-point number with
//! `SENSITIVITY_SCALE` standing for 1.
use vstd::prelude::*;
use vstd::arithmetic::div_mod::{
    lemma_div_is_ordered, lemma_div_multiples_vanish, lemma_fundamental_div_mod,
    lemma_fundamental_div_mod_converse,
};

verus! {

/// Seconds in a day.
pub const SECONDS_PER_DAY: u64 = 86_400;

/// The stored sensitivity that stands for an elasticity of exactly 1.
pub const SENSITIVITY_SCALE: u64 = 1_000_000;

/// Numerator of `f_t`: units sold, weighted by the horizon in seconds.
pub open spec fn sales_weight(sold_amount: int, period_days: int) -> int {
    sold_amount * period_days * SECONDS_PER_DAY
}

/// Denominator of `f_t`: units planned, weighted by the seconds elapsed.
pub open spec fn schedule_weight(initial_supply: int, elapsed: int) -> int {
    initial_supply * elapsed
}

/// `initial_price * (1 + s * (f_t - 1))` rounded down, where
/// `s = sensitivity / SENSITIVITY_SCALE` and `f_t = sales / expected`.
pub open spec fn raw_price(initial_price: int, sensitivity: int, sales: int, expected: int) -> int {
    (initial_price * (SENSITIVITY_SCALE * expected + sensitivity * (sales - expected)))
        / (SENSITIVITY_SCALE * expected)
}


/// `raw` held within `[price_floor, price_cap]`.
pub open spec fn clamp_price(raw: int, price_floor: int, price_cap: int) -> int {
    if raw < price_floor {
        price_floor
    } else if raw > price_cap {
        price_cap
    } else {
        raw
    }
}

/// The price rule: the rounded-down elastic price, held within the bounds.
/// Ahead of schedule (`f_t >= 1`) it rises from the initial price toward the
/// cap; behind schedule it falls from it toward the floor.
pub open spec fn price_at(
    initial_price: int,
    price_floor: int,
    price_cap: int,
    sensitivity: int,
    sales: int,
    expected: int,
) -> int {
    clamp_price(raw_price(initial_price, sensitivity, sales, expected), price_floor, price_cap)
}

/// The distance of `f_t` from 1, scaled by the price and the sensitivity.
pub open spec fn deviation_weight(initial_price: int, sensitivity: int, sales: int, expected: int) -> int {
    let gap = if sales >= expected { sales - expected } else { expected - sales };
    initial_price * sensitivity * gap
}

/// Whether the price can be computed in 128 bits. Where the deviation
/// weight does not fit, the price is still known when it provably reaches
/// the bound it moves toward.
pub open spec fn price_fits(
    initial_price: int,
    price_floor: int,
    price_cap: int,
    sensitivity: int,
    sales: int,
    expected: int,
) -> bool {
    let scaled = SENSITIVITY_SCALE * expected;
    let weight_fits = deviation_weight(initial_price, sensitivity, sales, expected) <= u128::MAX;
    &&& scaled <= u128::MAX
    &&& if sales >= expected {
        initial_price >= price_cap || weight_fits || (price_cap - initial_price) * scaled <= u128::MAX
    } else {
        initial_price <= price_floor || weight_fits || (initial_price - price_floor) * scaled <= u128::MAX
    }
}

/// `a / b` rounded up.
pub open spec fn ceil_div(a: int, b: int) -> int {
    if a % b == 0 { a / b } else { a / b + 1 }
}

proof fn lemma_raw_price_ahead(ip: int, s: int, n: int, d: int)
    requires
        d > 0,
    ensures
        raw_price(ip, s, n, d) == ip + (ip * s * (n - d)) / (SENSITIVITY_SCALE * d),
{
    let sd = SENSITIVITY_SCALE * d;
    let g = ip * s * (n - d);
    lemma_fundamental_div_mod(g, sd);
    let q = g / sd;
    assert(ip * (sd + s * (n - d)) == (ip + q) * sd + g % sd) by (nonlinear_arith)
        requires g == ip * s * (n - d), g == sd * q + g % sd;
    lemma_fundamental_div_mod_converse(ip * (sd + s * (n - d)), sd, ip + q, g % sd);
}

proof fn lemma_raw_price_behind(ip: int, s: int, n: int, d: int)
    requires
        d > 0,
    ensures
        raw_price(ip, s, n, d) == ip - ceil_div(ip * s * (d - n), SENSITIVITY_SCALE * d),
{
    let sd = SENSITIVITY_SCALE * d;
    let l = ip * s * (d - n);
    lemma_fundamental_div_mod(l, sd);
    let q = l / sd;
    let part = l % sd;
    let t = ip * (sd + s * (n - d));
    assert(t == sd * ip - l) by (nonlinear_arith)
        requires l == ip * s * (d - n), t == ip * (sd + s * (n - d));
    if part == 0 {
        assert(t == (ip - q) * sd + 0) by (nonlinear_arith)
            requires t == sd * ip - l, l == sd * q + 0;
        lemma_fundamental_div_mod_converse(t, sd, ip - q, 0);
    } else {
        assert(t == (ip - q - 1) * sd + (sd - part)) by (nonlinear_arith)
            requires t == sd * ip - l, l == sd * q + part;
        lemma_fundamental_div_mod_converse(t, sd, ip - q - 1, sd - part);
    }
}

/// A weight beyond 128 bits, divided by `scaled`, reaches any `room` whose
/// product with `scaled` fits.
proof fn lemma_large_weight_reaches(weight: int, room: int, scaled: int)
    requires
        scaled > 0,
        room * scaled <= u128::MAX < weight,
    ensures
        weight / scaled >= room,
        ceil_div(weight, scaled) >= room,
{
    lemma_div_is_ordered(room * scaled, weight, scaled);
    assert(room * scaled == scaled * room) by (nonlinear_arith);
    lemma_div_multiples_vanish(room, scaled);
}

/// The price for the schedule adherence `sales / expected`.
/// Returns `None` exactly when it cannot be computed in 128 bits.
pub fn compute_price(
    initial_price: u64,
    price_floor: u64,
    price_cap: u64,
    sensitivity: u64,
    sales: u128,
    expected: u128,
) -> (r: Option<u64>)
    requires
        expected > 0,
        price_floor <= price_cap,
    ensures
        r is None <==> !price_fits(
            initial_price as int,
            price_floor as int,
            price_cap as int,
            sensitivity as int,
            sales as int,
            expected as int,
        ),
        r matches Some(p) ==> p == price_at(
            initial_price as int,
            price_floor as int,
            price_cap as int,
            sensitivity as int,
            sales as int,
            expected as int,
        ),
{
    let ghost ip = initial_price as int;
    let ghost s = sensitivity as int;
    let ghost n = sales as int;
    let ghost d = expected as int;
    let scaled: u128 = match expected.checked_mul(SENSITIVITY_SCALE as u128) {
        Some(v) => v,
        None => return None,
    };
    let ghost sd = scaled as int;
    assert(sd == SENSITIVITY_SCALE * d) by (nonlinear_arith)
        requires sd == d * SENSITIVITY_SCALE;
    assert(ip * s <= u64::MAX * u64::MAX) by (nonlinear_arith)
        requires 0 <= ip <= u64::MAX, 0 <= s <= u64::MAX;
    assert(0 <= ip * s) by (nonlinear_arith)
        requires 0 <= ip, 0 <= s;
    let weight: u128 = (initial_price as u128) * (sensitivity as u128);
    if sales >= expected {
        proof {
            lemma_raw_price_ahead(ip, s, n, d);
            assert(0 <= ip * s * (n - d)) by (nonlinear_arith)
                requires 0 <= ip * s, n >= d;
            lemma_fundamental_div_mod(ip * s * (n - d), sd);
        }
        if initial_price >= price_cap {
            return Some(price_cap);
        }
        let room: u64 = price_cap - initial_price;
        match weight.checked_mul(sales - expected) {
            Some(gain) => {
                let step: u128 = gain / scaled;
                if step >= room as u128 {
                    Some(price_cap)
                } else {
                    let p: u64 = initial_price + step as u64;
                    if p < price_floor {
                        Some(price_floor)
                    } else {
                        Some(p)
                    }
                }
            },
            None => match (room as u128).checked_mul(scaled) {
                Some(_) => {
                    proof {
                        lemma_large_weight_reaches(ip * s * (n - d), room as int, sd);
                    }
                    Some(price_cap)
                },
                None => None,
            },
        }
    } else {
        proof {
            lemma_raw_price_behind(ip, s, n, d);
            assert(0 <= ip * s * (d - n)) by (nonlinear_arith)
                requires 0 <= ip * s, n < d;
            lemma_fundamental_div_mod(ip * s * (d - n), sd);
        }
        if initial_price <= price_floor {
            return Some(price_floor);
        }
        let room: u64 = initial_price - price_floor;
        match weight.checked_mul(expected - sales) {
            Some(loss) => {
                let whole: u128 = loss / scaled;
                let part: u128 = loss % scaled;
                assert(whole + part <= loss) by (nonlinear_arith)
                    requires loss as int == sd * whole + part, sd >= 1, part >= 0, whole >= 0;
                let cut: u128 = if part == 0 { whole } else { whole + 1 };
                if cut >= room as u128 {
                    Some(price_floor)
                } else {
                    let p: u64 = initial_price - cut as u64;
                    if p > price_cap {
                        Some(price_cap)
                    } else {
                        Some(p)
                    }
                }
            },
            None => match (room as u128).checked_mul(scaled) {
                Some(_) => {
                    proof {
                        lemma_large_weight_reaches(ip * s * (d - n), room as int, sd);
                    }
                    Some(price_floor)
                },
                None => None,
            },
        }
    }
}

/// The numerator of `raw_price`.
pub open spec fn price_numerator(initial_price: int, sensitivity: int, sales: int, expected: int) -> int {
    initial_price * (SENSITIVITY_SCALE * expected + sensitivity * (sales - expected))
}

proof fn lemma_raw_price_ordered(ip1: int, s1: int, n1: int, ip2: int, s2: int, n2: int, d: int)
    requires
        d > 0,
        price_numerator(ip1, s1, n1, d) <= price_numerator(ip2, s2, n2, d),
    ensures
        raw_price(ip1, s1, n1, d) <= raw_price(ip2, s2, n2, d),
{
    lemma_div_is_ordered(price_numerator(ip1, s1, n1, d), price_numerator(ip2, s2, n2, d), SENSITIVITY_SCALE * d);
}

proof fn lemma_raw_price_of_multiple(k: int, d: int)
    requires
        d > 0,
    ensures
        ((SENSITIVITY_SCALE * d) * k) / (SENSITIVITY_SCALE * d) == k,
{
    lemma_div_multiples_vanish(k, SENSITIVITY_SCALE * d);
}

/// The rule's price always lies within `[price_floor, price_cap]`.
pub proof fn lemma_price_within_bounds(
    initial_price: int,
    price_floor: int,
    price_cap: int,
    sensitivity: int,
    sales: int,
    expected: int,
)
    requires
        price_floor <= price_cap,
    ensures
        price_floor <= price_at(initial_price, price_floor, price_cap, sensitivity, sales, expected) <= price_cap,
{
}

/// Sales exactly on schedule (`f_t == 1`) give the initial price, when it
/// lies within the bounds.
pub proof fn lemma_on_schedule_price(initial_price: int, price_floor: int, price_cap: int, sensitivity: int, sales: int, expected: int)
    requires
        price_floor <= initial_price <= price_cap,
        expected > 0,
        sales == expected,
    ensures
        price_at(initial_price, price_floor, price_cap, sensitivity, sales, expected) == initial_price,
{
    let sd = SENSITIVITY_SCALE * expected;
    assert(price_numerator(initial_price, sensitivity, sales, expected) == sd * initial_price) by (nonlinear_arith)
        requires sales == expected, sd == SENSITIVITY_SCALE * expected;
    lemma_raw_price_of_multiple(initial_price, expected);
}

/// Selling more by the same time never gives a lower price.
pub proof fn lemma_price_rises_with_sales(
    initial_price: int,
    price_floor: int,
    price_cap: int,
    sensitivity: int,
    fewer: int,
    more: int,
    expected: int,
)
    requires
        price_floor <= price_cap,
        initial_price >= 0,
        sensitivity >= 0,
        fewer <= more,
        expected > 0,
    ensures
        price_at(initial_price, price_floor, price_cap, sensitivity, fewer, expected)
            <= price_at(initial_price, price_floor, price_cap, sensitivity, more, expected),
{
    let (ip, s, d) = (initial_price, sensitivity, expected);
    assert(price_numerator(ip, s, fewer, d) <= price_numerator(ip, s, more, d)) by (nonlinear_arith)
        requires ip >= 0, s >= 0, fewer <= more;
    lemma_raw_price_ordered(ip, s, fewer, ip, s, more, d);
}

/// Ahead of schedule (`f_t >= 1`), a higher sensitivity never gives a lower
/// price, and no price is below an initial price within the bounds.
pub proof fn lemma_ahead_rises_with_sensitivity(
    initial_price: int,
    price_floor: int,
    price_cap: int,
    lower: int,
    higher: int,
    sales: int,
    expected: int,
)
    requires
        price_floor <= price_cap,
        initial_price >= 0,
        0 <= lower <= higher,
        0 < expected <= sales,
    ensures
        price_at(initial_price, price_floor, price_cap, lower, sales, expected)
            <= price_at(initial_price, price_floor, price_cap, higher, sales, expected),
        initial_price <= price_cap ==> initial_price <= price_at(
            initial_price,
            price_floor,
            price_cap,
            lower,
            sales,
            expected,
        ),
{
    let (ip, n, d) = (initial_price, sales, expected);
    let sd = SENSITIVITY_SCALE * d;
    assert(price_numerator(ip, lower, n, d) <= price_numerator(ip, higher, n, d)) by (nonlinear_arith)
        requires ip >= 0, lower <= higher, n >= d;
    lemma_raw_price_ordered(ip, lower, n, ip, higher, n, d);
    assert(sd * ip <= price_numerator(ip, lower, n, d)) by (nonlinear_arith)
        requires ip >= 0, lower >= 0, n >= d, sd == SENSITIVITY_SCALE * d;
    lemma_div_is_ordered(sd * ip, price_numerator(ip, lower, n, d), sd);
    lemma_raw_price_of_multiple(ip, d);
}

/// Once `initial_price * (1 + s * (f_t - 1))` reaches the cap, the price is
/// the cap.
pub proof fn lemma_ahead_saturates_at_cap(
    initial_price: int,
    price_floor: int,
    price_cap: int,
    sensitivity: int,
    sales: int,
    expected: int,
)
    requires
        price_floor <= price_cap,
        expected > 0,
        price_numerator(initial_price, sensitivity, sales, expected) >= (SENSITIVITY_SCALE * expected) * price_cap,
    ensures
        price_at(initial_price, price_floor, price_cap, sensitivity, sales, expected) == price_cap,
{
    let sd = SENSITIVITY_SCALE * expected;
    lemma_div_is_ordered(sd * price_cap, price_numerator(initial_price, sensitivity, sales, expected), sd);
    lemma_raw_price_of_multiple(price_cap, expected);
}

/// Behind schedule (`f_t < 1`), a higher sensitivity never gives a higher
/// price, and no price is above an initial price within the bounds.
pub proof fn lemma_behind_falls_with_sensitivity(
    initial_price: int,
    price_floor: int,
    price_cap: int,
    lower: int,
    higher: int,
    sales: int,
    expected: int,
)
    requires
        price_floor <= price_cap,
        initial_price >= 0,
        0 <= lower <= higher,
        0 <= sales < expected,
    ensures
        price_at(initial_price, price_floor, price_cap, higher, sales, expected)
            <= price_at(initial_price, price_floor, price_cap, lower, sales, expected),
        price_floor <= initial_price ==> price_at(
            initial_price,
            price_floor,
            price_cap,
            lower,
            sales,
            expected,
        ) <= initial_price,
{
    let (ip, n, d) = (initial_price, sales, expected);
    let sd = SENSITIVITY_SCALE * d;
    assert(price_numerator(ip, higher, n, d) <= price_numerator(ip, lower, n, d)) by (nonlinear_arith)
        requires ip >= 0, lower <= higher, n < d;
    lemma_raw_price_ordered(ip, higher, n, ip, lower, n, d);
    assert(price_numerator(ip, lower, n, d) <= sd * ip) by (nonlinear_arith)
        requires ip >= 0, lower >= 0, n < d, sd == SENSITIVITY_SCALE * d;
    lemma_div_is_ordered(price_numerator(ip, lower, n, d), sd * ip, sd);
    lemma_raw_price_of_multiple(ip, d);
}

/// Once `initial_price * (1 - s * (1 - f_t))` is at or below the floor
/// (negative included), the price is the floor.
pub proof fn lemma_behind_saturates_at_floor(
    initial_price: int,
    price_floor: int,
    price_cap: int,
    sensitivity: int,
    sales: int,
    expected: int,
)
    requires
        price_floor <= price_cap,
        expected > 0,
        price_numerator(initial_price, sensitivity, sales, expected) <= (SENSITIVITY_SCALE * expected) * price_floor,
    ensures
        price_at(initial_price, price_floor, price_cap, sensitivity, sales, expected) == price_floor,
{
    let sd = SENSITIVITY_SCALE * expected;
    lemma_div_is_ordered(price_numerator(initial_price, sensitivity, sales, expected), sd * price_floor, sd);
    lemma_raw_price_of_multiple(price_floor, expected);
}

} // verus!
