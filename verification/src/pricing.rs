use vstd::prelude::*;
use crate::entities::LoyaltyTier;
use vstd::arithmetic::div_mod::{lemma_fundamental_div_mod, lemma_fundamental_div_mod_converse};
use vstd::arithmetic::mul::{lemma_mul_inequality, lemma_mul_upper_bound};

verus! {

/// The demand-scaled price of a ticket: the flat price times the demand
/// multiplier `tickets_sold / total_tickets + 1/2`, rounded down, computed
/// exactly over the rationals as `price * (2 * sold + total) / (2 * total)`
/// and capped at `u64::MAX`. It rises from half the flat price for an unsold
/// event to one and a half times the flat price for a sold-out one.
pub open spec fn spec_dynamic_price(price: u64, sold: u64, total: u64) -> u64
    recommends
        1 <= total,
{
    let q = (price as int) * (2 * (sold as int) + (total as int)) / (2 * (total as int));
    if q > u64::MAX as int {
        u64::MAX
    } else {
        q as u64
    }
}

/// The percentage of the price a buyer of the given tier pays.
pub open spec fn spec_discount_pct(tier: LoyaltyTier) -> u64 {
    match tier {
        LoyaltyTier::Platinum => 80,
        LoyaltyTier::Gold => 85,
        LoyaltyTier::Silver => 90,
        LoyaltyTier::Bronze => 95,
    }
}

/// A price after the tier discount: `price * pct / 100`, truncating.
pub open spec fn spec_apply_discount(price: u64, tier: LoyaltyTier) -> u64 {
    ((price as int) * (spec_discount_pct(tier) as int) / 100) as u64
}

/// The demand-scaled price of a ticket, computed without overflow by
/// splitting the flat price into two 32-bit halves and long-dividing.
pub fn dynamic_price(price: u64, sold: u64, total: u64) -> (r: u64)
    requires
        1 <= total,
        sold <= total,
    ensures
        r == spec_dynamic_price(price, sold, total),
{
    let h: u64 = 0x1_0000_0000;
    let p1: u64 = price / h;
    let p0: u64 = price % h;
    let b: u128 = 2 * (sold as u128) + (total as u128);
    let d: u128 = 2 * (total as u128);
    proof {
        lemma_fundamental_div_mod(price as int, h as int);
        assert(p1 < 0x1_0000_0000) by (nonlinear_arith)
            requires
                p1 == price as int / 0x1_0000_0000,
                price <= u64::MAX,
        ;
        lemma_mul_upper_bound(p1 as int, 0xFFFF_FFFF, b as int, 3 * 0xFFFF_FFFF_FFFF_FFFFint);
    }
    let t1: u128 = (p1 as u128) * b;
    let q1: u128 = t1 / d;
    let r1: u128 = t1 % d;
    proof {
        lemma_fundamental_div_mod(t1 as int, d as int);
        // q1 is at most 1.5 * p1, since b is at most 3 * total.
        lemma_mul_inequality(b as int, 3 * (total as int), p1 as int);
        assert(q1 * d <= (3 * (total as int)) * (p1 as int)) by {
            assert(q1 * d <= t1);
        }
        assert(q1 <= 2 * (p1 as int)) by (nonlinear_arith)
            requires
                q1 * d <= (3 * (total as int)) * (p1 as int),
                d == 2 * (total as int),
                total >= 1,
                q1 >= 0,
                p1 >= 0,
        ;
        lemma_mul_upper_bound(p0 as int, 0xFFFF_FFFF, b as int, 3 * 0xFFFF_FFFF_FFFF_FFFFint);
    }
    let t2: u128 = r1 * (h as u128) + (p0 as u128) * b;
    let q2: u128 = t2 / d;
    proof {
        lemma_fundamental_div_mod(t2 as int, d as int);
        // q2 is at most 2^32 plus 1.5 * p0.
        assert(t2 < d * (0x1_0000_0000 + 2 * (p0 as int) + 1)) by (nonlinear_arith)
            requires
                t2 == r1 * 0x1_0000_0000 + (p0 as int) * (b as int),
                r1 < d,
                b <= 3 * (total as int),
                d == 2 * (total as int),
                total >= 1,
                p0 >= 0,
                r1 >= 0,
        ;
        assert(q2 < 0x1_0000_0000 + 2 * (p0 as int) + 1) by (nonlinear_arith)
            requires
                t2 == d * q2 + (t2 as int % d as int),
                t2 as int % d as int >= 0,
                t2 < d * (0x1_0000_0000 + 2 * (p0 as int) + 1),
                d >= 2,
                q2 >= 0,
        ;
    }
    let q: u128 = q1 * (h as u128) + q2;
    proof {
        let pi = price as int;
        let bi = b as int;
        let di = d as int;
        let hi = 0x1_0000_0000 as int;
        let r2 = t2 as int % di;
        assert(pi * bi == (q as int) * di + r2) by (nonlinear_arith)
            requires
                pi == (p1 as int) * hi + (p0 as int),
                t1 == (p1 as int) * bi,
                t1 == di * (q1 as int) + (r1 as int),
                t2 == (r1 as int) * hi + (p0 as int) * bi,
                t2 == di * (q2 as int) + r2,
                q == (q1 as int) * hi + (q2 as int),
        ;
        lemma_fundamental_div_mod_converse(pi * bi, di, q as int, r2);
        assert(q == pi * bi / di);
    }
    if q > u64::MAX as u128 {
        u64::MAX
    } else {
        q as u64
    }
}

/// A price after the loyalty discount of the given tier: the tier's
/// percentage of the price, truncating; the result never exceeds the price.
pub fn apply_loyalty_discount(price: u64, tier: LoyaltyTier) -> (r: u64)
    ensures
        r == spec_apply_discount(price, tier),
        r <= price,
{
    let pct: u64 = match tier {
        LoyaltyTier::Platinum => 80,
        LoyaltyTier::Gold => 85,
        LoyaltyTier::Silver => 90,
        LoyaltyTier::Bronze => 95,
    };
    proof {
        lemma_mul_upper_bound(price as int, u64::MAX as int, pct as int, 100);
        assert((price as int) * (pct as int) / 100 <= price) by (nonlinear_arith)
            requires
                pct <= 100,
                price >= 0,
                pct >= 0,
        ;
    }
    let wide: u128 = (price as u128) * (pct as u128);
    let discounted: u128 = wide / 100;
    discounted as u64
}

} // verus!
