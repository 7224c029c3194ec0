use vstd::prelude::*;
use crate::entities::LoyaltyTier;

verus! {

/// Loyalty points earned by a purchase: one point per ten units spent as the
/// base, plus a bonus of half, a quarter or a tenth of the base for purchases
/// of at least 1000, 500 or 200 units respectively; the bonuses are mutually
/// exclusive, highest threshold first.
pub open spec fn spec_calculate_points(purchase_amount: u64) -> u64 {
    (spec_base_points(purchase_amount) + spec_bonus_points(purchase_amount)) as u64
}

pub open spec fn spec_base_points(purchase_amount: u64) -> u64 {
    purchase_amount / 10
}

pub open spec fn spec_bonus_points(purchase_amount: u64) -> u64 {
    let base = spec_base_points(purchase_amount);
    if purchase_amount >= 1000 {
        base / 2
    } else if purchase_amount >= 500 {
        base / 4
    } else if purchase_amount >= 200 {
        base / 10
    } else {
        0
    }
}

/// Points awarded for a purchase of the given amount. The result never
/// exceeds 15% of the amount, so it always fits both `u64` and `i64`.
pub fn calculate_points(purchase_amount: u64) -> (points: u64)
    ensures
        points == spec_calculate_points(purchase_amount),
        points <= i64::MAX as u64,
{
    let base_points = purchase_amount / 10;
    let bonus_points = if purchase_amount >= 1000 {
        base_points / 2
    } else if purchase_amount >= 500 {
        base_points / 4
    } else if purchase_amount >= 200 {
        base_points / 10
    } else {
        0
    };
    base_points + bonus_points
}

/// The tier a point balance earns: at least 10000 points is Platinum, 5000
/// Gold, 2000 Silver, anything lower Bronze.
pub open spec fn spec_tier_for(points: u64) -> LoyaltyTier {
    if points >= 10000 {
        LoyaltyTier::Platinum
    } else if points >= 5000 {
        LoyaltyTier::Gold
    } else if points >= 2000 {
        LoyaltyTier::Silver
    } else {
        LoyaltyTier::Bronze
    }
}

/// The tier that a point balance earns.
pub fn tier_for_points(points: u64) -> (tier: LoyaltyTier)
    ensures
        tier == spec_tier_for(points),
{
    if points >= 10000 {
        LoyaltyTier::Platinum
    } else if points >= 5000 {
        LoyaltyTier::Gold
    } else if points >= 2000 {
        LoyaltyTier::Silver
    } else {
        LoyaltyTier::Bronze
    }
}

} // verus!
