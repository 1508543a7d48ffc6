//! Currency constants and the reward arithmetic shared by every component.
//!
//! Amounts are unsigned 64-bit fixed-point values: one display unit is
//! `SCALE` smallest units. Every share and rate is computed in whole units
//! and rounded down.

use crate::table::sum_of;
use vstd::prelude::*;

verus! {

/// Smallest units per display unit.
pub const SCALE: u64 = 1_000_000_000;

/// Tokens handed out by one token request.
pub const TOKEN_GRANT: u64 = 1000;

/// Fee for minting an item.
pub const MINT_COST: u64 = 10_000_000_000;

/// Fee for uploading content.
pub const UPLOAD_COST: u64 = 5_000_000_000;

/// Fee for publishing a post.
pub const POST_COST: u64 = 3_000_000_000;

/// Creator reward for a like, and for a comment on a post.
pub const LIKE_REWARD: u64 = 1_000_000_000;

/// Creator reward for a comment on content.
pub const COMMENT_REWARD: u64 = 2_000_000_000;

/// Price of a paid like.
pub const PAID_LIKE_COST: u64 = 50_000_000;

/// Cheapest boost.
pub const BOOST_MIN_COST: u64 = 1_000_000_000;

/// Dearest boost.
pub const BOOST_MAX_COST: u64 = 2_000_000_000;

/// Most creator reward one player can be granted within the tracker's period.
pub const DAILY_CEILING: u64 = 500_000_000_000;

/// Reward shared out by one activity distribution.
pub const ACTIVITY_POOL_REWARD: u64 = 500;

/// Reward credited to the mining pool by one mined block.
pub const BLOCK_REWARD: u64 = 50;

/// The sum of two amounts, held at the largest representable amount.
pub open spec fn sat_add(a: u64, b: u64) -> u64 {
    if a + b > u64::MAX {
        u64::MAX
    } else {
        (a + b) as u64
    }
}

/// The burn associated with `amount`: one percent, rounded down.
pub open spec fn burn_of(amount: u64) -> u64 {
    amount / 100
}

/// The creator's share of a paid action: eighty percent, rounded down.
pub open spec fn creator_share(cost: u64) -> u64 {
    (cost * 8 / 10) as u64
}

/// The share of a paid action that goes to the platform pool, and equally to
/// the community pool: ten percent, rounded down.
pub open spec fn pool_share(cost: u64) -> u64 {
    cost / 10
}

/// Whether `cost` is the price of some paid action: a paid like, or a boost
/// of a whole number of display units within the boost range.
pub open spec fn is_paid_cost(cost: u64) -> bool {
    cost == PAID_LIKE_COST || (BOOST_MIN_COST <= cost <= BOOST_MAX_COST && cost % SCALE == 0)
}

/// The reward rate per view before the reputation multiplier, stepping down
/// as the population grows.
pub open spec fn base_rate(total_users: u64) -> u64 {
    if total_users <= 1_000_000 {
        100_000_000
    } else if total_users <= 10_000_000 {
        50_000_000
    } else if total_users <= 50_000_000 {
        10_000_000
    } else {
        1_000_000
    }
}

/// The reputation multiplier in tenths: 1.0, 1.2, 1.5 or 2.0.
pub open spec fn multiplier_tenths(reputation: u64) -> u64 {
    if reputation <= 100 {
        10
    } else if reputation <= 200 {
        12
    } else if reputation <= 300 {
        15
    } else {
        20
    }
}

/// The tiered reward for a population of `total_users` and a player of the
/// given reputation.
pub open spec fn mining_reward_of(total_users: u64, reputation: u64) -> u64 {
    (base_rate(total_users) * multiplier_tenths(reputation) / 10) as u64
}

/// What the cap lets through of `proposed` when `granted` has been granted
/// already.
pub open spec fn cap_grant(granted: u64, proposed: u64) -> u64 {
    if granted >= DAILY_CEILING {
        0
    } else if proposed <= DAILY_CEILING - granted {
        proposed
    } else {
        (DAILY_CEILING - granted) as u64
    }
}

/// A share of `reward` in proportion `part / total`, rounded down; nothing
/// when there is no total.
pub open spec fn proportional_share(part: u64, reward: u64, total: nat) -> u64 {
    if total == 0 || part > total {
        0
    } else {
        (part * reward / (total as int)) as u64
    }
}

/// How a paid action's cost is divided.
#[derive(Debug, Clone, Copy, PartialEq, Eq)]
pub struct RevenueSplit {
    pub creator: u64,
    pub platform: u64,
    pub community: u64,
}

/// Computes the burn associated with `amount`. The value is reported only:
/// nothing is deducted from any balance.
pub fn burn(amount: u64) -> (burned: u64)
    ensures
        burned == burn_of(amount),
{
    amount / 100
}

/// Divides `cost` into the creator's, the platform's and the community's
/// share, each rounded down.
pub fn split_revenue(cost: u64) -> (split: RevenueSplit)
    ensures
        split.creator == creator_share(cost),
        split.platform == pool_share(cost),
        split.community == pool_share(cost),
{
    let tenth: u64 = cost / 10;
    let rest: u64 = cost % 10;
    assert(cost * 8 / 10 == tenth * 8 + rest * 8 / 10) by {
        assert(cost == tenth * 10 + rest);
    }
    RevenueSplit { creator: tenth * 8 + rest * 8 / 10, platform: tenth, community: tenth }
}

/// Computes the tiered reward for a view.
pub fn mining_reward(total_users: u64, reputation: u64) -> (reward: u64)
    ensures
        reward == mining_reward_of(total_users, reputation),
{
    let rate: u64 = if total_users <= 1_000_000 {
        100_000_000
    } else if total_users <= 10_000_000 {
        50_000_000
    } else if total_users <= 50_000_000 {
        10_000_000
    } else {
        1_000_000
    };
    let tenths: u64 = if reputation <= 100 {
        10
    } else if reputation <= 200 {
        12
    } else if reputation <= 300 {
        15
    } else {
        20
    };
    rate * tenths / 10
}

/// Clips `proposed` so that the running total `granted` stays within the
/// daily ceiling.
pub fn clip_to_cap(granted: u64, proposed: u64) -> (allowed: u64)
    ensures
        allowed == cap_grant(granted, proposed),
        allowed <= proposed,
        granted <= DAILY_CEILING ==> granted + allowed <= DAILY_CEILING,
{
    let remaining: u64 = DAILY_CEILING.saturating_sub(granted);
    if proposed <= remaining {
        proposed
    } else {
        remaining
    }
}

/// Computes the share of `reward` owed to a holder of `part` out of `total`.
pub fn share_of(part: u64, reward: u64, total: u128) -> (share: u64)
    ensures
        share == proportional_share(part, reward, total as nat),
        share <= reward,
{
    if total == 0 || part as u128 > total {
        0
    } else {
        proof {
            lemma_share_bounded(part, reward, total as nat);
        }
        assert(part * reward <= u64::MAX * u64::MAX) by (nonlinear_arith)
            requires
                0 <= part <= u64::MAX,
                0 <= reward <= u64::MAX,
        ;
        let wide: u128 = (part as u128) * (reward as u128);
        (wide / total) as u64
    }
}

/// A proportional share is never more than the reward, and `total` times
/// the share is never more than `part` times the reward.
pub proof fn lemma_share_bounded(part: u64, reward: u64, total: nat)
    ensures
        proportional_share(part, reward, total) <= reward,
        proportional_share(part, reward, total) * total <= part * reward,
        total > 0 && part <= total ==> proportional_share(part, reward, total) == part * reward / (
        total as int),
{
    if total == 0 || part > total {
        assert(0 * total <= part * reward) by (nonlinear_arith)
            requires
                part >= 0,
                reward >= 0,
        ;
    } else {
        let exact = part * reward / (total as int);
        assert(0 <= exact <= reward && exact * total <= part * reward) by (nonlinear_arith)
            requires
                exact == part * reward / (total as int),
                0 <= part <= total,
                total > 0,
                reward >= 0,
        ;
    }
}

/// The three shares of a cost that is a multiple of ten add up to the cost.
pub proof fn lemma_split_conserves(cost: u64)
    requires
        cost % 10 == 0,
    ensures
        creator_share(cost) + pool_share(cost) + pool_share(cost) == cost,
{
}

/// For every paid action, the creator's, the platform's and the community's
/// share add up to the cost.
pub proof fn lemma_paid_split_conserves(cost: u64)
    requires
        is_paid_cost(cost),
    ensures
        creator_share(cost) + pool_share(cost) + pool_share(cost) == cost,
{
    assert(cost % 10 == 0) by {
        if cost != PAID_LIKE_COST {
            assert(cost == (cost / SCALE) * SCALE);
        }
    }
    lemma_split_conserves(cost);
}

/// The cap never lets a running total pass the ceiling, and never grants
/// more than was asked.
pub proof fn lemma_cap_bounded(granted: u64, proposed: u64)
    requires
        granted <= DAILY_CEILING,
    ensures
        cap_grant(granted, proposed) <= proposed,
        granted + cap_grant(granted, proposed) <= DAILY_CEILING,
        cap_grant(granted, proposed) == if proposed <= DAILY_CEILING - granted {
            proposed as int
        } else {
            DAILY_CEILING - granted
        },
{
}

/// What the first `n` holders receive together when `reward` is shared out
/// in proportion to `parts`.
pub open spec fn shares_paid(parts: Seq<u64>, reward: u64, n: nat) -> nat
    decreases n,
{
    if n == 0 {
        0
    } else {
        shares_paid(parts, reward, (n - 1) as nat) + proportional_share(
            parts[n - 1],
            reward,
            sum_of(parts),
        ) as nat
    }
}

/// Shares in proportion to parts never add up to more than the reward that
/// is shared out: what rounding leaves over is kept back.
pub proof fn lemma_shares_never_exceed(parts: Seq<u64>, reward: u64, n: nat)
    requires
        n <= parts.len(),
    ensures
        shares_paid(parts, reward, n) * sum_of(parts) <= reward * sum_of(parts.take(n as int)),
        n == parts.len() ==> shares_paid(parts, reward, n) <= reward,
    decreases n,
{
    let total = sum_of(parts);
    if n > 0 {
        let m = (n - 1) as nat;
        lemma_shares_never_exceed(parts, reward, m);
        let part = parts[n - 1];
        let share = proportional_share(part, reward, total);
        lemma_share_bounded(part, reward, total);
        assert(parts.take(n as int).drop_last() =~= parts.take(m as int));
        assert(sum_of(parts.take(n as int)) == sum_of(parts.take(m as int)) + part);
        assert(shares_paid(parts, reward, n) * total <= reward * sum_of(parts.take(n as int)))
            by (nonlinear_arith)
            requires
                shares_paid(parts, reward, n) == shares_paid(parts, reward, m) + share,
                shares_paid(parts, reward, m) * total <= reward * sum_of(parts.take(m as int)),
                share * total <= part * reward,
                sum_of(parts.take(n as int)) == sum_of(parts.take(m as int)) + part,
        ;
    } else {
        assert(shares_paid(parts, reward, n) * total == 0) by (nonlinear_arith)
            requires
                shares_paid(parts, reward, n) == 0,
        ;
        assert(reward * sum_of(parts.take(n as int)) >= 0) by (nonlinear_arith)
            requires
                reward >= 0,
                sum_of(parts.take(n as int)) >= 0,
        ;
    }
    if n == parts.len() {
        assert(parts.take(n as int) =~= parts);
        if total == 0 {
            lemma_nothing_to_share(parts, reward, n);
        } else {
            assert(shares_paid(parts, reward, n) <= reward) by (nonlinear_arith)
                requires
                    shares_paid(parts, reward, n) * total <= reward * total,
                    total > 0,
            ;
        }
    }
}

/// Where the parts add up to nothing, nothing is paid.
pub proof fn lemma_nothing_to_share(parts: Seq<u64>, reward: u64, n: nat)
    requires
        n <= parts.len(),
        sum_of(parts) == 0,
    ensures
        shares_paid(parts, reward, n) == 0,
    decreases n,
{
    if n > 0 {
        lemma_nothing_to_share(parts, reward, (n - 1) as nat);
    }
}

} // verus!
