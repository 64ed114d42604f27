use vstd::prelude::*;
use vstd::arithmetic::div_mod::lemma_fundamental_div_mod;
use vstd::arithmetic::div_mod::lemma_hoist_over_denominator;

verus! {

/// An amount of pooled funds, in minor units.
pub type Balance = u128;

/// The part of `total_rewards` that falls to `points` out of `total_points`:
/// the proportional part, rounded down to whole minor units.
pub open spec fn share_of(points: int, total_rewards: int, total_points: int) -> int {
    (points * total_rewards) / total_points
}

/// A holder of none of the points gets nothing, a holder of all of them gets
/// everything, and nobody gets more than there is.
pub proof fn lemma_share_bounds(points: int, total_rewards: int, total_points: int)
    requires
        0 <= points <= total_points,
        0 < total_points,
        0 <= total_rewards,
    ensures
        0 <= share_of(points, total_rewards, total_points) <= total_rewards,
        share_of(0, total_rewards, total_points) == 0,
        share_of(total_points, total_rewards, total_points) == total_rewards,
{
    let s = share_of(points, total_rewards, total_points);
    lemma_fundamental_div_mod(points * total_rewards, total_points);
    assert(0 <= points * total_rewards <= total_points * total_rewards) by (nonlinear_arith)
        requires
            0 <= points <= total_points,
            0 <= total_rewards,
    ;
    assert(0 <= s <= total_rewards) by (nonlinear_arith)
        requires
            0 < total_points,
            points * total_rewards == total_points * s + (points * total_rewards) % total_points,
            0 <= (points * total_rewards) % total_points < total_points,
            0 <= points * total_rewards <= total_points * total_rewards,
    ;
    assert(0 * total_rewards == 0);
    lemma_fundamental_div_mod(total_points * total_rewards, total_points);
    let t = share_of(total_points, total_rewards, total_points);
    assert(t == total_rewards) by (nonlinear_arith)
        requires
            0 < total_points,
            total_points * total_rewards == total_points * t + (total_points * total_rewards)
                % total_points,
            0 <= (total_points * total_rewards) % total_points < total_points,
    ;
}

/// The share of `points` out of `total_points` in `total_rewards`.
///
/// The product of the two may need more than 128 bits. The pool is therefore
/// split into whole multiples of `total_points` and a rest below it, and the
/// two parts are shared out one after the other.
pub fn reward_share(points: u64, total_rewards: Balance, total_points: u64) -> (reward: Balance)
    requires
        0 < total_points,
        points <= total_points,
    ensures
        reward == share_of(points as int, total_rewards as int, total_points as int),
        reward <= total_rewards,
{
    let p: u128 = points as u128;
    let t: u128 = total_points as u128;
    let whole: u128 = total_rewards / t;
    let rest: u128 = total_rewards % t;
    proof {
        lemma_fundamental_div_mod(total_rewards as int, t as int);
        lemma_share_bounds(points as int, total_rewards as int, total_points as int);
        assert(0 <= p * whole <= total_rewards) by (nonlinear_arith)
            requires
                0 <= p <= t,
                0 <= whole,
                0 <= rest,
                total_rewards == t * whole + rest,
        ;
        assert(0 <= p * rest < 0x1_0000_0000_0000_0000 * 0x1_0000_0000_0000_0000)
            by (nonlinear_arith)
            requires
                0 <= p < 0x1_0000_0000_0000_0000,
                0 <= rest < 0x1_0000_0000_0000_0000,
        ;
        assert(p * total_rewards == p * rest + (p * whole) * t) by (nonlinear_arith)
            requires
                total_rewards == t * whole + rest,
        ;
        lemma_hoist_over_denominator(p * rest, p * whole, t as nat);
    }
    let from_whole: u128 = p * whole;
    let from_rest: u128 = (p * rest) / t;
    from_whole + from_rest
}

} // verus!
