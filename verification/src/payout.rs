use vstd::prelude::*;
use vstd::arithmetic::div_mod::lemma_fundamental_div_mod;
use ink::primitives::AccountId;
use crate::events::RewardGranted;
use crate::share::lemma_share_bounds;
use crate::share::share_of;
use crate::share::Balance;
use crate::tally::lemma_sum_bounds_each;
use crate::tally::points_of;
use crate::tally::points_sum;

verus! {

/// What `recipient` is owed out of `total_rewards` for the points earned,
/// where `total_points` were earned by all.
pub open spec fn payout_of(
    recipient: AccountId,
    earned: Map<AccountId, u64>,
    total_rewards: Balance,
    total_points: u64,
) -> RewardGranted {
    RewardGranted {
        recipient,
        reward: share_of(points_of(earned, recipient), total_rewards as int, total_points as int)
            as Balance,
        points: points_of(earned, recipient) as u64,
    }
}

/// The payouts of a distribution, one for each recipient and in their order.
pub open spec fn payouts_of(
    recipients: Seq<AccountId>,
    earned: Map<AccountId, u64>,
    total_rewards: Balance,
    total_points: u64,
) -> Seq<RewardGranted> {
    Seq::new(
        recipients.len(),
        |i: int| payout_of(recipients[i], earned, total_rewards, total_points),
    )
}

/// What a list of payouts takes out of the pool.
pub open spec fn rewards_sum(grants: Seq<RewardGranted>) -> int
    decreases grants.len(),
{
    if grants.len() == 0 {
        0
    } else {
        rewards_sum(grants.drop_last()) + grants.last().reward
    }
}

/// Each payout falls short of the exact proportional part by less than one
/// minor unit, so the payouts of any list of recipients, taken times the
/// total of points, lie below the pool times their points by less than the
/// total of points for each of them.
proof fn lemma_payouts_bracket(
    recipients: Seq<AccountId>,
    earned: Map<AccountId, u64>,
    total_rewards: Balance,
    total_points: u64,
)
    requires
        0 < total_points,
        forall|i: int|
            0 <= i < recipients.len() ==> points_of(earned, #[trigger] recipients[i])
                <= total_points,
    ensures
        0 <= rewards_sum(payouts_of(recipients, earned, total_rewards, total_points)),
        total_points * rewards_sum(payouts_of(recipients, earned, total_rewards, total_points))
            <= total_rewards * points_sum(recipients, earned),
        total_rewards * points_sum(recipients, earned) <= total_points * rewards_sum(
            payouts_of(recipients, earned, total_rewards, total_points),
        ) + recipients.len() * (total_points - 1),
    decreases recipients.len(),
{
    let grants = payouts_of(recipients, earned, total_rewards, total_points);
    if recipients.len() > 0 {
        let shorter = recipients.drop_last();
        let last = recipients.last();
        assert(last == recipients[recipients.len() - 1]);
        assert forall|i: int| 0 <= i < shorter.len() implies points_of(
            earned,
            #[trigger] shorter[i],
        ) <= total_points by {
            assert(shorter[i] == recipients[i]);
        }
        lemma_payouts_bracket(shorter, earned, total_rewards, total_points);
        assert(grants.drop_last() =~= payouts_of(shorter, earned, total_rewards, total_points));
        let p = points_of(earned, last);
        let r = total_rewards as int;
        let t = total_points as int;
        let share = share_of(p, r, t);
        lemma_share_bounds(p, r, t);
        assert(grants.last().reward == share);
        lemma_fundamental_div_mod(p * r, t);
        let before = rewards_sum(grants.drop_last());
        let points_before = points_sum(shorter, earned);
        let n = shorter.len() as int;
        assert(t * (before + share) <= r * (points_before + p) && r * (points_before + p) <= t * (
        before + share) + (n + 1) * (t - 1)) by (nonlinear_arith)
            requires
                t * before <= r * points_before,
                r * points_before <= t * before + n * (t - 1),
                p * r == t * share + (p * r) % t,
                0 <= (p * r) % t < t,
        ;
    } else {
        assert(total_rewards * 0 == 0);
        assert(total_points * 0 == 0);
    }
}

/// A distribution never takes more out of the pool than was set aside for
/// it, and what it leaves behind by rounding down is less than one minor
/// unit for each recipient.
pub proof fn lemma_payouts_within_pool(
    recipients: Seq<AccountId>,
    earned: Map<AccountId, u64>,
    total_rewards: Balance,
    total_points: u64,
)
    requires
        0 < total_points,
        total_points == points_sum(recipients, earned),
    ensures
        0 <= rewards_sum(payouts_of(recipients, earned, total_rewards, total_points))
            <= total_rewards,
        total_rewards - rewards_sum(payouts_of(recipients, earned, total_rewards, total_points))
            < recipients.len(),
{
    assert forall|i: int| 0 <= i < recipients.len() implies points_of(
        earned,
        #[trigger] recipients[i],
    ) <= total_points by {
        lemma_sum_bounds_each(recipients, earned, recipients[i]);
    }
    lemma_payouts_bracket(recipients, earned, total_rewards, total_points);
    let paid = rewards_sum(payouts_of(recipients, earned, total_rewards, total_points));
    let r = total_rewards as int;
    let t = total_points as int;
    let n = recipients.len() as int;
    assert(n > 0) by {
        if recipients.len() == 0 {
            assert(points_sum(recipients, earned) == 0);
        }
    }
    assert(paid <= r && r - paid < n) by (nonlinear_arith)
        requires
            0 < t,
            0 < n,
            t * paid <= r * t,
            r * t <= t * paid + n * (t - 1),
    ;
}

} // verus!
