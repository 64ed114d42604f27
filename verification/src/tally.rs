use vstd::prelude::*;
use ink::primitives::AccountId;
use crate::points::PointsMap;

verus! {

/// The points that `account` has in `counters`: none where it has no counter.
pub open spec fn points_of(counters: Map<AccountId, u64>, account: AccountId) -> int {
    if counters.contains_key(account) {
        counters[account] as int
    } else {
        0
    }
}

/// The sum, over `accounts`, of the points each has in `counters`.
pub open spec fn points_sum(accounts: Seq<AccountId>, counters: Map<AccountId, u64>) -> int
    decreases accounts.len(),
{
    if accounts.len() == 0 {
        0
    } else {
        points_sum(accounts.drop_last(), counters) + points_of(counters, accounts.last())
    }
}

/// A sum of points is never negative.
pub proof fn lemma_sum_nonnegative(accounts: Seq<AccountId>, counters: Map<AccountId, u64>)
    ensures
        0 <= points_sum(accounts, counters),
    decreases accounts.len(),
{
    if accounts.len() > 0 {
        lemma_sum_nonnegative(accounts.drop_last(), counters);
    }
}

/// One more account at the end adds its points to the sum.
pub proof fn lemma_sum_push(
    accounts: Seq<AccountId>,
    counters: Map<AccountId, u64>,
    account: AccountId,
)
    ensures
        points_sum(accounts.push(account), counters) == points_sum(accounts, counters)
            + points_of(counters, account),
{
    assert(accounts.push(account).drop_last() =~= accounts);
}

/// Changing the counter of one listed account changes the sum by as much,
/// where the list names no account twice.
pub proof fn lemma_sum_insert(
    accounts: Seq<AccountId>,
    counters: Map<AccountId, u64>,
    account: AccountId,
    points: u64,
)
    requires
        accounts.no_duplicates(),
    ensures
        points_sum(accounts, counters.insert(account, points)) == if accounts.contains(account) {
            points_sum(accounts, counters) - points_of(counters, account) + points
        } else {
            points_sum(accounts, counters)
        },
    decreases accounts.len(),
{
    let after = counters.insert(account, points);
    if accounts.len() > 0 {
        let shorter = accounts.drop_last();
        let last = accounts.last();
        assert(shorter.no_duplicates()) by {
            assert forall|i: int, j: int|
                0 <= i < shorter.len() && 0 <= j < shorter.len() && i != j implies shorter[i]
                != shorter[j] by {
                assert(shorter[i] == accounts[i] && shorter[j] == accounts[j]);
            }
        }
        lemma_sum_insert(shorter, counters, account, points);
        if last == account {
            assert(!shorter.contains(account)) by {
                if shorter.contains(account) {
                    let i = choose|i: int| 0 <= i < shorter.len() && shorter[i] == account;
                    assert(accounts[i] == account);
                    assert(accounts[accounts.len() - 1] == account);
                }
            }
            assert(accounts.contains(account)) by {
                assert(accounts[accounts.len() - 1] == account);
            }
        } else {
            assert(accounts.contains(account) == shorter.contains(account)) by {
                if shorter.contains(account) {
                    let i = choose|i: int| 0 <= i < shorter.len() && shorter[i] == account;
                    assert(accounts[i] == account);
                }
                if accounts.contains(account) {
                    let i = choose|i: int| 0 <= i < accounts.len() && accounts[i] == account;
                    assert(shorter[i] == account);
                }
            }
        }
    } else {
        assert(!accounts.contains(account));
    }
}

/// No listed account has more points than all of them together.
pub proof fn lemma_sum_bounds_each(
    accounts: Seq<AccountId>,
    counters: Map<AccountId, u64>,
    account: AccountId,
)
    requires
        accounts.contains(account),
    ensures
        points_of(counters, account) <= points_sum(accounts, counters),
    decreases accounts.len(),
{
    let shorter = accounts.drop_last();
    lemma_sum_nonnegative(shorter, counters);
    if accounts.last() != account {
        let i = choose|i: int| 0 <= i < accounts.len() && accounts[i] == account;
        assert(shorter[i] == account);
        lemma_sum_bounds_each(shorter, counters, account);
    }
}

/// Adds up what the accounts of `accounts` have in `counters`.
pub fn sum_points(accounts: &Vec<AccountId>, counters: &PointsMap) -> (sum: u128)
    ensures
        sum == points_sum(accounts@, counters@),
{
    let mut sum: u128 = 0;
    let mut i: usize = 0;
    while i < accounts.len()
        invariant
            i <= accounts@.len(),
            sum == points_sum(accounts@.take(i as int), counters@),
            sum <= i * 0xffff_ffff_ffff_ffff,
        decreases accounts@.len() - i,
    {
        let points: u64 = match counters.get(&accounts[i]) {
            Some(points) => points,
            None => 0,
        };
        proof {
            let more = accounts@.take(i as int + 1);
            assert(more.drop_last() =~= accounts@.take(i as int));
            assert(more.last() == accounts@[i as int]);
            assert((i + 1) * 0xffff_ffff_ffff_ffff <= 0xffff_ffff_ffff_ffff
                * 0xffff_ffff_ffff_ffff) by (nonlinear_arith)
                requires
                    0 <= i < 0xffff_ffff_ffff_ffff,
            ;
            assert(i * 0xffff_ffff_ffff_ffff + 0xffff_ffff_ffff_ffff == (i + 1)
                * 0xffff_ffff_ffff_ffff) by (nonlinear_arith);
        }
        sum = sum + points as u128;
        i += 1;
    }
    proof {
        assert(accounts@.take(i as int) =~= accounts@);
    }
    sum
}

} // verus!
