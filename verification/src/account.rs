use vstd::prelude::*;
use ink::primitives::AccountId;

verus! {

/// `ink::primitives::AccountId`, the 32-byte identity of an account.
/// The ledger only carries such values and tells them apart.
#[verifier::external_type_specification]
#[verifier::external_body]
pub struct ExAccountId(AccountId);

/// Calls `PartialEq::eq` of `ink::primitives::AccountId`, which `derive`
/// wrote over the 32 bytes that make up the identity. Unproved claim: the
/// answer is `true` exactly when both are the same account.
#[verifier::external_body]
pub(crate) fn same_account(left: &AccountId, right: &AccountId) -> (same: bool)
    ensures
        same == (*left == *right),
{
    left.eq(right)
}

/// Where `account` first stands in `accounts`, if it does.
pub fn position_of(accounts: &Vec<AccountId>, account: &AccountId) -> (place: Option<usize>)
    ensures
        match place {
            Some(i) => {
                &&& i < accounts@.len()
                &&& accounts@[i as int] == *account
                &&& forall|j: int| 0 <= j < i ==> accounts@[j] != *account
            },
            None => !accounts@.contains(*account),
        },
{
    let mut i: usize = 0;
    while i < accounts.len()
        invariant
            i <= accounts@.len(),
            forall|j: int| 0 <= j < i ==> accounts@[j] != *account,
        decreases accounts@.len() - i,
    {
        if same_account(&accounts[i], account) {
            return Some(i);
        }
        i += 1;
    }
    None
}

/// Whether `account` is one of `accounts`.
pub fn contains_account(accounts: &Vec<AccountId>, account: &AccountId) -> (found: bool)
    ensures
        found == accounts@.contains(*account),
{
    position_of(accounts, account).is_some()
}

/// The list of accounts after `account` was seen: at the end if it is new.
pub open spec fn noted(accounts: Seq<AccountId>, account: AccountId) -> Seq<AccountId> {
    if accounts.contains(account) {
        accounts
    } else {
        accounts.push(account)
    }
}

/// Noting an account keeps a list free of repetitions, and adds that
/// account and no other.
pub proof fn lemma_noted(accounts: Seq<AccountId>, account: AccountId)
    ensures
        accounts.no_duplicates() ==> noted(accounts, account).no_duplicates(),
        forall|other: AccountId| #[trigger]
            noted(accounts, account).contains(other) <==> accounts.contains(other) || other
                == account,
{
    let after = noted(accounts, account);
    if !accounts.contains(account) {
        assert forall|other: AccountId| #[trigger]
            after.contains(other) <==> accounts.contains(other) || other == account by {
            if accounts.contains(other) {
                let i = choose|i: int| 0 <= i < accounts.len() && accounts[i] == other;
                assert(after[i] == other);
            }
            if other == account {
                assert(after[accounts.len() as int] == other);
            }
            if after.contains(other) {
                let i = choose|i: int| 0 <= i < after.len() && after[i] == other;
                if i < accounts.len() {
                    assert(accounts[i] == other);
                }
            }
        }
        if accounts.no_duplicates() {
            assert forall|i: int, j: int|
                0 <= i < after.len() && 0 <= j < after.len() && i != j implies after[i]
                != after[j] by {
                if i < accounts.len() {
                    assert(after[i] == accounts[i]);
                }
                if j < accounts.len() {
                    assert(after[j] == accounts[j]);
                }
            }
        }
    }
}

/// Taking the first occurrence of an account out of a list without
/// repetitions leaves a list without repetitions that holds every other
/// account and not this one.
pub proof fn lemma_remove_value(accounts: Seq<AccountId>, account: AccountId)
    requires
        accounts.no_duplicates(),
    ensures
        accounts.remove_value(account).no_duplicates(),
        forall|other: AccountId| #[trigger]
            accounts.remove_value(account).contains(other) <==> accounts.contains(other) && other
                != account,
{
    accounts.index_of_first_ensures(account);
    let after = accounts.remove_value(account);
    match accounts.index_of_first(account) {
        Some(at) => {
            assert forall|i: int, j: int|
                0 <= i < after.len() && 0 <= j < after.len() && i != j implies after[i]
                != after[j] by {
                let i0 = if i < at { i } else { i + 1 };
                let j0 = if j < at { j } else { j + 1 };
                assert(after[i] == accounts[i0] && after[j] == accounts[j0]);
            }
            assert forall|other: AccountId| #[trigger]
                after.contains(other) <==> accounts.contains(other) && other != account by {
                if after.contains(other) {
                    let i = choose|i: int| 0 <= i < after.len() && after[i] == other;
                    let i0 = if i < at { i } else { i + 1 };
                    assert(accounts[i0] == other);
                }
                if accounts.contains(other) && other != account {
                    let i = choose|i: int| 0 <= i < accounts.len() && accounts[i] == other;
                    let i1 = if i < at { i } else { i - 1 };
                    assert(after[i1] == other);
                }
            }
        },
        None => {},
    }
}

/// The accounts up to and including the one at `i` are those before it and
/// that one.
pub proof fn lemma_take_next(accounts: Seq<AccountId>, i: int)
    requires
        0 <= i < accounts.len(),
    ensures
        accounts.take(i + 1).to_set() == accounts.take(i).to_set().insert(accounts[i]),
        accounts.no_duplicates() ==> !accounts.take(i).contains(accounts[i]),
{
    let done = accounts.take(i);
    let more = accounts.take(i + 1);
    assert forall|a: AccountId| more.to_set().contains(a) <==> done.to_set().insert(
        accounts[i],
    ).contains(a) by {
        if a == accounts[i] {
            assert(more[i] == a);
        }
        if done.contains(a) {
            let j = choose|j: int| 0 <= j < done.len() && done[j] == a;
            assert(more[j] == a);
        }
        if more.contains(a) {
            let j = choose|j: int| 0 <= j < more.len() && more[j] == a;
            if j < done.len() {
                assert(done[j] == a);
            }
        }
    }
    assert(more.to_set() =~= done.to_set().insert(accounts[i]));
    if accounts.no_duplicates() && done.contains(accounts[i]) {
        let j = choose|j: int| 0 <= j < done.len() && done[j] == accounts[i];
        assert(accounts[j] == accounts[i]);
    }
}

/// Whether no account stands twice in `accounts`.
pub fn all_distinct(accounts: &Vec<AccountId>) -> (distinct: bool)
    ensures
        distinct == accounts@.no_duplicates(),
{
    let mut i: usize = 0;
    while i < accounts.len()
        invariant
            i <= accounts@.len(),
            forall|a: int, b: int| 0 <= a < b < i ==> accounts@[a] != accounts@[b],
        decreases accounts@.len() - i,
    {
        let mut j: usize = 0;
        while j < i
            invariant
                j <= i < accounts@.len(),
                forall|a: int| 0 <= a < j ==> accounts@[a] != accounts@[i as int],
            decreases i - j,
        {
            if same_account(&accounts[j], &accounts[i]) {
                return false;
            }
            j += 1;
        }
        i += 1;
    }
    assert forall|a: int, b: int|
        0 <= a < accounts@.len() && 0 <= b < accounts@.len() && a != b implies accounts@[a]
        != accounts@[b] by {
        if a < b {
            assert(accounts@[a] != accounts@[b]);
        } else {
            assert(accounts@[b] != accounts@[a]);
        }
    }
    true
}

/// Puts `account` at the end of `accounts` unless it is there already.
pub fn note_account(accounts: &mut Vec<AccountId>, account: AccountId)
    ensures
        final(accounts)@ == noted(old(accounts)@, account),
{
    if !contains_account(accounts, &account) {
        accounts.push(account);
    }
}

} // verus!
