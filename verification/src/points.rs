use vstd::prelude::*;
use ink::primitives::AccountId;
use crate::account::same_account;

verus! {

/// One counter: an account and the points that stand against it.
#[derive(Debug, Clone, Copy)]
struct PointsEntry {
    account: AccountId,
    points: u64,
}

/// Counters of points, one per account at most. An account without a
/// counter is absent from the map, which is not the same as a counter of
/// zero.
#[derive(Debug)]
pub struct PointsMap {
    entries: Vec<PointsEntry>,
}

/// No account has two counters.
spec fn distinct_accounts(entries: Seq<PointsEntry>) -> bool {
    forall|i: int, j: int|
        0 <= i < entries.len() && 0 <= j < entries.len() && i != j ==> entries[i].account
            != entries[j].account
}

/// Whether `account` has a counter among `entries`.
spec fn has_entry(entries: Seq<PointsEntry>, account: AccountId) -> bool {
    exists|i: int| 0 <= i < entries.len() && (#[trigger] entries[i]).account == account
}

/// The place of the counter of `account` among `entries`.
spec fn entry_index(entries: Seq<PointsEntry>, account: AccountId) -> int {
    choose|i: int| 0 <= i < entries.len() && (#[trigger] entries[i]).account == account
}

/// The counters as a map from account to points.
spec fn entries_map(entries: Seq<PointsEntry>) -> Map<AccountId, u64> {
    Map::new(
        |account: AccountId| has_entry(entries, account),
        |account: AccountId| entries[entry_index(entries, account)].points,
    )
}

/// Each counter is found under its account, and nothing else is.
proof fn lemma_entries_map(entries: Seq<PointsEntry>)
    requires
        distinct_accounts(entries),
    ensures
        forall|i: int|
            0 <= i < entries.len() ==> {
                &&& entries_map(entries).contains_key((#[trigger] entries[i]).account)
                &&& entries_map(entries)[entries[i].account] == entries[i].points
            },
        forall|account: AccountId| #[trigger]
            entries_map(entries).contains_key(account) ==> {
                &&& 0 <= entry_index(entries, account) < entries.len()
                &&& entries[entry_index(entries, account)].account == account
            },
{
    assert forall|i: int| 0 <= i < entries.len() implies {
        &&& entries_map(entries).contains_key((#[trigger] entries[i]).account)
        &&& entries_map(entries)[entries[i].account] == entries[i].points
    } by {
        let account = entries[i].account;
        assert(has_entry(entries, account));
        let k = entry_index(entries, account);
        assert(0 <= k < entries.len() && entries[k].account == account);
        assert(k == i);
    }
}

/// Overwriting the points of the counter at `i` overwrites them in the map.
proof fn lemma_entries_map_update(entries: Seq<PointsEntry>, i: int, points: u64)
    requires
        distinct_accounts(entries),
        0 <= i < entries.len(),
    ensures
        distinct_accounts(entries.update(i, PointsEntry { account: entries[i].account, points })),
        entries_map(entries.update(i, PointsEntry { account: entries[i].account, points }))
            == entries_map(entries).insert(entries[i].account, points),
{
    let account = entries[i].account;
    let after = entries.update(i, PointsEntry { account, points });
    let wanted = entries_map(entries).insert(account, points);
    assert forall|a: int, b: int|
        0 <= a < after.len() && 0 <= b < after.len() && a != b implies after[a].account
        != after[b].account by {
        assert(after[a].account == entries[a].account);
        assert(after[b].account == entries[b].account);
    }
    lemma_entries_map(entries);
    lemma_entries_map(after);
    assert forall|k: AccountId| #[trigger]
        entries_map(after).contains_key(k) implies wanted.contains_key(k) by {
        let j = entry_index(after, k);
        assert(entries[j].account == k);
    }
    assert forall|k: AccountId| #[trigger]
        wanted.contains_key(k) implies entries_map(after).contains_key(k) && entries_map(
        after,
    )[k] == wanted[k] by {
        if k == account {
            assert(after[i].account == k);
        } else {
            let j = entry_index(entries, k);
            assert(after[j].account == k);
        }
    }
    assert(entries_map(after) =~= wanted);
}

/// A counter appended for an account that had none is a new key of the map.
proof fn lemma_entries_map_push(entries: Seq<PointsEntry>, entry: PointsEntry)
    requires
        distinct_accounts(entries),
        !entries_map(entries).contains_key(entry.account),
    ensures
        distinct_accounts(entries.push(entry)),
        entries_map(entries.push(entry)) == entries_map(entries).insert(
            entry.account,
            entry.points,
        ),
{
    let after = entries.push(entry);
    let wanted = entries_map(entries).insert(entry.account, entry.points);
    lemma_entries_map(entries);
    assert forall|a: int, b: int|
        0 <= a < after.len() && 0 <= b < after.len() && a != b implies after[a].account
        != after[b].account by {
        if a < entries.len() {
            assert(after[a] == entries[a]);
        }
        if b < entries.len() {
            assert(after[b] == entries[b]);
        }
    }
    lemma_entries_map(after);
    assert forall|k: AccountId| #[trigger]
        entries_map(after).contains_key(k) implies wanted.contains_key(k) by {
        let j = entry_index(after, k);
        if j < entries.len() {
            assert(entries[j].account == k);
        }
    }
    assert forall|k: AccountId| #[trigger]
        wanted.contains_key(k) implies entries_map(after).contains_key(k) && entries_map(
        after,
    )[k] == wanted[k] by {
        if k == entry.account {
            assert(after[entries.len() as int].account == k);
        } else {
            let j = entry_index(entries, k);
            assert(after[j].account == k);
        }
    }
    assert(entries_map(after) =~= wanted);
}

/// Taking the counter at `i` away takes its account out of the map.
proof fn lemma_entries_map_remove(entries: Seq<PointsEntry>, i: int)
    requires
        distinct_accounts(entries),
        0 <= i < entries.len(),
    ensures
        distinct_accounts(entries.remove(i)),
        entries_map(entries.remove(i)) == entries_map(entries).remove(entries[i].account),
{
    let account = entries[i].account;
    let after = entries.remove(i);
    let wanted = entries_map(entries).remove(account);
    assert forall|a: int, b: int|
        0 <= a < after.len() && 0 <= b < after.len() && a != b implies after[a].account
        != after[b].account by {
        let a0 = if a < i { a } else { a + 1 };
        let b0 = if b < i { b } else { b + 1 };
        assert(after[a] == entries[a0]);
        assert(after[b] == entries[b0]);
    }
    lemma_entries_map(entries);
    lemma_entries_map(after);
    assert forall|k: AccountId| #[trigger]
        entries_map(after).contains_key(k) implies wanted.contains_key(k) by {
        let j = entry_index(after, k);
        let j0 = if j < i { j } else { j + 1 };
        assert(after[j] == entries[j0]);
        assert(entries[j0].account == k);
    }
    assert forall|k: AccountId| #[trigger]
        wanted.contains_key(k) implies entries_map(after).contains_key(k) && entries_map(
        after,
    )[k] == wanted[k] by {
        let j = entry_index(entries, k);
        assert(j != i);
        let j1 = if j < i { j } else { j - 1 };
        assert(after[j1] == entries[j]);
        assert(after[j1].account == k);
    }
    assert(entries_map(after) =~= wanted);
}

impl View for PointsMap {
    type V = Map<AccountId, u64>;

    closed spec fn view(&self) -> Map<AccountId, u64> {
        entries_map(self.entries@)
    }
}

impl PointsMap {
    #[verifier::type_invariant]
    spec fn one_counter_each(&self) -> bool {
        distinct_accounts(self.entries@)
    }

    /// A map without counters.
    pub fn new() -> (empty: PointsMap)
        ensures
            empty@ == Map::<AccountId, u64>::empty(),
    {
        let empty = PointsMap { entries: Vec::new() };
        assert(empty@ =~= Map::<AccountId, u64>::empty());
        empty
    }

    /// Where the counter of `account` stands, if it has one.
    fn find(&self, account: &AccountId) -> (place: Option<usize>)
        ensures
            match place {
                Some(i) => i < self.entries@.len() && self.entries@[i as int].account == *account,
                None => !self@.contains_key(*account),
            },
    {
        let mut i: usize = 0;
        while i < self.entries.len()
            invariant
                i <= self.entries@.len(),
                forall|j: int| 0 <= j < i ==> self.entries@[j].account != *account,
            decreases self.entries@.len() - i,
        {
            if same_account(&self.entries[i].account, account) {
                return Some(i);
            }
            i += 1;
        }
        None
    }

    /// The points of `account`, if it has a counter.
    pub fn get(&self, account: &AccountId) -> (points: Option<u64>)
        ensures
            points == if self@.contains_key(*account) {
                Some(self@[*account])
            } else {
                None
            },
    {
        proof {
            use_type_invariant(self);
            lemma_entries_map(self.entries@);
        }
        match self.find(account) {
            Some(i) => Some(self.entries[i].points),
            None => None,
        }
    }

    /// The accounts that have a counter, each once.
    pub fn accounts(&self) -> (listed: Vec<AccountId>)
        ensures
            listed@.no_duplicates(),
            forall|account: AccountId|
                #![trigger listed@.contains(account)]
                #![trigger self@.contains_key(account)]
                listed@.contains(account) <==> self@.contains_key(account),
    {
        proof {
            use_type_invariant(self);
            lemma_entries_map(self.entries@);
        }
        let mut listed: Vec<AccountId> = Vec::new();
        let mut i: usize = 0;
        while i < self.entries.len()
            invariant
                i <= self.entries@.len(),
                listed@.len() == i,
                forall|j: int| 0 <= j < i ==> #[trigger] listed@[j] == self.entries@[j].account,
            decreases self.entries@.len() - i,
        {
            listed.push(self.entries[i].account);
            i += 1;
        }
        proof {
            assert forall|account: AccountId|
                #![trigger listed@.contains(account)]
                #![trigger self@.contains_key(account)]
                listed@.contains(account) <==> self@.contains_key(account) by {
                if listed@.contains(account) {
                    let j = choose|j: int| 0 <= j < listed@.len() && listed@[j] == account;
                    assert(self.entries@[j].account == account);
                }
                if self@.contains_key(account) {
                    let j = entry_index(self.entries@, account);
                    assert(listed@[j] == account);
                }
            }
        }
        listed
    }

    /// Sets the counter of `account` to `points`, whether or not it had one.
    pub fn insert(&mut self, account: AccountId, points: u64)
        ensures
            final(self)@ == old(self)@.insert(account, points),
    {
        proof {
            use_type_invariant(&*self);
            lemma_entries_map(self.entries@);
        }
        let place = self.find(&account);
        let mut entries: Vec<PointsEntry> = Vec::new();
        core::mem::swap(&mut self.entries, &mut entries);
        let entry = PointsEntry { account, points };
        match place {
            Some(i) => {
                entries.set(i, entry);
            },
            None => {
                entries.push(entry);
            },
        }
        proof {
            match place {
                Some(i) => lemma_entries_map_update(old(self).entries@, i as int, points),
                None => lemma_entries_map_push(old(self).entries@, entry),
            }
        }
        self.entries = entries;
    }

    /// Drops the counter of `account`, if it has one.
    pub fn remove(&mut self, account: &AccountId)
        ensures
            final(self)@ == old(self)@.remove(*account),
    {
        proof {
            use_type_invariant(&*self);
            lemma_entries_map(self.entries@);
        }
        let place = self.find(account);
        let mut entries: Vec<PointsEntry> = Vec::new();
        core::mem::swap(&mut self.entries, &mut entries);
        match place {
            Some(i) => {
                entries.remove(i);
            },
            None => {},
        }
        proof {
            match place {
                Some(i) => lemma_entries_map_remove(old(self).entries@, i as int),
                None => {
                    assert(old(self)@.remove(*account) =~= old(self)@);
                },
            }
        }
        self.entries = entries;
    }
}

} // verus!
