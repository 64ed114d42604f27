use vstd::prelude::*;
use ink::primitives::AccountId;
use crate::account::all_distinct;
use crate::account::contains_account;
use crate::account::same_account;
use crate::errors::ContractError;
use crate::points::PointsMap;
use crate::share::Balance;
use crate::tally::points_of;
use crate::tally::points_sum;
use crate::tally::sum_points;

verus! {

/// The limit per sender of a ledger that was created without one.
pub const DEFAULT_MAX_POINTS_PER_SENDER: u64 = 10;

/// What a reader learns of the current accounting period.
#[derive(PartialEq, Eq, Debug, Clone, Copy)]
pub struct RewardsSummary {
    /// All points awarded in the period.
    pub assigned_points: u64,
    /// How many accounts hold points.
    pub members_awarded: u64,
    /// What the pool holds.
    pub funds: Balance,
}

/// The ledger: who administers it, who its members are, and what each of
/// them has given and earned in the current accounting period.
#[derive(Debug)]
pub struct Syndeo {
    /// The one account that may change members and limits and pay out.
    pub admin: AccountId,
    /// The members, in the order in which they were enrolled.
    pub members: Vec<AccountId>,
    /// The points each active sender has given in this period.
    pub points_by_sender: PointsMap,
    /// The accounts that have given points in this period, first giver first.
    pub senders: Vec<AccountId>,
    /// The points each active recipient has earned in this period.
    pub points_by_recipient: PointsMap,
    /// The accounts that hold points, in the order of their first award.
    pub recipients: Vec<AccountId>,
    /// All points awarded in this period.
    pub total_points: u64,
    /// How many points one sender may give in one period.
    pub max_points_per_sender: u64,
}

/// `accounts` lists, once each, exactly the accounts that have a counter in
/// `counters`, and no counter stands at zero.
pub open spec fn tracks(accounts: Seq<AccountId>, counters: Map<AccountId, u64>) -> bool {
    &&& accounts.no_duplicates()
    &&& forall|account: AccountId|
        #![trigger counters.contains_key(account)]
        #![trigger accounts.contains(account)]
        counters.contains_key(account) <==> accounts.contains(account)
    &&& forall|account: AccountId| #[trigger]
        counters.contains_key(account) ==> counters[account] > 0
}

/// Whether `accounts` lists, once each, exactly the accounts that have a
/// counter in `counters`, none of them at zero.
pub fn check_tracks(accounts: &Vec<AccountId>, counters: &PointsMap) -> (held: bool)
    ensures
        held == tracks(accounts@, counters@),
{
    if !all_distinct(accounts) {
        return false;
    }
    let mut i: usize = 0;
    while i < accounts.len()
        invariant
            i <= accounts@.len(),
            forall|j: int|
                0 <= j < i ==> counters@.contains_key(#[trigger] accounts@[j])
                    && counters@[accounts@[j]] > 0,
        decreases accounts@.len() - i,
    {
        match counters.get(&accounts[i]) {
            Some(points) => {
                if points == 0 {
                    assert(accounts@.contains(accounts@[i as int]));
                    return false;
                }
            },
            None => {
                assert(accounts@.contains(accounts@[i as int]));
                return false;
            },
        }
        i += 1;
    }
    let counted = counters.accounts();
    let mut k: usize = 0;
    while k < counted.len()
        invariant
            k <= counted@.len(),
            forall|account: AccountId|
                #![trigger counted@.contains(account)]
                #![trigger counters@.contains_key(account)]
                counted@.contains(account) <==> counters@.contains_key(account),
            forall|j: int| 0 <= j < k ==> accounts@.contains(#[trigger] counted@[j]),
        decreases counted@.len() - k,
    {
        if !contains_account(accounts, &counted[k]) {
            assert(counted@.contains(counted@[k as int]));
            assert(counters@.contains_key(counted@[k as int]));
            return false;
        }
        k += 1;
    }
    assert forall|account: AccountId|
        #![trigger counters@.contains_key(account)]
        #![trigger accounts@.contains(account)]
        counters@.contains_key(account) <==> accounts@.contains(account) by {
        if counters@.contains_key(account) {
            assert(counted@.contains(account));
            let j = choose|j: int| 0 <= j < counted@.len() && counted@[j] == account;
            assert(accounts@.contains(counted@[j]));
        }
        if accounts@.contains(account) {
            let j = choose|j: int| 0 <= j < accounts@.len() && accounts@[j] == account;
            assert(counters@.contains_key(accounts@[j]));
        }
    }
    assert forall|account: AccountId| #[trigger]
        counters@.contains_key(account) implies counters@[account] > 0 by {
        let j = choose|j: int| 0 <= j < accounts@.len() && accounts@[j] == account;
        assert(counters@[accounts@[j]] > 0);
    }
    true
}

impl Syndeo {
    /// What `account` has given in this period.
    pub open spec fn used_points(&self, account: AccountId) -> int {
        points_of(self.points_by_sender@, account)
    }

    /// What `account` has earned in this period.
    pub open spec fn earned_points(&self, account: AccountId) -> int {
        points_of(self.points_by_recipient@, account)
    }

    /// The total equals the sum of what the recipients earned and the sum of
    /// what the senders gave.
    pub open spec fn balanced(&self) -> bool {
        &&& self.total_points == points_sum(self.recipients@, self.points_by_recipient@)
        &&& self.total_points == points_sum(self.senders@, self.points_by_sender@)
    }

    /// The ledger is in order: no member is listed twice, the active senders
    /// and recipients are exactly the accounts with a counter, and the books
    /// balance.
    pub open spec fn wf(&self) -> bool {
        &&& self.members@.no_duplicates()
        &&& tracks(self.senders@, self.points_by_sender@)
        &&& tracks(self.recipients@, self.points_by_recipient@)
        &&& self.balanced()
    }

    /// No sender has given more than the limit per sender.
    pub open spec fn within_cap(&self) -> bool {
        forall|account: AccountId| #[trigger]
            self.points_by_sender@.contains_key(account) ==> self.points_by_sender@[account]
                <= self.max_points_per_sender
    }

    /// Whether the counters and lists of the period are those of `before`.
    pub open spec fn same_period(&self, before: &Syndeo) -> bool {
        &&& self.points_by_sender == before.points_by_sender
        &&& self.senders == before.senders
        &&& self.points_by_recipient == before.points_by_recipient
        &&& self.recipients == before.recipients
        &&& self.total_points == before.total_points
    }

    /// Whether the ledger is in order.
    pub fn is_well_formed(&self) -> (held: bool)
        ensures
            held == self.wf(),
    {
        all_distinct(&self.members) && check_tracks(&self.senders, &self.points_by_sender)
            && check_tracks(&self.recipients, &self.points_by_recipient) && sum_points(
            &self.recipients,
            &self.points_by_recipient,
        ) == self.total_points as u128 && sum_points(&self.senders, &self.points_by_sender)
            == self.total_points as u128
    }

    /// A ledger of `caller`, who administers it and is its only member.
    /// Nothing has been awarded yet. The limit per sender is the one given,
    /// or the default.
    pub fn new(caller: AccountId, max_points_per_sender: Option<u64>) -> (ledger: Syndeo)
        ensures
            ledger.admin == caller,
            ledger.members@ == seq![caller],
            ledger.points_by_sender@ == Map::<AccountId, u64>::empty(),
            ledger.senders@ == Seq::<AccountId>::empty(),
            ledger.points_by_recipient@ == Map::<AccountId, u64>::empty(),
            ledger.recipients@ == Seq::<AccountId>::empty(),
            ledger.total_points == 0,
            ledger.max_points_per_sender == match max_points_per_sender {
                Some(cap) => cap,
                None => DEFAULT_MAX_POINTS_PER_SENDER,
            },
            ledger.wf(),
            ledger.within_cap(),
    {
        let mut members: Vec<AccountId> = Vec::new();
        members.push(caller);
        let cap: u64 = match max_points_per_sender {
            Some(cap) => cap,
            None => DEFAULT_MAX_POINTS_PER_SENDER,
        };
        let ledger = Syndeo {
            admin: caller,
            members,
            points_by_sender: PointsMap::new(),
            senders: Vec::new(),
            points_by_recipient: PointsMap::new(),
            recipients: Vec::new(),
            total_points: 0,
            max_points_per_sender: cap,
        };
        assert(ledger.members@ =~= seq![caller]);
        ledger
    }

    /// Whether `account` is a member.
    pub fn is_member(&self, account: &AccountId) -> (member: bool)
        ensures
            member == self.members@.contains(*account),
    {
        contains_account(&self.members, account)
    }

    /// Lets only the administrator pass.
    pub fn check_admin(&self, caller: &AccountId) -> (verdict: Result<(), ContractError>)
        ensures
            verdict == if *caller == self.admin {
                Ok::<(), ContractError>(())
            } else {
                Err(ContractError::AdminRequired)
            },
    {
        if !same_account(caller, &self.admin) {
            return Err(ContractError::AdminRequired);
        }
        Ok(())
    }

    /// What `check_valid_member` answers: the sender is looked at first.
    pub open spec fn membership_verdict(
        &self,
        sender: AccountId,
        recipient: AccountId,
    ) -> Result<(), ContractError> {
        if !self.members@.contains(sender) {
            Err(ContractError::SenderIsNotMember)
        } else if !self.members@.contains(recipient) {
            Err(ContractError::RecipientIsNotMember)
        } else {
            Ok(())
        }
    }

    /// Lets a pair of members pass, and says which of the two is none.
    pub fn check_valid_member(
        &self,
        sender: &AccountId,
        recipient: &AccountId,
    ) -> (verdict: Result<(), ContractError>)
        ensures
            verdict == self.membership_verdict(*sender, *recipient),
    {
        if !self.is_member(sender) {
            return Err(ContractError::SenderIsNotMember);
        }
        if !self.is_member(recipient) {
            return Err(ContractError::RecipientIsNotMember);
        }
        Ok(())
    }

    /// The points awarded, the number of accounts that hold some, and the
    /// pool as the caller reports it.
    pub fn get_rewards_summary(&self, contract_balance: Balance) -> (summary: RewardsSummary)
        ensures
            summary.assigned_points == self.total_points,
            summary.members_awarded == self.recipients@.len(),
            summary.funds == contract_balance,
    {
        RewardsSummary {
            assigned_points: self.total_points,
            members_awarded: self.recipients.len() as u64,
            funds: contract_balance,
        }
    }

    /// What `caller` may still give in this period: the limit less what was
    /// given, and nothing where more than the limit was given.
    pub fn get_sender_available_points(&self, caller: &AccountId) -> (available: u64)
        ensures
            available == if self.used_points(*caller) <= self.max_points_per_sender {
                self.max_points_per_sender - self.used_points(*caller)
            } else {
                0
            },
    {
        let used: u64 = match self.points_by_sender.get(caller) {
            Some(points) => points,
            None => 0,
        };
        if used <= self.max_points_per_sender {
            self.max_points_per_sender - used
        } else {
            0
        }
    }

    /// The limit per sender.
    pub fn get_max_points_per_sender(&self) -> (cap: u64)
        ensures
            cap == self.max_points_per_sender,
    {
        self.max_points_per_sender
    }
}

} // verus!
