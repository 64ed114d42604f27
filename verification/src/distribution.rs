use vstd::prelude::*;
use ink::primitives::AccountId;
use crate::account::lemma_take_next;
use crate::errors::ContractError;
use crate::events::RewardGranted;
use crate::ledger::Syndeo;
use crate::payout::lemma_payouts_within_pool;
use crate::payout::payout_of;
use crate::payout::payouts_of;
use crate::payout::rewards_sum;
use crate::share::Balance;
use crate::share::reward_share;
use crate::tally::lemma_sum_bounds_each;

verus! {

impl Syndeo {
    /// Lets a distribution pass only while somebody holds points.
    pub fn validate_recipients_exist(&self) -> (verdict: Result<(), ContractError>)
        ensures
            verdict == if self.recipients@.len() == 0 {
                Err::<(), ContractError>(ContractError::NoRecipients)
            } else {
                Ok(())
            },
    {
        if self.recipients.len() == 0 {
            return Err(ContractError::NoRecipients);
        }
        Ok(())
    }

    /// What `validate_reward` answers for a pool of `contract_balance`: the
    /// amount asked for, or the whole pool where none is named, unless that
    /// is nothing or more than the pool holds.
    pub open spec fn reward_verdict(
        contract_balance: Balance,
        reward: Option<Balance>,
    ) -> Result<Balance, ContractError> {
        let amount = match reward {
            Some(amount) => amount,
            None => contract_balance,
        };
        if amount == 0 {
            Err(ContractError::NullFunds)
        } else if amount > contract_balance {
            Err(ContractError::RewardExceedsContractBalance)
        } else {
            Ok(amount)
        }
    }

    /// Settles how much is to be distributed out of a pool of
    /// `contract_balance`.
    pub fn validate_reward(
        &self,
        contract_balance: Balance,
        reward: Option<Balance>,
    ) -> (verdict: Result<Balance, ContractError>)
        ensures
            verdict == Self::reward_verdict(contract_balance, reward),
            reward == Some(0u128) ==> verdict == Err::<Balance, ContractError>(
                ContractError::NullFunds,
            ),
            reward is Some && reward->Some_0 > contract_balance ==> verdict == Err::<
                Balance,
                ContractError,
            >(ContractError::RewardExceedsContractBalance),
    {
        let amount: Balance = match reward {
            Some(amount) => amount,
            None => contract_balance,
        };
        if amount == 0 {
            return Err(ContractError::NullFunds);
        }
        if amount > contract_balance {
            return Err(ContractError::RewardExceedsContractBalance);
        }
        Ok(amount)
    }

    /// What `distribute_rewards` answers to `caller` for a pool of
    /// `contract_balance`: the amount to share out, or why there is none.
    pub open spec fn distribution_verdict(
        &self,
        caller: AccountId,
        contract_balance: Balance,
        amount_to_distribute: Option<Balance>,
    ) -> Result<Balance, ContractError> {
        if caller != self.admin {
            Err(ContractError::AdminRequired)
        } else if self.recipients@.len() == 0 {
            Err(ContractError::NoRecipients)
        } else {
            Self::reward_verdict(contract_balance, amount_to_distribute)
        }
    }

    /// Shares the amount named, or the whole pool where none is named, out
    /// among the active recipients in proportion to their points, and
    /// starts a new accounting period. For the administrator only.
    ///
    /// The payouts come back in the order of the recipients' first awards;
    /// each is rounded down, and what rounding leaves stays in the pool.
    /// Paying them out is the caller's part. Where the distribution is
    /// turned down nothing changes.
    pub fn distribute_rewards(
        &mut self,
        caller: AccountId,
        contract_balance: Balance,
        amount_to_distribute: Option<Balance>,
    ) -> (outcome: Result<Vec<RewardGranted>, ContractError>)
        requires
            old(self).wf(),
        ensures
            match outcome {
                Ok(grants) => {
                    let settled = old(self).distribution_verdict(
                        caller,
                        contract_balance,
                        amount_to_distribute,
                    );
                    &&& settled is Ok
                    &&& grants@ == payouts_of(
                        old(self).recipients@,
                        old(self).points_by_recipient@,
                        settled->Ok_0,
                        old(self).total_points,
                    )
                    &&& rewards_sum(grants@) <= settled->Ok_0
                    &&& settled->Ok_0 - rewards_sum(grants@) < grants@.len()
                    &&& final(self).total_points == 0
                    &&& final(self).senders@ == Seq::<AccountId>::empty()
                    &&& final(self).recipients@ == Seq::<AccountId>::empty()
                    &&& final(self).points_by_sender@ == Map::<AccountId, u64>::empty()
                    &&& final(self).points_by_recipient@ == Map::<AccountId, u64>::empty()
                    &&& final(self).admin == old(self).admin
                    &&& final(self).members == old(self).members
                    &&& final(self).max_points_per_sender == old(self).max_points_per_sender
                },
                Err(error) => {
                    &&& old(self).distribution_verdict(
                        caller,
                        contract_balance,
                        amount_to_distribute,
                    ) == Err::<Balance, ContractError>(error)
                    &&& *final(self) == *old(self)
                },
            },
            caller == old(self).admin && old(self).recipients@.len() == 0 ==> outcome == Err::<
                Vec<RewardGranted>,
                ContractError,
            >(ContractError::NoRecipients),
            caller == old(self).admin && old(self).recipients@.len() > 0 && amount_to_distribute
                == Some(0u128) ==> outcome == Err::<Vec<RewardGranted>, ContractError>(
                ContractError::NullFunds,
            ),
            caller == old(self).admin && old(self).recipients@.len() > 0
                && amount_to_distribute is Some && amount_to_distribute->Some_0
                > contract_balance ==> outcome == Err::<
                Vec<RewardGranted>,
                ContractError,
            >(ContractError::RewardExceedsContractBalance),
            final(self).wf(),
            outcome is Ok || old(self).within_cap() ==> final(self).within_cap(),
    {
        match self.check_admin(&caller) {
            Ok(()) => {},
            Err(error) => {
                return Err(error);
            },
        }
        match self.validate_recipients_exist() {
            Ok(()) => {},
            Err(error) => {
                return Err(error);
            },
        }
        let total_rewards: Balance = match self.validate_reward(
            contract_balance,
            amount_to_distribute,
        ) {
            Ok(amount) => amount,
            Err(error) => {
                return Err(error);
            },
        };
        proof {
            let first = self.recipients@[0];
            assert(self.recipients@.contains(first));
            lemma_sum_bounds_each(self.recipients@, self.points_by_recipient@, first);
            lemma_payouts_within_pool(
                self.recipients@,
                self.points_by_recipient@,
                total_rewards,
                self.total_points,
            );
        }
        let mut grants: Vec<RewardGranted> = Vec::new();
        let mut i: usize = 0;
        while i < self.recipients.len()
            invariant
                i <= self.recipients@.len(),
                old(self).wf(),
                0 < self.total_points,
                self.recipients == old(self).recipients,
                self.total_points == old(self).total_points,
                self.senders == old(self).senders,
                self.points_by_sender == old(self).points_by_sender,
                self.admin == old(self).admin,
                self.members == old(self).members,
                self.max_points_per_sender == old(self).max_points_per_sender,
                self.points_by_recipient@ == old(self).points_by_recipient@.remove_keys(
                    self.recipients@.take(i as int).to_set(),
                ),
                grants@.len() == i,
                forall|j: int|
                    0 <= j < i ==> #[trigger] grants@[j] == payout_of(
                        self.recipients@[j],
                        old(self).points_by_recipient@,
                        total_rewards,
                        self.total_points,
                    ),
            decreases self.recipients@.len() - i,
        {
            let recipient = self.recipients[i];
            proof {
                lemma_take_next(self.recipients@, i as int);
                assert(self.recipients@.contains(recipient));
                lemma_sum_bounds_each(
                    self.recipients@,
                    old(self).points_by_recipient@,
                    recipient,
                );
            }
            let recipient_points: u64 = self.points_by_recipient.get(&recipient).unwrap();
            self.points_by_recipient.remove(&recipient);
            let recipient_reward: Balance = reward_share(
                recipient_points,
                total_rewards,
                self.total_points,
            );
            grants.push(RewardGranted {
                recipient,
                reward: recipient_reward,
                points: recipient_points,
            });
            proof {
                assert(self.points_by_recipient@ =~= old(self).points_by_recipient@.remove_keys(
                    self.recipients@.take(i as int + 1).to_set(),
                ));
            }
            i += 1;
        }
        proof {
            assert(self.recipients@.take(i as int) =~= self.recipients@);
            assert(self.points_by_recipient@ =~= Map::<AccountId, u64>::empty());
            assert(grants@ =~= payouts_of(
                old(self).recipients@,
                old(self).points_by_recipient@,
                total_rewards,
                old(self).total_points,
            ));
        }
        self.reset_points();
        proof {
            assert(self.points_by_sender@ =~= Map::<AccountId, u64>::empty());
        }
        Ok(grants)
    }

    /// Starts a new accounting period on the senders' side: the counter of
    /// every active sender is dropped, both lists are emptied and the total
    /// is set to zero. What the recipients earned is not touched here.
    pub fn reset_points(&mut self)
        ensures
            final(self).points_by_sender@ == old(self).points_by_sender@.remove_keys(
                old(self).senders@.to_set(),
            ),
            final(self).senders@ == Seq::<AccountId>::empty(),
            final(self).recipients@ == Seq::<AccountId>::empty(),
            final(self).total_points == 0,
            final(self).points_by_recipient == old(self).points_by_recipient,
            final(self).admin == old(self).admin,
            final(self).members == old(self).members,
            final(self).max_points_per_sender == old(self).max_points_per_sender,
    {
        let mut i: usize = 0;
        while i < self.senders.len()
            invariant
                i <= self.senders@.len(),
                self.senders == old(self).senders,
                self.recipients == old(self).recipients,
                self.points_by_recipient == old(self).points_by_recipient,
                self.admin == old(self).admin,
                self.members == old(self).members,
                self.max_points_per_sender == old(self).max_points_per_sender,
                self.points_by_sender@ == old(self).points_by_sender@.remove_keys(
                    self.senders@.take(i as int).to_set(),
                ),
            decreases self.senders@.len() - i,
        {
            let sender = self.senders[i];
            self.points_by_sender.remove(&sender);
            proof {
                let more = self.senders@.take(i as int + 1);
                lemma_take_next(self.senders@, i as int);
                assert(self.points_by_sender@ =~= old(self).points_by_sender@.remove_keys(
                    more.to_set(),
                ));
            }
            i += 1;
        }
        proof {
            assert(self.senders@.take(i as int) =~= self.senders@);
        }
        self.senders = Vec::new();
        self.recipients = Vec::new();
        self.total_points = 0;
    }
}

} // verus!
