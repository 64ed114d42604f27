use vstd::prelude::*;
use ink::primitives::AccountId;
use crate::account::lemma_noted;
use crate::account::note_account;
use crate::account::noted;
use crate::account::same_account;
use crate::errors::ContractError;
use crate::events::Award;
use crate::ledger::Syndeo;
use crate::tally::lemma_sum_bounds_each;
use crate::tally::lemma_sum_insert;
use crate::tally::lemma_sum_push;

verus! {

impl Syndeo {
    /// What `validate_award_inputs` answers: the amount is looked at first,
    /// then whether the two accounts differ, then their membership.
    pub open spec fn award_inputs_verdict(
        &self,
        sender: AccountId,
        recipient: AccountId,
        amount: u64,
    ) -> Result<(), ContractError> {
        if amount == 0 {
            Err(ContractError::AwardPointsMustBeGreaterThanZero)
        } else if sender == recipient {
            Err(ContractError::CannotAwardYourself)
        } else {
            self.membership_verdict(sender, recipient)
        }
    }

    /// Lets an award pass that gives at least one point from one member to
    /// another.
    pub fn validate_award_inputs(
        &self,
        sender: AccountId,
        recipient: AccountId,
        amount: u64,
    ) -> (verdict: Result<(), ContractError>)
        ensures
            verdict == self.award_inputs_verdict(sender, recipient, amount),
    {
        if amount == 0 {
            return Err(ContractError::AwardPointsMustBeGreaterThanZero);
        }
        if same_account(&sender, &recipient) {
            return Err(ContractError::CannotAwardYourself);
        }
        self.check_valid_member(&sender, &recipient)
    }

    /// Lets `new_amount` more points pass for a sender who has given
    /// `sender_used_points`, unless that takes the sender past the limit.
    pub fn validate_sender_points(
        &self,
        sender_used_points: u64,
        new_amount: u64,
    ) -> (verdict: Result<(), ContractError>)
        requires
            sender_used_points + new_amount <= u64::MAX,
        ensures
            verdict == if sender_used_points + new_amount > self.max_points_per_sender {
                Err::<(), ContractError>(ContractError::MaxPointsPerSenderExceeded)
            } else {
                Ok(())
            },
    {
        if sender_used_points + new_amount > self.max_points_per_sender {
            return Err(ContractError::MaxPointsPerSenderExceeded);
        }
        Ok(())
    }

    /// What `award` answers: the inputs are looked at first, then the limit.
    pub open spec fn award_verdict(
        &self,
        sender: AccountId,
        recipient: AccountId,
        points: u64,
    ) -> Result<(), ContractError> {
        match self.award_inputs_verdict(sender, recipient, points) {
            Err(error) => Err(error),
            Ok(()) => if self.used_points(sender) + points > self.max_points_per_sender {
                Err(ContractError::MaxPointsPerSenderExceeded)
            } else {
                Ok(())
            },
        }
    }

    /// The sums that `award` has to form are within reach of the counters:
    /// what the sender has given plus the award, once the inputs have
    /// passed, and the total plus the award, once the limit has passed too.
    pub open spec fn award_fits(
        &self,
        sender: AccountId,
        recipient: AccountId,
        points: u64,
    ) -> bool {
        &&& self.award_inputs_verdict(sender, recipient, points) is Ok ==> self.used_points(sender)
            + points <= u64::MAX
        &&& self.award_verdict(sender, recipient, points) is Ok ==> self.total_points + points
            <= u64::MAX
    }

    /// Whether `award` may be called with these arguments.
    pub fn check_award_fits(
        &self,
        sender: AccountId,
        recipient: AccountId,
        points: u64,
    ) -> (fits: bool)
        ensures
            fits == self.award_fits(sender, recipient, points),
    {
        match self.validate_award_inputs(sender, recipient, points) {
            Ok(()) => {},
            Err(_) => {
                return true;
            },
        }
        let used: u64 = match self.points_by_sender.get(&sender) {
            Some(used) => used,
            None => 0,
        };
        if used > u64::MAX - points {
            return false;
        }
        if used + points > self.max_points_per_sender {
            return true;
        }
        self.total_points <= u64::MAX - points
    }

    /// Records that `sender` gives `points` points to `recipient`.
    ///
    /// The award is turned down, and nothing changes, where it gives no
    /// points, where the two are one account, where either is no member,
    /// or where it takes the sender past the limit per sender. Otherwise
    /// both counters and the total grow by `points`, and the two accounts
    /// are listed as active.
    pub fn award(
        &mut self,
        sender: AccountId,
        recipient: AccountId,
        points: u64,
    ) -> (outcome: Result<Award, ContractError>)
        requires
            old(self).wf(),
            old(self).award_fits(sender, recipient, points),
        ensures
            match outcome {
                Ok(event) => {
                    &&& old(self).award_verdict(sender, recipient, points) is Ok
                    &&& event == (Award { sender, recipient, points })
                    &&& final(self).points_by_sender@ == old(self).points_by_sender@.insert(
                        sender,
                        (old(self).used_points(sender) + points) as u64,
                    )
                    &&& final(self).points_by_recipient@ == old(self).points_by_recipient@.insert(
                        recipient,
                        (old(self).earned_points(recipient) + points) as u64,
                    )
                    &&& final(self).used_points(sender) == old(self).used_points(sender) + points
                    &&& final(self).earned_points(recipient) == old(self).earned_points(recipient)
                        + points
                    &&& final(self).used_points(sender) <= final(self).max_points_per_sender
                    &&& final(self).total_points == old(self).total_points + points
                    &&& final(self).senders@ == noted(old(self).senders@, sender)
                    &&& final(self).recipients@ == noted(old(self).recipients@, recipient)
                    &&& final(self).admin == old(self).admin
                    &&& final(self).members == old(self).members
                    &&& final(self).max_points_per_sender == old(self).max_points_per_sender
                },
                Err(error) => {
                    &&& old(self).award_verdict(sender, recipient, points) == Err::<
                        (),
                        ContractError,
                    >(error)
                    &&& *final(self) == *old(self)
                },
            },
            points == 0 ==> outcome == Err::<Award, ContractError>(
                ContractError::AwardPointsMustBeGreaterThanZero,
            ),
            points > 0 && sender == recipient ==> outcome == Err::<Award, ContractError>(
                ContractError::CannotAwardYourself,
            ),
            final(self).wf(),
            old(self).within_cap() ==> final(self).within_cap(),
    {
        match self.validate_award_inputs(sender, recipient, points) {
            Ok(()) => {},
            Err(error) => {
                return Err(error);
            },
        }
        let sender_used_points: u64 = match self.points_by_sender.get(&sender) {
            Some(used) => used,
            None => 0,
        };
        match self.validate_sender_points(sender_used_points, points) {
            Ok(()) => {},
            Err(error) => {
                return Err(error);
            },
        }
        let sender_used_points_result: u64 = sender_used_points + points;
        self.points_by_sender.insert(sender, sender_used_points_result);

        let recipient_points: u64 = match self.points_by_recipient.get(&recipient) {
            Some(earned) => earned,
            None => 0,
        };
        proof {
            if old(self).recipients@.contains(recipient) {
                lemma_sum_bounds_each(
                    old(self).recipients@,
                    old(self).points_by_recipient@,
                    recipient,
                );
            }
        }
        let recipient_points_result: u64 = recipient_points + points;
        self.points_by_recipient.insert(recipient, recipient_points_result);

        self.total_points = self.total_points + points;
        self.update_senders_and_recipients(sender, recipient);
        proof {
            lemma_noted(old(self).senders@, sender);
            lemma_noted(old(self).recipients@, recipient);
            lemma_sum_insert(
                old(self).senders@,
                old(self).points_by_sender@,
                sender,
                sender_used_points_result,
            );
            lemma_sum_push(old(self).senders@, self.points_by_sender@, sender);
            lemma_sum_insert(
                old(self).recipients@,
                old(self).points_by_recipient@,
                recipient,
                recipient_points_result,
            );
            lemma_sum_push(old(self).recipients@, self.points_by_recipient@, recipient);
        }
        Ok(Award { sender, recipient, points })
    }

    /// Lists `sender` among the active senders and `recipient` among the
    /// active recipients, each at the end and only if not listed yet.
    pub fn update_senders_and_recipients(&mut self, sender: AccountId, recipient: AccountId)
        ensures
            final(self).senders@ == noted(old(self).senders@, sender),
            final(self).recipients@ == noted(old(self).recipients@, recipient),
            final(self).admin == old(self).admin,
            final(self).members == old(self).members,
            final(self).points_by_sender == old(self).points_by_sender,
            final(self).points_by_recipient == old(self).points_by_recipient,
            final(self).total_points == old(self).total_points,
            final(self).max_points_per_sender == old(self).max_points_per_sender,
    {
        note_account(&mut self.senders, sender);
        note_account(&mut self.recipients, recipient);
    }
}

} // verus!
