use vstd::prelude::*;
use ink::primitives::AccountId;
use crate::account::contains_account;
use crate::account::lemma_noted;
use crate::account::lemma_remove_value;
use crate::account::noted;
use crate::account::position_of;
use crate::errors::ContractError;
use crate::events::AdminChanged;
use crate::events::MemberDeleted;
use crate::events::NewMember;
use crate::ledger::Syndeo;

verus! {

impl Syndeo {
    /// What `add_member` answers when `caller` enrols `new_member`.
    pub open spec fn enrolment_verdict(
        &self,
        caller: AccountId,
        new_member: AccountId,
    ) -> Result<(), ContractError> {
        if caller != self.admin {
            Err(ContractError::AdminRequired)
        } else if self.members@.contains(new_member) {
            Err(ContractError::MemberAlreadyExists)
        } else {
            Ok(())
        }
    }

    /// Enrols `new_member` at the end of the list of members, for the
    /// administrator only and only once.
    pub fn add_member(
        &mut self,
        caller: AccountId,
        new_member: AccountId,
    ) -> (outcome: Result<NewMember, ContractError>)
        ensures
            match outcome {
                Ok(event) => {
                    &&& old(self).enrolment_verdict(caller, new_member) is Ok
                    &&& event == (NewMember { member: new_member })
                    &&& final(self).members@ == old(self).members@.push(new_member)
                    &&& final(self).members@.contains(new_member)
                    &&& final(self).admin == old(self).admin
                    &&& final(self).max_points_per_sender == old(self).max_points_per_sender
                    &&& final(self).same_period(old(self))
                },
                Err(error) => {
                    &&& old(self).enrolment_verdict(caller, new_member) == Err::<
                        (),
                        ContractError,
                    >(error)
                    &&& *final(self) == *old(self)
                },
            },
            caller == old(self).admin && old(self).members@.contains(new_member) ==> outcome
                == Err::<NewMember, ContractError>(ContractError::MemberAlreadyExists),
            old(self).wf() ==> final(self).wf(),
            old(self).within_cap() ==> final(self).within_cap(),
    {
        match self.check_admin(&caller) {
            Ok(()) => {},
            Err(error) => {
                return Err(error);
            },
        }
        if contains_account(&self.members, &new_member) {
            return Err(ContractError::MemberAlreadyExists);
        }
        self.members.push(new_member);
        proof {
            lemma_noted(old(self).members@, new_member);
            assert(self.members@ == noted(old(self).members@, new_member));
        }
        Ok(NewMember { member: new_member })
    }

    /// What `remove_member` answers when `caller` strikes `member` off.
    pub open spec fn removal_verdict(
        &self,
        caller: AccountId,
        member: AccountId,
    ) -> Result<(), ContractError> {
        if caller != self.admin {
            Err(ContractError::AdminRequired)
        } else if !self.members@.contains(member) {
            Err(ContractError::MemberDoesNotExist)
        } else {
            Ok(())
        }
    }

    /// Strikes `member_to_remove` off the list of members, for the
    /// administrator only. The other members keep their order. The points
    /// of the account stay in the books.
    pub fn remove_member(
        &mut self,
        caller: AccountId,
        member_to_remove: AccountId,
    ) -> (outcome: Result<MemberDeleted, ContractError>)
        ensures
            match outcome {
                Ok(event) => {
                    &&& old(self).removal_verdict(caller, member_to_remove) is Ok
                    &&& event == (MemberDeleted { member: member_to_remove })
                    &&& final(self).members@ == old(self).members@.remove_value(member_to_remove)
                    &&& final(self).admin == old(self).admin
                    &&& final(self).max_points_per_sender == old(self).max_points_per_sender
                    &&& final(self).same_period(old(self))
                },
                Err(error) => {
                    &&& old(self).removal_verdict(caller, member_to_remove) == Err::<
                        (),
                        ContractError,
                    >(error)
                    &&& *final(self) == *old(self)
                },
            },
            caller == old(self).admin && !old(self).members@.contains(member_to_remove) ==> outcome
                == Err::<MemberDeleted, ContractError>(ContractError::MemberDoesNotExist),
            old(self).wf() ==> final(self).wf(),
            old(self).wf() && outcome is Ok ==> !final(self).members@.contains(member_to_remove),
            old(self).within_cap() ==> final(self).within_cap(),
    {
        match self.check_admin(&caller) {
            Ok(()) => {},
            Err(error) => {
                return Err(error);
            },
        }
        match position_of(&self.members, &member_to_remove) {
            Some(member_index) => {
                proof {
                    old(self).members@.index_of_first_ensures(member_to_remove);
                    if old(self).members@.no_duplicates() {
                        lemma_remove_value(old(self).members@, member_to_remove);
                    }
                }
                self.members.remove(member_index);
                Ok(MemberDeleted { member: member_to_remove })
            },
            None => Err(ContractError::MemberDoesNotExist),
        }
    }

    /// Hands the ledger over to `new_admin`, who is enrolled first where
    /// not yet a member. For the administrator only.
    pub fn set_admin(
        &mut self,
        caller: AccountId,
        new_admin: AccountId,
    ) -> (outcome: Result<(Option<NewMember>, AdminChanged), ContractError>)
        ensures
            outcome is Ok <==> caller == old(self).admin,
            match outcome {
                Ok((enrolled, changed)) => {
                    &&& changed == (AdminChanged { admin: new_admin })
                    &&& enrolled == if old(self).members@.contains(new_admin) {
                        None::<NewMember>
                    } else {
                        Some(NewMember { member: new_admin })
                    }
                    &&& final(self).admin == new_admin
                    &&& final(self).members@ == noted(old(self).members@, new_admin)
                    &&& final(self).members@.contains(new_admin)
                    &&& final(self).max_points_per_sender == old(self).max_points_per_sender
                    &&& final(self).same_period(old(self))
                },
                Err(error) => {
                    &&& error == ContractError::AdminRequired
                    &&& *final(self) == *old(self)
                },
            },
            old(self).wf() ==> final(self).wf(),
            old(self).within_cap() ==> final(self).within_cap(),
    {
        match self.check_admin(&caller) {
            Ok(()) => {},
            Err(error) => {
                return Err(error);
            },
        }
        let mut enrolled: Option<NewMember> = None;
        if !self.is_member(&new_admin) {
            match self.add_member(caller, new_admin) {
                Ok(event) => {
                    enrolled = Some(event);
                },
                Err(error) => {
                    return Err(error);
                },
            }
        }
        self.admin = new_admin;
        proof {
            lemma_noted(old(self).members@, new_admin);
        }
        Ok((enrolled, AdminChanged { admin: new_admin }))
    }

    /// What `set_max_points_per_sender` answers to `caller`: it is the
    /// limit in force that may not be zero, not the one proposed.
    pub open spec fn new_cap_verdict(&self, caller: AccountId) -> Result<(), ContractError> {
        if caller != self.admin {
            Err(ContractError::AdminRequired)
        } else if self.max_points_per_sender == 0 {
            Err(ContractError::MaxPointsPerSenderCannotBeZero)
        } else {
            Ok(())
        }
    }

    /// Replaces the limit per sender, for the administrator only and only
    /// while the limit in force is not zero. Any new limit is taken, zero
    /// too, and what senders have already given stays as it is.
    pub fn set_max_points_per_sender(
        &mut self,
        caller: AccountId,
        max_points_per_sender: u64,
    ) -> (outcome: Result<(), ContractError>)
        ensures
            outcome == old(self).new_cap_verdict(caller),
            match outcome {
                Ok(()) => {
                    &&& final(self).max_points_per_sender == max_points_per_sender
                    &&& final(self).admin == old(self).admin
                    &&& final(self).members == old(self).members
                    &&& final(self).same_period(old(self))
                },
                Err(_) => *final(self) == *old(self),
            },
            old(self).wf() ==> final(self).wf(),
    {
        match self.check_admin(&caller) {
            Ok(()) => {},
            Err(error) => {
                return Err(error);
            },
        }
        if self.max_points_per_sender == 0 {
            return Err(ContractError::MaxPointsPerSenderCannotBeZero);
        }
        self.max_points_per_sender = max_points_per_sender;
        Ok(())
    }
}

} // verus!
