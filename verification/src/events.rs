use vstd::prelude::*;
use ink::primitives::AccountId;
use crate::share::Balance;

verus! {

/// The administrator is now `admin`.
#[derive(Debug, Clone, Copy, PartialEq, Eq)]
pub struct AdminChanged {
    pub admin: AccountId,
}

/// `member` was enrolled.
#[derive(Debug, Clone, Copy, PartialEq, Eq)]
pub struct NewMember {
    pub member: AccountId,
}

/// `member` was struck off.
#[derive(Debug, Clone, Copy, PartialEq, Eq)]
pub struct MemberDeleted {
    pub member: AccountId,
}

/// `sender` gave `points` points to `recipient`.
#[derive(Debug, Clone, Copy, PartialEq, Eq)]
pub struct Award {
    pub sender: AccountId,
    pub recipient: AccountId,
    pub points: u64,
}

/// `recipient` is owed `reward` from the pool for the `points` points earned.
#[derive(Debug, Clone, Copy, PartialEq, Eq)]
pub struct RewardGranted {
    pub recipient: AccountId,
    pub reward: Balance,
    pub points: u64,
}

} // verus!
