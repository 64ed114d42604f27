use vstd::prelude::*;

verus! {

/// Why an operation on the ledger was turned down.
///
/// Every rejection leaves the ledger exactly as it was.
#[derive(PartialEq, Eq, Debug, Clone, Copy)]
pub enum ContractError {
    /// The account to enrol is already a member.
    MemberAlreadyExists,
    /// The account to strike off is not a member.
    MemberDoesNotExist,
    /// The caller is not the administrator.
    AdminRequired,
    /// The limit per sender is zero at the moment it is to be replaced.
    MaxPointsPerSenderCannotBeZero,
    /// The award would take the sender past the limit per sender.
    MaxPointsPerSenderExceeded,
    /// An award of no points.
    AwardPointsMustBeGreaterThanZero,
    /// Sender and recipient of an award are the same account.
    CannotAwardYourself,
    /// The sender of an award is not a member.
    SenderIsNotMember,
    /// The recipient of an award is not a member.
    RecipientIsNotMember,
    /// A distribution was asked for while nobody holds points.
    NoRecipients,
    /// The amount to distribute is more than the pool holds.
    RewardExceedsContractBalance,
    /// There is nothing to distribute.
    NullFunds,
}

} // verus!
