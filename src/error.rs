use vstd::prelude::*;

verus! {

/// Why an operation on the registry or on a group was refused. A refused
/// operation changes no state and moves no value.
#[derive(Clone, Copy, Debug, PartialEq, Eq, Structural)]
pub enum KooPaaError {
    InvalidFeePercentage,
    InvalidContributionAmount,
    InvalidInterval,
    InvalidParticipantCount,
    NameTooLong,
    GroupAlreadyStarted,
    GroupAlreadyFull,
    AlreadyJoined,
    GroupNotStarted,
    NotParticipant,
    AlreadyContributed,
    GroupAlreadyClosed,
    AlreadyVotedToClose,
    NotCurrentRecipient,
    PayoutNotYetDue,
    NotAllContributed,
    OnlyAdminCanUpdate,
    /// The amount to move does not fit in a 64-bit token amount.
    AmountOverflow,
}

} // verus!
