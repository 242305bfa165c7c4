use vstd::prelude::*;

verus! {

/// Every way in which an operation on an issue is rejected.
#[derive(Debug, Clone, Copy, PartialEq, Eq, Structural)]
pub enum ErrorCode {
    NotPrivilegedAccount,
    IssueAlreadyCompleted,
    MismatchedInputs,
    PercentageOverflow,
    InvalidTotalPercentage,
    IssueNotCompleted,
    InvalidSignature,
    ContributorNotFound,
    /// The token ledger refused to move the amount: the source holds too
    /// little, the destination would overflow, or the two hold other tokens.
    TransferFailed,
}

} // verus!
