//! Errors about the state of a contest.

use vstd::prelude::*;

verus! {

#[derive(Clone, Copy, Debug, PartialEq, Eq, Structural)]
pub enum ContestError {
    /// Contest is not active.
    ContestNotActive,
    /// Bidding period is closed.
    BiddingClosed,
    /// Invalid contest status.
    InvalidStatus,
    /// Cant initialize bucket account.
    InvalidBucketAccount,
}

} // verus!
