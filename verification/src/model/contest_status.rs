//! Life cycle of a contest.

use vstd::prelude::*;

verus! {

#[derive(Clone, Copy, Debug, PartialEq, Eq, Structural)]
pub enum ContestStatus {
    Active,
    BiddingClosed,
    Completed,
}

} // verus!
