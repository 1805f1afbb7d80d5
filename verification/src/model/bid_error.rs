//! Errors about bid accounts.

use vstd::prelude::*;

verus! {

#[derive(Clone, Copy, Debug, PartialEq, Eq, Structural)]
pub enum BidError {
    /// Cannot retrieve bid account.
    BidAccountNotFound,
    /// Cannot retrieve bid user's account.
    UserAccountNotFound,
}

} // verus!
