//! A player's bid on a contest.

use vstd::prelude::*;
use crate::pubkey::Pubkey;

verus! {

/// One player's prediction, with the rank and prize it earned.
#[derive(Clone, Copy, Debug)]
pub struct Bid {
    pub user: Pubkey,
    pub predicted_count: u32,
    pub rank: u32,
    pub winning: u64,
}

impl Bid {
    /// Serialized size in bytes, without the account discriminator.
    pub const MAX_SIZE: usize = 32 + 4 + 4 + 8;
}

} // verus!
