//! The program-wide configuration account.

use vstd::prelude::*;
use crate::pubkey::Pubkey;

verus! {

/// Who administers the game, and which account holds the contest funds.
#[derive(Clone, Copy, Debug)]
pub struct AdminAccount {
    /// Public key of the admin.
    pub admin: Pubkey,
    pub contest_account: Pubkey,
}

impl AdminAccount {
    /// Serialized size in bytes, without the account discriminator.
    pub const MAX_SIZE: usize = 32 + 32;
}

} // verus!
