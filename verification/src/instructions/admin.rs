//! Setting up the program's admin and the account that holds contest funds.

use vstd::prelude::*;
use crate::pubkey::{Pubkey, zero_key};
use crate::model::admin::AdminAccount;
use crate::model::program_error::{AccountConstraintError, ProgramErrorCode};

verus! {

/// The accounts of `initialize_admin` and `set_contest_account`.
#[derive(Clone, Copy, Debug)]
pub struct InitializeAdmin {
    pub admin_account: AdminAccount,
    pub signer: Pubkey,
}

/// Accounts for changing the contest account, signed by the admin.
#[derive(Clone, Copy, Debug)]
pub struct SetContestAccount {
    pub admin_account: AdminAccount,
    pub signer: Pubkey,
}

impl SetContestAccount {
    /// The signer must be the admin.
    pub fn check_constraints(&self) -> (r: Result<(), AccountConstraintError>)
        ensures
            r is Ok <==> self.admin_account.admin@ == self.signer@,
            r is Err ==> r == Err::<(), AccountConstraintError>(AccountConstraintError::Raw),
    {
        if self.admin_account.admin.same_as(&self.signer) {
            Ok(())
        } else {
            Err(AccountConstraintError::Raw)
        }
    }
}

/// The admin can be set while it is unset (all zero bytes), and afterwards
/// only by the admin itself.
pub open spec fn may_set_admin(current: Pubkey, signer: Pubkey) -> bool {
    current@ == zero_key() || current@ == signer@
}

/// Makes `admin` the admin, if the signer may.
pub fn initialize_admin(ctx: &mut InitializeAdmin, admin: Pubkey) -> (r: Result<(), ProgramErrorCode>)
    ensures
        r is Ok <==> may_set_admin(old(ctx).admin_account.admin, old(ctx).signer),
        r is Ok ==> *final(ctx) == (InitializeAdmin {
            admin_account: AdminAccount { admin, ..old(ctx).admin_account },
            ..*old(ctx)
        }),
        r is Err ==> r == Err::<(), ProgramErrorCode>(ProgramErrorCode::AdminNotAuthorized)
            && *final(ctx) == *old(ctx),
        // Allowed exactly while the admin is all zero bytes, or for the admin itself.
        r is Ok <==> ((forall|i: int|
            0 <= i < 32 ==> #[trigger] old(ctx).admin_account.admin.bytes@[i] == 0)
            || old(ctx).admin_account.admin@ == old(ctx).signer@),
        r is Ok ==> final(ctx).admin_account.admin == admin
            && final(ctx).admin_account.contest_account == old(ctx).admin_account.contest_account
            && final(ctx).signer == old(ctx).signer,
{
    proof {
        crate::pubkey::lemma_zero_key_is_all_zero(old(ctx).admin_account.admin);
    }
    let unset = ctx.admin_account.admin.same_as(&Pubkey::default());
    if !(unset || ctx.admin_account.admin.same_as(&ctx.signer)) {
        return Err(ProgramErrorCode::AdminNotAuthorized);
    }
    ctx.admin_account.admin = admin;
    Ok(())
}

/// Once the admin is set, only the admin can change it: any other signer is refused.
pub proof fn lemma_only_admin_changes_admin(current: Pubkey, signer: Pubkey)
    requires
        current@ != zero_key(),
        current@ != signer@,
    ensures
        !may_set_admin(current, signer),
{
}

/// Records the account that holds contest funds. Whoever signs may do so.
pub fn set_contest_account(ctx: &mut InitializeAdmin, contest_account: Pubkey) -> (r: Result<
    (),
    ProgramErrorCode,
>)
    ensures
        r is Ok,
        *final(ctx) == (InitializeAdmin {
            admin_account: AdminAccount { contest_account, ..old(ctx).admin_account },
            ..*old(ctx)
        }),
{
    ctx.admin_account.contest_account = contest_account;
    Ok(())
}

} // verus!
