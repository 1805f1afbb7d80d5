//! Program-wide errors, and the errors of account constraints.

use vstd::prelude::*;

verus! {

#[derive(Clone, Copy, Debug, PartialEq, Eq, Structural)]
pub enum ProgramErrorCode {
    /// The signer may not change the admin.
    AdminNotAuthorized,
    /// The size of a mint with a metadata pointer could not be computed.
    InvalidMintAccountSpace,
    /// The metadata pointer instruction could not be built.
    CantInitializeMetadataPointer,
}

/// A declared constraint between the accounts of an instruction does not hold.
#[derive(Clone, Copy, Debug, PartialEq, Eq, Structural)]
pub enum AccountConstraintError {
    /// A field of an account does not name the account passed beside it.
    HasOne,
    /// A constraint expression is false.
    Raw,
}

} // verus!
