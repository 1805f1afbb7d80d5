//! Sizes of the contest NFT's mint account.

use vstd::prelude::*;
use solana_program::program_error::ProgramError;
use spl_token_2022::extension::ExtensionType;
use spl_token_2022::state::Mint;
use crate::model::program_error::ProgramErrorCode;

verus! {

#[verifier::external_type_specification]
#[verifier::external_body]
pub struct ExProgramError(ProgramError);

/// The data length of a Token-2022 mint that has a metadata pointer extension.
pub const MINT_WITH_METADATA_POINTER_LEN: usize = 234;

/// `spl_token_2022::extension::ExtensionType::try_calculate_account_len::<Mint>`
/// on the one extension `MetadataPointer`.
///
/// Trusted: the source adds the base account length with its type byte (166)
/// to the extension's type, length and 64-byte value (68); 234 is not the
/// multisig length, so it is returned unchanged and the call succeeds.
#[verifier::external_body]
fn mint_len_with_metadata_pointer() -> (r: Result<usize, ProgramError>)
    ensures
        r is Ok,
        r->Ok_0 == MINT_WITH_METADATA_POINTER_LEN,
{
    ExtensionType::try_calculate_account_len::<Mint>(&[ExtensionType::MetadataPointer])
}

/// The length of the contest NFT's mint account, and the length that rent is
/// paid for: the mint with its metadata pointer, plus `meta_data_space` bytes
/// for the metadata that is written into the mint later.
pub fn mint_space(meta_data_space: usize) -> (r: Result<(usize, usize), ProgramErrorCode>)
    requires
        meta_data_space + MINT_WITH_METADATA_POINTER_LEN <= usize::MAX,
    ensures
        r == Ok::<(usize, usize), ProgramErrorCode>(
            (
                MINT_WITH_METADATA_POINTER_LEN,
                (MINT_WITH_METADATA_POINTER_LEN + meta_data_space) as usize,
            ),
        ),
{
    let space = match mint_len_with_metadata_pointer() {
        Ok(space) => space,
        Err(_) => {
            return Err(ProgramErrorCode::InvalidMintAccountSpace);
        },
    };
    Ok((space, space + meta_data_space))
}

} // verus!
