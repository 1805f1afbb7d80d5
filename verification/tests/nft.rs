use social_game::instructions::contest::META_DATA_SPACE;
use social_game::nft::{MINT_WITH_METADATA_POINTER_LEN, mint_space};

#[test]
fn mint_space_for_the_contest_nft() {
    assert_eq!(MINT_WITH_METADATA_POINTER_LEN, 234);
    assert_eq!(mint_space(META_DATA_SPACE), Ok((234, 734)));
    assert_eq!(mint_space(0), Ok((234, 234)));
}
