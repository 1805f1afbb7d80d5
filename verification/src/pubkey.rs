//! Account addresses as plain bytes.

use vstd::prelude::*;

verus! {

/// A 32-byte account address.
#[derive(Clone, Copy, Debug)]
pub struct Pubkey {
    pub bytes: [u8; 32],
}

impl View for Pubkey {
    type V = Seq<u8>;

    open spec fn view(&self) -> Seq<u8> {
        self.bytes@
    }
}

/// The address made of 32 zero bytes, which marks an unset key.
pub open spec fn zero_key() -> Seq<u8> {
    Seq::new(32, |i: int| 0u8)
}

/// An address is the zero key exactly when all 32 of its bytes are zero.
pub proof fn lemma_zero_key_is_all_zero(key: Pubkey)
    ensures
        key@ == zero_key() <==> forall|i: int| 0 <= i < 32 ==> #[trigger] key.bytes@[i] == 0,
{
    assert(key@.len() == 32);
    if forall|i: int| 0 <= i < 32 ==> #[trigger] key.bytes@[i] == 0 {
        assert(key@ =~= zero_key());
    }
}

impl Pubkey {
    /// Wraps 32 bytes as an address.
    pub fn new_from_array(bytes: [u8; 32]) -> (key: Pubkey)
        ensures
            key@ == bytes@,
    {
        Pubkey { bytes }
    }

    /// Whether two addresses hold the same bytes.
    pub fn same_as(&self, other: &Pubkey) -> (r: bool)
        ensures
            r <==> self@ == other@,
    {
        let mut i: usize = 0;
        while i < 32
            invariant
                0 <= i <= 32,
                self@.len() == 32,
                other@.len() == 32,
                forall|j: int| 0 <= j < i ==> self@[j] == other@[j],
            decreases 32 - i,
        {
            if self.bytes[i] != other.bytes[i] {
                return false;
            }
            i = i + 1;
        }
        assert(self@ =~= other@);
        true
    }
}

impl Default for Pubkey {
    fn default() -> (key: Pubkey)
        ensures
            key@ == zero_key(),
    {
        let key = Pubkey { bytes: [0u8; 32] };
        assert(key@ =~= zero_key());
        key
    }
}

} // verus!
