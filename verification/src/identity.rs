//! Identities: 32-byte keys naming owners, authorities, holder accounts and tokens.

use vstd::prelude::*;

verus! {

/// A 32-byte identity.
///
/// Two identities are the same exactly when their bytes agree.
#[derive(Clone, Copy, Debug, Hash)]
pub struct Pubkey {
    pub bytes: [u8; 32],
}

impl View for Pubkey {
    type V = Seq<u8>;

    open spec fn view(&self) -> Seq<u8> {
        self.bytes@
    }
}

impl Pubkey {
    /// Wraps 32 bytes as an identity.
    pub fn new(bytes: [u8; 32]) -> (key: Pubkey)
        ensures
            key.bytes == bytes,
            key@ == bytes@,
    {
        Pubkey { bytes }
    }

    /// The bytes of the identity.
    pub fn to_bytes(&self) -> (bytes: [u8; 32])
        ensures
            bytes == self.bytes,
    {
        self.bytes
    }

    /// Identities with the same bytes are the same identity.
    pub proof fn lemma_view_injective(a: Pubkey, b: Pubkey)
        ensures
            (a@ == b@) <==> (a == b),
    {
        if a@ == b@ {
            assert forall|i: int| 0 <= i < 32 implies a.bytes[i] == b.bytes[i] by {
                assert(a@[i] == b@[i]);
            }
            assert(a.bytes =~= b.bytes);
        }
    }
}

impl PartialEq for Pubkey {
    fn eq(&self, other: &Pubkey) -> (same: bool) {
        let mut i: usize = 0;
        while i < 32
            invariant
                0 <= i <= 32,
                forall|j: int| 0 <= j < i ==> self.bytes[j] == other.bytes[j],
            decreases 32 - i,
        {
            if self.bytes[i] != other.bytes[i] {
                return false;
            }
            i = i + 1;
        }
        assert(self.bytes =~= other.bytes);
        true
    }
}

impl Eq for Pubkey {}

impl vstd::std_specs::cmp::PartialEqSpecImpl for Pubkey {
    open spec fn obeys_eq_spec() -> bool {
        true
    }

    open spec fn eq_spec(&self, other: &Pubkey) -> bool {
        *self == *other
    }
}

} // verus!
