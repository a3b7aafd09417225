//! Identities: opaque 32-byte values naming a party or a storage slot.

use vstd::prelude::*;

verus! {

/// An opaque, globally unique identity of a party or of a storage slot.
///
/// Two identities are the same exactly when their 32 bytes are the same.
#[derive(Clone, Copy, Debug, Eq)]
pub struct Pubkey(pub [u8; 32]);

impl Pubkey {
    /// Wraps 32 raw bytes as an identity.
    pub fn new_from_array(bytes: [u8; 32]) -> (key: Pubkey)
        ensures
            key.0 == bytes,
    {
        Pubkey(bytes)
    }

    /// The 32 raw bytes of the identity.
    pub fn to_bytes(&self) -> (bytes: [u8; 32])
        ensures
            bytes == self.0,
    {
        self.0
    }
}

impl PartialEq for Pubkey {
    /// Compares the two identities byte by byte.
    fn eq(&self, other: &Pubkey) -> (same: bool) {
        let mut i: usize = 0;
        while i < 32
            invariant
                i <= 32,
                forall|j: int| 0 <= j < i ==> self.0[j] == other.0[j],
            decreases 32 - i,
        {
            if self.0[i] != other.0[i] {
                return false;
            }
            i += 1;
        }
        proof {
            assert(self.0 =~= other.0);
        }
        true
    }
}

impl vstd::std_specs::cmp::PartialEqSpecImpl for Pubkey {
    open spec fn obeys_eq_spec() -> bool {
        true
    }

    open spec fn eq_spec(&self, other: &Pubkey) -> bool {
        *self == *other
    }
}

impl View for Pubkey {
    type V = Seq<u8>;

    /// The identity as a sequence of 32 bytes.
    open spec fn view(&self) -> Seq<u8> {
        self.0@
    }
}

/// The identity whose bytes are `bytes`, for a sequence of 32 bytes.
pub open spec fn key_of(bytes: Seq<u8>) -> Pubkey {
    choose|key: Pubkey| key@ == bytes
}

/// An array that agrees with `bytes` on its first `filled` places.
spec fn filled_array(bytes: Seq<u8>, filled: nat) -> [u8; 32]
    decreases filled,
{
    if filled == 0 {
        vstd::array::spec_array_fill_for_copy_type::<u8, 32>(0u8)
    } else {
        vstd::array::spec_array_update(
            filled_array(bytes, (filled - 1) as nat),
            filled - 1,
            bytes[filled - 1],
        )
    }
}

proof fn lemma_filled_array(bytes: Seq<u8>, filled: nat)
    requires
        bytes.len() == 32,
        filled <= 32,
    ensures
        forall|i: int| 0 <= i < filled ==> filled_array(bytes, filled)@[i] == bytes[i],
    decreases filled,
{
    if filled > 0 {
        lemma_filled_array(bytes, (filled - 1) as nat);
    }
}

/// Every sequence of 32 bytes is the view of exactly one identity.
pub proof fn lemma_key_of(bytes: Seq<u8>)
    requires
        bytes.len() == 32,
    ensures
        key_of(bytes)@ == bytes,
        forall|key: Pubkey| key@ == bytes ==> key == key_of(bytes),
{
    lemma_filled_array(bytes, 32);
    let witness = Pubkey(filled_array(bytes, 32));
    assert(witness@ =~= bytes);
    assert forall|key: Pubkey| key@ == bytes implies key == key_of(bytes) by {
        assert(key.0 =~= key_of(bytes).0);
    }
}

} // verus!
