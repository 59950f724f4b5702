//! Identities: 32-byte addresses of members, wallets, proposals and programs.
use vstd::prelude::*;

verus! {

/// A 32-byte identity. Two identities are the same exactly when their bytes are.
#[derive(Clone, Copy, Debug, Eq, Hash)]
pub struct Pubkey {
    pub bytes: [u8; 32],
}

impl PartialEq for Pubkey {
    fn eq(&self, other: &Pubkey) -> (r: bool) {
        let mut i: usize = 0;
        while i < 32
            invariant
                i <= 32,
                forall|j: int| 0 <= j < i ==> self.bytes[j] == other.bytes[j],
            decreases 32 - i,
        {
            if self.bytes[i] != other.bytes[i] {
                return false;
            }
            i += 1;
        }
        assert(self.bytes =~= other.bytes);
        true
    }
}

impl vstd::std_specs::cmp::PartialEqSpecImpl for Pubkey {
    open spec fn obeys_eq_spec() -> bool {
        true
    }

    open spec fn eq_spec(&self, other: &Pubkey) -> bool {
        *self == *other
    }
}

impl Default for Pubkey {
    /// The identity made of zero bytes, which is also the system program's.
    fn default() -> (r: Pubkey)
        ensures
            r.seq() == Pubkey::zeros(),
    {
        let r = Pubkey { bytes: [0u8; 32] };
        assert(r.seq() =~= Pubkey::zeros());
        r
    }
}

impl Pubkey {
    /// Thirty-two zero bytes.
    pub open spec fn zeros() -> Seq<u8> {
        Seq::new(32, |i: int| 0u8)
    }

    /// The identity with the given bytes.
    pub fn new_from_array(bytes: [u8; 32]) -> (r: Pubkey)
        ensures
            r.bytes == bytes,
    {
        Pubkey { bytes }
    }

    /// The bytes as a sequence, in order.
    pub open spec fn seq(self) -> Seq<u8> {
        self.bytes@
    }

    /// The bytes, copied into a fresh vector.
    pub fn to_vec(&self) -> (r: Vec<u8>)
        ensures
            r@ == self.seq(),
    {
        let mut out: Vec<u8> = Vec::with_capacity(32);
        let mut i: usize = 0;
        while i < 32
            invariant
                i <= 32,
                out@ == self.bytes@.subrange(0, i as int),
            decreases 32 - i,
        {
            out.push(self.bytes[i]);
            assert(out@ == self.bytes@.subrange(0, i + 1));
            i += 1;
        }
        assert(out@ == self.bytes@);
        out
    }
}

/// Identities are determined by their byte sequences.
pub proof fn lemma_pubkey_ext(a: Pubkey, b: Pubkey)
    ensures
        a.seq() == b.seq() <==> a == b,
        a.seq().len() == 32,
{
    if a.seq() == b.seq() {
        assert(a.bytes =~= b.bytes);
    }
}

} // verus!
