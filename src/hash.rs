//! Fixed-size digests and the hash functions applied to them.
use bitcoin_hashes::Hash as DigestHash;
use vstd::prelude::*;

verus! {

/// Double SHA-256 of a byte string, as computed by `bitcoin_hashes`.
pub uninterp spec fn dsha256(data: Seq<u8>) -> Seq<u8>;

/// A 32-byte double-SHA256 digest, in internal (little-endian) byte order.
#[derive(Clone, Copy)]
pub struct Sha256dHash {
    pub bytes: [u8; 32],
}

impl Sha256dHash {
    pub open spec fn view(&self) -> Seq<u8> {
        self.bytes@
    }

    /// The all-zero hash, used as the parent of a genesis block.
    pub open spec fn spec_zero() -> Seq<u8> {
        Seq::new(32, |i: int| 0u8)
    }

    pub fn zero() -> (r: Sha256dHash)
        ensures
            r@ == Sha256dHash::spec_zero(),
    {
        let r = Sha256dHash { bytes: [0u8; 32] };
        assert(r@ =~= Sha256dHash::spec_zero());
        r
    }

    pub fn from_bytes(bytes: [u8; 32]) -> (r: Sha256dHash)
        ensures
            r@ == bytes@,
    {
        Sha256dHash { bytes }
    }

    /// Byte-wise comparison of two digests.
    pub fn same_as(&self, other: &Sha256dHash) -> (r: bool)
        ensures
            r == (self@ == other@),
    {
        let mut i: usize = 0;
        while i < 32
            invariant
                i <= 32,
                self@.len() == 32,
                other@.len() == 32,
                forall|j: int| 0 <= j < i ==> self@[j] == other@[j],
            decreases 32 - i,
        {
            if self.bytes[i] != other.bytes[i] {
                return false;
            }
            i = i + 1;
        }
        assert(self@ =~= other@);
        true
    }

    pub fn is_zero(&self) -> (r: bool)
        ensures
            r == (self@ == Sha256dHash::spec_zero()),
    {
        let z = Sha256dHash::zero();
        self.same_as(&z)
    }
}

/// Relies on `bitcoin_hashes::sha256d::Hash::hash`: the double SHA-256 of the
/// input, returned in internal byte order.
#[verifier::external_body]
pub(crate) fn dsha256_digest(data: &[u8]) -> (r: Sha256dHash)
    ensures
        r@ == dsha256(data@),
{
    Sha256dHash { bytes: bitcoin_hashes::sha256d::Hash::hash(data).into_inner() }
}

impl Sha256dHash {
    /// The 32 bytes of `data` starting at `offset`.
    pub fn from_slice_at(data: &[u8], offset: usize) -> (r: Sha256dHash)
        requires
            offset + 32 <= data@.len(),
        ensures
            r@ == data@.subrange(offset as int, offset + 32),
    {
        let mut bytes = [0u8; 32];
        let n = data.len();
        let mut i: usize = 0;
        while i < 32
            invariant
                n == data@.len(),
                i <= 32,
                offset + 32 <= data@.len(),
                bytes@.len() == 32,
                forall|j: int| 0 <= j < i ==> bytes@[j] == data@[offset + j],
            decreases 32 - i,
        {
            bytes[i] = data[offset + i];
            i = i + 1;
        }
        let r = Sha256dHash { bytes };
        assert(r@ =~= data@.subrange(offset as int, offset + 32));
        r
    }
}

} // verus!
