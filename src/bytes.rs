use vstd::prelude::*;

verus! {

/// Length of a hash or of an identity, in bytes.
pub const HASH_LEN: usize = 32;

/// Length of a signature, in bytes.
pub const SIGNATURE_LEN: usize = 64;

/// An immutable byte string: a hash, an identity, a public key or a signature.
/// The length is documented per use (32 for hashes, 64 for signatures) and is
/// not enforced by the type.
#[derive(Clone, Debug, PartialEq, Eq)]
pub struct Bytes {
    data: Vec<u8>,
}

impl View for Bytes {
    type V = Seq<u8>;

    closed spec fn view(&self) -> Seq<u8> {
        self.data@
    }
}

/// `n` zero bytes.
pub open spec fn zeros(n: nat) -> Seq<u8> {
    Seq::new(n, |_i: int| 0u8)
}

impl Bytes {
    /// A copy of the given bytes.
    pub fn from_bytes(b: &[u8]) -> (r: Bytes)
        ensures
            r@ == b@,
    {
        let mut data: Vec<u8> = Vec::new();
        let mut i: usize = 0;
        while i < b.len()
            invariant
                i <= b@.len(),
                data@ == b@.subrange(0, i as int),
            decreases b@.len() - i,
        {
            data.push(b[i]);
            i = i + 1;
            assert(data@ =~= b@.subrange(0, i as int));
        }
        assert(data@ =~= b@);
        Bytes { data }
    }

    /// Takes ownership of a vector of bytes.
    pub fn from_vec(data: Vec<u8>) -> (r: Bytes)
        ensures
            r@ == data@,
    {
        Bytes { data }
    }

    /// `n` zero bytes.
    pub fn zero(n: usize) -> (r: Bytes)
        ensures
            r@ == zeros(n as nat),
    {
        let mut data: Vec<u8> = Vec::new();
        let mut i: usize = 0;
        while i < n
            invariant
                i <= n,
                data@ == zeros(i as nat),
            decreases n - i,
        {
            data.push(0u8);
            i = i + 1;
            assert(data@ =~= zeros(i as nat));
        }
        Bytes { data }
    }

    /// The zero hash: 32 zero bytes.
    pub fn zero32() -> (r: Bytes)
        ensures
            r@ == zeros(32),
    {
        Bytes::zero(HASH_LEN)
    }

    /// The empty signature: 64 zero bytes.
    pub fn zero64() -> (r: Bytes)
        ensures
            r@ == zeros(64),
    {
        Bytes::zero(SIGNATURE_LEN)
    }

    pub fn as_bytes(&self) -> (r: &[u8])
        ensures
            r@ == self@,
    {
        self.data.as_slice()
    }

    pub fn len(&self) -> (r: usize)
        ensures
            r == self@.len(),
    {
        self.data.len()
    }

    /// Byte-wise equality.
    pub fn same(&self, other: &Bytes) -> (r: bool)
        ensures
            r == (self@ == other@),
    {
        if self.data.len() != other.data.len() {
            return false;
        }
        let mut i: usize = 0;
        while i < self.data.len()
            invariant
                i <= self@.len(),
                self@.len() == other@.len(),
                forall|j: int| 0 <= j < i ==> self@[j] == other@[j],
            decreases self@.len() - i,
        {
            if self.data[i] != other.data[i] {
                return false;
            }
            i = i + 1;
        }
        assert(self@ =~= other@);
        true
    }

    /// An independent copy with the same contents.
    pub fn duplicate(&self) -> (r: Bytes)
        ensures
            r@ == self@,
    {
        Bytes::from_bytes(self.data.as_slice())
    }
}

impl Default for Bytes {
    /// The zero hash.
    fn default() -> (r: Bytes)
        ensures
            r@ == zeros(32),
    {
        Bytes::zero32()
    }
}

} // verus!
