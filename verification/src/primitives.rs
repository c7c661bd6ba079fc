//! Fixed-size byte strings and 256-bit unsigned integers.

use crate::hex::{append_hex, parse_prefixed_hex, prefixed_hex, read_prefixed_hex};
use vstd::prelude::*;
use vstd::std_specs::cmp::PartialEqSpecImpl;
use vstd::string::StringExecFns;

verus! {

/// A beacon chain slot number.
pub type Slot = u64;

/// A string of exactly `N` bytes.
#[derive(Clone, Copy, Debug, Eq, Hash)]
pub struct ByteVector<const N: usize> {
    pub bytes: [u8; N],
}

/// A 32-byte digest.
pub type Hash32 = ByteVector<32>;

/// A compressed BLS public key.
pub type BlsPublicKey = ByteVector<48>;

/// A compressed BLS signature.
pub type BlsSignature = ByteVector<96>;

impl<const N: usize> View for ByteVector<N> {
    type V = Seq<u8>;

    open spec fn view(&self) -> Seq<u8> {
        self.bytes@
    }
}

impl<const N: usize> PartialEq for ByteVector<N> {
    fn eq(&self, other: &Self) -> (r: bool) {
        let mut i: usize = 0;
        while i < N
            invariant
                i <= N,
                forall|j: int| 0 <= j < i ==> self.bytes[j] == other.bytes[j],
            decreases N - i,
        {
            if self.bytes[i] != other.bytes[i] {
                return false;
            }
            i += 1;
        }
        assert(self.bytes =~= other.bytes);
        true
    }
}

impl<const N: usize> PartialEqSpecImpl for ByteVector<N> {
    open spec fn obeys_eq_spec() -> bool {
        true
    }

    open spec fn eq_spec(&self, other: &Self) -> bool {
        *self == *other
    }
}

impl<const N: usize> ByteVector<N> {
    /// Whether every byte is zero.
    pub open spec fn is_zero(&self) -> bool {
        forall|i: int| 0 <= i < N ==> self.bytes[i] == 0
    }

    /// The bytes in hexadecimal behind the prefix `0x`.
    pub fn to_hex(&self) -> (r: String)
        ensures
            r@ == prefixed_hex(self@),
    {
        let mut text = String::from_str("0x");
        append_hex(&mut text, self.bytes.as_slice());
        text
    }

    /// Reads a byte vector from its hexadecimal form behind the prefix `0x`:
    /// `None` unless `text` stands for exactly `N` bytes.
    pub fn from_hex(text: &str) -> (r: Option<Self>)
        ensures
            match r {
                Some(vector) => parse_prefixed_hex(text@) == Some(vector@),
                None => !(parse_prefixed_hex(text@) matches Some(bytes) && bytes.len() == N),
            },
    {
        match read_prefixed_hex(text) {
            Some(read) => {
                if read.len() != N {
                    return None;
                }
                let mut bytes = [0u8;N];
                let mut i: usize = 0;
                while i < N
                    invariant
                        i <= N,
                        read.len() == N,
                        forall|j: int| 0 <= j < i ==> bytes[j] == read[j],
                    decreases N - i,
                {
                    bytes[i] = read[i];
                    i += 1;
                }
                assert(bytes@ =~= read@);
                Some(ByteVector { bytes })
            },
            None => None,
        }
    }

    /// Wraps `bytes`.
    pub fn new(bytes: [u8; N]) -> (r: Self)
        ensures
            r.bytes == bytes,
    {
        ByteVector { bytes }
    }
}

impl<const N: usize> Default for ByteVector<N> {
    /// The vector of `N` zero bytes.
    fn default() -> (r: Self)
        ensures
            r.is_zero(),
    {
        ByteVector { bytes: [0u8;N] }
    }
}

/// Two byte vectors with the same bytes are the same value.
pub proof fn lemma_byte_vector_ext<const N: usize>(a: ByteVector<N>, b: ByteVector<N>)
    ensures
        (a@ == b@) <==> (a == b),
{
    if a@ == b@ {
        assert forall|i: int| 0 <= i < N implies a.bytes[i] == b.bytes[i] by {
            assert(a@[i] == b@[i]);
        }
        assert(a.bytes =~= b.bytes);
    }
}

} // verus!
