//! Public keys, held as their bytes.

use vstd::prelude::*;

verus! {

/// Number of bytes in an Ed25519 public key.
pub const ED25519_KEY_LEN: usize = 32;

/// Number of bytes in a BLS public key or key share.
pub const BLS_KEY_LEN: usize = 48;

/// A public key of one of the three kinds that clients, nodes and sections sign with.
/// Two keys are the same when they are of the same kind and hold the same bytes.
#[derive(Clone, Copy, Debug, PartialEq, Eq, PartialOrd, Ord, Hash)]
pub enum PublicKey {
    /// An Ed25519 public key.
    Ed25519([u8; 32]),
    /// A BLS public key.
    Bls([u8; 48]),
    /// A share of a BLS public key.
    BlsShare([u8; 48]),
}

/// Whether two arrays hold the same bytes.
fn same_bytes<const N: usize>(a: &[u8; N], b: &[u8; N]) -> (r: bool)
    ensures
        r == (*a == *b),
{
    let mut i: usize = 0;
    while i < N
        invariant
            0 <= i <= N,
            forall|j: int| 0 <= j < i ==> a[j] == b[j],
        decreases N - i,
    {
        if a[i] != b[i] {
            return false;
        }
        i = i + 1;
    }
    assert(*a =~= *b);
    true
}

/// The bytes of an array, as a vector.
fn bytes_of<const N: usize>(a: &[u8; N]) -> (v: Vec<u8>)
    ensures
        v@ == a@,
{
    let mut v: Vec<u8> = Vec::new();
    let mut i: usize = 0;
    while i < N
        invariant
            0 <= i <= N,
            v@ == a@.subrange(0, i as int),
        decreases N - i,
    {
        v.push(a[i]);
        assert(a@.subrange(0, i + 1) =~= a@.subrange(0, i as int).push(a@[i as int]));
        i = i + 1;
    }
    assert(a@.subrange(0, N as int) =~= a@);
    v
}

impl PublicKey {
    /// The bytes of the key, without its kind.
    pub open spec fn bytes(self) -> Seq<u8> {
        match self {
            PublicKey::Ed25519(b) => b@,
            PublicKey::Bls(b) => b@,
            PublicKey::BlsShare(b) => b@,
        }
    }

    /// Whether the two keys are the same.
    pub fn same(&self, other: &PublicKey) -> (r: bool)
        ensures
            r == (*self == *other),
    {
        match (self, other) {
            (PublicKey::Ed25519(a), PublicKey::Ed25519(b)) => same_bytes(a, b),
            (PublicKey::Bls(a), PublicKey::Bls(b)) => same_bytes(a, b),
            (PublicKey::BlsShare(a), PublicKey::BlsShare(b)) => same_bytes(a, b),
            _ => false,
        }
    }

    /// The bytes of the key.
    pub fn to_bytes(&self) -> (v: Vec<u8>)
        ensures
            v@ == self.bytes(),
    {
        match self {
            PublicKey::Ed25519(b) => bytes_of(b),
            PublicKey::Bls(b) => bytes_of(b),
            PublicKey::BlsShare(b) => bytes_of(b),
        }
    }
}

} // verus!
