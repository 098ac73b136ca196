//! Blobs: immutable chunks of bytes that are addressed by their content.

use crate::keys::PublicKey;
use crate::name::{content_name, lemma_same_bytes_same_name, XorName};
use vstd::prelude::*;

verus! {

/// The address of a blob: the name of its content, and whether the blob is public or
/// private.
#[derive(Clone, Copy, Debug, PartialEq, Eq, PartialOrd, Ord, Hash)]
pub enum BlobAddress {
    /// The address of a private blob.
    Private(XorName),
    /// The address of a public blob.
    Public(XorName),
}

impl BlobAddress {
    /// The name in the address.
    pub open spec fn spec_name(&self) -> XorName {
        match *self {
            BlobAddress::Private(name) => name,
            BlobAddress::Public(name) => name,
        }
    }

    /// Whether this is the address of a public blob.
    pub open spec fn spec_is_public(&self) -> bool {
        *self is Public
    }

    /// The name in the address.
    #[verifier::when_used_as_spec(spec_name)]
    pub fn name(&self) -> (name: XorName)
        ensures
            name == self.name(),
    {
        match self {
            BlobAddress::Private(name) => *name,
            BlobAddress::Public(name) => *name,
        }
    }

    /// Whether this is the address of a public blob.
    #[verifier::when_used_as_spec(spec_is_public)]
    pub fn is_public(&self) -> (r: bool)
        ensures
            r == self.is_public(),
    {
        match self {
            BlobAddress::Private(_) => false,
            BlobAddress::Public(_) => true,
        }
    }

    /// Whether this is the address of a private blob.
    pub fn is_private(&self) -> (r: bool)
        ensures
            r == !self.is_public(),
    {
        !self.is_public()
    }

    /// Whether the two addresses are the same.
    pub fn same(&self, other: &BlobAddress) -> (r: bool)
        ensures
            r == (*self == *other),
    {
        match (self, other) {
            (BlobAddress::Private(a), BlobAddress::Private(b)) => a.same(b),
            (BlobAddress::Public(a), BlobAddress::Public(b)) => a.same(b),
            _ => false,
        }
    }
}

/// What a blob is: its address, its bytes and, for a private blob, its owner.
pub struct BlobView {
    /// The address of the blob.
    pub address: BlobAddress,
    /// The bytes of the blob.
    pub value: Seq<u8>,
    /// The owner of a private blob; a public blob has none.
    pub owner: Option<PublicKey>,
}

/// Whether `address` is the address of the public blob with the bytes `value`: the name
/// of that content.
pub open spec fn is_public_address(address: BlobAddress, value: Seq<u8>) -> bool {
    address is Public && address.name()@ == content_name(value)
}

/// Whether `address` is the address of the private blob of `owner` with the bytes
/// `value`: the name of the bytes followed by the owner's key.
pub open spec fn is_private_address(
    address: BlobAddress,
    value: Seq<u8>,
    owner: PublicKey,
) -> bool {
    address is Private && address.name()@ == content_name(value + owner.bytes())
}

/// Whether a blob's address is the one that its content gives it.
pub open spec fn content_addressed(blob: BlobView) -> bool {
    match blob.owner {
        Some(owner) => is_private_address(blob.address, blob.value, owner),
        None => is_public_address(blob.address, blob.value),
    }
}

/// A copy of the bytes.
pub(crate) fn copy_bytes(bytes: &Vec<u8>) -> (copy: Vec<u8>)
    ensures
        copy@ == bytes@,
{
    let mut copy: Vec<u8> = Vec::new();
    let mut i: usize = 0;
    while i < bytes.len()
        invariant
            0 <= i <= bytes@.len(),
            copy@ == bytes@.subrange(0, i as int),
        decreases bytes@.len() - i,
    {
        copy.push(bytes[i]);
        assert(bytes@.subrange(0, i + 1) =~= bytes@.subrange(0, i as int).push(bytes@[i as int]));
        i = i + 1;
    }
    assert(bytes@.subrange(0, bytes@.len() as int) =~= bytes@);
    copy
}

/// A public blob: readable by anyone, and never deleted.
#[derive(Debug, PartialEq, Eq)]
pub struct PublicBlob {
    address: BlobAddress,
    value: Vec<u8>,
}

impl View for PublicBlob {
    type V = BlobView;

    closed spec fn view(&self) -> BlobView {
        BlobView { address: self.address, value: self.value@, owner: None }
    }
}

impl Clone for PublicBlob {
    fn clone(&self) -> (copy: PublicBlob)
        ensures
            copy@ == self@,
    {
        proof {
            use_type_invariant(self);
        }
        PublicBlob { address: self.address, value: copy_bytes(&self.value) }
    }
}

impl PublicBlob {
    #[verifier::type_invariant]
    spec fn addressed_by_content(&self) -> bool {
        is_public_address(self.address, self.value@)
    }

    /// The public blob with the bytes `value`.
    pub fn new(value: Vec<u8>) -> (blob: PublicBlob)
        ensures
            blob@.value == value@,
            blob@.owner is None,
            content_addressed(blob@),
    {
        let rest: Vec<u8> = Vec::new();
        let name = XorName::from_content(&value, &rest);
        assert(value@ + rest@ =~= value@);
        PublicBlob { address: BlobAddress::Public(name), value }
    }

    /// The bytes of the blob.
    pub fn value(&self) -> (value: &Vec<u8>)
        ensures
            value@ == self@.value,
    {
        &self.value
    }

    /// The address of the blob.
    pub fn address(&self) -> (address: &BlobAddress)
        ensures
            *address == self@.address,
            content_addressed(self@),
            self@.owner is None,
    {
        proof {
            use_type_invariant(self);
        }
        &self.address
    }

    /// The name of the blob.
    pub fn name(&self) -> (name: XorName)
        ensures
            name == self@.address.name(),
    {
        self.address.name()
    }
}

/// A private blob: it belongs to its owner, who alone may delete it.
#[derive(Debug, PartialEq, Eq)]
pub struct PrivateBlob {
    address: BlobAddress,
    value: Vec<u8>,
    owner: PublicKey,
}

impl View for PrivateBlob {
    type V = BlobView;

    closed spec fn view(&self) -> BlobView {
        BlobView { address: self.address, value: self.value@, owner: Some(self.owner) }
    }
}

impl Clone for PrivateBlob {
    fn clone(&self) -> (copy: PrivateBlob)
        ensures
            copy@ == self@,
    {
        proof {
            use_type_invariant(self);
        }
        PrivateBlob { address: self.address, value: copy_bytes(&self.value), owner: self.owner }
    }
}

impl PrivateBlob {
    #[verifier::type_invariant]
    spec fn addressed_by_content(&self) -> bool {
        is_private_address(self.address, self.value@, self.owner)
    }

    /// The private blob of `owner` with the bytes `value`.
    pub fn new(value: Vec<u8>, owner: PublicKey) -> (blob: PrivateBlob)
        ensures
            blob@.value == value@,
            blob@.owner == Some(owner),
            content_addressed(blob@),
    {
        let key: Vec<u8> = owner.to_bytes();
        let name = XorName::from_content(&value, &key);
        PrivateBlob { address: BlobAddress::Private(name), value, owner }
    }

    /// The bytes of the blob.
    pub fn value(&self) -> (value: &Vec<u8>)
        ensures
            value@ == self@.value,
    {
        &self.value
    }

    /// The owner of the blob.
    pub fn owner(&self) -> (owner: &PublicKey)
        ensures
            self@.owner == Some(*owner),
    {
        &self.owner
    }

    /// The address of the blob.
    pub fn address(&self) -> (address: &BlobAddress)
        ensures
            *address == self@.address,
            content_addressed(self@),
            self@.owner is Some,
    {
        proof {
            use_type_invariant(self);
        }
        &self.address
    }

    /// The name of the blob.
    pub fn name(&self) -> (name: XorName)
        ensures
            name == self@.address.name(),
    {
        self.address.name()
    }
}

/// A blob of either kind.
#[derive(Debug, PartialEq, Eq)]
pub enum Blob {
    /// A private blob.
    Private(PrivateBlob),
    /// A public blob.
    Public(PublicBlob),
}

impl View for Blob {
    type V = BlobView;

    open spec fn view(&self) -> BlobView {
        match self {
            Blob::Private(data) => data@,
            Blob::Public(data) => data@,
        }
    }
}

impl Clone for Blob {
    fn clone(&self) -> (copy: Blob)
        ensures
            copy@ == self@,
            copy is Private == self is Private,
    {
        match self {
            Blob::Private(data) => Blob::Private(data.clone()),
            Blob::Public(data) => Blob::Public(data.clone()),
        }
    }
}

impl Blob {
    /// The address of the blob. It is the address that the blob's content gives it.
    pub fn address(&self) -> (address: &BlobAddress)
        ensures
            *address == self@.address,
            content_addressed(self@),
            self is Private <==> self@.owner is Some,
            self is Private <==> !self@.address.is_public(),
    {
        match self {
            Blob::Private(data) => data.address(),
            Blob::Public(data) => data.address(),
        }
    }

    /// The name of the blob.
    pub fn name(&self) -> (name: XorName)
        ensures
            name == self@.address.name(),
    {
        match self {
            Blob::Private(data) => data.name(),
            Blob::Public(data) => data.name(),
        }
    }

    /// The owner of a private blob; a public blob has none.
    pub fn owner(&self) -> (owner: Option<&PublicKey>)
        ensures
            match owner {
                Some(key) => self@.owner == Some(*key),
                None => self@.owner is None,
            },
            owner.is_some() == self is Private,
    {
        match self {
            Blob::Private(data) => Some(data.owner()),
            Blob::Public(_) => {
                let _ = self.address();
                None
            },
        }
    }

    /// Whether the blob is public.
    pub fn is_public(&self) -> (r: bool)
        ensures
            r == self is Public,
            r == self@.owner is None,
            r == self@.address.is_public(),
    {
        let _ = self.address();
        match self {
            Blob::Private(_) => false,
            Blob::Public(_) => true,
        }
    }

    /// Whether the blob is private.
    pub fn is_private(&self) -> (r: bool)
        ensures
            r == self is Private,
            r == self@.owner is Some,
            r == !self@.address.is_public(),
    {
        !self.is_public()
    }

    /// The bytes of the blob.
    pub fn value(&self) -> (value: &Vec<u8>)
        ensures
            value@ == self@.value,
    {
        match self {
            Blob::Private(data) => data.value(),
            Blob::Public(data) => data.value(),
        }
    }
}

/// Two blobs with the same bytes and the same owner, or none, have the same address.
pub proof fn lemma_address_from_content(a: BlobView, b: BlobView)
    requires
        content_addressed(a),
        content_addressed(b),
        a.value == b.value,
        a.owner == b.owner,
    ensures
        a.address == b.address,
{
    lemma_same_bytes_same_name(a.address.name(), b.address.name());
}

} // verus!
