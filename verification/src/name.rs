//! Names: 256-bit identifiers of nodes, sections and content.

use vstd::prelude::*;

verus! {

/// Number of bytes in a name.
pub const XOR_NAME_LEN: usize = 32;

/// A 256-bit identifier. Names are ordered as their bytes are, first byte first.
#[derive(Clone, Copy, Debug, PartialEq, Eq, PartialOrd, Ord, Hash)]
pub struct XorName(pub [u8; 32]);

/// How one name stands to another in the order of names.
#[derive(Clone, Copy, Debug, PartialEq, Eq, Structural)]
pub enum NameOrder {
    /// The first name comes before the second.
    Before,
    /// The two names are the same.
    Same,
    /// The first name comes after the second.
    After,
}

/// Whether byte string `a` comes strictly before `b`: at the first place where they
/// differ, `a` holds the smaller byte. Stated for strings of equal length.
pub open spec fn bytes_before(a: Seq<u8>, b: Seq<u8>) -> bool {
    exists|i: int|
        0 <= i < a.len() && i < b.len() && #[trigger] a[i] < b[i] && a.subrange(0, i)
            == b.subrange(0, i)
}

/// The name that the hash function gives to a piece of content.
pub uninterp spec fn content_name(content: Seq<u8>) -> Seq<u8>;

/// The name that the hash function gives to a piece of content, as a name.
pub open spec fn name_of_content(content: Seq<u8>) -> XorName {
    choose|name: XorName| name@ == content_name(content)
}

impl View for XorName {
    type V = Seq<u8>;

    open spec fn view(&self) -> Seq<u8> {
        self.0@
    }
}

impl XorName {
    /// Whether `self` comes strictly before `other` in the order of names.
    pub open spec fn before(self, other: XorName) -> bool {
        bytes_before(self@, other@)
    }

    /// Compares two names byte by byte.
    pub fn order(&self, other: &XorName) -> (o: NameOrder)
        ensures
            o == NameOrder::Before <==> self.before(*other),
            o == NameOrder::Same <==> *self == *other,
            o == NameOrder::After <==> other.before(*self),
    {
        let mut i: usize = 0;
        while i < 32
            invariant
                0 <= i <= 32,
                self@.subrange(0, i as int) == other@.subrange(0, i as int),
            decreases 32 - i,
        {
            let x: u8 = self.0[i];
            let y: u8 = other.0[i];
            if x < y {
                proof {
                    lemma_before_excludes(*self, *other);
                }
                return NameOrder::Before;
            }
            if y < x {
                proof {
                    lemma_before_excludes(*other, *self);
                }
                return NameOrder::After;
            }
            proof {
                let n = i as int;
                assert(self@.subrange(0, n + 1) =~= self@.subrange(0, n).push(self@[n]));
                assert(other@.subrange(0, n + 1) =~= other@.subrange(0, n).push(other@[n]));
            }
            i = i + 1;
        }
        proof {
            assert(self@.subrange(0, 32) =~= self@);
            assert(other@.subrange(0, 32) =~= other@);
            lemma_same_bytes_same_name(*self, *other);
            lemma_before_irreflexive(*self);
        }
        NameOrder::Same
    }

    /// Whether the two names are the same.
    pub fn same(&self, other: &XorName) -> (r: bool)
        ensures
            r == (*self == *other),
    {
        match self.order(other) {
            NameOrder::Same => true,
            _ => false,
        }
    }

    /// The name of a piece of content given in two parts: the hash of `first` followed by
    /// `second`.
    pub fn from_content(first: &Vec<u8>, second: &Vec<u8>) -> (name: XorName)
        ensures
            name@ == content_name(first@ + second@),
            name == name_of_content(first@ + second@),
    {
        let name = XorName(hash_content(first, second));
        proof {
            lemma_same_bytes_same_name(name, name_of_content(first@ + second@));
        }
        name
    }
}

/// `xor_name::XorName::from_content`: the SHA3-256 digest of the parts fed in order, so a
/// function of their concatenation alone.
#[verifier::external_body]
fn hash_content(first: &Vec<u8>, second: &Vec<u8>) -> (digest: [u8; 32])
    ensures
        digest@ == content_name(first@ + second@),
{
    xor_name::XorName::from_content(&[first.as_slice(), second.as_slice()]).0
}

/// Names with the same bytes are the same name.
pub proof fn lemma_same_bytes_same_name(a: XorName, b: XorName)
    requires
        a@ == b@,
    ensures
        a == b,
{
    assert(forall|i: int| 0 <= i < 32 ==> a.0[i] == a@[i]);
    assert(forall|i: int| 0 <= i < 32 ==> b.0[i] == b@[i]);
    assert(a.0 =~= b.0);
}

/// No name comes before itself.
pub proof fn lemma_before_irreflexive(a: XorName)
    ensures
        !a.before(a),
{
}

/// Where `a` comes before `b`, the two differ and `b` does not come before `a`.
pub proof fn lemma_before_excludes(a: XorName, b: XorName)
    requires
        a.before(b),
    ensures
        a != b,
        !b.before(a),
{
    let i = choose|i: int|
        0 <= i < a@.len() && i < b@.len() && #[trigger] a@[i] < b@[i] && a@.subrange(0, i)
            == b@.subrange(0, i);
    if b.before(a) {
        let j = choose|j: int|
            0 <= j < b@.len() && j < a@.len() && #[trigger] b@[j] < a@[j] && b@.subrange(0, j)
                == a@.subrange(0, j);
        if i < j {
            assert(b@.subrange(0, j)[i] == a@.subrange(0, j)[i]);
        } else if j < i {
            assert(a@.subrange(0, i)[j] == b@.subrange(0, i)[j]);
        }
    }
}

/// The order of names is transitive.
pub proof fn lemma_before_transitive(a: XorName, b: XorName, c: XorName)
    requires
        a.before(b),
        b.before(c),
    ensures
        a.before(c),
{
    let i = choose|i: int|
        0 <= i < a@.len() && i < b@.len() && #[trigger] a@[i] < b@[i] && a@.subrange(0, i)
            == b@.subrange(0, i);
    let j = choose|j: int|
        0 <= j < b@.len() && j < c@.len() && #[trigger] b@[j] < c@[j] && b@.subrange(0, j)
            == c@.subrange(0, j);
    let k = if i <= j { i } else { j };
    assert(a@.subrange(0, k) =~= c@.subrange(0, k)) by {
        assert forall|n: int| 0 <= n < k implies a@[n] == c@[n] by {
            assert(a@.subrange(0, i)[n] == b@.subrange(0, i)[n]);
            assert(b@.subrange(0, j)[n] == c@.subrange(0, j)[n]);
        }
    }
    if i < j {
        assert(b@.subrange(0, j)[i] == c@.subrange(0, j)[i]);
    } else if j < i {
        assert(a@.subrange(0, i)[j] == b@.subrange(0, i)[j]);
    }
    assert(a@[k] < c@[k]);
}

} // verus!
