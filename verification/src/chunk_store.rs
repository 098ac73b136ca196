//! The store of chunks: a bounded map from the address of a blob to the blob.

use crate::blob::{content_addressed, Blob, BlobAddress, BlobView};
use crate::error::{Error, Result};
use vstd::prelude::*;

verus! {

/// How an operation on the disk has ended.
#[derive(Clone, Copy, Debug, PartialEq, Eq, Structural)]
pub enum DiskOutcome {
    /// The disk holds what it was to hold.
    Done,
    /// The operation failed, and the disk is as it was.
    Failed,
}

/// The space that a store may use, and how much of it is used.
#[derive(Clone, Copy, Debug, PartialEq, Eq)]
pub struct UsedSpace {
    used: u64,
    max_capacity: u64,
}

impl UsedSpace {
    #[verifier::type_invariant]
    spec fn within_capacity(&self) -> bool {
        self.used <= self.max_capacity
    }

    /// The number of bytes in use.
    pub closed spec fn spec_used(&self) -> u64 {
        self.used
    }

    /// The number of bytes that may be used at most.
    pub closed spec fn spec_max_capacity(&self) -> u64 {
        self.max_capacity
    }

    /// Space of `max_capacity` bytes, none of them used.
    pub fn new(max_capacity: u64) -> (space: UsedSpace)
        ensures
            space.used() == 0,
            space.max_capacity() == max_capacity,
    {
        UsedSpace { used: 0, max_capacity }
    }

    /// The number of bytes in use. It is never more than the capacity.
    #[verifier::when_used_as_spec(spec_used)]
    pub fn used(&self) -> (used: u64)
        ensures
            used == self.used(),
            used <= self.max_capacity(),
    {
        proof {
            use_type_invariant(self);
        }
        self.used
    }

    /// The number of bytes that may be used at most.
    #[verifier::when_used_as_spec(spec_max_capacity)]
    pub fn max_capacity(&self) -> (max: u64)
        ensures
            max == self.max_capacity(),
    {
        self.max_capacity
    }

    /// Whether `size` more bytes fit.
    pub fn fits(&self, size: u64) -> (r: bool)
        ensures
            r == (self.used() + size <= self.max_capacity()),
    {
        proof {
            use_type_invariant(self);
        }
        size <= self.max_capacity - self.used
    }

    /// The space with `size` more bytes in use.
    fn increased(&self, size: u64) -> (space: UsedSpace)
        requires
            self.used() + size <= self.max_capacity(),
        ensures
            space.used() == self.used() + size,
            space.max_capacity() == self.max_capacity(),
    {
        UsedSpace { used: self.used + size, max_capacity: self.max_capacity }
    }

    /// The space with `size` fewer bytes in use.
    fn decreased(&self, size: u64) -> (space: UsedSpace)
        requires
            size <= self.used(),
        ensures
            space.used() == self.used() - size,
            space.max_capacity() == self.max_capacity(),
    {
        proof {
            use_type_invariant(self);
        }
        UsedSpace { used: self.used - size, max_capacity: self.max_capacity }
    }
}

/// Whether some blob of `s` has the address `address`.
pub open spec fn has_address(s: Seq<BlobView>, address: BlobAddress) -> bool {
    exists|i: int| 0 <= i < s.len() && (#[trigger] s[i]).address == address
}

/// The place of a blob of `s` with the address `address`.
pub open spec fn place_of(s: Seq<BlobView>, address: BlobAddress) -> int {
    choose|i: int| 0 <= i < s.len() && (#[trigger] s[i]).address == address
}

/// Whether no two blobs of `s` have the same address.
pub open spec fn distinct_addresses(s: Seq<BlobView>) -> bool {
    forall|i: int, j: int|
        0 <= i < j < s.len() ==> (#[trigger] s[i]).address != (#[trigger] s[j]).address
}

/// The number of bytes of all the blobs of `s` together.
pub open spec fn total_size(s: Seq<BlobView>) -> nat
    decreases s.len(),
{
    if s.len() == 0 {
        0
    } else {
        total_size(s.drop_last()) + s.last().value.len()
    }
}

/// The blobs of `s` by their addresses.
pub open spec fn by_address(s: Seq<BlobView>) -> Map<BlobAddress, BlobView> {
    Map::new(
        |address: BlobAddress| has_address(s, address),
        |address: BlobAddress| s[place_of(s, address)],
    )
}

/// The blobs that a sequence of chunks holds.
pub open spec fn views_of(chunks: Seq<Blob>) -> Seq<BlobView> {
    chunks.map_values(|blob: Blob| blob@)
}

/// What holds of the blobs of every store with room for `max_capacity` bytes: no address
/// occurs twice, every blob has the address that its content gives it, and together the
/// blobs fit.
pub open spec fn valid_store(stored: Seq<BlobView>, max_capacity: nat) -> bool {
    &&& distinct_addresses(stored)
    &&& total_size(stored) <= max_capacity
    &&& forall|i: int| 0 <= i < stored.len() ==> content_addressed(#[trigger] stored[i])
}

/// Whether a store with the blobs `stored` takes in `blob`: not if it holds a blob at
/// that address already, and not if it has no room for it.
pub open spec fn put_check(stored: Seq<BlobView>, max_capacity: nat, blob: BlobView) -> Result<()> {
    if has_address(stored, blob.address) {
        Err(Error::DataExists)
    } else if total_size(stored) + blob.value.len() > max_capacity {
        Err(Error::OutOfSpace)
    } else {
        Ok(())
    }
}

/// How putting `blob` into a store with the blobs `stored` ends, where the disk answers
/// with `disk` if it is written to.
pub open spec fn put_result(
    stored: Seq<BlobView>,
    max_capacity: nat,
    blob: BlobView,
    disk: DiskOutcome,
) -> Result<()> {
    match put_check(stored, max_capacity, blob) {
        Err(e) => Err(e),
        Ok(_) => if disk == DiskOutcome::Done {
            Ok(())
        } else {
            Err(Error::IoFailure)
        },
    }
}

/// The blobs of a store after putting `blob` into it: `blob` is added where the put
/// succeeds, and nothing changes where it fails.
pub open spec fn after_put(
    stored: Seq<BlobView>,
    max_capacity: nat,
    blob: BlobView,
    disk: DiskOutcome,
) -> Seq<BlobView> {
    if put_result(stored, max_capacity, blob, disk) is Ok {
        stored.push(blob)
    } else {
        stored
    }
}

/// How deleting the blob at `address` from a store with the blobs `stored` ends, where
/// the disk answers with `disk` if it is written to.
pub open spec fn delete_result(
    stored: Seq<BlobView>,
    address: BlobAddress,
    disk: DiskOutcome,
) -> Result<()> {
    if !has_address(stored, address) {
        Err(Error::NoSuchData)
    } else if disk == DiskOutcome::Done {
        Ok(())
    } else {
        Err(Error::IoFailure)
    }
}

/// The blobs of a store after deleting the blob at `address` from it: the blob is gone
/// where the delete succeeds, and nothing changes where it fails.
pub open spec fn after_delete(
    stored: Seq<BlobView>,
    address: BlobAddress,
    disk: DiskOutcome,
) -> Seq<BlobView> {
    if delete_result(stored, address, disk) is Ok {
        stored.remove(place_of(stored, address))
    } else {
        stored
    }
}

/// Where no address occurs twice, the blob at a place is the one that its address leads
/// to.
pub proof fn lemma_by_address_entry(s: Seq<BlobView>, i: int)
    requires
        distinct_addresses(s),
        0 <= i < s.len(),
    ensures
        by_address(s).contains_key(s[i].address),
        by_address(s)[s[i].address] == s[i],
        place_of(s, s[i].address) == i,
{
    assert(has_address(s, s[i].address));
}

/// Taking a blob out lowers the total size by the size of the blob.
pub proof fn lemma_total_size_remove(s: Seq<BlobView>, i: int)
    requires
        0 <= i < s.len(),
    ensures
        total_size(s.remove(i)) + s[i].value.len() == total_size(s),
    decreases s.len(),
{
    if i == s.len() - 1 {
        assert(s.remove(i) =~= s.drop_last());
    } else {
        lemma_total_size_remove(s.drop_last(), i);
        assert(s.remove(i).drop_last() =~= s.drop_last().remove(i));
        assert(s.remove(i).last() == s.last());
    }
}

/// The store of chunks. It holds every blob under the blob's own address, no address
/// twice, and counts the bytes it holds.
#[derive(Debug)]
pub struct BlobChunkStore {
    state: StoreState,
}

/// What a store holds: its chunks, and the count of their bytes.
#[derive(Debug)]
struct StoreState {
    chunks: Vec<Blob>,
    used_space: UsedSpace,
}

impl StoreState {
    /// The state of a store that holds nothing and has no room.
    fn empty() -> (state: StoreState)
        ensures
            state.chunks@.len() == 0,
            state.used_space.used() == 0,
            state.used_space.max_capacity() == 0,
    {
        StoreState { chunks: Vec::new(), used_space: UsedSpace::new(0) }
    }
}

impl View for BlobChunkStore {
    type V = Map<BlobAddress, BlobView>;

    open spec fn view(&self) -> Map<BlobAddress, BlobView> {
        by_address(self.stored())
    }
}

impl BlobChunkStore {
    #[verifier::type_invariant]
    spec fn consistent(&self) -> bool {
        &&& distinct_addresses(views_of(self.state.chunks@))
        &&& self.state.used_space.used() == total_size(views_of(self.state.chunks@))
        &&& self.state.used_space.used() <= self.state.used_space.max_capacity()
        &&& forall|i: int|
            0 <= i < self.state.chunks@.len() ==>
                content_addressed((#[trigger] self.state.chunks@[i])@)
    }

    /// The blobs in the store.
    pub closed spec fn stored(&self) -> Seq<BlobView> {
        views_of(self.state.chunks@)
    }

    /// The number of bytes in use, for use in contracts.
    pub closed spec fn spec_used_space(&self) -> u64 {
        self.state.used_space.used()
    }

    /// The number of bytes that the store may use at most, for use in contracts.
    pub closed spec fn spec_max_capacity(&self) -> u64 {
        self.state.used_space.max_capacity()
    }

    /// What holds of every store: its blobs are those of a valid store, and the bytes in
    /// use are the bytes of its blobs.
    pub open spec fn wf(&self) -> bool {
        &&& valid_store(self.stored(), self.max_capacity() as nat)
        &&& self.used_space() == total_size(self.stored())
    }

    /// An empty store with the capacity of `used_space`.
    pub fn new(used_space: UsedSpace) -> (store: BlobChunkStore)
        ensures
            store.wf(),
            store.stored() == Seq::<BlobView>::empty(),
            store@ == Map::<BlobAddress, BlobView>::empty(),
            store.used_space() == 0,
            store.max_capacity() == used_space.max_capacity(),
    {
        let store = BlobChunkStore {
            state: StoreState {
                chunks: Vec::new(),
                used_space: UsedSpace::new(used_space.max_capacity()),
            },
        };
        assert(store.stored() =~= Seq::<BlobView>::empty());
        assert(store@ =~= Map::<BlobAddress, BlobView>::empty());
        store
    }

    /// The number of bytes in use.
    #[verifier::when_used_as_spec(spec_used_space)]
    pub fn used_space(&self) -> (used: u64)
        ensures
            self.wf(),
            used == self.used_space(),
            used == total_size(self.stored()),
    {
        proof {
            use_type_invariant(self);
        }
        self.state.used_space.used()
    }

    /// The number of bytes that the store may use at most.
    #[verifier::when_used_as_spec(spec_max_capacity)]
    pub fn max_capacity(&self) -> (max: u64)
        ensures
            self.wf(),
            max == self.max_capacity(),
    {
        proof {
            use_type_invariant(self);
        }
        self.state.used_space.max_capacity()
    }

    /// The place of the blob at `address`, if the store holds it.
    fn find(&self, address: &BlobAddress) -> (at: Option<usize>)
        ensures
            self.wf(),
            match at {
                Some(i) => {
                    &&& i < self.state.chunks@.len()
                    &&& self.state.chunks@[i as int]@.address == *address
                    &&& self@.contains_key(*address)
                    &&& self@[*address] == self.state.chunks@[i as int]@
                    &&& place_of(self.stored(), *address) == i
                },
                None => !self@.contains_key(*address),
            },
    {
        proof {
            use_type_invariant(self);
        }
        let mut i: usize = 0;
        while i < self.state.chunks.len()
            invariant
                0 <= i <= self.state.chunks@.len(),
                self.wf(),
                distinct_addresses(views_of(self.state.chunks@)),
                forall|j: int|
                    0 <= j < i ==> (#[trigger] views_of(self.state.chunks@)[j]).address != *address,
            decreases self.state.chunks@.len() - i,
        {
            if self.state.chunks[i].address().same(address) {
                proof {
                    lemma_by_address_entry(views_of(self.state.chunks@), i as int);
                }
                return Some(i);
            }
            i = i + 1;
        }
        None
    }

    /// Whether the store holds a blob at `address`.
    pub fn has(&self, address: &BlobAddress) -> (r: bool)
        ensures
            self.wf(),
            r == has_address(self.stored(), *address),
            r == self@.contains_key(*address),
    {
        self.find(address).is_some()
    }

    /// The blob at `address`.
    pub fn get(&self, address: &BlobAddress) -> (blob: Result<Blob>)
        ensures
            self.wf(),
            match blob {
                Ok(b) => has_address(self.stored(), *address) && b@ == self.stored()[place_of(
                    self.stored(),
                    *address,
                )] && b@ == self@[*address] && b@.address == *address,
                Err(e) => !has_address(self.stored(), *address) && e == Error::NoSuchData,
            },
    {
        match self.find(address) {
            Some(i) => Ok(self.state.chunks[i].clone()),
            None => Err(Error::NoSuchData),
        }
    }

    /// Whether `blob` can be put into the store.
    pub fn check_put(&self, blob: &Blob) -> (r: Result<()>)
        ensures
            self.wf(),
            r == put_check(self.stored(), self.max_capacity() as nat, blob@),
    {
        proof {
            use_type_invariant(self);
        }
        if self.has(blob.address()) {
            return Err(Error::DataExists);
        }
        let size: usize = blob.value().len();
        if size as u64 > self.state.used_space.max_capacity() - self.state.used_space.used() {
            return Err(Error::OutOfSpace);
        }
        Ok(())
    }

    /// Puts `blob` into the store, where the store accepts it and `disk` says that its
    /// bytes are written. Otherwise the store stays as it is.
    pub fn put(&mut self, blob: &Blob, disk: DiskOutcome) -> (r: Result<()>)
        ensures
            final(self).wf(),
            final(self).max_capacity() == old(self).max_capacity(),
            r == put_result(old(self).stored(), old(self).max_capacity() as nat, blob@, disk),
            final(self).stored() == after_put(
                old(self).stored(),
                old(self).max_capacity() as nat,
                blob@,
                disk,
            ),
            r.is_ok() ==> final(self)@ == old(self)@.insert(blob@.address, blob@),
            r.is_err() ==> final(self)@ == old(self)@,
    {
        proof {
            use_type_invariant(&*self);
        }
        match self.check_put(blob) {
            Err(e) => {
                return Err(e);
            },
            Ok(_) => {},
        }
        match disk {
            DiskOutcome::Failed => {
                return Err(Error::IoFailure);
            },
            DiskOutcome::Done => {},
        }
        let copy: Blob = blob.clone();
        let _ = copy.address();
        let size: u64 = copy.value().len() as u64;
        let ghost s0 = views_of(self.state.chunks@);
        let mut state: StoreState = StoreState::empty();
        assert(views_of(state.chunks@) =~= Seq::<BlobView>::empty());
        core::mem::swap(&mut self.state, &mut state);
        state.chunks.push(copy);
        state.used_space = state.used_space.increased(size);
        let ghost chunks = state.chunks;
        proof {
            let s1 = views_of(chunks@);
            assert(s1 =~= s0.push(blob@));
            assert(s1.drop_last() =~= s0);
            assert(distinct_addresses(s1)) by {
                assert forall|i: int, j: int| 0 <= i < j < s1.len() implies
                    (#[trigger] s1[i]).address != (#[trigger] s1[j]).address by {
                    if j == s0.len() {
                        assert(s0[i].address != blob@.address);
                    } else {
                        assert(s0[i].address != s0[j].address);
                    }
                }
            }
            assert(by_address(s1) =~= by_address(s0).insert(blob@.address, blob@)) by {
                assert forall|a: BlobAddress| by_address(s1).contains_key(a) == by_address(
                    s0,
                ).insert(blob@.address, blob@).contains_key(a) by {
                    if has_address(s0, a) {
                        assert(s1[place_of(s0, a)].address == a);
                    }
                    if a == blob@.address {
                        assert(s1[s0.len() as int].address == a);
                    }
                    if has_address(s1, a) && a != blob@.address {
                        assert(s0[place_of(s1, a)].address == a);
                    }
                }
                assert forall|a: BlobAddress| by_address(s1).contains_key(a) implies by_address(
                    s1,
                )[a] == by_address(s0).insert(blob@.address, blob@)[a] by {
                    let i = place_of(s1, a);
                    lemma_by_address_entry(s1, i);
                    if i < s0.len() {
                        lemma_by_address_entry(s0, i);
                    }
                }
            }
        }
        core::mem::swap(&mut self.state, &mut state);
        Ok(())
    }

    /// Takes the blob at `address` out of the store, where the store holds it and `disk`
    /// says that its bytes are gone. Otherwise the store stays as it is.
    pub fn delete(&mut self, address: &BlobAddress, disk: DiskOutcome) -> (r: Result<()>)
        ensures
            final(self).wf(),
            final(self).max_capacity() == old(self).max_capacity(),
            r == delete_result(old(self).stored(), *address, disk),
            final(self).stored() == after_delete(old(self).stored(), *address, disk),
            r.is_ok() ==> final(self)@ == old(self)@.remove(*address),
            r.is_err() ==> final(self)@ == old(self)@,
    {
        proof {
            use_type_invariant(&*self);
        }
        let at: usize = match self.find(address) {
            None => {
                return Err(Error::NoSuchData);
            },
            Some(i) => i,
        };
        match disk {
            DiskOutcome::Failed => {
                return Err(Error::IoFailure);
            },
            DiskOutcome::Done => {},
        }
        let ghost s0 = views_of(self.state.chunks@);
        let ghost p = at as int;
        let size: u64 = self.state.chunks[at].value().len() as u64;
        proof {
            lemma_total_size_remove(s0, p);
            lemma_by_address_entry(s0, p);
        }
        let mut state: StoreState = StoreState::empty();
        assert(views_of(state.chunks@) =~= Seq::<BlobView>::empty());
        core::mem::swap(&mut self.state, &mut state);
        let _ = state.chunks.remove(at);
        state.used_space = state.used_space.decreased(size);
        let ghost chunks = state.chunks;
        proof {
            let s1 = views_of(chunks@);
            assert(s1 =~= s0.remove(p));
            assert(distinct_addresses(s1)) by {
                assert forall|i: int, j: int| 0 <= i < j < s1.len() implies
                    (#[trigger] s1[i]).address != (#[trigger] s1[j]).address by {
                    let i0 = if i < p { i } else { i + 1 };
                    let j0 = if j < p { j } else { j + 1 };
                    assert(s0[i0].address != s0[j0].address);
                }
            }
            assert forall|j: int| 0 <= j < s0.len() && j != p implies (#[trigger] s0[j]).address
                != *address by {
                if j < p {
                    assert(s0[j].address != s0[p].address);
                } else {
                    assert(s0[p].address != s0[j].address);
                }
            }
            assert(by_address(s1) =~= by_address(s0).remove(*address)) by {
                assert forall|a: BlobAddress| by_address(s1).contains_key(a) == by_address(
                    s0,
                ).remove(*address).contains_key(a) by {
                    if has_address(s0, a) && a != *address {
                        let n = place_of(s0, a);
                        let m = if n < p { n } else { n - 1 };
                        assert(s1[m].address == a);
                    }
                    if has_address(s1, a) {
                        let m = place_of(s1, a);
                        let n = if m < p { m } else { m + 1 };
                        assert(s0[n].address == a);
                    }
                }
                assert forall|a: BlobAddress| by_address(s1).contains_key(a) implies by_address(
                    s1,
                )[a] == by_address(s0).remove(*address)[a] by {
                    let m = place_of(s1, a);
                    let n = if m < p { m } else { m + 1 };
                    lemma_by_address_entry(s1, m);
                    lemma_by_address_entry(s0, n);
                }
            }
            assert forall|i: int| 0 <= i < chunks@.len() implies
                content_addressed((#[trigger] chunks@[i])@) by {
                let i0 = if i < p { i } else { i + 1 };
                assert(content_addressed(s0[i0]));
            }
        }
        core::mem::swap(&mut self.state, &mut state);
        Ok(())
    }
}

} // verus!
