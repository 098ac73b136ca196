//! What holds of storing and deleting chunks, whatever the chunks and whoever asks.

use crate::blob::{content_addressed, BlobAddress, BlobView};
use crate::chunk_store::{
    after_delete, after_put, delete_result, has_address, lemma_by_address_entry,
    lemma_total_size_remove, place_of, put_result, total_size, valid_store, DiskOutcome,
};
use crate::chunks::chunk_storage::{
    after_delete_request, after_store, cmd_error_reply, delete_duty, store_duty, store_result,
};
use crate::error::Error;
use crate::messaging::{EndUser, ErrorMessage, MessageId};
use crate::node_ops::NodeDuty;
use vstd::prelude::*;

verus! {

/// One step in the life of a store.
pub enum StoreStep {
    /// A blob is put, and the disk answers.
    Put(BlobView, DiskOutcome),
    /// The blob at an address is deleted, and the disk answers.
    Delete(BlobAddress, DiskOutcome),
}

/// The blobs of a store with room for `max_capacity` bytes that was empty and has taken
/// the steps `steps`, in their order.
pub open spec fn stored_after(max_capacity: nat, steps: Seq<StoreStep>) -> Seq<BlobView>
    decreases steps.len(),
{
    if steps.len() == 0 {
        Seq::empty()
    } else {
        let before = stored_after(max_capacity, steps.drop_last());
        match steps.last() {
            StoreStep::Put(blob, disk) => after_put(before, max_capacity, blob, disk),
            StoreStep::Delete(address, disk) => after_delete(before, address, disk),
        }
    }
}

/// Putting a blob leaves a valid store valid. Where the put succeeds, the store holds the
/// blob and as many bytes more as the blob has; where it fails, nothing changes.
pub proof fn lemma_put_keeps_valid(
    stored: Seq<BlobView>,
    max_capacity: nat,
    blob: BlobView,
    disk: DiskOutcome,
)
    requires
        valid_store(stored, max_capacity),
        content_addressed(blob),
    ensures
        valid_store(after_put(stored, max_capacity, blob, disk), max_capacity),
        put_result(stored, max_capacity, blob, disk) is Ok ==> has_address(
            after_put(stored, max_capacity, blob, disk),
            blob.address,
        ) && total_size(after_put(stored, max_capacity, blob, disk)) == total_size(stored)
            + blob.value.len(),
        put_result(stored, max_capacity, blob, disk) is Err ==> after_put(
            stored,
            max_capacity,
            blob,
            disk,
        ) == stored,
{
    let after = after_put(stored, max_capacity, blob, disk);
    if put_result(stored, max_capacity, blob, disk) is Ok {
        assert(after.drop_last() =~= stored);
        assert(after[stored.len() as int].address == blob.address);
        assert forall|i: int, j: int| 0 <= i < j < after.len() implies (#[trigger] after[i]).address
            != (#[trigger] after[j]).address by {
            if j == stored.len() {
                assert(stored[i].address != blob.address);
            } else {
                assert(stored[i].address != stored[j].address);
            }
        }
    }
}

/// Deleting a blob leaves a valid store valid. Where the delete succeeds, the blob is gone
/// and the store holds as many bytes fewer as the blob had; where it fails, nothing
/// changes.
pub proof fn lemma_delete_keeps_valid(
    stored: Seq<BlobView>,
    max_capacity: nat,
    address: BlobAddress,
    disk: DiskOutcome,
)
    requires
        valid_store(stored, max_capacity),
    ensures
        valid_store(after_delete(stored, address, disk), max_capacity),
        delete_result(stored, address, disk) is Ok ==> !has_address(
            after_delete(stored, address, disk),
            address,
        ) && total_size(after_delete(stored, address, disk)) + stored[place_of(
            stored,
            address,
        )].value.len() == total_size(stored),
        delete_result(stored, address, disk) is Err ==> after_delete(stored, address, disk)
            == stored,
{
    let after = after_delete(stored, address, disk);
    if delete_result(stored, address, disk) is Ok {
        let p = place_of(stored, address);
        lemma_total_size_remove(stored, p);
        assert forall|i: int, j: int| 0 <= i < j < after.len() implies (#[trigger] after[i]).address
            != (#[trigger] after[j]).address by {
            let i0 = if i < p { i } else { i + 1 };
            let j0 = if j < p { j } else { j + 1 };
            assert(stored[i0].address != stored[j0].address);
        }
        assert forall|i: int| 0 <= i < after.len() implies
            content_addressed(#[trigger] after[i]) by {
            let i0 = if i < p { i } else { i + 1 };
            assert(content_addressed(stored[i0]));
        }
        assert forall|i: int| 0 <= i < after.len() implies (#[trigger] after[i]).address
            != address by {
            let i0 = if i < p { i } else { i + 1 };
            if i0 < p {
                assert(stored[i0].address != stored[p].address);
            } else {
                assert(stored[p].address != stored[i0].address);
            }
        }
    }
}

/// After any steps a store is valid: the bytes in use, which are those of the blobs that
/// it holds, are within its capacity, and it holds no address twice.
pub proof fn lemma_used_space_consistent(max_capacity: nat, steps: Seq<StoreStep>)
    requires
        forall|i: int|
            0 <= i < steps.len() ==> (#[trigger] steps[i] matches StoreStep::Put(blob, _)
                ==> content_addressed(blob)),
    ensures
        valid_store(stored_after(max_capacity, steps), max_capacity),
    decreases steps.len(),
{
    if steps.len() > 0 {
        lemma_used_space_consistent(max_capacity, steps.drop_last());
        let before = stored_after(max_capacity, steps.drop_last());
        match steps.last() {
            StoreStep::Put(blob, disk) => {
                lemma_put_keeps_valid(before, max_capacity, blob, disk);
            },
            StoreStep::Delete(address, disk) => {
                lemma_delete_keeps_valid(before, max_capacity, address, disk);
            },
        }
    }
}

/// Storing a blob twice stores it once: where the first attempt stores it, or finds it
/// stored, the second is told that the data exists, and changes nothing.
pub proof fn lemma_store_twice(
    stored: Seq<BlobView>,
    max_capacity: nat,
    data: BlobView,
    msg_id: MessageId,
    origin: EndUser,
    first_disk: DiskOutcome,
    second_disk: DiskOutcome,
)
    requires
        valid_store(stored, max_capacity),
        content_addressed(data),
        store_result(stored, max_capacity, data, origin, first_disk) is Ok || store_result(
            stored,
            max_capacity,
            data,
            origin,
            first_disk,
        ) == Err::<(), Error>(Error::DataExists),
    ensures
        ({
            let once = after_store(stored, max_capacity, data, origin, first_disk);
            &&& valid_store(once, max_capacity)
            &&& has_address(once, data.address)
            &&& store_result(once, max_capacity, data, origin, second_disk) == Err::<(), Error>(
                Error::DataExists,
            )
            &&& store_duty(once, max_capacity, data, msg_id, origin, second_disk)
                == cmd_error_reply(ErrorMessage::DataExists, msg_id, origin)
            &&& after_store(once, max_capacity, data, origin, second_disk) == once
        }),
{
    lemma_put_keeps_valid(stored, max_capacity, data, first_disk);
}

/// A private blob is stored for its owner only: anyone else is told that the owner is not
/// valid, and nothing is stored.
pub proof fn lemma_private_stored_by_owner_only(
    stored: Seq<BlobView>,
    max_capacity: nat,
    data: BlobView,
    msg_id: MessageId,
    origin: EndUser,
    disk: DiskOutcome,
)
    requires
        data.owner is Some,
        data.owner != Some(origin.key()),
    ensures
        store_result(stored, max_capacity, data, origin, disk) == Err::<(), Error>(
            Error::InvalidOwners(origin.key()),
        ),
        store_duty(stored, max_capacity, data, msg_id, origin, disk) == cmd_error_reply(
            ErrorMessage::InvalidOwners(origin.key()),
            msg_id,
            origin,
        ),
        after_store(stored, max_capacity, data, origin, disk) == stored,
{
}

/// A public blob that is stored is never deleted: whoever asks is told that the operation
/// is not valid, and the blob stays.
pub proof fn lemma_public_never_deleted(
    stored: Seq<BlobView>,
    max_capacity: nat,
    address: BlobAddress,
    msg_id: MessageId,
    origin: EndUser,
    disk: DiskOutcome,
)
    requires
        valid_store(stored, max_capacity),
        has_address(stored, address),
        address.is_public(),
    ensures
        delete_duty(stored, address, msg_id, origin, disk) == cmd_error_reply(
            ErrorMessage::InvalidOperation,
            msg_id,
            origin,
        ),
        after_delete_request(stored, address, origin, disk) == stored,
{
    let p = place_of(stored, address);
    assert(content_addressed(stored[p]));
}

/// A private blob that is stored is deleted for its owner only. Anyone else is told that
/// the owner is not valid, and the blob stays. For the owner the blob is deleted, and
/// after that there is no such data: a second request changes nothing and is told
/// nothing.
pub proof fn lemma_private_deleted_by_owner_only(
    stored: Seq<BlobView>,
    max_capacity: nat,
    address: BlobAddress,
    msg_id: MessageId,
    origin: EndUser,
    disk: DiskOutcome,
)
    requires
        valid_store(stored, max_capacity),
        has_address(stored, address),
        !address.is_public(),
    ensures
        stored[place_of(stored, address)].owner matches Some(owner) && (if owner != origin.key() {
            &&& delete_duty(stored, address, msg_id, origin, disk) == cmd_error_reply(
                ErrorMessage::InvalidOwners(origin.key()),
                msg_id,
                origin,
            )
            &&& after_delete_request(stored, address, origin, disk) == stored
        } else {
            let after = after_delete_request(stored, address, origin, DiskOutcome::Done);
            &&& delete_duty(stored, address, msg_id, origin, DiskOutcome::Done) == NodeDuty::NoOp
            &&& valid_store(after, max_capacity)
            &&& !has_address(after, address)
            &&& delete_result(after, address, disk) == Err::<(), Error>(Error::NoSuchData)
            &&& delete_duty(after, address, msg_id, origin, disk) == NodeDuty::NoOp
            &&& after_delete_request(after, address, origin, disk) == after
        }),
{
    let p = place_of(stored, address);
    assert(content_addressed(stored[p]));
    lemma_delete_keeps_valid(stored, max_capacity, address, DiskOutcome::Done);
}

/// A blob that was stored can be had again as it was, until it is deleted.
pub proof fn lemma_stored_is_kept(
    stored: Seq<BlobView>,
    max_capacity: nat,
    data: BlobView,
    origin: EndUser,
    disk: DiskOutcome,
)
    requires
        valid_store(stored, max_capacity),
        content_addressed(data),
        store_result(stored, max_capacity, data, origin, disk) is Ok,
    ensures
        ({
            let after = after_store(stored, max_capacity, data, origin, disk);
            &&& has_address(after, data.address)
            &&& after[place_of(after, data.address)] == data
            &&& total_size(after) == total_size(stored) + data.value.len()
        }),
{
    lemma_put_keeps_valid(stored, max_capacity, data, disk);
    let after = after_store(stored, max_capacity, data, origin, disk);
    lemma_by_address_entry(after, stored.len() as int);
}

} // verus!
