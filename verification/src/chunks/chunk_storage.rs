//! The service that stores, serves, deletes and replicates chunks.

use crate::blob::{Blob, BlobAddress, BlobView};
use crate::chunk_store::{
    after_put, by_address, has_address, place_of, put_check, put_result, total_size, valid_store,
    BlobChunkStore, DiskOutcome, UsedSpace,
};
use crate::error::{convert_to_error_message, Error, Result};
use crate::messaging::{
    Aggregation, CmdError, DstLocation, EndUser, ErrorMessage, Message, MessageId,
    NodeDataQueryResponse, NodeQuery, NodeQueryResponse, NodeSystemQuery, QueryResponse,
};
use crate::name::XorName;
use crate::node_ops::{NodeDuty, OutgoingMsg};
use vstd::prelude::*;

verus! {

/// The duty to tell the user `origin`, under the id `id`, that its command with the id
/// `correlation_id` ended in `error`.
pub open spec fn cmd_error_message(
    error: ErrorMessage,
    id: MessageId,
    correlation_id: MessageId,
    origin: EndUser,
) -> NodeDuty {
    NodeDuty::Send(
        OutgoingMsg {
            msg: Message::CmdError {
                error: CmdError::Data(error),
                id,
                correlation_id,
                target_section_pk: None,
            },
            section_source: false,
            dst: DstLocation::EndUser(origin),
            aggregation: Aggregation::NoAggregation,
        },
    )
}

/// The duty to tell the user `origin` that its command with the id `msg_id` ended in
/// `error`, under the id that answers `msg_id`.
pub open spec fn cmd_error_reply(
    error: ErrorMessage,
    msg_id: MessageId,
    origin: EndUser,
) -> NodeDuty {
    cmd_error_message(error, MessageId::response_to(msg_id), msg_id, origin)
}

/// The duty to answer the query with the id `correlation_id` of the user `origin` with
/// `found`, under the id `id`.
pub open spec fn blob_message(
    found: core::result::Result<Blob, ErrorMessage>,
    id: MessageId,
    correlation_id: MessageId,
    origin: EndUser,
) -> NodeDuty {
    NodeDuty::Send(
        OutgoingMsg {
            msg: Message::QueryResponse {
                response: QueryResponse::GetBlob(found),
                id,
                correlation_id,
                target_section_pk: None,
            },
            section_source: false,
            dst: DstLocation::EndUser(origin),
            aggregation: Aggregation::NoAggregation,
        },
    )
}

/// The duty to send the chunk `data` to the node `new_holder`, under the id `id`, in
/// answer to its query with the id `correlation_id`.
pub open spec fn chunk_message(
    data: Blob,
    id: MessageId,
    correlation_id: MessageId,
    new_holder: XorName,
) -> NodeDuty {
    NodeDuty::Send(
        OutgoingMsg {
            msg: Message::NodeQueryResponse {
                response: NodeQueryResponse::Data(NodeDataQueryResponse::GetChunk(Ok(data))),
                id,
                correlation_id,
                target_section_pk: None,
            },
            section_source: false,
            dst: DstLocation::Node(new_holder),
            aggregation: Aggregation::NoAggregation,
        },
    )
}

/// Whether `duty` is to answer the query with the id `msg_id` of the user `origin` with
/// `found`: a blob, or why there is none.
pub open spec fn is_blob_reply(
    duty: NodeDuty,
    found: core::result::Result<BlobView, ErrorMessage>,
    msg_id: MessageId,
    origin: EndUser,
) -> bool {
    exists|blob: core::result::Result<Blob, ErrorMessage>|
        {
            &&& #[trigger] blob_message(blob, MessageId::response_to(msg_id), msg_id, origin)
                == duty
            &&& match found {
                Ok(view) => blob matches Ok(b) && b@ == view,
                Err(error) => blob == Err::<Blob, ErrorMessage>(error),
            }
        }
}

/// Whether `duty` is to ask the nodes `holders` for the chunk at `address`, on behalf of
/// the node `new_holder`, in a message with the id `msg_id`.
pub open spec fn is_chunk_request(
    duty: NodeDuty,
    address: BlobAddress,
    new_holder: XorName,
    holders: Seq<XorName>,
    msg_id: MessageId,
) -> bool {
    &&& duty matches NodeDuty::SendToNodes { msg, targets }
    &&& targets@ == holders
    &&& msg matches Message::NodeQuery {
        query: NodeQuery::System(
            NodeSystemQuery::GetChunk { address: asked, new_holder: holder, current_holders },
        ),
        id,
        target_section_pk,
    }
    &&& asked == address
    &&& holder == new_holder
    &&& current_holders@ == holders
    &&& id == msg_id
    &&& target_section_pk is None
}

/// Whether `duty` is to send the chunk `chunk` to the node `new_holder`, in answer to its
/// query with the id `msg_id`.
pub open spec fn is_chunk_reply(
    duty: NodeDuty,
    chunk: BlobView,
    msg_id: MessageId,
    new_holder: XorName,
) -> bool {
    exists|blob: Blob|
        {
            &&& #[trigger] chunk_message(blob, MessageId::response_to(msg_id), msg_id, new_holder)
                == duty
            &&& blob@ == chunk
        }
}

/// Whether the user `origin` may store `data` in a store with the blobs `stored`, and the
/// store takes it in. A private blob may be stored by its owner only.
pub open spec fn store_check(
    stored: Seq<BlobView>,
    max_capacity: nat,
    data: BlobView,
    origin: EndUser,
) -> Result<()> {
    if data.owner is Some && data.owner != Some(origin.key()) {
        Err(Error::InvalidOwners(origin.key()))
    } else {
        put_check(stored, max_capacity, data)
    }
}

/// How the attempt of the user `origin` to store `data` ends, where the disk answers with
/// `disk` if it is written to.
pub open spec fn store_result(
    stored: Seq<BlobView>,
    max_capacity: nat,
    data: BlobView,
    origin: EndUser,
    disk: DiskOutcome,
) -> Result<()> {
    match store_check(stored, max_capacity, data, origin) {
        Err(e) => Err(e),
        Ok(_) => if disk == DiskOutcome::Done {
            Ok(())
        } else {
            Err(Error::IoFailure)
        },
    }
}

/// The stored blobs after the attempt of the user `origin` to store `data`: `data` is
/// added where the attempt succeeds, and nothing changes where it fails.
pub open spec fn after_store(
    stored: Seq<BlobView>,
    max_capacity: nat,
    data: BlobView,
    origin: EndUser,
    disk: DiskOutcome,
) -> Seq<BlobView> {
    if store_result(stored, max_capacity, data, origin, disk) is Ok {
        stored.push(data)
    } else {
        stored
    }
}

/// What the user `origin` is told of its attempt to store `data`: nothing where it
/// succeeds, else the error.
pub open spec fn store_duty(
    stored: Seq<BlobView>,
    max_capacity: nat,
    data: BlobView,
    msg_id: MessageId,
    origin: EndUser,
    disk: DiskOutcome,
) -> NodeDuty {
    match store_result(stored, max_capacity, data, origin, disk) {
        Ok(_) => NodeDuty::NoOp,
        Err(e) => cmd_error_reply(e.message().unwrap(), msg_id, origin),
    }
}

/// Why the user `origin` cannot delete the blob at `address`, which is one of `stored`,
/// where the disk answers with `disk` if it is written to; `None` where the blob is
/// deleted. A public blob is never deleted, and a private one by its owner only.
pub open spec fn delete_refusal(
    stored: Seq<BlobView>,
    address: BlobAddress,
    origin: EndUser,
    disk: DiskOutcome,
) -> Option<ErrorMessage>
    recommends
        has_address(stored, address),
{
    match stored[place_of(stored, address)].owner {
        None => Some(ErrorMessage::InvalidOperation),
        Some(owner) => if owner != origin.key() {
            Some(ErrorMessage::InvalidOwners(origin.key()))
        } else if disk != DiskOutcome::Done {
            Some(ErrorMessage::FailedToDelete)
        } else {
            None
        },
    }
}

/// What the user `origin` is told of its attempt to delete the blob at `address`: nothing
/// where there is no such blob or where the blob is deleted, else the error.
pub open spec fn delete_duty(
    stored: Seq<BlobView>,
    address: BlobAddress,
    msg_id: MessageId,
    origin: EndUser,
    disk: DiskOutcome,
) -> NodeDuty {
    if !has_address(stored, address) {
        NodeDuty::NoOp
    } else {
        match delete_refusal(stored, address, origin, disk) {
            Some(error) => cmd_error_reply(error, msg_id, origin),
            None => NodeDuty::NoOp,
        }
    }
}

/// The stored blobs after the attempt of the user `origin` to delete the blob at
/// `address`: the blob is gone where the attempt succeeds, and nothing changes where it
/// fails.
pub open spec fn after_delete_request(
    stored: Seq<BlobView>,
    address: BlobAddress,
    origin: EndUser,
    disk: DiskOutcome,
) -> Seq<BlobView> {
    if has_address(stored, address) && delete_refusal(stored, address, origin, disk) is None {
        stored.remove(place_of(stored, address))
    } else {
        stored
    }
}

/// How storing the chunk `blob` that another holder has sent ends: a chunk that is stored
/// already is left alone, another is put into the store.
pub open spec fn replication_result(
    stored: Seq<BlobView>,
    max_capacity: nat,
    blob: BlobView,
    disk: DiskOutcome,
) -> Result<NodeDuty> {
    if has_address(stored, blob.address) {
        Ok(NodeDuty::NoOp)
    } else {
        match put_result(stored, max_capacity, blob, disk) {
            Err(e) => Err(e),
            Ok(_) => Ok(NodeDuty::NoOp),
        }
    }
}

/// The duty to tell the user `origin`, under the id `id`, that its command with the id
/// `correlation_id` ended in `error`.
pub fn cmd_error_duty(
    error: ErrorMessage,
    id: MessageId,
    correlation_id: MessageId,
    origin: EndUser,
) -> (duty: NodeDuty)
    ensures
        duty == cmd_error_message(error, id, correlation_id, origin),
{
    NodeDuty::Send(
        OutgoingMsg {
            msg: Message::CmdError {
                error: CmdError::Data(error),
                id,
                correlation_id,
                target_section_pk: None,
            },
            section_source: false,
            dst: DstLocation::EndUser(origin),
            aggregation: Aggregation::NoAggregation,
        },
    )
}

/// The duty to answer the query with the id `correlation_id` of the user `origin` with
/// `found`, under the id `id`.
pub fn blob_duty(
    found: core::result::Result<Blob, ErrorMessage>,
    id: MessageId,
    correlation_id: MessageId,
    origin: EndUser,
) -> (duty: NodeDuty)
    ensures
        duty == blob_message(found, id, correlation_id, origin),
{
    NodeDuty::Send(
        OutgoingMsg {
            msg: Message::QueryResponse {
                response: QueryResponse::GetBlob(found),
                id,
                correlation_id,
                target_section_pk: None,
            },
            section_source: false,
            dst: DstLocation::EndUser(origin),
            aggregation: Aggregation::NoAggregation,
        },
    )
}

/// The duty to send the chunk `data` to the node `new_holder`, under the id `id`, in
/// answer to its query with the id `correlation_id`.
pub fn chunk_duty(
    data: Blob,
    id: MessageId,
    correlation_id: MessageId,
    new_holder: XorName,
) -> (duty: NodeDuty)
    ensures
        duty == chunk_message(data, id, correlation_id, new_holder),
{
    NodeDuty::Send(
        OutgoingMsg {
            msg: Message::NodeQueryResponse {
                response: NodeQueryResponse::Data(NodeDataQueryResponse::GetChunk(Ok(data))),
                id,
                correlation_id,
                target_section_pk: None,
            },
            section_source: false,
            dst: DstLocation::Node(new_holder),
            aggregation: Aggregation::NoAggregation,
        },
    )
}

/// The duty to tell the user `origin` that its command with the id `msg_id` ended in
/// `error`.
fn cmd_error(error: ErrorMessage, msg_id: MessageId, origin: EndUser) -> (duty: NodeDuty)
    ensures
        duty == cmd_error_reply(error, msg_id, origin),
{
    cmd_error_duty(error, MessageId::in_response_to(&msg_id), msg_id, origin)
}

/// A copy of the names.
fn copy_names(names: &Vec<XorName>) -> (copy: Vec<XorName>)
    ensures
        copy@ == names@,
{
    let mut copy: Vec<XorName> = Vec::new();
    let mut i: usize = 0;
    while i < names.len()
        invariant
            0 <= i <= names@.len(),
            copy@ == names@.subrange(0, i as int),
        decreases names@.len() - i,
    {
        copy.push(names[i]);
        assert(names@.subrange(0, i + 1) =~= names@.subrange(0, i as int).push(names@[i as int]));
        i = i + 1;
    }
    assert(names@.subrange(0, names@.len() as int) =~= names@);
    copy
}

/// Storage of data chunks.
#[derive(Debug)]
pub struct ChunkStorage {
    node_name: XorName,
    chunks: BlobChunkStore,
}

impl View for ChunkStorage {
    type V = Map<BlobAddress, BlobView>;

    open spec fn view(&self) -> Map<BlobAddress, BlobView> {
        by_address(self.stored())
    }
}

impl ChunkStorage {
    /// The name of the node that the storage belongs to.
    pub closed spec fn node_name(&self) -> XorName {
        self.node_name
    }

    /// The blobs that are stored.
    pub closed spec fn stored(&self) -> Seq<BlobView> {
        self.chunks.stored()
    }

    /// The number of bytes that the storage may take up at most, for use in contracts.
    pub closed spec fn spec_max_capacity(&self) -> u64 {
        self.chunks.max_capacity()
    }

    /// The number of bytes that the stored blobs take up, for use in contracts.
    pub closed spec fn spec_used_space(&self) -> u64 {
        self.chunks.used_space()
    }

    /// What holds of every storage: its blobs are those of a valid store, and the bytes in
    /// use are the bytes of its blobs.
    pub open spec fn wf(&self) -> bool {
        &&& valid_store(self.stored(), self.max_capacity() as nat)
        &&& self.used_space() == total_size(self.stored())
    }

    /// The storage of the node `node_name`: empty, with the capacity of `used_space`.
    pub fn new(node_name: XorName, used_space: UsedSpace) -> (storage: ChunkStorage)
        ensures
            storage.wf(),
            storage.node_name() == node_name,
            storage.stored() == Seq::<BlobView>::empty(),
            storage.max_capacity() == used_space.max_capacity(),
    {
        ChunkStorage { node_name, chunks: BlobChunkStore::new(used_space) }
    }

    /// The number of bytes that the stored chunks take up: the bytes of all of them
    /// together.
    #[verifier::when_used_as_spec(spec_used_space)]
    pub fn used_space(&self) -> (used: u64)
        ensures
            self.wf(),
            used == self.used_space(),
            used == total_size(self.stored()),
    {
        let _ = self.chunks.max_capacity();
        self.chunks.used_space()
    }

    /// The number of bytes that the storage may take up at most.
    #[verifier::when_used_as_spec(spec_max_capacity)]
    pub fn max_capacity(&self) -> (max: u64)
        ensures
            self.wf(),
            max == self.max_capacity(),
    {
        self.chunks.max_capacity()
    }

    /// Whether a chunk is stored at `address`.
    pub fn has(&self, address: &BlobAddress) -> (r: bool)
        ensures
            self.wf(),
            r == has_address(self.stored(), *address),
    {
        self.chunks.has(address)
    }

    /// Whether the user `origin` may store `data`, and the store takes it in. Where this is
    /// `Ok`, storing `data` writes to the disk.
    pub fn check_store(&self, data: &Blob, origin: &EndUser) -> (r: Result<()>)
        ensures
            self.wf(),
            r == store_check(self.stored(), self.max_capacity() as nat, data@, *origin),
    {
        match data.owner() {
            Some(data_owner) => {
                if !data_owner.same(origin.id()) {
                    let _ = self.chunks.max_capacity();
                    return Err(Error::InvalidOwners(*origin.id()));
                }
            },
            None => {},
        }
        self.chunks.check_put(data)
    }

    /// Whether storing the chunk `blob` that another holder has sent writes to the disk: the
    /// chunk is not stored yet, and there is room for it.
    pub fn check_replication(&self, blob: &Blob) -> (r: bool)
        ensures
            self.wf(),
            r == (put_check(self.stored(), self.max_capacity() as nat, blob@) is Ok),
    {
        self.chunks.check_put(blob).is_ok()
    }

    /// Whether deleting the chunk at `address` for the user `origin` writes to the disk:
    /// the chunk is stored, it is private, and the user owns it.
    pub fn check_delete(&self, address: &BlobAddress, origin: &EndUser) -> (r: bool)
        ensures
            self.wf(),
            r == (has_address(self.stored(), *address) && delete_refusal(
                self.stored(),
                *address,
                *origin,
                DiskOutcome::Done,
            ) is None),
    {
        match self.chunks.get(address) {
            Err(_) => false,
            Ok(found) => {
                proof {
                    assert(found@ == self.stored()[place_of(self.stored(), *address)]);
                }
                match found.owner() {
                    Some(owner) => owner.same(origin.id()),
                    None => false,
                }
            },
        }
    }

    /// Stores `data` for the user `origin`, and says in the duty what the user is to be
    /// told: nothing where the chunk is stored, else the error. `disk` is what the disk
    /// answered to the writing of the chunk; it counts only where `check_store` is `Ok`.
    pub fn store(
        &mut self,
        data: &Blob,
        msg_id: MessageId,
        origin: EndUser,
        disk: DiskOutcome,
    ) -> (duty: Result<NodeDuty>)
        ensures
            final(self).wf(),
            final(self).node_name() == old(self).node_name(),
            final(self).max_capacity() == old(self).max_capacity(),
            duty == Ok::<NodeDuty, Error>(
                store_duty(
                    old(self).stored(),
                    old(self).max_capacity() as nat,
                    data@,
                    msg_id,
                    origin,
                    disk,
                ),
            ),
            final(self).stored() == after_store(
                old(self).stored(),
                old(self).max_capacity() as nat,
                data@,
                origin,
                disk,
            ),
    {
        match self.try_store(data, origin, disk) {
            Err(error) => {
                match convert_to_error_message(error) {
                    Ok(message) => Ok(cmd_error(message, msg_id, origin)),
                    Err(e) => Err(e),
                }
            },
            Ok(_) => Ok(NodeDuty::NoOp),
        }
    }

    /// Stores `data` for the user `origin`: checks that the user may store it and that the
    /// store takes it in, and puts it where `disk` says that its bytes are written. On an
    /// error the storage stays as it is.
    pub fn try_store(&mut self, data: &Blob, origin: EndUser, disk: DiskOutcome) -> (r: Result<()>)
        ensures
            final(self).wf(),
            final(self).node_name() == old(self).node_name(),
            final(self).max_capacity() == old(self).max_capacity(),
            r == store_result(
                old(self).stored(),
                old(self).max_capacity() as nat,
                data@,
                origin,
                disk,
            ),
            final(self).stored() == after_store(
                old(self).stored(),
                old(self).max_capacity() as nat,
                data@,
                origin,
                disk,
            ),
            r.is_ok() ==> final(self)@ == old(self)@.insert(data@.address, data@),
    {
        if data.is_private() {
            match data.owner() {
                Some(data_owner) => {
                    if !data_owner.same(origin.id()) {
                        let _ = self.chunks.max_capacity();
                        return Err(Error::InvalidOwners(*origin.id()));
                    }
                },
                None => {
                    let _ = self.chunks.max_capacity();
                    return Err(Error::InvalidOwners(*origin.id()));
                },
            }
        }
        self.chunks.put(data, disk)
    }

    /// Answers the query of the user `origin` for the chunk at `address`: with the chunk,
    /// or with the word that there is no such data.
    pub fn get(&self, address: &BlobAddress, msg_id: MessageId, origin: EndUser) -> (duty: Result<
        NodeDuty,
    >)
        ensures
            self.wf(),
            duty matches Ok(d) && is_blob_reply(
                d,
                if has_address(self.stored(), *address) {
                    Ok::<BlobView, ErrorMessage>(self.stored()[place_of(self.stored(), *address)])
                } else {
                    Err::<BlobView, ErrorMessage>(ErrorMessage::NoSuchData)
                },
                msg_id,
                origin,
            ),
    {
        let result: core::result::Result<Blob, ErrorMessage> = match self.chunks.get(address) {
            Ok(blob) => Ok(blob),
            Err(_) => Err(ErrorMessage::NoSuchData),
        };
        let duty = blob_duty(result, MessageId::in_response_to(&msg_id), msg_id, origin);
        assert(blob_message(result, MessageId::response_to(msg_id), msg_id, origin) == duty);
        Ok(duty)
    }

    /// Asks the nodes that hold the chunk at `address` for it, so that this node comes to
    /// hold it too.
    pub fn replicate_chunk(
        &self,
        address: BlobAddress,
        current_holders: Vec<XorName>,
        msg_id: MessageId,
    ) -> (duty: Result<NodeDuty>)
        ensures
            duty matches Ok(d) && is_chunk_request(
                d,
                address,
                self.node_name(),
                current_holders@,
                msg_id,
            ),
    {
        let msg = Message::NodeQuery {
            query: NodeQuery::System(
                NodeSystemQuery::GetChunk {
                    address,
                    new_holder: self.node_name,
                    current_holders: copy_names(&current_holders),
                },
            ),
            id: msg_id,
            target_section_pk: None,
        };
        Ok(NodeDuty::SendToNodes { msg, targets: current_holders })
    }

    /// Hands the chunk at `address` to the node `new_holder` that is to hold it too. Where
    /// there is no such chunk, nothing is sent.
    pub fn get_for_replication(
        &self,
        address: BlobAddress,
        msg_id: MessageId,
        new_holder: XorName,
    ) -> (duty: Result<NodeDuty>)
        ensures
            self.wf(),
            duty matches Ok(d) && if has_address(self.stored(), address) {
                is_chunk_reply(
                    d,
                    self.stored()[place_of(self.stored(), address)],
                    msg_id,
                    new_holder,
                )
            } else {
                d == NodeDuty::NoOp
            },
    {
        match self.chunks.get(&address) {
            Ok(data) => {
                let duty = chunk_duty(data, MessageId::in_response_to(&msg_id), msg_id, new_holder);
                assert(chunk_message(data, MessageId::response_to(msg_id), msg_id, new_holder)
                    == duty);
                Ok(duty)
            },
            Err(_) => Ok(NodeDuty::NoOp),
        }
    }

    /// Stores a chunk that another holder has sent. A chunk that is stored already is left
    /// alone. `disk` is what the disk answered to the writing of the chunk; it counts only
    /// where `check_replication` holds.
    pub fn store_for_replication(
        &mut self,
        blob: Blob,
        disk: DiskOutcome,
    ) -> (duty: Result<NodeDuty>)
        ensures
            final(self).wf(),
            final(self).node_name() == old(self).node_name(),
            final(self).max_capacity() == old(self).max_capacity(),
            duty == replication_result(
                old(self).stored(),
                old(self).max_capacity() as nat,
                blob@,
                disk,
            ),
            final(self).stored() == after_put(
                old(self).stored(),
                old(self).max_capacity() as nat,
                blob@,
                disk,
            ),
    {
        if self.chunks.has(blob.address()) {
            let _ = self.chunks.max_capacity();
            return Ok(NodeDuty::NoOp);
        }
        match self.chunks.put(&blob, disk) {
            Err(e) => Err(e),
            Ok(_) => Ok(NodeDuty::NoOp),
        }
    }

    /// Deletes the chunk at `address` for the user `origin`. Only a private chunk can be
    /// deleted, and only by its owner. Where there is no such chunk, nothing happens.
    /// `disk` is what the disk answered to the removing of the chunk; it counts only where
    /// `check_delete` holds.
    pub fn delete(
        &mut self,
        address: BlobAddress,
        msg_id: MessageId,
        origin: EndUser,
        disk: DiskOutcome,
    ) -> (duty: Result<NodeDuty>)
        ensures
            final(self).wf(),
            final(self).node_name() == old(self).node_name(),
            final(self).max_capacity() == old(self).max_capacity(),
            duty == Ok::<NodeDuty, Error>(
                delete_duty(old(self).stored(), address, msg_id, origin, disk),
            ),
            final(self).stored() == after_delete_request(old(self).stored(), address, origin, disk),
    {
        let _ = self.chunks.max_capacity();
        let found = match self.chunks.get(&address) {
            Err(_) => {
                return Ok(NodeDuty::NoOp);
            },
            Ok(blob) => blob,
        };
        proof {
            assert(found@ == self.stored()[place_of(self.stored(), address)]);
        }
        let result: core::result::Result<(), ErrorMessage> = match found.owner() {
            Some(owner) => {
                if owner.same(origin.id()) {
                    match self.chunks.delete(&address, disk) {
                        Ok(_) => Ok(()),
                        Err(_) => Err(ErrorMessage::FailedToDelete),
                    }
                } else {
                    Err(ErrorMessage::InvalidOwners(*origin.id()))
                }
            },
            None => Err(ErrorMessage::InvalidOperation),
        };
        match result {
            Err(error) => Ok(cmd_error(error, msg_id, origin)),
            Ok(_) => Ok(NodeDuty::NoOp),
        }
    }
}

} // verus!
