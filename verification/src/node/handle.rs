//! Doing the work that reaches the node, on the part of the node that it is for.

use crate::blob::BlobView;
use crate::chunk_store::{
    after_put, has_address, place_of, put_check, total_size, DiskOutcome, UsedSpace,
};
use crate::chunks::chunk_storage::{
    after_delete_request, after_store, delete_duty, delete_refusal, is_blob_reply,
    is_chunk_reply, is_chunk_request, replication_result, store_check, store_duty, ChunkStorage,
};
use crate::error::Error;
use crate::event_mapping::NodeTask;
use crate::farming::{AccountId, RewardCounter};
use crate::messaging::{ErrorMessage, MessageId};
use crate::name::XorName;
use crate::node::elder_duties::rewards::{is_step, sent_id, RewardAccount, Rewards};
use crate::node_ops::{NodeDuties, NodeDuty, NodeOperation, RewardDuty};
use crate::section_funds::payouts::{after_failure, after_success, failure_duties, success_duty};
use vstd::prelude::*;

verus! {

/// The parts of a node that keep its state: the storage of chunks, and the keeper of the
/// reward accounts.
#[derive(Debug)]
pub struct NodeState {
    chunks: ChunkStorage,
    rewards: Rewards,
}

/// Whether doing `task` on the storage `chunks` writes to the disk: a chunk is stored
/// that the storage takes in, or a chunk is deleted for its owner.
pub open spec fn writes_to_disk(chunks: ChunkStorage, task: NodeTask) -> bool {
    match task {
        NodeTask::StoreChunk { data, origin, .. } => store_check(
            chunks.stored(),
            chunks.max_capacity() as nat,
            data@,
            origin,
        ) is Ok,
        NodeTask::DeleteChunk { address, origin, .. } => has_address(chunks.stored(), address)
            && delete_refusal(chunks.stored(), address, origin, DiskOutcome::Done) is None,
        NodeTask::StoreChunkForReplication { data } => put_check(
            chunks.stored(),
            chunks.max_capacity() as nat,
            data@,
        ) is Ok,
        _ => false,
    }
}

/// Whether `outcome` is what comes of doing `task` on the storage `chunks`, where the
/// disk answers with `disk` if it is written to. Work for the keeper of the reward
/// accounts is not work on the storage.
pub open spec fn is_storage_outcome(
    outcome: core::result::Result<Seq<NodeDuty>, Error>,
    chunks: ChunkStorage,
    task: NodeTask,
    disk: DiskOutcome,
) -> bool {
    match task {
        NodeTask::StoreChunk { data, msg_id, origin } => outcome == Ok::<Seq<NodeDuty>, Error>(
            seq![
                store_duty(
                    chunks.stored(),
                    chunks.max_capacity() as nat,
                    data@,
                    msg_id,
                    origin,
                    disk,
                ),
            ],
        ),
        NodeTask::GetChunk { address, msg_id, origin } => {
            &&& outcome matches Ok(duties)
            &&& duties.len() == 1
            &&& is_blob_reply(
                duties[0],
                if has_address(chunks.stored(), address) {
                    Ok(chunks.stored()[place_of(chunks.stored(), address)])
                } else {
                    Err(ErrorMessage::NoSuchData)
                },
                msg_id,
                origin,
            )
        },
        NodeTask::DeleteChunk { address, msg_id, origin } => outcome == Ok::<Seq<NodeDuty>, Error>(
            seq![delete_duty(chunks.stored(), address, msg_id, origin, disk)],
        ),
        NodeTask::ReplicateChunk { address, current_holders, msg_id } => {
            &&& outcome matches Ok(duties)
            &&& duties.len() == 1
            &&& is_chunk_request(duties[0], address, chunks.node_name(), current_holders@, msg_id)
        },
        NodeTask::GetChunkForReplication { address, msg_id, new_holder } => {
            &&& outcome matches Ok(duties)
            &&& duties.len() == 1
            &&& if has_address(chunks.stored(), address) {
                is_chunk_reply(
                    duties[0],
                    chunks.stored()[place_of(chunks.stored(), address)],
                    msg_id,
                    new_holder,
                )
            } else {
                duties[0] == NodeDuty::NoOp
            }
        },
        NodeTask::StoreChunkForReplication { data } => match replication_result(
            chunks.stored(),
            chunks.max_capacity() as nat,
            data@,
            disk,
        ) {
            Ok(duty) => outcome == Ok::<Seq<NodeDuty>, Error>(seq![duty]),
            Err(e) => outcome == Err::<Seq<NodeDuty>, Error>(e),
        },
        NodeTask::Reward(_) => true,
    }
}

/// The chunks that are stored after `task` was done on the storage `chunks`.
pub open spec fn stored_after_task(chunks: ChunkStorage, task: NodeTask, disk: DiskOutcome) -> Seq<
    BlobView,
> {
    match task {
        NodeTask::StoreChunk { data, origin, .. } => after_store(
            chunks.stored(),
            chunks.max_capacity() as nat,
            data@,
            origin,
            disk,
        ),
        NodeTask::DeleteChunk { address, origin, .. } => after_delete_request(
            chunks.stored(),
            address,
            origin,
            disk,
        ),
        NodeTask::StoreChunkForReplication { data } => after_put(
            chunks.stored(),
            chunks.max_capacity() as nat,
            data@,
            disk,
        ),
        _ => chunks.stored(),
    }
}

/// Whether `duties` and the keeper `is` are what comes of the keeper `was` doing `duty`,
/// where a message that is sent gets the id `id`.
pub open spec fn is_reward_outcome(
    duties: Seq<NodeDuty>,
    was: Rewards,
    is: Rewards,
    duty: RewardDuty,
    id: MessageId,
) -> bool {
    is_step(
        was,
        is,
        duty,
        id,
        if duties.len() == 1 {
            Some(NodeOperation::RunAsNode(duties[0]))
        } else {
            None
        },
    ) && duties.len() <= 1
}

/// What the keeper of the reward accounts says is to be done, as duties.
fn duties_of(operation: Option<NodeOperation>) -> (duties: NodeDuties)
    ensures
        duties@ == match operation {
            Some(NodeOperation::RunAsNode(duty)) => seq![duty],
            None => Seq::<NodeDuty>::empty(),
        },
{
    let mut duties: NodeDuties = Vec::new();
    match operation {
        Some(NodeOperation::RunAsNode(duty)) => {
            duties.push(duty);
        },
        None => {},
    }
    duties
}

/// The one duty.
fn one_duty(duty: NodeDuty) -> (duties: NodeDuties)
    ensures
        duties@ == seq![duty],
{
    let mut duties: NodeDuties = Vec::new();
    duties.push(duty);
    duties
}

impl NodeState {
    /// The storage of chunks.
    pub closed spec fn chunks(&self) -> ChunkStorage {
        self.chunks
    }

    /// The keeper of the reward accounts.
    pub closed spec fn rewards(&self) -> Rewards {
        self.rewards
    }

    /// The state of the node `node_name` at its start: no chunks, stored in the space
    /// `used_space`, and no accounts.
    pub fn new(node_name: XorName, used_space: UsedSpace) -> (state: NodeState)
        ensures
            state.chunks().wf(),
            state.chunks().node_name() == node_name,
            state.chunks().stored() == Seq::<BlobView>::empty(),
            state.chunks().max_capacity() == used_space.max_capacity(),
            state.rewards().accounts() == Map::<
                XorName,
                RewardAccount,
            >::empty(),
            state.rewards().farming() == Seq::<
                (AccountId, RewardCounter),
            >::empty(),
    {
        NodeState { chunks: ChunkStorage::new(node_name, used_space), rewards: Rewards::new() }
    }

    /// The number of bytes that the stored chunks take up.
    pub fn used_space(&self) -> (used: u64)
        ensures
            used == self.chunks().used_space(),
            used == total_size(self.chunks().stored()),
            used <= self.chunks().max_capacity(),
    {
        self.chunks.used_space()
    }

    /// The number of bytes that the storage may take up at most.
    pub fn max_capacity(&self) -> (max: u64)
        ensures
            max == self.chunks().max_capacity(),
    {
        self.chunks.max_capacity()
    }

    /// Whether doing `task` writes to the disk. Where it does, the node writes first, and
    /// hands the answer of the disk to `handle`.
    pub fn needs_disk(&self, task: &NodeTask) -> (r: bool)
        ensures
            r == writes_to_disk(self.chunks(), *task),
    {
        match task {
            NodeTask::StoreChunk { data, msg_id: _, origin } => {
                self.chunks.check_store(data, origin).is_ok()
            },
            NodeTask::DeleteChunk { address, msg_id: _, origin } => self.chunks.check_delete(
                address,
                origin,
            ),
            NodeTask::StoreChunkForReplication { data } => self.chunks.check_replication(data),
            _ => false,
        }
    }

    /// Takes note that the transfer of the payout to the account `account_id` has
    /// succeeded, and returns the duties that come of it.
    pub fn transfer_succeeded(
        &mut self,
        account_id: AccountId,
    ) -> (duties: NodeDuties)
        ensures
            final(self).chunks() == old(self).chunks(),
            final(self).rewards().base_cost() == old(self).rewards().base_cost(),
            final(self).rewards().accounts() == old(self).rewards().accounts(),
            final(self).rewards().farming() == old(self).rewards().farming(),
            final(self).rewards().rewarded() == old(self).rewards().rewarded(),
            final(self).rewards().pending() == after_success(
                old(self).rewards().pending(),
                account_id,
            ),
            duties@ == match success_duty(
                old(self).rewards().pending(),
                account_id,
            ) {
                Some(duty) => seq![duty],
                None => Seq::<NodeDuty>::empty(),
            },
    {
        let mut duties: NodeDuties = Vec::new();
        match self.rewards.transfer_succeeded(account_id) {
            Some(duty) => {
                duties.push(duty);
            },
            None => {},
        }
        duties
    }

    /// Takes note that the transfer of the payout to the account `account_id` has failed,
    /// and returns the duties that come of it.
    pub fn transfer_failed(&mut self, account_id: AccountId) -> (duties: NodeDuties)
        ensures
            final(self).chunks() == old(self).chunks(),
            final(self).rewards().base_cost() == old(self).rewards().base_cost(),
            final(self).rewards().accounts() == old(self).rewards().accounts(),
            final(self).rewards().farming() == old(self).rewards().farming(),
            final(self).rewards().rewarded() == old(self).rewards().rewarded(),
            final(self).rewards().pending() == after_failure(
                old(self).rewards().pending(),
                account_id,
            ),
            duties@ == failure_duties(
                old(self).rewards().pending(),
                account_id,
            ),
    {
        self.rewards.transfer_failed(account_id)
    }

    /// Does `task` on the part of the node that it is for, and returns the duties that
    /// come of it. The disk answers with `disk` if the task writes to it. A message that
    /// the keeper of the reward accounts sends has a new id.
    pub fn handle(&mut self, task: NodeTask, disk: DiskOutcome) -> (outcome: core::result::Result<
        NodeDuties,
        Error,
    >)
        ensures
            final(self).chunks().wf(),
            final(self).chunks().node_name() == old(self).chunks().node_name(),
            final(self).chunks().max_capacity() == old(self).chunks().max_capacity(),
            final(self).chunks().stored() == stored_after_task(old(self).chunks(), task, disk),
            is_storage_outcome(
                match outcome {
                    Ok(duties) => Ok(duties@),
                    Err(e) => Err(e),
                },
                old(self).chunks(),
                task,
                disk,
            ),
            match task {
                NodeTask::Reward(duty) => outcome matches Ok(duties) && is_reward_outcome(
                    duties@,
                    old(self).rewards(),
                    final(self).rewards(),
                    duty,
                    if duties@.len() == 1 {
                        sent_id(NodeOperation::RunAsNode(duties@[0]))
                    } else {
                        arbitrary()
                    },
                ),
                _ => final(self).rewards() == old(self).rewards(),
            },
    {
        self.handle_with(task, disk, MessageId::new())
    }

    /// Does `task` on the part of the node that it is for, and returns the duties that
    /// come of it. The disk answers with `disk` if the task writes to it. A message that
    /// the keeper of the reward accounts sends gets the id `id`.
    pub fn handle_with(&mut self, task: NodeTask, disk: DiskOutcome, id: MessageId) -> (outcome:
        core::result::Result<NodeDuties, Error>)
        ensures
            final(self).chunks().wf(),
            final(self).chunks().node_name() == old(self).chunks().node_name(),
            final(self).chunks().max_capacity() == old(self).chunks().max_capacity(),
            final(self).chunks().stored() == stored_after_task(old(self).chunks(), task, disk),
            is_storage_outcome(
                match outcome {
                    Ok(duties) => Ok(duties@),
                    Err(e) => Err(e),
                },
                old(self).chunks(),
                task,
                disk,
            ),
            match task {
                NodeTask::Reward(duty) => outcome matches Ok(duties) && is_reward_outcome(
                    duties@,
                    old(self).rewards(),
                    final(self).rewards(),
                    duty,
                    id,
                ),
                _ => final(self).rewards() == old(self).rewards(),
            },
    {
        match task {
            NodeTask::StoreChunk { data, msg_id, origin } => {
                match self.chunks.store(&data, msg_id, origin, disk) {
                    Ok(duty) => Ok(one_duty(duty)),
                    Err(e) => Err(e),
                }
            },
            NodeTask::GetChunk { address, msg_id, origin } => {
                match self.chunks.get(&address, msg_id, origin) {
                    Ok(duty) => Ok(one_duty(duty)),
                    Err(e) => Err(e),
                }
            },
            NodeTask::DeleteChunk { address, msg_id, origin } => {
                match self.chunks.delete(address, msg_id, origin, disk) {
                    Ok(duty) => Ok(one_duty(duty)),
                    Err(e) => Err(e),
                }
            },
            NodeTask::ReplicateChunk { address, current_holders, msg_id } => {
                let _ = self.chunks.max_capacity();
                match self.chunks.replicate_chunk(address, current_holders, msg_id) {
                    Ok(duty) => Ok(one_duty(duty)),
                    Err(e) => Err(e),
                }
            },
            NodeTask::GetChunkForReplication { address, msg_id, new_holder } => {
                match self.chunks.get_for_replication(address, msg_id, new_holder) {
                    Ok(duty) => Ok(one_duty(duty)),
                    Err(e) => Err(e),
                }
            },
            NodeTask::StoreChunkForReplication { data } => {
                match self.chunks.store_for_replication(data, disk) {
                    Ok(duty) => Ok(one_duty(duty)),
                    Err(e) => Err(e),
                }
            },
            NodeTask::Reward(duty) => {
                let _ = self.chunks.max_capacity();
                Ok(duties_of(self.rewards.process_with(duty, id)))
            },
        }
    }
}

} // verus!
