//! From what reaches a node to the work of its parts.

use crate::blob::{copy_bytes, Blob, BlobAddress};
use crate::error::{Error, Result};
use crate::farming::AccountId;
use crate::messaging::{
    Cmd, EndUser, Message, MessageId, NetworkCmd, NetworkEvent, NetworkRewardCmd,
    NodeDataQueryResponse, NodeQuery, NodeQueryResponse, NodeSystemQuery, Query, SrcLocation,
};
use crate::name::XorName;
use crate::node_ops::RewardDuty;
use vstd::prelude::*;

verus! {

/// What reaches a node: a message, or word of a change in the section.
#[derive(Debug, PartialEq, Eq)]
pub enum RoutingEvent {
    /// A message has arrived from `src`.
    MessageReceived {
        /// The message.
        msg: Message,
        /// Where it came from.
        src: SrcLocation,
    },
    /// A node that is new to the network has joined the section.
    NodeJoined {
        /// The name of the node.
        node_id: XorName,
        /// The account that the node's rewards are paid to.
        account_id: AccountId,
    },
    /// A node has moved to the section from another.
    NodeRelocated {
        /// The name that the node had in its old section.
        old_node_id: XorName,
        /// The name that the node has now.
        new_node_id: XorName,
    },
    /// A node has left the section.
    NodeLeft {
        /// The name of the node.
        node_id: XorName,
    },
    /// This node is to hold a chunk that it does not hold yet.
    ChunkShouldReplicate {
        /// The address of the chunk.
        address: BlobAddress,
        /// The nodes that hold the chunk.
        holders: Vec<XorName>,
        /// The id for the message that asks them for it.
        msg_id: MessageId,
    },
}

/// A piece of work for one part of the node.
#[derive(Debug, PartialEq, Eq)]
pub enum NodeTask {
    /// Store a chunk for a user.
    StoreChunk {
        /// The chunk.
        data: Blob,
        /// The id of the user's message.
        msg_id: MessageId,
        /// The user.
        origin: EndUser,
    },
    /// Get a chunk for a user.
    GetChunk {
        /// The address of the chunk.
        address: BlobAddress,
        /// The id of the user's message.
        msg_id: MessageId,
        /// The user.
        origin: EndUser,
    },
    /// Delete a chunk for a user.
    DeleteChunk {
        /// The address of the chunk.
        address: BlobAddress,
        /// The id of the user's message.
        msg_id: MessageId,
        /// The user.
        origin: EndUser,
    },
    /// Ask the holders of a chunk for it.
    ReplicateChunk {
        /// The address of the chunk.
        address: BlobAddress,
        /// The nodes that hold the chunk.
        current_holders: Vec<XorName>,
        /// The id for the message that asks them for it.
        msg_id: MessageId,
    },
    /// Hand a chunk to a node that is to hold it too.
    GetChunkForReplication {
        /// The address of the chunk.
        address: BlobAddress,
        /// The id of the node's message.
        msg_id: MessageId,
        /// The node.
        new_holder: XorName,
    },
    /// Store a chunk that another holder has sent.
    StoreChunkForReplication {
        /// The chunk.
        data: Blob,
    },
    /// Work for the keeper of the reward accounts.
    Reward(RewardDuty),
}

/// Whether `tasks` is the work that the message `msg` from `src` asks for. A request of a
/// user goes to the storage of chunks, and the bytes it writes are rewarded; a query
/// between nodes for a chunk, and the chunk that answers it, go to the storage too; what
/// sections tell each other about rewards goes to the keeper of the accounts. Answers and
/// errors ask for nothing.
pub open spec fn is_work_for_message(tasks: Seq<NodeTask>, msg: Message, src: SrcLocation) -> bool {
    match msg {
        Message::Cmd { cmd: Cmd::StoreBlob(data), id, .. } => {
            &&& src matches SrcLocation::EndUser(origin)
            &&& tasks.len() == 2
            &&& tasks[0] == (NodeTask::StoreChunk { data, msg_id: id, origin })
            &&& tasks[1] matches NodeTask::Reward(RewardDuty::AccumulateReward { data: bytes })
            &&& bytes@ == data@.value
        },
        Message::Cmd { cmd: Cmd::DeletePrivateBlob(address), id, .. } => {
            &&& src matches SrcLocation::EndUser(origin)
            &&& tasks == seq![NodeTask::DeleteChunk { address, msg_id: id, origin }]
        },
        Message::Query { query: Query::GetBlob(address), id, .. } => {
            &&& src matches SrcLocation::EndUser(origin)
            &&& tasks == seq![NodeTask::GetChunk { address, msg_id: id, origin }]
        },
        Message::NodeQuery {
            query: NodeQuery::System(NodeSystemQuery::GetChunk { address, new_holder, .. }),
            id,
            ..
        } => tasks == seq![NodeTask::GetChunkForReplication { address, msg_id: id, new_holder }],
        Message::NodeQueryResponse {
            response: NodeQueryResponse::Data(NodeDataQueryResponse::GetChunk(Ok(data))),
            ..
        } => tasks == seq![NodeTask::StoreChunkForReplication { data }],
        Message::NetworkCmd {
            cmd: NetworkCmd::Rewards(
                NetworkRewardCmd::ClaimRewardCounter { old_node_id, new_node_id },
            ),
            id,
        } => tasks == seq![
            NodeTask::Reward(
                RewardDuty::ClaimRewardCounter {
                    old_node_id,
                    new_node_id,
                    msg_id: id,
                    origin: src,
                },
            ),
        ],
        Message::NetworkEvent {
            event: NetworkEvent::RewardCounterClaimed { new_node_id, account_id, counter },
            ..
        } => tasks == seq![
            NodeTask::Reward(
                RewardDuty::ReceiveClaimedRewards { id: account_id, node_id: new_node_id, counter },
            ),
        ],
        _ => tasks.len() == 0,
    }
}

/// Whether the message `msg` from `src` is refused: it is a request of a user, and does
/// not come from a user.
pub open spec fn is_refused(msg: Message, src: SrcLocation) -> bool {
    (msg is Cmd || msg is Query) && !(src is EndUser)
}

/// Whether `event` is refused: it is a message that is refused.
pub open spec fn refuses(event: RoutingEvent) -> bool {
    match event {
        RoutingEvent::MessageReceived { msg, src } => is_refused(msg, src),
        _ => false,
    }
}

/// Whether `tasks` is the work that `event` asks for: a node that joins, moves in or
/// leaves gives work to the keeper of the reward accounts; a chunk that this node is to
/// hold is asked for from its holders.
pub open spec fn is_work_for(tasks: Seq<NodeTask>, event: RoutingEvent) -> bool {
    match event {
        RoutingEvent::MessageReceived { msg, src } => is_work_for_message(tasks, msg, src),
        RoutingEvent::NodeJoined { node_id, account_id } => tasks == seq![
            NodeTask::Reward(RewardDuty::AddNewAccount { id: account_id, node_id }),
        ],
        RoutingEvent::NodeRelocated { old_node_id, new_node_id } => tasks == seq![
            NodeTask::Reward(RewardDuty::AddRelocatedAccount { old_node_id, new_node_id }),
        ],
        RoutingEvent::NodeLeft { node_id } => tasks == seq![
            NodeTask::Reward(RewardDuty::PrepareAccountMove { node_id }),
        ],
        RoutingEvent::ChunkShouldReplicate { address, holders, msg_id } => tasks == seq![
            NodeTask::ReplicateChunk { address, current_holders: holders, msg_id },
        ],
    }
}

/// The one piece of work.
fn one(task: NodeTask) -> (tasks: Vec<NodeTask>)
    ensures
        tasks@ == seq![task],
{
    let mut tasks: Vec<NodeTask> = Vec::new();
    tasks.push(task);
    tasks
}

/// Maps what has reached the node to the work that it asks for, in the order in which the
/// work is to be done. A request of a user that does not come from a user is refused
/// as not valid.
pub fn map_routing_event(event: RoutingEvent) -> (mapping: Result<Vec<NodeTask>>)
    ensures
        match mapping {
            Ok(tasks) => is_work_for(tasks@, event),
            Err(e) => e == Error::InvalidOperation,
        },
        mapping is Err <==> refuses(event),
{
    match event {
        RoutingEvent::MessageReceived { msg, src } => map_message(msg, src),
        RoutingEvent::NodeJoined { node_id, account_id } => Ok(
            one(NodeTask::Reward(RewardDuty::AddNewAccount { id: account_id, node_id })),
        ),
        RoutingEvent::NodeRelocated { old_node_id, new_node_id } => Ok(
            one(NodeTask::Reward(RewardDuty::AddRelocatedAccount { old_node_id, new_node_id })),
        ),
        RoutingEvent::NodeLeft { node_id } => Ok(
            one(NodeTask::Reward(RewardDuty::PrepareAccountMove { node_id })),
        ),
        RoutingEvent::ChunkShouldReplicate { address, holders, msg_id } => Ok(
            one(NodeTask::ReplicateChunk { address, current_holders: holders, msg_id }),
        ),
    }
}

/// Maps a message to the work that it asks for.
fn map_message(msg: Message, src: SrcLocation) -> (mapping: Result<Vec<NodeTask>>)
    ensures
        match mapping {
            Ok(tasks) => is_work_for_message(tasks@, msg, src) && !is_refused(msg, src),
            Err(e) => e == Error::InvalidOperation && is_refused(msg, src),
        },
{
    match msg {
        Message::Cmd { cmd, id, target_section_pk: _ } => {
            let origin: EndUser = match src {
                SrcLocation::EndUser(user) => user,
                _ => {
                    return Err(Error::InvalidOperation);
                },
            };
            match cmd {
                Cmd::StoreBlob(data) => {
                    let bytes: Vec<u8> = copy_bytes(data.value());
                    let mut tasks: Vec<NodeTask> = Vec::new();
                    tasks.push(NodeTask::StoreChunk { data, msg_id: id, origin });
                    tasks.push(NodeTask::Reward(RewardDuty::AccumulateReward { data: bytes }));
                    Ok(tasks)
                },
                Cmd::DeletePrivateBlob(address) => Ok(
                    one(NodeTask::DeleteChunk { address, msg_id: id, origin }),
                ),
            }
        },
        Message::Query { query, id, target_section_pk: _ } => {
            let origin: EndUser = match src {
                SrcLocation::EndUser(user) => user,
                _ => {
                    return Err(Error::InvalidOperation);
                },
            };
            match query {
                Query::GetBlob(address) => Ok(
                    one(NodeTask::GetChunk { address, msg_id: id, origin }),
                ),
            }
        },
        Message::NodeQuery { query, id, target_section_pk: _ } => match query {
            NodeQuery::System(
                NodeSystemQuery::GetChunk { address, new_holder, current_holders: _ },
            ) => Ok(one(NodeTask::GetChunkForReplication { address, msg_id: id, new_holder })),
        },
        Message::NodeQueryResponse { response, .. } => match response {
            NodeQueryResponse::Data(NodeDataQueryResponse::GetChunk(found)) => match found {
                Ok(data) => Ok(one(NodeTask::StoreChunkForReplication { data })),
                Err(_) => Ok(Vec::new()),
            },
        },
        Message::NetworkCmd { cmd, id } => match cmd {
            NetworkCmd::Rewards(
                NetworkRewardCmd::ClaimRewardCounter { old_node_id, new_node_id },
            ) => Ok(
                one(
                    NodeTask::Reward(
                        RewardDuty::ClaimRewardCounter {
                            old_node_id,
                            new_node_id,
                            msg_id: id,
                            origin: src,
                        },
                    ),
                ),
            ),
        },
        Message::NetworkEvent { event, id: _, correlation_id: _ } => match event {
            NetworkEvent::RewardCounterClaimed { new_node_id, account_id, counter } => Ok(
                one(
                    NodeTask::Reward(
                        RewardDuty::ReceiveClaimedRewards {
                            id: account_id,
                            node_id: new_node_id,
                            counter,
                        },
                    ),
                ),
            ),
        },
        Message::QueryResponse { .. } => Ok(Vec::new()),
        Message::CmdError { .. } => Ok(Vec::new()),
        Message::NetworkCmdError { .. } => Ok(Vec::new()),
    }
}

} // verus!
