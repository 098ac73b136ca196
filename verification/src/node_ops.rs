//! What a part of the node asks the node to do next.

use crate::keys::PublicKey;
use crate::messaging::{
    Aggregation, DstLocation, Message, MessageId, ProcessingError, SrcLocation,
};
use crate::name::XorName;
use crate::farming::RewardCounter;
use crate::token::Token;
use vstd::prelude::*;

verus! {

/// A message to send, with where it goes and how.
#[derive(Debug, PartialEq, Eq)]
pub struct OutgoingMsg {
    /// The message.
    pub msg: Message,
    /// Whether the message is sent in the name of the section.
    pub section_source: bool,
    /// Where the message goes.
    pub dst: DstLocation,
    /// Whether the copies that the elders send are put together.
    pub aggregation: Aggregation,
}

/// The report that a message could not be handled, with where it goes.
#[derive(Debug, PartialEq, Eq)]
pub struct OutgoingLazyError {
    /// The report.
    pub msg: ProcessingError,
    /// Where the report goes.
    pub dst: DstLocation,
}

/// A payment of rewards out of the section's wallet.
#[derive(Clone, Copy, Debug, PartialEq, Eq)]
pub struct RewardPayout {
    /// The account that is paid.
    pub to: PublicKey,
    /// What it is paid.
    pub amount: Token,
}

/// Something for the node to do.
#[derive(Debug, PartialEq, Eq)]
pub enum NodeDuty {
    /// Nothing.
    NoOp,
    /// Send a message.
    Send(OutgoingMsg),
    /// Send a message to each of a set of nodes.
    SendToNodes {
        /// The message.
        msg: Message,
        /// The nodes to send it to.
        targets: Vec<XorName>,
    },
    /// Send the report that a message could not be handled.
    SendError(OutgoingLazyError),
    /// Have the transfer of a payout signed and sent.
    SubmitPayout(RewardPayout),
    /// Try the transfer of a payout again, once the delay has passed.
    RetryPayout {
        /// The payout.
        payout: RewardPayout,
        /// How long to wait, in milliseconds.
        delay_ms: u64,
    },
    /// Give up a payout whose transfer failed too often.
    PayoutFailed(RewardPayout),
}

/// Several things for the node to do, in their order.
pub type NodeDuties = Vec<NodeDuty>;

/// Something for the node to do, and in what role.
#[derive(Debug, PartialEq, Eq)]
pub enum NodeOperation {
    /// Something that every node does.
    RunAsNode(NodeDuty),
}

/// Something for the keeper of the reward accounts to do.
#[derive(Debug, PartialEq, Eq)]
pub enum RewardDuty {
    /// Count the reward for data that the section has stored.
    AccumulateReward {
        /// The data.
        data: Vec<u8>,
    },
    /// Open the account of a node that is new to the network.
    AddNewAccount {
        /// The account that the node's rewards are paid to.
        id: PublicKey,
        /// The name of the node.
        node_id: XorName,
    },
    /// Take in a node that has moved here from another section.
    AddRelocatedAccount {
        /// The name that the node had in its old section.
        old_node_id: XorName,
        /// The name that the node has now.
        new_node_id: XorName,
    },
    /// Hand the counter of a node that has left to the section it has moved to.
    ClaimRewardCounter {
        /// The name that the node had here.
        old_node_id: XorName,
        /// The name that the node has in its new section.
        new_node_id: XorName,
        /// The id of the message that makes the claim.
        msg_id: MessageId,
        /// Where the claim comes from.
        origin: SrcLocation,
    },
    /// Take in the counter that the old section of a node has handed over.
    ReceiveClaimedRewards {
        /// The account that the node's rewards are paid to.
        id: PublicKey,
        /// The name of the node.
        node_id: XorName,
        /// The work and the unpaid reward that the old section had counted.
        counter: RewardCounter,
    },
    /// Get ready to hand over the account of a node that has left.
    PrepareAccountMove {
        /// The name of the node.
        node_id: XorName,
    },
}

} // verus!
