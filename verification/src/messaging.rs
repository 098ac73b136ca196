//! The messages that a node takes in and sends out.

use crate::blob::{Blob, BlobAddress};
use crate::keys::PublicKey;
use crate::name::XorName;
use crate::farming::RewardCounter;
use vstd::prelude::*;

verus! {

/// Number of bytes in the id of a message.
pub const MESSAGE_ID_LEN: usize = 32;

/// The id of a message.
#[derive(Clone, Copy, Debug, PartialEq, Eq, PartialOrd, Ord, Hash)]
pub struct MessageId([u8; 32]);

/// The bytes of the id that answers the message with the id of the bytes `src`.
pub uninterp spec fn response_id(src: Seq<u8>) -> Seq<u8>;

impl View for MessageId {
    type V = Seq<u8>;

    closed spec fn view(&self) -> Seq<u8> {
        self.0@
    }
}

impl MessageId {
    /// The id with the bytes `id`, for use in contracts.
    pub closed spec fn spec_with(id: [u8; 32]) -> MessageId {
        MessageId(id)
    }

    /// The id of the answer to the message with the id `src`.
    pub open spec fn response_to(src: MessageId) -> MessageId {
        choose|id: MessageId| id@ == response_id(src@)
    }

    /// A new id, of random bytes: nothing is known of it but that it is an id.
    pub fn new() -> MessageId {
        MessageId(random_id())
    }

    /// The id with the bytes `id`.
    #[verifier::when_used_as_spec(spec_with)]
    pub fn with(id: [u8; 32]) -> (message_id: MessageId)
        ensures
            message_id == MessageId::with(id),
            message_id@ == id@,
    {
        MessageId(id)
    }

    /// The bytes of the id.
    pub fn bytes(&self) -> (id: [u8; 32])
        ensures
            id@ == self@,
    {
        self.0
    }

    /// The id for the answer to the message with the id `src`. It depends on `src` alone.
    pub fn in_response_to(src: &MessageId) -> (id: MessageId)
        ensures
            id == MessageId::response_to(*src),
            id@ == response_id(src@),
    {
        let id = MessageId(derived_id(&src.0));
        proof {
            lemma_same_bytes_same_id(id, MessageId::response_to(*src));
        }
        id
    }
}

/// `sn_messaging::MessageId::new`: an id of random bytes, of which nothing is known.
#[verifier::external_body]
fn random_id() -> [u8; 32] {
    *sn_messaging::MessageId::new().as_ref()
}

/// `sn_messaging::MessageId::in_response_to`: the SHA3-256 digest of the bytes of the
/// given id, so a function of those bytes alone.
#[verifier::external_body]
fn derived_id(src: &[u8; 32]) -> (id: [u8; 32])
    ensures
        id@ == response_id(src@),
{
    *sn_messaging::MessageId::in_response_to(&sn_messaging::MessageId::with(*src)).as_ref()
}

/// Ids with the same bytes are the same id.
pub proof fn lemma_same_bytes_same_id(a: MessageId, b: MessageId)
    requires
        a@ == b@,
    ensures
        a == b,
{
    assert(forall|i: int| 0 <= i < 32 ==> a.0[i] == a@[i]);
    assert(forall|i: int| 0 <= i < 32 ==> b.0[i] == b@[i]);
    assert(a.0 =~= b.0);
}

/// A client of the network, at the node that it is connected through.
#[derive(Clone, Copy, Debug, PartialEq, Eq, Hash)]
pub enum EndUser {
    /// All clients that sign with the key.
    AllClients(PublicKey),
    /// One client: its key, and the socket it is connected on.
    Client {
        /// The key that the client signs with.
        public_key: PublicKey,
        /// The id of the socket that the client is connected on.
        socket_id: XorName,
    },
}

impl EndUser {
    /// The key that the user signs with, for use in contracts.
    pub open spec fn key(&self) -> PublicKey {
        match *self {
            EndUser::AllClients(key) => key,
            EndUser::Client { public_key, .. } => public_key,
        }
    }

    /// The key that the user signs with.
    pub fn id(&self) -> (key: &PublicKey)
        ensures
            *key == self.key(),
    {
        match self {
            EndUser::AllClients(key) => key,
            EndUser::Client { public_key, .. } => public_key,
        }
    }
}

/// Where a message comes from.
#[derive(Clone, Copy, Debug, PartialEq, Eq, Hash)]
pub enum SrcLocation {
    /// A client.
    EndUser(EndUser),
    /// The node with the name.
    Node(XorName),
    /// The section that the name belongs to.
    Section(XorName),
}

/// Where a message goes to.
#[derive(Clone, Copy, Debug, PartialEq, Eq, Hash)]
pub enum DstLocation {
    /// A client.
    EndUser(EndUser),
    /// The node with the name.
    Node(XorName),
    /// The nodes of the section that the name belongs to.
    Section(XorName),
}

/// Whether the copies of a message that the elders of a section send are put together,
/// and where.
#[derive(Clone, Copy, Debug, PartialEq, Eq, Structural, Hash)]
pub enum Aggregation {
    /// The message is sent as it is.
    NoAggregation,
    /// The copies are put together before they are sent.
    AtSource,
    /// The copies are put together where they arrive.
    AtDestination,
}

/// An error as it is told to the sender of a message.
#[derive(Debug, PartialEq, Eq)]
pub enum ErrorMessage {
    /// The data asked for is not there.
    NoSuchData,
    /// The data is stored already.
    DataExists,
    /// The key does not own the data.
    InvalidOwners(PublicKey),
    /// The data could not be deleted.
    FailedToDelete,
    /// The operation is not one that the data allows.
    InvalidOperation,
    /// Nothing is held under the key.
    NoSuchKey,
    /// The message could not be read.
    Serialization(String),
    /// The node has no room for the data.
    OutOfSpace,
    /// The node could not write or read its store.
    IoFailure,
    /// There is no such reward account.
    NoSuchAccount,
    /// The reward account is not one that can be claimed.
    InvalidClaim,
    /// An amount beyond the largest that can be counted.
    ExcessiveValue,
}

/// The error that a command ended in.
#[derive(Debug, PartialEq, Eq)]
pub enum CmdError {
    /// An error in handling data.
    Data(ErrorMessage),
}

/// A command of a client.
#[derive(Debug, PartialEq, Eq)]
pub enum Cmd {
    /// Store the blob.
    StoreBlob(Blob),
    /// Delete the private blob at the address.
    DeletePrivateBlob(BlobAddress),
}

/// A query of a client.
#[derive(Debug, PartialEq, Eq)]
pub enum Query {
    /// Get the blob at the address.
    GetBlob(BlobAddress),
}

/// The answer to a query of a client.
#[derive(Debug, PartialEq, Eq)]
pub enum QueryResponse {
    /// The blob asked for, or why it cannot be had.
    GetBlob(Result<Blob, ErrorMessage>),
}

/// A query that the nodes of the network send each other about the data they hold.
#[derive(Debug, PartialEq, Eq)]
pub enum NodeSystemQuery {
    /// Asks the holders of a chunk for it, on behalf of a node that is to hold it too.
    GetChunk {
        /// The address of the chunk.
        address: BlobAddress,
        /// The node that is to hold the chunk.
        new_holder: XorName,
        /// The nodes that hold the chunk.
        current_holders: Vec<XorName>,
    },
}

/// A query of one node to others.
#[derive(Debug, PartialEq, Eq)]
pub enum NodeQuery {
    /// A query about the data that the nodes hold.
    System(NodeSystemQuery),
}

/// The answer to a query about data that a node holds.
#[derive(Debug, PartialEq, Eq)]
pub enum NodeDataQueryResponse {
    /// The chunk asked for, or why it cannot be had.
    GetChunk(Result<Blob, ErrorMessage>),
}

/// The answer of a node to the query of another.
#[derive(Debug, PartialEq, Eq)]
pub enum NodeQueryResponse {
    /// An answer about data that the node holds.
    Data(NodeDataQueryResponse),
}

/// A command about rewards that one section sends another.
#[derive(Clone, Copy, Debug, PartialEq, Eq)]
pub enum NetworkRewardCmd {
    /// Claims the reward counter of a node that has moved to the sender's section.
    ClaimRewardCounter {
        /// The name that the node had in its old section.
        old_node_id: XorName,
        /// The name that the node has in its new section.
        new_node_id: XorName,
    },
}

/// A command that one section sends another.
#[derive(Clone, Copy, Debug, PartialEq, Eq)]
pub enum NetworkCmd {
    /// A command about rewards.
    Rewards(NetworkRewardCmd),
}

/// Something that happened in one section and that another is told of.
#[derive(Clone, Copy, Debug, PartialEq, Eq)]
pub enum NetworkEvent {
    /// The reward counter of a node that moved was claimed from its old section.
    RewardCounterClaimed {
        /// The name that the node has in its new section.
        new_node_id: XorName,
        /// The account that the node's rewards are paid to.
        account_id: PublicKey,
        /// The work and the unpaid reward that the old section had counted.
        counter: RewardCounter,
    },
}

/// Why a command about rewards failed.
#[derive(Debug, PartialEq, Eq)]
pub enum NetworkRewardError {
    /// The reward counter could not be claimed.
    RewardClaiming {
        /// What went wrong.
        error: ErrorMessage,
        /// The account that the claim was for.
        account_id: PublicKey,
    },
}

/// Why a command of another section failed.
#[derive(Debug, PartialEq, Eq)]
pub enum NetworkCmdError {
    /// A command about rewards failed.
    Rewards(NetworkRewardError),
}

/// A message. An answer names in `correlation_id` the message that it answers.
#[allow(inconsistent_fields)]
#[derive(Debug, PartialEq, Eq)]
pub enum Message {
    /// A command of a client.
    Cmd {
        /// The command.
        cmd: Cmd,
        /// The id of the message.
        id: MessageId,
        /// The key of the section that the message is meant for.
        target_section_pk: Option<PublicKey>,
    },
    /// A query of a client.
    Query {
        /// The query.
        query: Query,
        /// The id of the message.
        id: MessageId,
        /// The key of the section that the message is meant for.
        target_section_pk: Option<PublicKey>,
    },
    /// The answer to a query of a client.
    QueryResponse {
        /// The answer.
        response: QueryResponse,
        /// The id of the message.
        id: MessageId,
        /// The id of the query.
        correlation_id: MessageId,
        /// The key of the section that the message is meant for.
        target_section_pk: Option<PublicKey>,
    },
    /// The error that a command of a client ended in.
    CmdError {
        /// The error.
        error: CmdError,
        /// The id of the message.
        id: MessageId,
        /// The id of the command.
        correlation_id: MessageId,
        /// The key of the section that the message is meant for.
        target_section_pk: Option<PublicKey>,
    },
    /// A query of a node to others.
    NodeQuery {
        /// The query.
        query: NodeQuery,
        /// The id of the message.
        id: MessageId,
        /// The key of the section that the message is meant for.
        target_section_pk: Option<PublicKey>,
    },
    /// The answer of a node to the query of another.
    NodeQueryResponse {
        /// The answer.
        response: NodeQueryResponse,
        /// The id of the message.
        id: MessageId,
        /// The id of the query.
        correlation_id: MessageId,
        /// The key of the section that the message is meant for.
        target_section_pk: Option<PublicKey>,
    },
    /// A command of one section to another.
    NetworkCmd {
        /// The command.
        cmd: NetworkCmd,
        /// The id of the message.
        id: MessageId,
    },
    /// Something that happened in one section and that another is told of.
    NetworkEvent {
        /// What happened.
        event: NetworkEvent,
        /// The id of the message.
        id: MessageId,
        /// The id of the command that led to it.
        correlation_id: MessageId,
    },
    /// The error that a command of another section ended in.
    NetworkCmdError {
        /// The error.
        error: NetworkCmdError,
        /// The id of the message.
        id: MessageId,
        /// The id of the command.
        correlation_id: MessageId,
    },
}

impl Message {
    /// The id of the message.
    pub open spec fn spec_id(&self) -> MessageId {
        match *self {
            Message::Cmd { id, .. } => id,
            Message::Query { id, .. } => id,
            Message::QueryResponse { id, .. } => id,
            Message::CmdError { id, .. } => id,
            Message::NodeQuery { id, .. } => id,
            Message::NodeQueryResponse { id, .. } => id,
            Message::NetworkCmd { id, .. } => id,
            Message::NetworkEvent { id, .. } => id,
            Message::NetworkCmdError { id, .. } => id,
        }
    }

    /// The id of the message.
    #[verifier::when_used_as_spec(spec_id)]
    pub fn id(&self) -> (id: MessageId)
        ensures
            id == self.id(),
    {
        match self {
            Message::Cmd { id, .. } => *id,
            Message::Query { id, .. } => *id,
            Message::QueryResponse { id, .. } => *id,
            Message::CmdError { id, .. } => *id,
            Message::NodeQuery { id, .. } => *id,
            Message::NodeQueryResponse { id, .. } => *id,
            Message::NetworkCmd { id, .. } => *id,
            Message::NetworkEvent { id, .. } => *id,
            Message::NetworkCmdError { id, .. } => *id,
        }
    }

    /// The report, with the id `id`, that this message could not be handled for `reason`.
    /// The report holds the message.
    pub fn processing_error_with(self, reason: Option<ErrorMessage>, id: MessageId) -> (error:
        ProcessingError)
        ensures
            error == (ProcessingError { reason, source_message: Some(self), id }),
    {
        ProcessingError { reason, source_message: Some(self), id }
    }

    /// The report that this message could not be handled for `reason`. The report holds
    /// the message and has a new id of its own.
    pub fn create_processing_error(self, reason: Option<ErrorMessage>) -> (error: ProcessingError)
        ensures
            error == (ProcessingError { reason, source_message: Some(self), id: error.id }),
    {
        self.processing_error_with(reason, MessageId::new())
    }
}

/// The report that a message could not be handled.
#[derive(Debug, PartialEq, Eq)]
pub struct ProcessingError {
    /// Why the message could not be handled.
    pub reason: Option<ErrorMessage>,
    /// The message that could not be handled.
    pub source_message: Option<Message>,
    /// The id of the report.
    pub id: MessageId,
}

/// What a node takes in: a message to handle, or the report that one of its own could
/// not be handled.
#[derive(Debug, PartialEq, Eq)]
pub enum ClientMsg {
    /// A message to handle.
    Process(Message),
    /// The report that a message could not be handled.
    ProcessingError(ProcessingError),
}

} // verus!
