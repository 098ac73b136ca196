use sn_node::blob::{Blob, BlobAddress, PrivateBlob, PublicBlob};
use sn_node::capacity::{section_supply, MAX_SUPPLY};
use sn_node::chunk_files::file_name;
use sn_node::chunk_store::{DiskOutcome, UsedSpace};
use sn_node::error::Error;
use sn_node::event_mapping::{map_routing_event, NodeTask, RoutingEvent};
use sn_node::farming::RewardCounter;
use sn_node::keys::PublicKey;
use sn_node::messaging::{
    Aggregation, Cmd, CmdError, DstLocation, EndUser, ErrorMessage, Message, MessageId,
    NetworkCmd, NetworkEvent, NetworkRewardCmd, NodeDataQueryResponse, NodeQuery,
    NodeQueryResponse, NodeSystemQuery, Query, QueryResponse, SrcLocation,
};
use sn_node::name::XorName;
use sn_node::node::handle::NodeState;
use sn_node::node_ops::{NodeDuty, OutgoingMsg, RewardDuty, RewardPayout};
use sn_node::token::Token;

fn key(n: u8) -> PublicKey {
    PublicKey::Ed25519([n; 32])
}

fn name(n: u8) -> XorName {
    XorName([n; 32])
}

fn id(n: u8) -> MessageId {
    MessageId::with([n; 32])
}

fn user(n: u8) -> EndUser {
    EndUser::AllClients(key(n))
}

fn received(msg: Message, src: SrcLocation) -> RoutingEvent {
    RoutingEvent::MessageReceived { msg, src }
}

#[test]
fn store_request_is_stored_and_rewarded() {
    let blob = Blob::Public(PublicBlob::new(b"hello".to_vec()));
    let msg = Message::Cmd {
        cmd: Cmd::StoreBlob(blob.clone()),
        id: id(1),
        target_section_pk: None,
    };
    assert_eq!(
        map_routing_event(received(msg, SrcLocation::EndUser(user(1)))),
        Ok(vec![
            NodeTask::StoreChunk {
                data: blob,
                msg_id: id(1),
                origin: user(1),
            },
            NodeTask::Reward(RewardDuty::AccumulateReward {
                data: b"hello".to_vec(),
            }),
        ])
    );
}

#[test]
fn user_requests_are_mapped_to_the_storage() {
    let address = BlobAddress::Private(name(5));
    let msg = Message::Cmd {
        cmd: Cmd::DeletePrivateBlob(address),
        id: id(1),
        target_section_pk: None,
    };
    assert_eq!(
        map_routing_event(received(msg, SrcLocation::EndUser(user(1)))),
        Ok(vec![NodeTask::DeleteChunk {
            address,
            msg_id: id(1),
            origin: user(1),
        }])
    );
    let msg = Message::Query {
        query: Query::GetBlob(address),
        id: id(2),
        target_section_pk: None,
    };
    assert_eq!(
        map_routing_event(received(msg, SrcLocation::EndUser(user(1)))),
        Ok(vec![NodeTask::GetChunk {
            address,
            msg_id: id(2),
            origin: user(1),
        }])
    );
}

#[test]
fn user_requests_from_nodes_are_refused() {
    let address = BlobAddress::Private(name(5));
    let msg = Message::Query {
        query: Query::GetBlob(address),
        id: id(2),
        target_section_pk: None,
    };
    assert_eq!(
        map_routing_event(received(msg, SrcLocation::Node(name(1)))),
        Err(Error::InvalidOperation)
    );
    let msg = Message::Cmd {
        cmd: Cmd::DeletePrivateBlob(address),
        id: id(1),
        target_section_pk: None,
    };
    assert_eq!(
        map_routing_event(received(msg, SrcLocation::Section(name(1)))),
        Err(Error::InvalidOperation)
    );
}

#[test]
fn node_queries_are_mapped_to_replication() {
    let address = BlobAddress::Public(name(5));
    let blob = Blob::Public(PublicBlob::new(b"hello".to_vec()));
    let msg = Message::NodeQuery {
        query: NodeQuery::System(NodeSystemQuery::GetChunk {
            address,
            new_holder: name(3),
            current_holders: vec![name(1), name(2)],
        }),
        id: id(4),
        target_section_pk: None,
    };
    assert_eq!(
        map_routing_event(received(msg, SrcLocation::Node(name(3)))),
        Ok(vec![NodeTask::GetChunkForReplication {
            address,
            msg_id: id(4),
            new_holder: name(3),
        }])
    );
    let msg = Message::NodeQueryResponse {
        response: NodeQueryResponse::Data(NodeDataQueryResponse::GetChunk(Ok(blob.clone()))),
        id: id(5),
        correlation_id: id(4),
        target_section_pk: None,
    };
    assert_eq!(
        map_routing_event(received(msg, SrcLocation::Node(name(1)))),
        Ok(vec![NodeTask::StoreChunkForReplication { data: blob }])
    );
    let msg = Message::NodeQueryResponse {
        response: NodeQueryResponse::Data(NodeDataQueryResponse::GetChunk(Err(
            ErrorMessage::NoSuchData,
        ))),
        id: id(5),
        correlation_id: id(4),
        target_section_pk: None,
    };
    assert_eq!(
        map_routing_event(received(msg, SrcLocation::Node(name(1)))),
        Ok(vec![])
    );
}

#[test]
fn reward_messages_are_mapped_to_the_keeper_of_accounts() {
    let src = SrcLocation::Section(name(9));
    let msg = Message::NetworkCmd {
        cmd: NetworkCmd::Rewards(NetworkRewardCmd::ClaimRewardCounter {
            old_node_id: name(1),
            new_node_id: name(2),
        }),
        id: id(4),
    };
    assert_eq!(
        map_routing_event(received(msg, src)),
        Ok(vec![NodeTask::Reward(RewardDuty::ClaimRewardCounter {
            old_node_id: name(1),
            new_node_id: name(2),
            msg_id: id(4),
            origin: src,
        })])
    );
    let counter = RewardCounter {
        reward: Token::from_nano(10),
        work: 5,
    };
    let msg = Message::NetworkEvent {
        event: NetworkEvent::RewardCounterClaimed {
            new_node_id: name(2),
            account_id: key(7),
            counter,
        },
        id: id(5),
        correlation_id: id(4),
    };
    assert_eq!(
        map_routing_event(received(msg, src)),
        Ok(vec![NodeTask::Reward(RewardDuty::ReceiveClaimedRewards {
            id: key(7),
            node_id: name(2),
            counter,
        })])
    );
}

#[test]
fn answers_and_errors_ask_for_nothing() {
    let msg = Message::CmdError {
        error: CmdError::Data(ErrorMessage::DataExists),
        id: id(1),
        correlation_id: id(2),
        target_section_pk: None,
    };
    assert_eq!(
        map_routing_event(received(msg, SrcLocation::Node(name(1)))),
        Ok(vec![])
    );
    let msg = Message::QueryResponse {
        response: QueryResponse::GetBlob(Err(ErrorMessage::NoSuchData)),
        id: id(1),
        correlation_id: id(2),
        target_section_pk: None,
    };
    assert_eq!(
        map_routing_event(received(msg, SrcLocation::EndUser(user(1)))),
        Ok(vec![])
    );
}

#[test]
fn changes_in_the_section_are_mapped() {
    assert_eq!(
        map_routing_event(RoutingEvent::NodeJoined {
            node_id: name(1),
            account_id: key(1),
        }),
        Ok(vec![NodeTask::Reward(RewardDuty::AddNewAccount {
            id: key(1),
            node_id: name(1),
        })])
    );
    assert_eq!(
        map_routing_event(RoutingEvent::NodeRelocated {
            old_node_id: name(1),
            new_node_id: name(2),
        }),
        Ok(vec![NodeTask::Reward(RewardDuty::AddRelocatedAccount {
            old_node_id: name(1),
            new_node_id: name(2),
        })])
    );
    assert_eq!(
        map_routing_event(RoutingEvent::NodeLeft { node_id: name(1) }),
        Ok(vec![NodeTask::Reward(RewardDuty::PrepareAccountMove {
            node_id: name(1),
        })])
    );
    let address = BlobAddress::Public(name(5));
    assert_eq!(
        map_routing_event(RoutingEvent::ChunkShouldReplicate {
            address,
            holders: vec![name(1)],
            msg_id: id(3),
        }),
        Ok(vec![NodeTask::ReplicateChunk {
            address,
            current_holders: vec![name(1)],
            msg_id: id(3),
        }])
    );
}

#[test]
fn node_state_handles_storage_tasks() {
    let mut state = NodeState::new(name(9), UsedSpace::new(100));
    let owner = user(1);
    let blob = Blob::Private(PrivateBlob::new(b"hello".to_vec(), key(1)));
    let store = NodeTask::StoreChunk {
        data: blob.clone(),
        msg_id: id(1),
        origin: owner,
    };
    assert!(state.needs_disk(&store));
    assert_eq!(state.handle(store, DiskOutcome::Done), Ok(vec![NodeDuty::NoOp]));
    assert_eq!(state.used_space(), 5);
    assert_eq!(state.max_capacity(), 100);
    let again = NodeTask::StoreChunk {
        data: blob.clone(),
        msg_id: id(2),
        origin: owner,
    };
    assert!(!state.needs_disk(&again));
    assert_eq!(
        state.handle(again, DiskOutcome::Done),
        Ok(vec![NodeDuty::Send(OutgoingMsg {
            msg: Message::CmdError {
                error: CmdError::Data(ErrorMessage::DataExists),
                id: MessageId::in_response_to(&id(2)),
                correlation_id: id(2),
                target_section_pk: None,
            },
            section_source: false,
            dst: DstLocation::EndUser(owner),
            aggregation: Aggregation::NoAggregation,
        })])
    );
    let get = NodeTask::GetChunk {
        address: *blob.address(),
        msg_id: id(3),
        origin: owner,
    };
    assert!(!state.needs_disk(&get));
    match state.handle(get, DiskOutcome::Done) {
        Ok(duties) => match &duties[..] {
            [NodeDuty::Send(out)] => match &out.msg {
                Message::QueryResponse {
                    response: QueryResponse::GetBlob(Ok(found)),
                    ..
                } => assert_eq!(found, &blob),
                other => panic!("unexpected message {:?}", other),
            },
            other => panic!("unexpected duties {:?}", other),
        },
        other => panic!("unexpected outcome {:?}", other),
    }
    let by_other = NodeTask::DeleteChunk {
        address: *blob.address(),
        msg_id: id(4),
        origin: user(2),
    };
    assert!(!state.needs_disk(&by_other));
    let delete = NodeTask::DeleteChunk {
        address: *blob.address(),
        msg_id: id(4),
        origin: owner,
    };
    assert!(state.needs_disk(&delete));
    assert_eq!(state.handle(delete, DiskOutcome::Done), Ok(vec![NodeDuty::NoOp]));
    assert_eq!(state.used_space(), 0);
}

#[test]
fn node_state_handles_replication_tasks() {
    let mut state = NodeState::new(name(9), UsedSpace::new(5));
    let blob = Blob::Public(PublicBlob::new(b"hello".to_vec()));
    let task = NodeTask::StoreChunkForReplication { data: blob.clone() };
    assert!(state.needs_disk(&task));
    assert_eq!(state.handle(task, DiskOutcome::Failed), Err(Error::IoFailure));
    let task = NodeTask::StoreChunkForReplication { data: blob.clone() };
    assert_eq!(state.handle(task, DiskOutcome::Done), Ok(vec![NodeDuty::NoOp]));
    let task = NodeTask::StoreChunkForReplication { data: blob.clone() };
    assert!(!state.needs_disk(&task));
    let other = Blob::Public(PublicBlob::new(b"x".to_vec()));
    let task = NodeTask::StoreChunkForReplication { data: other };
    assert!(!state.needs_disk(&task));
    assert_eq!(state.handle(task, DiskOutcome::Done), Err(Error::OutOfSpace));
    let task = NodeTask::GetChunkForReplication {
        address: BlobAddress::Public(name(1)),
        msg_id: id(1),
        new_holder: name(2),
    };
    assert_eq!(state.handle(task, DiskOutcome::Done), Ok(vec![NodeDuty::NoOp]));
    let task = NodeTask::ReplicateChunk {
        address: BlobAddress::Public(name(1)),
        current_holders: vec![name(3)],
        msg_id: id(1),
    };
    assert_eq!(
        state.handle(task, DiskOutcome::Done),
        Ok(vec![NodeDuty::SendToNodes {
            msg: Message::NodeQuery {
                query: NodeQuery::System(NodeSystemQuery::GetChunk {
                    address: BlobAddress::Public(name(1)),
                    new_holder: name(9),
                    current_holders: vec![name(3)],
                }),
                id: id(1),
                target_section_pk: None,
            },
            targets: vec![name(3)],
        }])
    );
}

#[test]
fn node_state_handles_reward_tasks_and_transfers() {
    let mut state = NodeState::new(name(9), UsedSpace::new(5));
    let task = NodeTask::Reward(RewardDuty::AddRelocatedAccount {
        old_node_id: name(1),
        new_node_id: name(2),
    });
    assert!(!state.needs_disk(&task));
    let duties = state.handle(task, DiskOutcome::Done).unwrap();
    assert_eq!(duties.len(), 1);
    let task = NodeTask::Reward(RewardDuty::ReceiveClaimedRewards {
        id: key(1),
        node_id: name(2),
        counter: RewardCounter {
            reward: Token::from_nano(10),
            work: 5,
        },
    });
    let payout = RewardPayout {
        to: key(1),
        amount: Token::from_nano(10),
    };
    assert_eq!(
        state.handle(task, DiskOutcome::Done),
        Ok(vec![NodeDuty::SubmitPayout(payout)])
    );
    assert_eq!(
        state.transfer_failed(key(1)),
        vec![NodeDuty::RetryPayout {
            payout,
            delay_ms: 500,
        }]
    );
    assert_eq!(state.transfer_succeeded(key(1)), vec![]);
    assert_eq!(state.transfer_failed(key(1)), vec![]);
    let task = NodeTask::Reward(RewardDuty::PrepareAccountMove { node_id: name(2) });
    assert_eq!(state.handle(task, DiskOutcome::Done), Ok(vec![]));
}

#[test]
fn chunk_file_names_are_the_address_in_hex() {
    let mut bytes = [0u8; 32];
    bytes[0] = 0xab;
    bytes[1] = 0x09;
    bytes[31] = 0xf0;
    let private = file_name(&BlobAddress::Private(XorName(bytes)));
    let public = file_name(&BlobAddress::Public(XorName(bytes)));
    let expected = format!("00ab09{}f0", "00".repeat(29));
    assert_eq!(String::from_utf8(private).unwrap(), expected);
    let expected = format!("01ab09{}f0", "00".repeat(29));
    assert_eq!(String::from_utf8(public.clone()).unwrap(), expected);
    assert_eq!(public.len(), 66);
    let other = file_name(&BlobAddress::Public(XorName([0xff; 32])));
    assert_eq!(
        String::from_utf8(other).unwrap(),
        format!("01{}", "ff".repeat(32))
    );
}

#[test]
fn section_supply_is_an_equal_share() {
    assert_eq!(MAX_SUPPLY, 4_294_967_296);
    assert_eq!(section_supply(0), None);
    assert_eq!(section_supply(1), Some(Token::from_nano(4_294_967_296)));
    assert_eq!(section_supply(3), Some(Token::from_nano(1_431_655_765)));
    assert_eq!(section_supply(4), Some(Token::from_nano(1_073_741_824)));
    assert_eq!(section_supply(u64::MAX), Some(Token::from_nano(0)));
}

#[test]
fn node_state_hands_the_given_id_to_the_keeper() {
    let mut state = NodeState::new(name(9), UsedSpace::new(5));
    let task = NodeTask::Reward(RewardDuty::AddRelocatedAccount {
        old_node_id: name(1),
        new_node_id: name(2),
    });
    assert_eq!(
        state.handle_with(task, DiskOutcome::Done, id(7)),
        Ok(vec![NodeDuty::Send(OutgoingMsg {
            msg: Message::NetworkCmd {
                cmd: NetworkCmd::Rewards(NetworkRewardCmd::ClaimRewardCounter {
                    old_node_id: name(1),
                    new_node_id: name(2),
                }),
                id: id(7),
            },
            section_source: true,
            dst: DstLocation::Section(name(1)),
            aggregation: Aggregation::AtDestination,
        })])
    );
}
