use sn_node::blob::{Blob, BlobAddress, PrivateBlob, PublicBlob};
use sn_node::chunk_store::{BlobChunkStore, DiskOutcome, UsedSpace};
use sn_node::chunks::chunk_storage::{blob_duty, chunk_duty, cmd_error_duty, ChunkStorage};
use sn_node::error::Error;
use sn_node::error::Error::InvalidOwners;
use sn_node::keys::PublicKey;
use sn_node::messaging::{
    Aggregation, CmdError, DstLocation, EndUser, ErrorMessage, Message, MessageId,
    NodeDataQueryResponse, NodeQuery, NodeQueryResponse, NodeSystemQuery, QueryResponse,
};
use sn_node::name::XorName;
use sn_node::node_ops::{NodeDuty, OutgoingMsg};

fn get_random_pk() -> PublicKey {
    PublicKey::Bls(threshold_crypto::SecretKey::random().public_key().to_bytes())
}

fn random_name() -> XorName {
    XorName(xor_name::XorName::random().0)
}

fn key(n: u8) -> PublicKey {
    PublicKey::Ed25519([n; 32])
}

fn msg_id(n: u8) -> MessageId {
    MessageId::with([n; 32])
}

fn storage(max: u64) -> ChunkStorage {
    ChunkStorage::new(XorName([9; 32]), UsedSpace::new(max))
}

fn cmd_error(error: ErrorMessage, id: MessageId, origin: EndUser) -> NodeDuty {
    NodeDuty::Send(OutgoingMsg {
        msg: Message::CmdError {
            error: CmdError::Data(error),
            id: MessageId::in_response_to(&id),
            correlation_id: id,
            target_section_pk: None,
        },
        section_source: false,
        dst: DstLocation::EndUser(origin),
        aggregation: Aggregation::NoAggregation,
    })
}

fn blob_reply(found: Result<Blob, ErrorMessage>, id: MessageId, origin: EndUser) -> NodeDuty {
    NodeDuty::Send(OutgoingMsg {
        msg: Message::QueryResponse {
            response: QueryResponse::GetBlob(found),
            id: MessageId::in_response_to(&id),
            correlation_id: id,
            target_section_pk: None,
        },
        section_source: false,
        dst: DstLocation::EndUser(origin),
        aggregation: Aggregation::NoAggregation,
    })
}

#[test]
fn try_store_stores_public_blob() {
    let xor_name = random_name();
    let mut storage = ChunkStorage::new(xor_name, UsedSpace::new(u64::MAX));
    let value = "immutable data value".to_owned().into_bytes();
    let blob = Blob::Public(PublicBlob::new(value));
    assert!(storage
        .try_store(&blob, EndUser::AllClients(get_random_pk()), DiskOutcome::Done)
        .is_ok());
    assert!(storage.has(blob.address()));
}

#[test]
fn try_store_stores_private_blob() {
    let xor_name = random_name();
    let mut storage = ChunkStorage::new(xor_name, UsedSpace::new(u64::MAX));
    let value = "immutable data value".to_owned().into_bytes();
    let key = get_random_pk();
    let blob = Blob::Private(PrivateBlob::new(value, key));
    assert!(storage
        .try_store(&blob, EndUser::AllClients(key), DiskOutcome::Done)
        .is_ok());
    assert!(storage.has(blob.address()));
}

#[test]
fn try_store_errors_if_end_user_doesnt_own_data() {
    let xor_name = random_name();
    let mut storage = ChunkStorage::new(xor_name, UsedSpace::new(u64::MAX));
    let value = "immutable data value".to_owned().into_bytes();
    let data_owner = get_random_pk();
    let end_user = get_random_pk();
    let blob = Blob::Private(PrivateBlob::new(value, data_owner));
    let result = storage.try_store(&blob, EndUser::AllClients(end_user), DiskOutcome::Done);
    assert!(matches!(result, Err(InvalidOwners(user)) if user == end_user));
    assert_eq!(result, Err(InvalidOwners(end_user)));
    assert!(!storage.has(blob.address()));
}

#[test]
fn public_store_get_round_trip() {
    let mut storage = storage(1000);
    let origin = EndUser::AllClients(key(1));
    let blob = Blob::Public(PublicBlob::new(b"hello".to_vec()));
    let duty = storage.store(&blob, msg_id(1), origin, DiskOutcome::Done);
    assert_eq!(duty, Ok(NodeDuty::NoOp));
    assert_eq!(storage.used_space(), 5);
    let duty = storage.get(blob.address(), msg_id(2), origin);
    assert_eq!(duty, Ok(blob_reply(Ok(blob.clone()), msg_id(2), origin)));
    match duty {
        Ok(NodeDuty::Send(out)) => match out.msg {
            Message::QueryResponse {
                response: QueryResponse::GetBlob(Ok(found)),
                id,
                correlation_id,
                ..
            } => {
                assert_eq!(found.value(), &b"hello".to_vec());
                assert_eq!(correlation_id, msg_id(2));
                assert_ne!(id, msg_id(2));
            }
            other => panic!("unexpected message {:?}", other),
        },
        other => panic!("unexpected duty {:?}", other),
    }
}

#[test]
fn private_ownership_rejection() {
    let mut storage = storage(1000);
    let k1 = EndUser::AllClients(key(1));
    let blob = Blob::Private(PrivateBlob::new(b"x".to_vec(), key(2)));
    let duty = storage.store(&blob, msg_id(1), k1, DiskOutcome::Done);
    assert_eq!(
        duty,
        Ok(cmd_error(ErrorMessage::InvalidOwners(key(1)), msg_id(1), k1))
    );
    assert_eq!(storage.used_space(), 0);
    let duty = storage.get(blob.address(), msg_id(2), k1);
    assert_eq!(
        duty,
        Ok(blob_reply(Err(ErrorMessage::NoSuchData), msg_id(2), k1))
    );
}

#[test]
fn duplicate_store() {
    let mut storage = storage(1000);
    let origin = EndUser::Client {
        public_key: key(1),
        socket_id: XorName([4; 32]),
    };
    let blob = Blob::Public(PublicBlob::new(b"a".to_vec()));
    assert_eq!(
        storage.store(&blob, msg_id(1), origin, DiskOutcome::Done),
        Ok(NodeDuty::NoOp)
    );
    assert_eq!(
        storage.store(&blob, msg_id(2), origin, DiskOutcome::Done),
        Ok(cmd_error(ErrorMessage::DataExists, msg_id(2), origin))
    );
    assert_eq!(storage.used_space(), 1);
    assert_eq!(
        storage.try_store(&blob, origin, DiskOutcome::Done),
        Err(Error::DataExists)
    );
    assert_eq!(storage.used_space(), 1);
}

#[test]
fn store_fails_without_room_and_changes_nothing() {
    let mut storage = storage(7);
    let origin = EndUser::AllClients(key(1));
    let small = Blob::Public(PublicBlob::new(b"abcd".to_vec()));
    let large = Blob::Public(PublicBlob::new(b"efgh".to_vec()));
    let fits = Blob::Public(PublicBlob::new(b"xyz".to_vec()));
    assert_eq!(storage.check_store(&small, &origin), Ok(()));
    assert_eq!(
        storage.store(&small, msg_id(1), origin, DiskOutcome::Done),
        Ok(NodeDuty::NoOp)
    );
    assert_eq!(storage.check_store(&large, &origin), Err(Error::OutOfSpace));
    assert_eq!(
        storage.store(&large, msg_id(2), origin, DiskOutcome::Done),
        Ok(cmd_error(ErrorMessage::OutOfSpace, msg_id(2), origin))
    );
    assert!(!storage.has(large.address()));
    assert_eq!(storage.used_space(), 4);
    assert_eq!(
        storage.store(&fits, msg_id(3), origin, DiskOutcome::Done),
        Ok(NodeDuty::NoOp)
    );
    assert_eq!(storage.used_space(), 7);
    assert_eq!(storage.max_capacity(), 7);
}

#[test]
fn store_reports_a_failed_disk_and_changes_nothing() {
    let mut storage = storage(100);
    let origin = EndUser::AllClients(key(1));
    let blob = Blob::Public(PublicBlob::new(b"abcd".to_vec()));
    assert_eq!(
        storage.store(&blob, msg_id(1), origin, DiskOutcome::Failed),
        Ok(cmd_error(ErrorMessage::IoFailure, msg_id(1), origin))
    );
    assert!(!storage.has(blob.address()));
    assert_eq!(storage.used_space(), 0);
    assert_eq!(
        storage.try_store(&blob, origin, DiskOutcome::Failed),
        Err(Error::IoFailure)
    );
}

#[test]
fn public_blob_is_never_deleted() {
    let mut storage = storage(100);
    let owner = EndUser::AllClients(key(1));
    let other = EndUser::AllClients(key(2));
    let blob = Blob::Public(PublicBlob::new(b"abcd".to_vec()));
    let _ = storage.store(&blob, msg_id(1), owner, DiskOutcome::Done);
    for user in [owner, other] {
        assert!(!storage.check_delete(blob.address(), &user));
        assert_eq!(
            storage.delete(*blob.address(), msg_id(2), user, DiskOutcome::Done),
            Ok(cmd_error(ErrorMessage::InvalidOperation, msg_id(2), user))
        );
        assert!(storage.has(blob.address()));
    }
    assert_eq!(storage.used_space(), 4);
}

#[test]
fn private_blob_is_deleted_by_its_owner_only() {
    let mut storage = storage(100);
    let owner = EndUser::AllClients(key(1));
    let other = EndUser::AllClients(key(2));
    let blob = Blob::Private(PrivateBlob::new(b"abcd".to_vec(), key(1)));
    let _ = storage.store(&blob, msg_id(1), owner, DiskOutcome::Done);
    assert!(!storage.check_delete(blob.address(), &other));
    assert_eq!(
        storage.delete(*blob.address(), msg_id(2), other, DiskOutcome::Done),
        Ok(cmd_error(ErrorMessage::InvalidOwners(key(2)), msg_id(2), other))
    );
    assert!(storage.has(blob.address()));
    assert!(storage.check_delete(blob.address(), &owner));
    assert_eq!(
        storage.delete(*blob.address(), msg_id(3), owner, DiskOutcome::Done),
        Ok(NodeDuty::NoOp)
    );
    assert!(!storage.has(blob.address()));
    assert_eq!(storage.used_space(), 0);
    // A second delete finds nothing and says nothing.
    assert_eq!(
        storage.delete(*blob.address(), msg_id(4), owner, DiskOutcome::Done),
        Ok(NodeDuty::NoOp)
    );
    // A get after the delete finds no such data.
    assert_eq!(
        storage.get(blob.address(), msg_id(5), owner),
        Ok(blob_reply(Err(ErrorMessage::NoSuchData), msg_id(5), owner))
    );
}

#[test]
fn delete_reports_a_failed_disk_and_keeps_the_blob() {
    let mut storage = storage(100);
    let owner = EndUser::AllClients(key(1));
    let blob = Blob::Private(PrivateBlob::new(b"abcd".to_vec(), key(1)));
    let _ = storage.store(&blob, msg_id(1), owner, DiskOutcome::Done);
    assert_eq!(
        storage.delete(*blob.address(), msg_id(2), owner, DiskOutcome::Failed),
        Ok(cmd_error(ErrorMessage::FailedToDelete, msg_id(2), owner))
    );
    assert!(storage.has(blob.address()));
    assert_eq!(storage.used_space(), 4);
}

#[test]
fn delete_of_a_missing_chunk_does_nothing() {
    let mut storage = storage(100);
    let user = EndUser::AllClients(key(1));
    let address = BlobAddress::Private(XorName([5; 32]));
    assert!(!storage.check_delete(&address, &user));
    assert_eq!(
        storage.delete(address, msg_id(1), user, DiskOutcome::Done),
        Ok(NodeDuty::NoOp)
    );
    let address = BlobAddress::Public(XorName([5; 32]));
    assert_eq!(
        storage.delete(address, msg_id(1), user, DiskOutcome::Done),
        Ok(NodeDuty::NoOp)
    );
}

#[test]
fn used_space_is_the_size_of_the_stored_blobs() {
    let mut storage = storage(1000);
    let owner = EndUser::AllClients(key(1));
    let a = Blob::Private(PrivateBlob::new(vec![1; 10], key(1)));
    let b = Blob::Public(PublicBlob::new(vec![2; 20]));
    let c = Blob::Private(PrivateBlob::new(vec![3; 30], key(1)));
    let _ = storage.store(&a, msg_id(1), owner, DiskOutcome::Done);
    assert_eq!(storage.used_space(), 10);
    let _ = storage.store(&b, msg_id(2), owner, DiskOutcome::Done);
    assert_eq!(storage.used_space(), 30);
    let _ = storage.store(&c, msg_id(3), owner, DiskOutcome::Done);
    assert_eq!(storage.used_space(), 60);
    let _ = storage.delete(*a.address(), msg_id(4), owner, DiskOutcome::Done);
    assert_eq!(storage.used_space(), 50);
    let _ = storage.store(&b, msg_id(5), owner, DiskOutcome::Done);
    assert_eq!(storage.used_space(), 50);
    let _ = storage.delete(*b.address(), msg_id(6), owner, DiskOutcome::Done);
    assert_eq!(storage.used_space(), 50);
    let _ = storage.delete(*c.address(), msg_id(7), owner, DiskOutcome::Done);
    assert_eq!(storage.used_space(), 20);
    let _ = storage.store(&a, msg_id(8), owner, DiskOutcome::Done);
    assert_eq!(storage.used_space(), 30);
}

#[test]
fn replicate_chunk_asks_the_holders() {
    let storage = storage(100);
    let address = BlobAddress::Public(XorName([5; 32]));
    let holders = vec![XorName([1; 32]), XorName([2; 32])];
    let duty = storage.replicate_chunk(address, holders.clone(), msg_id(7));
    assert_eq!(
        duty,
        Ok(NodeDuty::SendToNodes {
            msg: Message::NodeQuery {
                query: NodeQuery::System(NodeSystemQuery::GetChunk {
                    address,
                    new_holder: XorName([9; 32]),
                    current_holders: holders.clone(),
                }),
                id: msg_id(7),
                target_section_pk: None,
            },
            targets: holders,
        })
    );
}

#[test]
fn get_for_replication_hands_the_chunk_over() {
    let mut storage = storage(100);
    let owner = EndUser::AllClients(key(1));
    let blob = Blob::Private(PrivateBlob::new(b"abcd".to_vec(), key(1)));
    let new_holder = XorName([3; 32]);
    assert_eq!(
        storage.get_for_replication(*blob.address(), msg_id(1), new_holder),
        Ok(NodeDuty::NoOp)
    );
    let _ = storage.store(&blob, msg_id(1), owner, DiskOutcome::Done);
    assert_eq!(
        storage.get_for_replication(*blob.address(), msg_id(2), new_holder),
        Ok(NodeDuty::Send(OutgoingMsg {
            msg: Message::NodeQueryResponse {
                response: NodeQueryResponse::Data(NodeDataQueryResponse::GetChunk(Ok(
                    blob.clone()
                ))),
                id: MessageId::in_response_to(&msg_id(2)),
                correlation_id: msg_id(2),
                target_section_pk: None,
            },
            section_source: false,
            dst: DstLocation::Node(new_holder),
            aggregation: Aggregation::NoAggregation,
        }))
    );
}

#[test]
fn store_for_replication_is_idempotent() {
    let mut storage = storage(6);
    let blob = Blob::Private(PrivateBlob::new(b"abcd".to_vec(), key(1)));
    assert_eq!(
        storage.store_for_replication(blob.clone(), DiskOutcome::Done),
        Ok(NodeDuty::NoOp)
    );
    assert!(storage.has(blob.address()));
    assert_eq!(storage.used_space(), 4);
    assert_eq!(
        storage.store_for_replication(blob.clone(), DiskOutcome::Done),
        Ok(NodeDuty::NoOp)
    );
    assert_eq!(
        storage.store_for_replication(blob.clone(), DiskOutcome::Failed),
        Ok(NodeDuty::NoOp)
    );
    assert_eq!(storage.used_space(), 4);
    let other = Blob::Public(PublicBlob::new(b"efgh".to_vec()));
    assert_eq!(
        storage.store_for_replication(other.clone(), DiskOutcome::Done),
        Err(Error::OutOfSpace)
    );
    let tiny = Blob::Public(PublicBlob::new(b"e".to_vec()));
    assert_eq!(
        storage.store_for_replication(tiny.clone(), DiskOutcome::Failed),
        Err(Error::IoFailure)
    );
    assert!(!storage.has(tiny.address()));
    assert_eq!(storage.used_space(), 4);
}

#[test]
fn chunk_store_put_get_delete() {
    let mut store = BlobChunkStore::new(UsedSpace::new(10));
    let blob = Blob::Public(PublicBlob::new(b"abcd".to_vec()));
    assert!(!store.has(blob.address()));
    assert_eq!(store.get(blob.address()), Err(Error::NoSuchData));
    assert_eq!(store.check_put(&blob), Ok(()));
    assert_eq!(store.put(&blob, DiskOutcome::Done), Ok(()));
    assert!(store.has(blob.address()));
    assert_eq!(store.get(blob.address()), Ok(blob.clone()));
    assert_eq!(store.used_space(), 4);
    assert_eq!(store.max_capacity(), 10);
    assert_eq!(store.check_put(&blob), Err(Error::DataExists));
    assert_eq!(store.put(&blob, DiskOutcome::Done), Err(Error::DataExists));
    assert_eq!(store.used_space(), 4);
    assert_eq!(
        store.delete(blob.address(), DiskOutcome::Failed),
        Err(Error::IoFailure)
    );
    assert_eq!(store.delete(blob.address(), DiskOutcome::Done), Ok(()));
    assert_eq!(
        store.delete(blob.address(), DiskOutcome::Done),
        Err(Error::NoSuchData)
    );
    assert_eq!(store.used_space(), 0);
    let large = Blob::Public(PublicBlob::new(vec![0; 11]));
    assert_eq!(store.put(&large, DiskOutcome::Done), Err(Error::OutOfSpace));
    let full = Blob::Public(PublicBlob::new(vec![0; 10]));
    assert_eq!(store.put(&full, DiskOutcome::Done), Ok(()));
    assert_eq!(store.used_space(), 10);
}

#[test]
fn used_space_starts_empty() {
    let space = UsedSpace::new(50);
    assert_eq!(space.used(), 0);
    assert_eq!(space.max_capacity(), 50);
    assert!(space.fits(50));
    assert!(!space.fits(51));
}

#[test]
fn duties_are_built_from_their_parts() {
    let origin = EndUser::AllClients(key(1));
    let blob = Blob::Public(PublicBlob::new(b"abcd".to_vec()));
    assert_eq!(
        cmd_error_duty(ErrorMessage::NoSuchKey, msg_id(2), msg_id(1), origin),
        NodeDuty::Send(OutgoingMsg {
            msg: Message::CmdError {
                error: CmdError::Data(ErrorMessage::NoSuchKey),
                id: msg_id(2),
                correlation_id: msg_id(1),
                target_section_pk: None,
            },
            section_source: false,
            dst: DstLocation::EndUser(origin),
            aggregation: Aggregation::NoAggregation,
        })
    );
    assert_eq!(
        blob_duty(Ok(blob.clone()), msg_id(2), msg_id(1), origin),
        NodeDuty::Send(OutgoingMsg {
            msg: Message::QueryResponse {
                response: QueryResponse::GetBlob(Ok(blob.clone())),
                id: msg_id(2),
                correlation_id: msg_id(1),
                target_section_pk: None,
            },
            section_source: false,
            dst: DstLocation::EndUser(origin),
            aggregation: Aggregation::NoAggregation,
        })
    );
    assert_eq!(
        chunk_duty(blob.clone(), msg_id(2), msg_id(1), XorName([3; 32])),
        NodeDuty::Send(OutgoingMsg {
            msg: Message::NodeQueryResponse {
                response: NodeQueryResponse::Data(NodeDataQueryResponse::GetChunk(Ok(blob))),
                id: msg_id(2),
                correlation_id: msg_id(1),
                target_section_pk: None,
            },
            section_source: false,
            dst: DstLocation::Node(XorName([3; 32])),
            aggregation: Aggregation::NoAggregation,
        })
    );
    // The storage answers under the id that is derived from the id of the request.
    let mut storage = storage(100);
    let _ = storage.store(&Blob::Public(PublicBlob::new(b"z".to_vec())), msg_id(1), origin, DiskOutcome::Done);
    assert_eq!(
        storage.store(&Blob::Public(PublicBlob::new(b"z".to_vec())), msg_id(5), origin, DiskOutcome::Done),
        Ok(cmd_error_duty(
            ErrorMessage::DataExists,
            MessageId::in_response_to(&msg_id(5)),
            msg_id(5),
            origin
        ))
    );
}
