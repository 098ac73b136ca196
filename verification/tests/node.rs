use sn_node::blob::{Blob, PublicBlob};
use sn_node::error::{convert_to_error_message, Error};
use sn_node::keys::PublicKey;
use sn_node::messaging::{
    ClientMsg, Cmd, DstLocation, EndUser, ErrorMessage, Message, MessageId, ProcessingError,
    SrcLocation,
};
use sn_node::name::XorName;
use sn_node::node::duty_queue::DutyQueue;
use sn_node::node::{get_dst_from_src, handle_error_with, try_handle_error, MsgContext};
use sn_node::node_ops::{NodeDuty, OutgoingLazyError, RewardPayout};
use sn_node::token::Token;

fn user() -> EndUser {
    EndUser::AllClients(PublicKey::Ed25519([1; 32]))
}

fn store_cmd() -> Message {
    Message::Cmd {
        cmd: Cmd::StoreBlob(Blob::Public(PublicBlob::new(b"abc".to_vec()))),
        id: MessageId::with([7; 32]),
        target_section_pk: None,
    }
}

fn payout(n: u64) -> NodeDuty {
    NodeDuty::SubmitPayout(RewardPayout {
        to: PublicKey::Ed25519([1; 32]),
        amount: Token::from_nano(n),
    })
}

#[test]
fn answers_go_back_to_the_source() {
    let name = XorName([3; 32]);
    assert_eq!(
        get_dst_from_src(SrcLocation::EndUser(user())),
        DstLocation::EndUser(user())
    );
    assert_eq!(get_dst_from_src(SrcLocation::Node(name)), DstLocation::Node(name));
    assert_eq!(
        get_dst_from_src(SrcLocation::Section(name)),
        DstLocation::Section(name)
    );
}

#[test]
fn errors_are_converted_to_what_the_sender_is_told() {
    let key = PublicKey::Ed25519([1; 32]);
    let cases = vec![
        (Error::InvalidOwners(key), ErrorMessage::InvalidOwners(key)),
        (Error::DataExists, ErrorMessage::DataExists),
        (Error::InvalidOperation, ErrorMessage::InvalidOperation),
        (Error::InvalidClaim, ErrorMessage::InvalidClaim),
        (Error::NoSuchData, ErrorMessage::NoSuchData),
        (Error::NoSuchKey, ErrorMessage::NoSuchKey),
        (Error::NoSuchAccount, ErrorMessage::NoSuchAccount),
        (Error::OutOfSpace, ErrorMessage::OutOfSpace),
        (Error::IoFailure, ErrorMessage::IoFailure),
        (Error::FailedToDelete, ErrorMessage::FailedToDelete),
        (Error::ExcessiveValue, ErrorMessage::ExcessiveValue),
        (
            Error::Serialization("bad".to_string()),
            ErrorMessage::Serialization("bad".to_string()),
        ),
    ];
    for (error, message) in cases {
        assert_eq!(convert_to_error_message(error), Ok(message));
    }
    assert_eq!(
        convert_to_error_message(Error::AccountExists),
        Err(Error::AccountExists)
    );
    assert_eq!(convert_to_error_message(Error::Logic), Err(Error::Logic));
}

#[test]
fn error_without_context_is_dropped() {
    assert_eq!(try_handle_error(Error::NoSuchData, None), NodeDuty::NoOp);
}

#[test]
fn error_in_a_message_is_reported_to_its_source() {
    let ctx = MsgContext::Msg {
        msg: ClientMsg::Process(store_cmd()),
        src: SrcLocation::EndUser(user()),
    };
    match try_handle_error(Error::OutOfSpace, Some(ctx)) {
        NodeDuty::SendError(report) => {
            assert_eq!(report.dst, DstLocation::EndUser(user()));
            assert_eq!(report.msg.reason, Some(ErrorMessage::OutOfSpace));
            assert_eq!(report.msg.source_message, Some(store_cmd()));
            assert_eq!(
                report.msg.source_message.map(|m| m.id()),
                Some(MessageId::with([7; 32]))
            );
        }
        other => panic!("unexpected duty {:?}", other),
    }
}

#[test]
fn fault_of_the_node_is_not_reported() {
    let ctx = MsgContext::Msg {
        msg: ClientMsg::Process(store_cmd()),
        src: SrcLocation::EndUser(user()),
    };
    assert_eq!(try_handle_error(Error::Logic, Some(ctx)), NodeDuty::NoOp);
}

#[test]
fn error_in_an_error_report_is_dropped() {
    let ctx = MsgContext::Msg {
        msg: ClientMsg::ProcessingError(ProcessingError {
            reason: Some(ErrorMessage::NoSuchKey),
            source_message: None,
            id: MessageId::with([2; 32]),
        }),
        src: SrcLocation::Node(XorName([3; 32])),
    };
    assert_eq!(try_handle_error(Error::NoSuchData, Some(ctx)), NodeDuty::NoOp);
}

#[test]
fn unreadable_bytes_are_reported_to_their_source() {
    let ctx = MsgContext::Bytes {
        msg: vec![1, 2, 3],
        src: SrcLocation::Node(XorName([3; 32])),
    };
    match try_handle_error(Error::Serialization("x".to_string()), Some(ctx)) {
        NodeDuty::SendError(report) => {
            assert_eq!(report.dst, DstLocation::Node(XorName([3; 32])));
            assert_eq!(
                report.msg.reason,
                Some(ErrorMessage::Serialization(
                    "Could not deserialize Message at node".to_string()
                ))
            );
            assert_eq!(report.msg.source_message, None);
        }
        other => panic!("unexpected duty {:?}", other),
    }
}

#[test]
fn processing_error_holds_the_message() {
    let report = store_cmd().create_processing_error(Some(ErrorMessage::DataExists));
    assert_eq!(report.reason, Some(ErrorMessage::DataExists));
    assert_eq!(report.source_message, Some(store_cmd()));
    assert_ne!(report.id, MessageId::with([7; 32]));
}

#[test]
fn duties_are_done_in_the_order_in_which_they_came_up() {
    let mut queue = DutyQueue::new(payout(1));
    assert!(!queue.is_empty());
    assert_eq!(queue.next(), Some(payout(1)));
    assert!(queue.is_empty());
    queue.push_outcome(Ok(vec![payout(2), payout(3)]), None);
    assert_eq!(queue.len(), 2);
    assert_eq!(queue.next(), Some(payout(2)));
    queue.push_outcome(Ok(vec![payout(4)]), None);
    queue.push_outcome(Ok(vec![]), None);
    assert_eq!(queue.next(), Some(payout(3)));
    assert_eq!(queue.next(), Some(payout(4)));
    assert_eq!(queue.next(), None);
    assert_eq!(queue.next(), None);
}

#[test]
fn an_error_becomes_a_duty_in_the_queue() {
    let mut queue = DutyQueue::new(payout(1));
    let ctx = MsgContext::Msg {
        msg: ClientMsg::Process(store_cmd()),
        src: SrcLocation::EndUser(user()),
    };
    queue.push_outcome(Err(Error::DataExists), Some(ctx));
    queue.push_outcome(Err(Error::DataExists), None);
    assert_eq!(queue.len(), 3);
    assert_eq!(queue.next(), Some(payout(1)));
    match queue.next() {
        Some(NodeDuty::SendError(report)) => {
            assert_eq!(report.msg.reason, Some(ErrorMessage::DataExists));
            assert_eq!(report.dst, DstLocation::EndUser(user()));
        }
        other => panic!("unexpected duty {:?}", other),
    }
    assert_eq!(queue.next(), Some(NodeDuty::NoOp));
    assert!(queue.is_empty());
}

#[test]
fn error_report_carries_the_given_id() {
    let id = MessageId::with([9; 32]);
    let ctx = MsgContext::Msg {
        msg: ClientMsg::Process(store_cmd()),
        src: SrcLocation::Section(XorName([4; 32])),
    };
    assert_eq!(
        handle_error_with(Error::NoSuchData, Some(ctx), id),
        NodeDuty::SendError(OutgoingLazyError {
            msg: ProcessingError {
                reason: Some(ErrorMessage::NoSuchData),
                source_message: Some(store_cmd()),
                id,
            },
            dst: DstLocation::Section(XorName([4; 32])),
        })
    );
    let ctx = MsgContext::Bytes {
        msg: vec![0, 1],
        src: SrcLocation::EndUser(user()),
    };
    assert_eq!(
        handle_error_with(Error::IoFailure, Some(ctx), id),
        NodeDuty::SendError(OutgoingLazyError {
            msg: ProcessingError {
                reason: Some(ErrorMessage::Serialization(
                    "Could not deserialize Message at node".to_string()
                )),
                source_message: None,
                id,
            },
            dst: DstLocation::EndUser(user()),
        })
    );
    assert_eq!(handle_error_with(Error::IoFailure, None, id), NodeDuty::NoOp);
    assert_eq!(
        store_cmd().processing_error_with(None, id),
        ProcessingError {
            reason: None,
            source_message: Some(store_cmd()),
            id,
        }
    );
}
