//! The node: what it does with the duties that its parts hand it, and with their errors.

pub mod duty_queue;
pub mod elder_duties;
pub mod handle;

use crate::error::{convert_to_error_message, Error};
use crate::messaging::{
    ClientMsg, DstLocation, ErrorMessage, Message, MessageId, ProcessingError, SrcLocation,
};
use crate::node_ops::{NodeDuty, OutgoingLazyError};
use vstd::prelude::*;

verus! {

/// The place to send an answer to, for a message that came from `src`.
pub open spec fn dst_of(src: SrcLocation) -> DstLocation {
    match src {
        SrcLocation::EndUser(user) => DstLocation::EndUser(user),
        SrcLocation::Node(node) => DstLocation::Node(node),
        SrcLocation::Section(section) => DstLocation::Section(section),
    }
}

/// The place to send an answer to, for a message that came from `src`.
pub fn get_dst_from_src(src: SrcLocation) -> (dst: DstLocation)
    ensures
        dst == dst_of(src),
{
    match src {
        SrcLocation::EndUser(user) => DstLocation::EndUser(user),
        SrcLocation::Node(node) => DstLocation::Node(node),
        SrcLocation::Section(section) => DstLocation::Section(section),
    }
}

/// What an error came up in the handling of: a message that was read, or bytes that
/// could not be read as a message; and where it came from.
#[allow(inconsistent_fields)]
#[derive(Debug, PartialEq, Eq)]
pub enum MsgContext {
    /// A message that was read.
    Msg {
        /// The message.
        msg: ClientMsg,
        /// Where it came from.
        src: SrcLocation,
    },
    /// Bytes that could not be read as a message.
    Bytes {
        /// The bytes.
        msg: Vec<u8>,
        /// Where they came from.
        src: SrcLocation,
    },
}

/// The duty to report to `dst`, under the id `id`, that the message `source` could not
/// be handled for `reason`.
pub open spec fn error_report(
    reason: ErrorMessage,
    source: Message,
    id: MessageId,
    dst: DstLocation,
) -> NodeDuty {
    NodeDuty::SendError(
        OutgoingLazyError {
            msg: ProcessingError { reason: Some(reason), source_message: Some(source), id },
            dst,
        },
    )
}

/// Whether `duty` is to report to `dst`, under the id `id`, that bytes could not be read
/// as a message.
pub open spec fn is_unreadable_report(duty: NodeDuty, id: MessageId, dst: DstLocation) -> bool {
    &&& duty matches NodeDuty::SendError(report)
    &&& report.dst == dst
    &&& report.msg.reason matches Some(ErrorMessage::Serialization(text))
    &&& text@ == "Could not deserialize Message at node"@
    &&& report.msg.source_message is None
    &&& report.msg.id == id
}

/// Whether `duty` is what is done about the error `err` that came up in handling `ctx`,
/// where a report that is sent gets the id `id`. The source of a message that could not be
/// handled is told so, with the message; the source of bytes that could not be read is told
/// so. Nothing is done where the source is not known, where the error is a fault of the
/// node itself, and where the message was itself the report of an error.
pub open spec fn handles_error(
    duty: NodeDuty,
    err: Error,
    ctx: Option<MsgContext>,
    id: MessageId,
) -> bool {
    match ctx {
        None => duty == NodeDuty::NoOp,
        Some(MsgContext::Msg { msg: ClientMsg::Process(msg), src }) => match err.message() {
            Some(reason) => duty == error_report(reason, msg, id, dst_of(src)),
            None => duty == NodeDuty::NoOp,
        },
        Some(MsgContext::Msg { msg: ClientMsg::ProcessingError(_), .. }) => duty == NodeDuty::NoOp,
        Some(MsgContext::Bytes { src, .. }) => is_unreadable_report(duty, id, dst_of(src)),
    }
}

/// The id of the report that `duty` sends.
pub open spec fn report_id(duty: NodeDuty) -> MessageId {
    match duty {
        NodeDuty::SendError(report) => report.msg.id,
        _ => arbitrary(),
    }
}

/// Says what is to be done about the error `err` that came up in handling `ctx`. A
/// report that is sent has a new id.
pub fn try_handle_error(err: Error, ctx: Option<MsgContext>) -> (duty: NodeDuty)
    ensures
        handles_error(duty, err, ctx, report_id(duty)),
{
    handle_error_with(err, ctx, MessageId::new())
}

/// Says what is to be done about the error `err` that came up in handling `ctx`, where a
/// report that is sent gets the id `id`.
pub fn handle_error_with(err: Error, ctx: Option<MsgContext>, id: MessageId) -> (duty: NodeDuty)
    ensures
        handles_error(duty, err, ctx, id),
{
    match ctx {
        Some(ctx) => {
            match ctx {
                MsgContext::Msg { msg, src } => {
                    let dst = get_dst_from_src(src);
                    match msg {
                        ClientMsg::Process(msg) => {
                            let error_message: ErrorMessage = match convert_to_error_message(err) {
                                Ok(message) => message,
                                Err(_) => {
                                    return NodeDuty::NoOp;
                                },
                            };
                            NodeDuty::SendError(
                                OutgoingLazyError {
                                    msg: msg.processing_error_with(Some(error_message), id),
                                    dst,
                                },
                            )
                        },
                        ClientMsg::ProcessingError(_) => NodeDuty::NoOp,
                    }
                },
                MsgContext::Bytes { msg: _, src } => {
                    let dst = get_dst_from_src(src);
                    NodeDuty::SendError(
                        OutgoingLazyError {
                            msg: ProcessingError {
                                reason: Some(
                                    ErrorMessage::Serialization(
                                        "Could not deserialize Message at node".to_owned(),
                                    ),
                                ),
                                source_message: None,
                                id,
                            },
                            dst,
                        },
                    )
                },
            }
        },
        None => NodeDuty::NoOp,
    }
}

} // verus!
