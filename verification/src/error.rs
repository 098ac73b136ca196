//! The errors of a node, and how they are told to the sender of a message.

use crate::keys::PublicKey;
use crate::messaging::ErrorMessage;
use vstd::prelude::*;

verus! {

/// What can go wrong in a node.
#[derive(Debug, PartialEq, Eq)]
pub enum Error {
    /// The key does not own the data.
    InvalidOwners(PublicKey),
    /// The data is stored already.
    DataExists,
    /// The operation is not one that the data allows.
    InvalidOperation,
    /// The reward account is not one that can be claimed.
    InvalidClaim,
    /// The data asked for is not there.
    NoSuchData,
    /// Nothing is held under the key.
    NoSuchKey,
    /// There is no such reward account.
    NoSuchAccount,
    /// The store has no room for the data.
    OutOfSpace,
    /// The store could not be written or read.
    IoFailure,
    /// The data could not be deleted.
    FailedToDelete,
    /// An amount beyond the largest that can be counted.
    ExcessiveValue,
    /// A message could not be read.
    Serialization(String),
    /// The reward account exists already: a fault of the node itself.
    AccountExists,
    /// A state that the node should never be in: a fault of the node itself.
    Logic,
}

/// The outcome of an operation of a node.
pub type Result<T> = core::result::Result<T, Error>;

impl Error {
    /// Whether the error is a fault of the node itself, of which the sender of a message is
    /// told nothing.
    pub open spec fn is_internal(&self) -> bool {
        *self is AccountExists || *self is Logic
    }

    /// The error as the sender of a message is told it. Of a fault of the node itself
    /// nobody is told.
    pub open spec fn message(self) -> Option<ErrorMessage> {
        match self {
            Error::InvalidOwners(key) => Some(ErrorMessage::InvalidOwners(key)),
            Error::DataExists => Some(ErrorMessage::DataExists),
            Error::InvalidOperation => Some(ErrorMessage::InvalidOperation),
            Error::InvalidClaim => Some(ErrorMessage::InvalidClaim),
            Error::NoSuchData => Some(ErrorMessage::NoSuchData),
            Error::NoSuchKey => Some(ErrorMessage::NoSuchKey),
            Error::NoSuchAccount => Some(ErrorMessage::NoSuchAccount),
            Error::OutOfSpace => Some(ErrorMessage::OutOfSpace),
            Error::IoFailure => Some(ErrorMessage::IoFailure),
            Error::FailedToDelete => Some(ErrorMessage::FailedToDelete),
            Error::ExcessiveValue => Some(ErrorMessage::ExcessiveValue),
            Error::Serialization(text) => Some(ErrorMessage::Serialization(text)),
            Error::AccountExists => None,
            Error::Logic => None,
        }
    }
}

/// Turns an error of the node into what the sender of a message is told. A fault of the
/// node itself is told to nobody, and is handed back.
pub fn convert_to_error_message(error: Error) -> (message: Result<ErrorMessage>)
    ensures
        message == match error.message() {
            Some(m) => Ok::<ErrorMessage, Error>(m),
            None => Err::<ErrorMessage, Error>(error),
        },
        message.is_ok() == !error.is_internal(),
{
    match error {
        Error::InvalidOwners(key) => Ok(ErrorMessage::InvalidOwners(key)),
        Error::DataExists => Ok(ErrorMessage::DataExists),
        Error::InvalidOperation => Ok(ErrorMessage::InvalidOperation),
        Error::InvalidClaim => Ok(ErrorMessage::InvalidClaim),
        Error::NoSuchData => Ok(ErrorMessage::NoSuchData),
        Error::NoSuchKey => Ok(ErrorMessage::NoSuchKey),
        Error::NoSuchAccount => Ok(ErrorMessage::NoSuchAccount),
        Error::OutOfSpace => Ok(ErrorMessage::OutOfSpace),
        Error::IoFailure => Ok(ErrorMessage::IoFailure),
        Error::FailedToDelete => Ok(ErrorMessage::FailedToDelete),
        Error::ExcessiveValue => Ok(ErrorMessage::ExcessiveValue),
        Error::Serialization(text) => Ok(ErrorMessage::Serialization(text)),
        Error::AccountExists => Err(Error::AccountExists),
        Error::Logic => Err(Error::Logic),
    }
}

} // verus!
