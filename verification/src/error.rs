//! The errors of the library, and how a failed database operation becomes one.
use vstd::prelude::*;
use crate::model::Item;

verus! {

/// Why one operation of a cancelled transaction was refused: not at all, by a
/// validation, by its condition (with the item to report), or for the reason that
/// is given.
#[derive(Debug, PartialEq, Eq)]
pub enum CancellationReason {
    NoReason,
    ValidationError(String),
    ConditionCheckFailed(Option<Item>),
    Other { code: String, message: Option<String> },
}

/// Errors of the data and table operations.
#[derive(Debug, PartialEq, Eq)]
pub enum StorageError {
    Internal(String),
    Validation(String),
    ConditionFailed(Option<Item>),
    TransactionCanceled(Vec<CancellationReason>),
    TransactionConflict(String),
    IdempotentReplay,
    IdempotentMismatch,
    TableNotFound(String),
    TableNotActive(String),
    TableAlreadyExists(String),
    IndexNotFound(String),
    DeletionProtected(String),
    Connection(String),
    Transient(String),
}

/// Errors of the management operations.
#[derive(Debug, PartialEq, Eq)]
pub enum OpError {
    Internal(String),
    NotFound(String),
    AlreadyExists(String),
    Validation(String),
}

/// Errors of the service interface.
#[derive(Debug, PartialEq, Eq)]
pub enum DynamoDbError {
    InternalServerError(String),
    ExpiredTokenException(String),
}

/// Errors that a failed database operation can be turned into.
pub trait FromDbError: Sized {
    /// The error is the one that carries the message `msg`.
    spec fn carries(self, msg: Seq<char>) -> bool;

    /// The error of a failed database operation.
    fn db_error(msg: String) -> (e: Self)
        ensures
            e.carries(msg@),
    ;
}

impl FromDbError for OpError {
    open spec fn carries(self, msg: Seq<char>) -> bool {
        self matches OpError::Internal(m) && m@ == msg
    }

    fn db_error(msg: String) -> (e: Self) {
        OpError::Internal(msg)
    }
}

impl FromDbError for StorageError {
    open spec fn carries(self, msg: Seq<char>) -> bool {
        self matches StorageError::Internal(m) && m@ == msg
    }

    fn db_error(msg: String) -> (e: Self) {
        StorageError::Internal(msg)
    }
}

impl FromDbError for DynamoDbError {
    open spec fn carries(self, msg: Seq<char>) -> bool {
        self matches DynamoDbError::InternalServerError(m) && m@ == msg
    }

    fn db_error(msg: String) -> (e: Self) {
        DynamoDbError::InternalServerError(msg)
    }
}

/// The error is an internal one with this message.
pub open spec fn is_internal(e: StorageError, msg: Seq<char>) -> bool {
    e matches StorageError::Internal(m) && m@ == msg
}

/// The error is a validation error with this message.
pub open spec fn is_validation(e: StorageError, msg: Seq<char>) -> bool {
    e matches StorageError::Validation(m) && m@ == msg
}

/// The error is a passing one with this message.
pub open spec fn is_transient(e: StorageError, msg: Seq<char>) -> bool {
    e matches StorageError::Transient(m) && m@ == msg
}

/// An internal error with the given text.
pub fn internal(msg: &str) -> (e: StorageError)
    ensures
        is_internal(e, msg@),
{
    StorageError::Internal(msg.to_owned())
}

/// A validation error with the given text.
pub fn validation(msg: &str) -> (e: StorageError)
    ensures
        is_validation(e, msg@),
{
    StorageError::Validation(msg.to_owned())
}

} // verus!
