//! Errors the library reports to its callers.

use vstd::prelude::*;
use crate::ids::{uuid_chars, uuid_text, ObjectId};
use crate::text::string_from_chars;

verus! {

/// An error of the engineering reasoning core.
#[derive(Debug)]
pub enum RivoraError {
    /// The input is malformed or incomplete.
    Validation { message: String },
    /// The operation's preconditions on stored state do not hold.
    Precondition { message: String },
    /// The request conflicts with the current state.
    Conflict { message: String },
    /// The operation is not permitted in the current state.
    OperationNotAllowed { message: String },
    /// A referenced object does not exist.
    ObjectNotFound { kind: String, id: String },
    /// Stored records are inconsistent.
    Storage { message: String },
    /// The input exceeds the supported operating envelope.
    PayloadTooLarge { message: String },
}

impl RivoraError {
    /// A validation error with this message.
    pub fn validation(message: &str) -> (e: RivoraError)
        ensures
            e matches RivoraError::Validation { message: m } && m@ == message@,
    {
        RivoraError::Validation { message: message.to_owned() }
    }

    /// A precondition error with this message.
    pub fn precondition(message: &str) -> (e: RivoraError)
        ensures
            e matches RivoraError::Precondition { message: m } && m@ == message@,
    {
        RivoraError::Precondition { message: message.to_owned() }
    }

    /// A storage error with this message.
    pub fn storage(message: &str) -> (e: RivoraError)
        ensures
            e matches RivoraError::Storage { message: m } && m@ == message@,
    {
        RivoraError::Storage { message: message.to_owned() }
    }

    /// A conflict error with this message.
    pub fn conflict(message: &str) -> (e: RivoraError)
        ensures
            e matches RivoraError::Conflict { message: m } && m@ == message@,
    {
        RivoraError::Conflict { message: message.to_owned() }
    }

    /// An operation-not-allowed error with this message.
    pub fn not_allowed(message: &str) -> (e: RivoraError)
        ensures
            e matches RivoraError::OperationNotAllowed { message: m } && m@ == message@,
    {
        RivoraError::OperationNotAllowed { message: message.to_owned() }
    }

    /// An object of `kind` with this identifier does not exist.
    pub fn not_found(kind: &str, id: ObjectId) -> (e: RivoraError)
        ensures
            e matches RivoraError::ObjectNotFound { kind: k, id: i } && k@ == kind@ && i@ == uuid_text(id.value),
    {
        let text = uuid_chars(id.value);
        RivoraError::ObjectNotFound { kind: kind.to_owned(), id: string_from_chars(&text) }
    }

    /// Whether this is a validation error.
    pub fn is_validation(&self) -> (b: bool)
        ensures
            b == (*self is Validation),
    {
        match self {
            RivoraError::Validation { .. } => true,
            _ => false,
        }
    }
}

} // verus!
