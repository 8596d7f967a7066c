//! Error kinds shared by every component.

use vstd::prelude::*;

verus! {

/// What can go wrong in the bridge.
#[derive(Clone, Copy, Debug, PartialEq, Eq, Structural)]
pub enum EnokiError {
    /// A filesystem error from the datalog.
    DatalogIo,
    /// An entry of that name was already declared in this session.
    EntryAlreadyExists,
    /// A transport error; the engine reconnects.
    NetworkError,
    /// No address answered.
    NoValidAddress,
    /// The topic is not subscribed on the client.
    NTTopicNotFound,
    /// No datalog entry that takes marks has that name.
    DLEntryNotFound,
    /// A value does not have the type that was asked for or declared.
    TypeMismatch,
    /// The client is not there, or not connected.
    NTLostConnection,
}

impl EnokiError {
    /// The message shown for this error.
    pub fn message(&self) -> (s: &'static str)
        ensures
            s@ == error_text(*self),
    {
        match self {
            EnokiError::DatalogIo => "DataLog io error",
            EnokiError::EntryAlreadyExists => "DataLog error: entry already exists",
            EnokiError::NetworkError => "NT error",
            EnokiError::NoValidAddress => "No valid address found",
            EnokiError::NTTopicNotFound => "NT Topic not found",
            EnokiError::DLEntryNotFound => "DL Entry not found",
            EnokiError::TypeMismatch => "Type mismatch",
            EnokiError::NTLostConnection => "NT connection lost",
        }
    }
}

/// The text of each error kind.
pub open spec fn error_text(e: EnokiError) -> Seq<char> {
    match e {
        EnokiError::DatalogIo => "DataLog io error"@,
        EnokiError::EntryAlreadyExists => "DataLog error: entry already exists"@,
        EnokiError::NetworkError => "NT error"@,
        EnokiError::NoValidAddress => "No valid address found"@,
        EnokiError::NTTopicNotFound => "NT Topic not found"@,
        EnokiError::DLEntryNotFound => "DL Entry not found"@,
        EnokiError::TypeMismatch => "Type mismatch"@,
        EnokiError::NTLostConnection => "NT connection lost"@,
    }
}

/// The text to log for a result: the message of its error, and nothing
/// for a success. The library keeps no log of its own; whoever calls it
/// writes this text to theirs.
pub fn text_to_log<T>(result: &Result<T, EnokiError>) -> (text: Option<&'static str>)
    ensures
        match result {
            Ok(_) => text.is_none(),
            Err(e) => text.is_some() && text.unwrap()@ == error_text(*e),
        },
{
    match result {
        Ok(_) => None,
        Err(e) => Some(e.message()),
    }
}

/// Hands the result back unchanged. Nothing is written here: the library
/// keeps no log, and logging the error is the caller's, with the text of
/// [`text_to_log`] where the error is an [`EnokiError`].
pub fn log_result<T, E>(result: Result<T, E>) -> (r: Result<T, E>)
    ensures
        r == result,
{
    result
}

/// Consumes the result and tells whether it was an error, which is then
/// the caller's to log. Nothing is written here.
pub fn log_result_consume<T, E>(result: Result<T, E>) -> (failed: bool)
    ensures
        failed == result.is_err(),
{
    match result {
        Ok(_) => false,
        Err(_) => true,
    }
}

} // verus!
