//! The error type shared by every operation of the crate.

use vstd::prelude::*;
use vstd::string::StringExecFns;

verus! {

/// `std::io::Error`, the cause of an I/O failure. It is carried through;
/// nothing is read from it.
#[verifier::external_type_specification]
#[verifier::external_body]
pub struct ExIoError(std::io::Error);

/// What went wrong, with the path or the value it concerns.
#[derive(Debug)]
pub enum CoreError {
    /// File system I/O failure at the given path.
    Io(String, std::io::Error),
    /// A path is invalid for the current operation.
    InvalidPath(String),
    /// A required input is missing.
    MissingValue(String),
    /// An operation was rejected due to configuration or argument issues.
    InvalidInput(String),
    /// The operation could not be completed because a pre-condition failed.
    PreconditionFailed(String),
    /// A conflict prevented the operation from proceeding.
    Conflict(String),
    /// Platform-specific behavior not available in this environment.
    UnsupportedPlatform(String),
}

impl CoreError {
    /// An input that was rejected, with the message converted to a string.
    pub fn invalid_input<M: Into<String>>(message: M) -> (error: Self)
        ensures
            error matches CoreError::InvalidInput(text) && call_ensures(
                M::into,
                (message,),
                text,
            ),
    {
        CoreError::InvalidInput(message.into())
    }

    /// A required value that is missing, with the message converted to a string.
    pub fn missing<M: Into<String>>(message: M) -> (error: Self)
        ensures
            error matches CoreError::MissingValue(text) && call_ensures(
                M::into,
                (message,),
                text,
            ),
    {
        CoreError::MissingValue(message.into())
    }

    /// A conflict, with the message converted to a string.
    pub fn conflict<M: Into<String>>(message: M) -> (error: Self)
        ensures
            error matches CoreError::Conflict(text) && call_ensures(M::into, (message,), text),
    {
        CoreError::Conflict(message.into())
    }

    /// An I/O failure at a path, with its cause.
    pub fn io<P: Into<String>>(path: P, error: std::io::Error) -> (failure: Self)
        ensures
            failure matches CoreError::Io(at, cause) && cause == error && call_ensures(
                P::into,
                (path,),
                at,
            ),
    {
        CoreError::Io(path.into(), error)
    }

    /// The words that introduce the error's detail.
    pub open spec fn heading(self) -> Seq<char> {
        match self {
            CoreError::Io(_, _) => "I/O error while accessing "@,
            CoreError::InvalidPath(_) => "invalid path: "@,
            CoreError::MissingValue(_) => "missing required value: "@,
            CoreError::InvalidInput(_) => "invalid command input: "@,
            CoreError::PreconditionFailed(_) => "pre-condition failed: "@,
            CoreError::Conflict(_) => "resource conflict: "@,
            CoreError::UnsupportedPlatform(_) => "unsupported platform behavior: "@,
        }
    }

    /// The path or value that the error concerns.
    pub open spec fn detail(self) -> Seq<char> {
        match self {
            CoreError::Io(path, _) => path@,
            CoreError::InvalidPath(text) => text@,
            CoreError::MissingValue(text) => text@,
            CoreError::InvalidInput(text) => text@,
            CoreError::PreconditionFailed(text) => text@,
            CoreError::Conflict(text) => text@,
            CoreError::UnsupportedPlatform(text) => text@,
        }
    }

    /// The error as one line of text: its heading, then its detail.
    pub fn message(&self) -> (line: String)
        ensures
            line@ == self.heading() + self.detail(),
    {
        match self {
            CoreError::Io(path, _) => String::from_str("I/O error while accessing ").concat(
                path.as_str(),
            ),
            CoreError::InvalidPath(text) => String::from_str("invalid path: ").concat(
                text.as_str(),
            ),
            CoreError::MissingValue(text) => String::from_str("missing required value: ").concat(
                text.as_str(),
            ),
            CoreError::InvalidInput(text) => String::from_str("invalid command input: ").concat(
                text.as_str(),
            ),
            CoreError::PreconditionFailed(text) => String::from_str(
                "pre-condition failed: ",
            ).concat(text.as_str()),
            CoreError::Conflict(text) => String::from_str("resource conflict: ").concat(
                text.as_str(),
            ),
            CoreError::UnsupportedPlatform(text) => String::from_str(
                "unsupported platform behavior: ",
            ).concat(text.as_str()),
        }
    }
}

} // verus!
