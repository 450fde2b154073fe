//! The library's error type.
use vstd::prelude::*;
use crate::text::{concat, owned};

verus! {

#[verifier::external_type_specification]
#[verifier::external_body]
pub struct ExIoError(std::io::Error);

/// Errors of the clipboard manager.
#[derive(Debug)]
pub enum MaccyError {
    Io(std::io::Error),
    Database(String),
    Clipboard(String),
    Ipc(String),
    Paste(String),
    Autostart(String),
    Serialization(String),
    Validation(String),
}

pub type Result<T> = core::result::Result<T, MaccyError>;

/// The message of an I/O error (std `io::Error` as `Display`); it depends on
/// the error's own state, so nothing is stated of it.
#[verifier::external_body]
fn io_error_text(e: &std::io::Error) -> String {
    e.to_string()
}

/// The prefix that the message of each kind of error starts with.
pub open spec fn error_prefix(e: MaccyError) -> Seq<char> {
    match e {
        MaccyError::Io(_) => "IO error: "@,
        MaccyError::Database(_) => "Database error: "@,
        MaccyError::Clipboard(_) => "Clipboard error: "@,
        MaccyError::Ipc(_) => "IPC error: "@,
        MaccyError::Paste(_) => "Paste error: "@,
        MaccyError::Autostart(_) => "Autostart error: "@,
        MaccyError::Serialization(_) => "Serialization error: "@,
        MaccyError::Validation(_) => "Validation error: "@,
    }
}

impl MaccyError {
    /// The error's message: its kind's prefix, then its detail.
    pub fn to_text(&self) -> (r: String)
        ensures
            r@.len() >= error_prefix(*self).len(),
            r@.subrange(0, error_prefix(*self).len() as int) == error_prefix(*self),
            match self {
                MaccyError::Io(_) => true,
                MaccyError::Database(m) => r@ == error_prefix(*self) + m@,
                MaccyError::Clipboard(m) => r@ == error_prefix(*self) + m@,
                MaccyError::Ipc(m) => r@ == error_prefix(*self) + m@,
                MaccyError::Paste(m) => r@ == error_prefix(*self) + m@,
                MaccyError::Autostart(m) => r@ == error_prefix(*self) + m@,
                MaccyError::Serialization(m) => r@ == error_prefix(*self) + m@,
                MaccyError::Validation(m) => r@ == error_prefix(*self) + m@,
            },
    {
        let r = match self {
            MaccyError::Io(e) => {
                let detail = io_error_text(e);
                concat("IO error: ", detail.as_str())
            },
            MaccyError::Database(m) => concat("Database error: ", m.as_str()),
            MaccyError::Clipboard(m) => concat("Clipboard error: ", m.as_str()),
            MaccyError::Ipc(m) => concat("IPC error: ", m.as_str()),
            MaccyError::Paste(m) => concat("Paste error: ", m.as_str()),
            MaccyError::Autostart(m) => concat("Autostart error: ", m.as_str()),
            MaccyError::Serialization(m) => concat("Serialization error: ", m.as_str()),
            MaccyError::Validation(m) => concat("Validation error: ", m.as_str()),
        };
        assert(r@.subrange(0, error_prefix(*self).len() as int) =~= error_prefix(*self));
        r
    }
}

impl From<std::io::Error> for MaccyError {
    fn from(err: std::io::Error) -> (r: Self) {
        MaccyError::Io(err)
    }
}

impl vstd::std_specs::convert::FromSpecImpl<std::io::Error> for MaccyError {
    open spec fn obeys_from_spec() -> bool {
        true
    }

    open spec fn from_spec(err: std::io::Error) -> Self {
        MaccyError::Io(err)
    }
}

/// A `Validation` error with the given message.
pub fn validation_error(msg: &str) -> (e: MaccyError)
    ensures
        e matches MaccyError::Validation(m) && m@ == msg@,
{
    MaccyError::Validation(owned(msg))
}

} // verus!
