//! Errors raised while decoding protocol messages.

use vstd::prelude::*;

verus! {

/// Why a payload is not a protocol message.
#[derive(Debug, PartialEq, Eq)]
pub enum ProtoError {
    /// A field needs `needed` more bytes and only `had` are left.
    UnexpectedEof { needed: usize, had: usize },
    /// No message has this opcode.
    UnknownCode([u8; 4]),
    /// The fields of the message contradict each other.
    Malformed { code: &'static str, reason: &'static str },
    /// A length prefix declares more than the protocol allows.
    TooLong { declared: usize, max: usize },
    /// A text field is not UTF-8.
    InvalidUtf8,
}

/// The result of a decoding step.
pub type Result<T> = std::result::Result<T, ProtoError>;

} // verus!
