//! A client-side implementation of the Tabular Data Stream (TDS) wire
//! protocol, versions 7.2 and 7.3: packet framing, the prelogin/login
//! handshake, the token-stream response parser, and the column-value codec.
//!
//! The library itself performs no I/O: it builds the exact bytes to send and
//! interprets the bytes received, so a caller owning any byte-stream transport
//! can drive a session with it.
use vstd::prelude::*;

pub mod codec;
pub mod conn;
pub mod datetime;
pub mod jdbc;
pub mod login;
pub mod packets;
pub mod prelogin;
pub mod rpc;
pub mod stmt;
pub mod tokens;
pub mod typeinfo;
pub mod types;
pub mod utf16;

verus! {

/// A byte pattern on the wire that falls outside the protocol specification.
#[derive(Debug, Clone, PartialEq, Eq)]
pub enum TdsProtocolError {
    /// A field held a value the specification does not allow (message, value).
    InvalidValue(String, u64),
    /// A length field was impossible for its context.
    InvalidLength(String),
}

/// Any error surfaced by the library or by the session around it.
#[derive(Debug, Clone, PartialEq, Eq)]
pub enum TdsError {
    /// The wire contained bytes outside the specification; fatal to the session.
    ProtocolError(TdsProtocolError),
    /// The transport ended mid-packet; fatal to the session.
    UnexpectedEOF,
    /// The transport itself failed; fatal to the session.
    IoError(String),
    /// An ERROR token from the server; recoverable at statement scope.
    ServerError(TokenStreamError),
    /// A decoded payload could not convert to the requested value.
    Conversion(String),
    /// An ill-typed or unexpected response.
    Other(String),
}

/// The error family a byte-level decoder may surface: the wire ran short,
/// held an impossible value, or carried text that does not convert, or the
/// kind is unsupported — never a server error and never a transport error.
pub open spec fn spec_decode_error(e: TdsError) -> bool {
    ||| e is UnexpectedEOF
    ||| e is ProtocolError
    ||| e is Conversion
    ||| e is Other
}

/// The token stream "ERROR": the server's report of a statement-level fault.
#[derive(Debug, Clone, PartialEq, Eq)]
pub struct TokenStreamError {
    /// The server's error code.
    pub code: u32,
    /// The state qualifying the code.
    pub state: u8,
    /// The severity class.
    pub class: u8,
    /// The error message text.
    pub message: String,
    /// The reporting server's name.
    pub server_name: String,
    /// The procedure the error arose in, if any.
    pub proc_name: String,
    /// The line number within the statement.
    pub line_number: u32,
}

} // verus!
