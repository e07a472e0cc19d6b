//! The closed set of failures the engine surfaces to its caller.
//!
//! Only a syntax error is recovered locally, with a 500 reply; every
//! other variant terminates the session.

use crate::codec::LineError;
use vstd::prelude::*;

verus! {

/// Why a session ended, other than by QUIT.
#[derive(Debug)]
pub enum ServerError {
    /// The peer closed the transport cleanly between commands.
    EOF,
    /// A codec-level framing error.
    Framing(LineError),
    /// The parser rejected a line; the offending line is carried.
    SyntaxError(Vec<u8>),
    /// An underlying transport failure.
    IO(std::io::Error),
    /// Bytes arrived between STARTTLS and the TLS handshake.
    Pipelining,
    /// The handler returned without draining the DATA payload.
    DataAbort,
}

impl From<LineError> for ServerError {
    /// A transport error stays a transport error; every other framing
    /// failure is wrapped as such.
    fn from(e: LineError) -> (r: ServerError) {
        match e {
            LineError::IO(io) => ServerError::IO(io),
            other => ServerError::Framing(other),
        }
    }
}

impl vstd::std_specs::convert::FromSpecImpl<LineError> for ServerError {
    open spec fn obeys_from_spec() -> bool {
        true
    }

    open spec fn from_spec(e: LineError) -> ServerError {
        match e {
            LineError::IO(io) => ServerError::IO(io),
            other => ServerError::Framing(other),
        }
    }
}

impl From<std::io::Error> for ServerError {
    /// A raw transport error.
    fn from(e: std::io::Error) -> (r: ServerError) {
        ServerError::IO(e)
    }
}

impl vstd::std_specs::convert::FromSpecImpl<std::io::Error> for ServerError {
    open spec fn obeys_from_spec() -> bool {
        true
    }

    open spec fn from_spec(e: std::io::Error) -> ServerError {
        ServerError::IO(e)
    }
}

} // verus!
