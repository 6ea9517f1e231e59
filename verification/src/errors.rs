//! The error types for the session and value-coding layer.
//!
//! Faults that outside collaborators report through foreign types (I/O
//! faults, frame faults) are carried here as plain messages: the unverified
//! rim converts at the boundary.

use vstd::prelude::*;

use crate::values::ScalarValue;

verus! {

/// The errors that originate from handling commands.
#[derive(Debug, Clone, PartialEq)]
pub enum CommandError {
    /// The server explicitly reported a failure; the message is verbatim.
    ServerError(String),
    /// The response bytes did not parse as a valid frame.
    DecodeError(String),
    /// The response parsed, but lacked what a watch reply must carry.
    WatchValueExpectationError(String),
}

/// The errors that originate from base functionality of a stream, either
/// command stream or watch stream.
#[derive(Debug, Clone, PartialEq)]
pub enum StreamError {
    /// The socket could not be established or re-established within the
    /// retry budget; fatal to the current operation.
    ConnectionError(String),
    /// A read or write failed after a connection was established.
    IoError(String),
    /// The response bytes did not parse as a valid frame.
    DecodeError(String),
    /// An error occurred while handling a command.
    CommandError(CommandError),
}

/// The errors that originate from the command stream.
#[derive(Debug, Clone, PartialEq)]
pub enum CommandStreamError {
    /// An error occurred while reading from the stream.
    ReadError(String),
    /// An error occurred while decoding the response from the server.
    DecodeError(String),
    /// An unexpected value was received from the server during handshake.
    HandshakeError(ScalarValue),
    /// An unexpected response arrived in the command stream.
    CommandError(String),
}

/// The errors that originate from the watch stream.
#[derive(Debug, Clone, PartialEq)]
pub enum WatchStreamError {
    /// A read or write failed after a connection was established.
    IoError(String),
    /// An unexpected value was received from the server.
    UnexpectedResponse(ScalarValue),
    /// An error occurred in the underlying stream.
    StreamError(StreamError),
}

/// The errors that originate from the client.
#[derive(Debug, Clone, PartialEq)]
pub enum ClientError {
    /// An error occurred with the command stream.
    CommandStreamError(CommandStreamError),
    /// An error occurred with the watch stream.
    WatchStreamError(WatchStreamError),
    /// An error occurred in the client's stream.
    StreamError(StreamError),
}

impl From<CommandError> for StreamError {
    /// A command fault wraps into a stream fault.
    fn from(e: CommandError) -> (r: StreamError) {
        StreamError::CommandError(e)
    }
}

impl vstd::std_specs::convert::FromSpecImpl<CommandError> for StreamError {
    open spec fn obeys_from_spec() -> bool {
        true
    }

    open spec fn from_spec(e: CommandError) -> StreamError {
        StreamError::CommandError(e)
    }
}

impl From<StreamError> for WatchStreamError {
    /// A stream fault wraps into a watch-stream fault.
    fn from(e: StreamError) -> (r: WatchStreamError) {
        WatchStreamError::StreamError(e)
    }
}

impl vstd::std_specs::convert::FromSpecImpl<StreamError> for WatchStreamError {
    open spec fn obeys_from_spec() -> bool {
        true
    }

    open spec fn from_spec(e: StreamError) -> WatchStreamError {
        WatchStreamError::StreamError(e)
    }
}

impl From<CommandStreamError> for ClientError {
    /// A command-stream fault wraps into a client fault.
    fn from(e: CommandStreamError) -> (r: ClientError) {
        ClientError::CommandStreamError(e)
    }
}

impl vstd::std_specs::convert::FromSpecImpl<CommandStreamError> for ClientError {
    open spec fn obeys_from_spec() -> bool {
        true
    }

    open spec fn from_spec(e: CommandStreamError) -> ClientError {
        ClientError::CommandStreamError(e)
    }
}

impl From<WatchStreamError> for ClientError {
    /// A watch-stream fault wraps into a client fault.
    fn from(e: WatchStreamError) -> (r: ClientError) {
        ClientError::WatchStreamError(e)
    }
}

impl vstd::std_specs::convert::FromSpecImpl<WatchStreamError> for ClientError {
    open spec fn obeys_from_spec() -> bool {
        true
    }

    open spec fn from_spec(e: WatchStreamError) -> ClientError {
        ClientError::WatchStreamError(e)
    }
}

impl From<StreamError> for ClientError {
    /// A stream fault wraps into a client fault.
    fn from(e: StreamError) -> (r: ClientError) {
        ClientError::StreamError(e)
    }
}

impl vstd::std_specs::convert::FromSpecImpl<StreamError> for ClientError {
    open spec fn obeys_from_spec() -> bool {
        true
    }

    open spec fn from_spec(e: StreamError) -> ClientError {
        ClientError::StreamError(e)
    }
}

} // verus!
