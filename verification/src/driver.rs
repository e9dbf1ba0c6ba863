//! The driver port's vocabulary: how a transport fails and how its
//! startup handshake ends.
//!
//! The transport itself (sockets, reconnection, framing) lives with
//! the host; the runtime only consumes these values.

use vstd::prelude::*;

use crate::strutil::push_chars_of_str;

verus! {

/// How a driver operation fails. The payload carries the underlying
/// error's text.
#[derive(Debug)]
pub enum DriverError {
    ConnectionFailed(String),
    SendFailed(String),
    ReceiveFailed(String),
    NotInitialized,
    Closed,
    ConfigError(String),
    SerializationError(String),
    DeserializationError(String),
}

/// The text a driver error describes itself with.
pub open spec fn driver_error_text(e: DriverError) -> Seq<char> {
    match e {
        DriverError::ConnectionFailed(s) => "connection failed: "@ + s@,
        DriverError::SendFailed(s) => "send failed: "@ + s@,
        DriverError::ReceiveFailed(s) => "receive failed: "@ + s@,
        DriverError::NotInitialized => "driver not initialized"@,
        DriverError::Closed => "driver closed"@,
        DriverError::ConfigError(s) => "configuration error: "@ + s@,
        DriverError::SerializationError(s) => "serialization error: "@ + s@,
        DriverError::DeserializationError(s) => "deserialization error: "@ + s@,
    }
}

impl DriverError {
    /// Describes this error.
    pub fn describe(&self) -> (r: String)
        ensures
            r@ == driver_error_text(*self),
    {
        let mut out: Vec<char> = Vec::new();
        match self {
            DriverError::ConnectionFailed(s) => {
                push_chars_of_str("connection failed: ", &mut out);
                push_chars_of_str(s.as_str(), &mut out);
            },
            DriverError::SendFailed(s) => {
                push_chars_of_str("send failed: ", &mut out);
                push_chars_of_str(s.as_str(), &mut out);
            },
            DriverError::ReceiveFailed(s) => {
                push_chars_of_str("receive failed: ", &mut out);
                push_chars_of_str(s.as_str(), &mut out);
            },
            DriverError::NotInitialized => {
                push_chars_of_str("driver not initialized", &mut out);
            },
            DriverError::Closed => {
                push_chars_of_str("driver closed", &mut out);
            },
            DriverError::ConfigError(s) => {
                push_chars_of_str("configuration error: ", &mut out);
                push_chars_of_str(s.as_str(), &mut out);
            },
            DriverError::SerializationError(s) => {
                push_chars_of_str("serialization error: ", &mut out);
                push_chars_of_str(s.as_str(), &mut out);
            },
            DriverError::DeserializationError(s) => {
                push_chars_of_str("deserialization error: ", &mut out);
                push_chars_of_str(s.as_str(), &mut out);
            },
        }
        proof {
            assert(out@ =~= driver_error_text(*self));
        }
        crate::strutil::chars_to_string(&out)
    }

    /// Whether this failure, seen after a ready connection, asks for
    /// graceful shutdown rather than a retry.
    pub fn is_closed(&self) -> (r: bool)
        ensures
            r == (*self is Closed),
    {
        match self {
            DriverError::Closed => true,
            _ => false,
        }
    }
}

/// How the driver's one-shot startup handshake ends.
#[derive(Debug, Clone, Copy, PartialEq, Eq, Structural)]
pub enum InitStatus {
    Ready,
    Retry,
    Failure,
}

/// What the coordinator does with a handshake result.
#[derive(Debug, Clone, Copy, PartialEq, Eq, Structural)]
pub enum ConnectDecision {
    /// The connection is up: start dispatching.
    Proceed,
    /// Back off and call `initialize` again.
    BackOffAndRetry,
    /// Terminal failure: hand control back to the coordinator.
    Abort,
}

/// Maps a handshake result to the coordinator's next step.
pub fn decide_init(status: InitStatus) -> (r: ConnectDecision)
    ensures
        r == (match status {
            InitStatus::Ready => ConnectDecision::Proceed,
            InitStatus::Retry => ConnectDecision::BackOffAndRetry,
            InitStatus::Failure => ConnectDecision::Abort,
        }),
{
    match status {
        InitStatus::Ready => ConnectDecision::Proceed,
        InitStatus::Retry => ConnectDecision::BackOffAndRetry,
        InitStatus::Failure => ConnectDecision::Abort,
    }
}

} // verus!
