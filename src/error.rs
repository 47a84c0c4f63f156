//! Failure kinds that reach the caller of a request.

use vstd::prelude::*;

verus! {

/// Why a request produced no confirmed response.
#[derive(Debug, Clone, Copy, PartialEq, Eq, Structural)]
pub enum LinkError {
    /// The transport reported the peripheral as disconnected at call time.
    NotConnected,
    /// No matching frame arrived within the deadline.
    Timeout,
    /// A connect, write, subscribe or unsubscribe step of the transport failed.
    TransportError,
    /// The request id is already registered by an outstanding request.
    Collision,
}

impl LinkError {
    /// A short human-readable description.
    pub fn message(&self) -> (r: &'static str) {
        match self {
            LinkError::NotConnected => "peripheral not connected",
            LinkError::Timeout => "timed out waiting for a response",
            LinkError::TransportError => "transport operation failed",
            LinkError::Collision => "request id already outstanding",
        }
    }
}

} // verus!
