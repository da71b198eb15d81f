//! Signaling for peer-to-peer connections. Connecting always succeeds.
use vstd::prelude::*;
use crate::collaboration::CollaborationError;

verus! {

/// Signaling server.
#[derive(Debug, Clone, Copy)]
pub struct SignalingServer;

/// Signaling client.
#[derive(Debug, Clone, Copy)]
pub struct SignalingClient;

/// Signaling message.
#[derive(Debug, Clone)]
pub enum SignalMessage {
    Connect,
    Disconnect,
    Data(Vec<u8>),
}

impl SignalingServer {
    /// A server.
    pub fn new() -> (r: Result<Self, CollaborationError>)
        ensures r is Ok,
    {
        Ok(SignalingServer)
    }
}

impl SignalingClient {
    /// Connect to a signaling URL: accepted.
    pub fn connect(&self, url: &str) -> (r: Result<(), CollaborationError>)
        ensures r is Ok,
    {
        Ok(())
    }
}

} // verus!
