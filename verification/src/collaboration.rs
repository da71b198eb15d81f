//! Collaboration: identifiers, configuration, document positions, and the
//! state of live-share sessions, presence, comments and reviews.
use vstd::prelude::*;
use crate::stamp::{is_hyphenated_uuid, new_uuid};
use crate::text::owned;

pub mod crdt;
pub mod encryption;
pub mod signaling;
pub mod presence;
pub mod live_share;
pub mod comments;
pub mod review;
pub mod engine;

verus! {

/// Collaboration error.
#[derive(Debug)]
pub enum CollaborationError {
    SessionNotFound(String),
    ParticipantNotFound(String),
    PermissionDenied(String),
    ConnectionFailed(String),
    SignalingFailed(String),
    WebRtcError(String),
    EncryptionError(String),
    CrdtError(String),
    Serialization(String),
    Io(String),
    ChannelError,
    Timeout,
}

/// User identifier.
#[derive(Debug)]
pub struct UserId(pub String);

/// Session identifier.
#[derive(Debug)]
pub struct SessionId(pub String);

/// Document identifier.
#[derive(Debug)]
pub struct DocumentId(pub String);

/// Comment identifier.
#[derive(Debug)]
pub struct CommentId(pub String);

/// Review identifier.
#[derive(Debug)]
pub struct ReviewId(pub String);

impl UserId {
    /// A fresh random identifier.
    pub fn new() -> (id: Self)
        ensures is_hyphenated_uuid(id.0@),
    {
        UserId(new_uuid())
    }

    /// A copy of the identifier.
    pub fn duplicate(&self) -> (id: Self)
        ensures id == *self,
    {
        UserId(self.0.clone())
    }
}

impl SessionId {
    /// A fresh random identifier.
    pub fn new() -> (id: Self)
        ensures is_hyphenated_uuid(id.0@),
    {
        SessionId(new_uuid())
    }

    /// A copy of the identifier.
    pub fn duplicate(&self) -> (id: Self)
        ensures id == *self,
    {
        SessionId(self.0.clone())
    }
}

impl DocumentId {
    /// A fresh random identifier.
    pub fn new() -> (id: Self)
        ensures is_hyphenated_uuid(id.0@),
    {
        DocumentId(new_uuid())
    }

    /// A copy of the identifier.
    pub fn duplicate(&self) -> (id: Self)
        ensures id == *self,
    {
        DocumentId(self.0.clone())
    }
}

impl CommentId {
    /// A fresh random identifier.
    pub fn new() -> (id: Self)
        ensures is_hyphenated_uuid(id.0@),
    {
        CommentId(new_uuid())
    }

    /// A copy of the identifier.
    pub fn duplicate(&self) -> (id: Self)
        ensures id == *self,
    {
        CommentId(self.0.clone())
    }
}

impl ReviewId {
    /// A fresh random identifier.
    pub fn new() -> (id: Self)
        ensures is_hyphenated_uuid(id.0@),
    {
        ReviewId(new_uuid())
    }

    /// A copy of the identifier.
    pub fn duplicate(&self) -> (id: Self)
        ensures id == *self,
    {
        ReviewId(self.0.clone())
    }
}

/// Collaboration configuration. Intervals are in seconds.
#[derive(Debug)]
pub struct CollaborationConfig {
    pub signaling_server: String,
    pub turn_server: Option<String>,
    pub turn_credentials: Option<(String, String)>,
    pub stun_servers: Vec<String>,
    pub enable_encryption: bool,
    pub enable_metrics: bool,
    pub heartbeat_interval: u64,
    pub reconnect_timeout: u64,
    pub max_participants: usize,
    pub compression: bool,
}

impl Default for CollaborationConfig {
    fn default() -> (c: Self)
        ensures
            c.signaling_server@ == "wss://signaling.parsec.dev"@,
            c.turn_server is None,
            c.turn_credentials is None,
            c.stun_servers@.len() == 2,
            c.stun_servers@[0]@ == "stun:stun.l.google.com:19302"@,
            c.stun_servers@[1]@ == "stun:stun1.l.google.com:19302"@,
            c.enable_encryption,
            c.enable_metrics,
            c.heartbeat_interval == 30,
            c.reconnect_timeout == 10,
            c.max_participants == 50,
            c.compression,
    {
        CollaborationConfig {
            signaling_server: owned("wss://signaling.parsec.dev"),
            turn_server: None,
            turn_credentials: None,
            stun_servers: vec![owned("stun:stun.l.google.com:19302"), owned("stun:stun1.l.google.com:19302")],
            enable_encryption: true,
            enable_metrics: true,
            heartbeat_interval: 30,
            reconnect_timeout: 10,
            max_participants: 50,
            compression: true,
        }
    }
}

/// Position in a document.
#[derive(Debug, Clone, Copy)]
pub struct Position {
    pub line: usize,
    pub column: usize,
}

/// Range in a document.
#[derive(Debug, Clone, Copy)]
pub struct Range {
    pub start: Position,
    pub end: Position,
}

} // verus!
