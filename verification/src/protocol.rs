//! The packets of the wire protocol that the balancer reads and writes, as
//! plain values. Bytes are turned into these values, and these values into
//! bytes, by the caller's codec.

use vstd::prelude::*;

verus! {

/// The state of a connection, which decides what its packets mean.
#[derive(Debug, Clone, Copy, PartialEq, Eq, Structural)]
pub enum ConnectionState {
    /// Nothing has been read yet.
    HandShake,
    /// The client asks what the server offers.
    Status,
    /// The client logs in.
    Login,
    /// The client has logged in and is sent on to a server.
    Config,
}

/// The state that a handshake asks for.
#[derive(Debug, Clone, Copy, PartialEq, Eq, Structural)]
pub enum NextState {
    Status,
    Login,
}

impl NextState {
    /// The state of a connection that has been asked for this state.
    pub open spec fn spec_state(self) -> ConnectionState {
        match self {
            NextState::Status => ConnectionState::Status,
            NextState::Login => ConnectionState::Login,
        }
    }

    /// The state of a connection that has been asked for this state.
    #[verifier::when_used_as_spec(spec_state)]
    pub fn state(self) -> (state: ConnectionState)
        ensures
            state == self.spec_state(),
    {
        match self {
            NextState::Status => ConnectionState::Status,
            NextState::Login => ConnectionState::Login,
        }
    }
}

/// The first packet of a connection.
#[derive(Debug)]
pub struct Handshake {
    pub protocol_version: i32,
    pub server_address: String,
    pub server_port: u16,
    pub next_state: NextState,
}

/// The numbers by which the codec tells the packets of a client apart. A
/// number means one packet in one state and may mean another in another.
#[derive(Debug, Clone, Copy)]
pub struct PacketIds {
    pub handshake: i32,
    pub status_request: i32,
    pub status_ping_request: i32,
    pub login_start: i32,
    pub login_acknowledged: i32,
}

/// The packets that a client sends.
#[derive(Debug, Clone, Copy, PartialEq, Eq, Structural)]
pub enum PacketKind {
    Handshake,
    StatusRequest,
    StatusPingRequest,
    LoginStart,
    LoginAcknowledged,
    /// A packet that the state of the connection has no meaning for.
    Unknown,
}

/// A packet of a client, decoded.
#[derive(Debug)]
pub enum Incoming {
    Handshake { protocol_version: i32, next_state: NextState },
    StatusRequest,
    StatusPingRequest { payload: i64 },
    LoginStart { name: String, uuid: u128 },
    LoginAcknowledged,
    /// A packet that the state of the connection has no meaning for.
    Unknown,
}

impl Incoming {
    /// Which packet this is.
    pub open spec fn spec_kind(&self) -> PacketKind {
        match *self {
            Incoming::Handshake { .. } => PacketKind::Handshake,
            Incoming::StatusRequest => PacketKind::StatusRequest,
            Incoming::StatusPingRequest { .. } => PacketKind::StatusPingRequest,
            Incoming::LoginStart { .. } => PacketKind::LoginStart,
            Incoming::LoginAcknowledged => PacketKind::LoginAcknowledged,
            Incoming::Unknown => PacketKind::Unknown,
        }
    }

    /// Which packet this is.
    #[verifier::when_used_as_spec(spec_kind)]
    pub fn kind(&self) -> (kind: PacketKind)
        ensures
            kind == self.spec_kind(),
    {
        match self {
            Incoming::Handshake { .. } => PacketKind::Handshake,
            Incoming::StatusRequest => PacketKind::StatusRequest,
            Incoming::StatusPingRequest { .. } => PacketKind::StatusPingRequest,
            Incoming::LoginStart { .. } => PacketKind::LoginStart,
            Incoming::LoginAcknowledged => PacketKind::LoginAcknowledged,
            Incoming::Unknown => PacketKind::Unknown,
        }
    }
}

/// The packet that sends a client on to another server.
#[derive(Debug)]
pub struct Transfer {
    pub host: String,
    pub port: i32,
}

/// What a status response tells of the version of a server.
#[derive(Debug)]
pub struct Version {
    pub name: String,
    pub protocol: u32,
}

/// What a status response tells of the players of a server. No player is
/// ever listed by name.
#[derive(Debug)]
pub struct Players {
    pub max: u32,
    pub online: u32,
}

/// What a status response tells of a server, before it is written as text.
#[derive(Debug)]
pub struct StatusResponse {
    pub version: Option<Version>,
    pub players: Option<Players>,
    pub description: String,
    pub favicon: Option<String>,
    pub enforce_secure_chat: bool,
}

} // verus!
