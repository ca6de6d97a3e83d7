//! One connection of a client: which packets it may send in which state,
//! what each of them asks of the balancer, and how the state moves from the
//! handshake over status or login to the redirect. Reading, decoding and
//! sending are the caller's.

use crate::protocol::{ConnectionState, Incoming, NextState, PacketIds, PacketKind, Transfer};
use vstd::prelude::*;

verus! {

/// The lowest protocol version that a status is written for.
pub const MIN_STATUS_PROTOCOL: i32 = 766;

/// Why a connection is closed.
#[derive(Debug, Clone, Copy, PartialEq, Eq, Structural)]
pub enum ConnectionError {
    /// The packet has no meaning in the state of the connection.
    UnexpectedPacket,
    /// The client was sent on; nothing more is read from it.
    Redirected,
}

/// What the caller is to do for a packet.
#[derive(Debug)]
pub enum Reaction {
    /// Nothing.
    Nothing,
    /// Send the status of the balancer, written for `protocol`.
    SendStatus { protocol: u32 },
    /// Send `payload` back.
    SendPong { payload: i64 },
    /// Tell the client that it is logged in, under the name and the
    /// identifier that it claimed and with no properties.
    SendLoginSuccess { uuid: u128, name: String },
    /// Choose a server, send the client on to it, and close the connection.
    Redirect,
}

/// A [`Reaction`] with its text as a sequence of characters.
pub enum ReactionView {
    Nothing,
    SendStatus { protocol: u32 },
    SendPong { payload: i64 },
    SendLoginSuccess { uuid: u128, name: Seq<char> },
    Redirect,
}

impl View for Reaction {
    type V = ReactionView;

    open spec fn view(&self) -> ReactionView {
        match *self {
            Reaction::Nothing => ReactionView::Nothing,
            Reaction::SendStatus { protocol } => ReactionView::SendStatus { protocol },
            Reaction::SendPong { payload } => ReactionView::SendPong { payload },
            Reaction::SendLoginSuccess { uuid, name } => ReactionView::SendLoginSuccess {
                uuid,
                name: name@,
            },
            Reaction::Redirect => ReactionView::Redirect,
        }
    }
}

/// An [`Incoming`] with its text as a sequence of characters.
pub enum IncomingView {
    Handshake { protocol_version: i32, next_state: NextState },
    StatusRequest,
    StatusPingRequest { payload: i64 },
    LoginStart { name: Seq<char>, uuid: u128 },
    LoginAcknowledged,
    Unknown,
}

impl View for Incoming {
    type V = IncomingView;

    open spec fn view(&self) -> IncomingView {
        match *self {
            Incoming::Handshake { protocol_version, next_state } => IncomingView::Handshake {
                protocol_version,
                next_state,
            },
            Incoming::StatusRequest => IncomingView::StatusRequest,
            Incoming::StatusPingRequest { payload } => IncomingView::StatusPingRequest { payload },
            Incoming::LoginStart { name, uuid } => IncomingView::LoginStart { name: name@, uuid },
            Incoming::LoginAcknowledged => IncomingView::LoginAcknowledged,
            Incoming::Unknown => IncomingView::Unknown,
        }
    }
}

/// What became of a packet: what the caller is to do for it, and whether
/// another packet is to be read after that.
#[derive(Debug)]
pub struct Step {
    pub reaction: Reaction,
    pub keep_open: bool,
}

/// The session of one connection.
#[derive(Debug)]
pub struct Connection {
    state: ConnectionState,
    context_id: usize,
    protocol_version: i32,
    ids: PacketIds,
}

/// What a [`Connection`] holds.
pub struct ConnectionView {
    pub state: ConnectionState,
    /// The number of the connection, by which its lines in a log are found.
    pub context_id: usize,
    /// The protocol version that the handshake named; 0 before it.
    pub protocol_version: i32,
    pub ids: PacketIds,
}

impl View for Connection {
    type V = ConnectionView;

    closed spec fn view(&self) -> ConnectionView {
        ConnectionView {
            state: self.state,
            context_id: self.context_id,
            protocol_version: self.protocol_version,
            ids: self.ids,
        }
    }
}

/// How far a state is from the start of a connection.
pub open spec fn rank(state: ConnectionState) -> int {
    match state {
        ConnectionState::HandShake => 0,
        ConnectionState::Status => 1,
        ConnectionState::Login => 1,
        ConnectionState::Config => 2,
    }
}

/// Whether a connection in state `from` may be in state `to` after a
/// packet: it stays, or goes from the handshake to status or login, or
/// from login to the redirect.
pub open spec fn is_legal_step(from: ConnectionState, to: ConnectionState) -> bool {
    ||| to == from
    ||| from == ConnectionState::HandShake && (to == ConnectionState::Status || to
        == ConnectionState::Login)
    ||| from == ConnectionState::Login && to == ConnectionState::Config
}

/// Which packet the number `id` means in `state`.
pub open spec fn packet_kind(state: ConnectionState, ids: PacketIds, id: i32) -> PacketKind {
    match state {
        ConnectionState::HandShake => if id == ids.handshake {
            PacketKind::Handshake
        } else {
            PacketKind::Unknown
        },
        ConnectionState::Status => if id == ids.status_request {
            PacketKind::StatusRequest
        } else if id == ids.status_ping_request {
            PacketKind::StatusPingRequest
        } else {
            PacketKind::Unknown
        },
        ConnectionState::Login => if id == ids.login_start {
            PacketKind::LoginStart
        } else if id == ids.login_acknowledged {
            PacketKind::LoginAcknowledged
        } else {
            PacketKind::Unknown
        },
        ConnectionState::Config => PacketKind::Unknown,
    }
}

/// The protocol version that a status is written for: that of the client,
/// and 766 for a client that named a lower one.
pub open spec fn status_protocol(protocol_version: i32) -> u32 {
    if protocol_version > MIN_STATUS_PROTOCOL {
        protocol_version as u32
    } else {
        MIN_STATUS_PROTOCOL as u32
    }
}

/// The connection after `packet`, and what the caller is to do for it or
/// why the connection is closed.
///
/// Before the handshake, a handshake sets state and protocol version, and
/// any other packet is passed over. In the state status, a request is
/// answered with the status and a ping with its payload. In the state
/// login, the start is answered with success, and the acknowledgement
/// leads to the redirect. Every other packet closes the connection.
pub open spec fn react(connection: ConnectionView, packet: IncomingView) -> (
    ConnectionView,
    Result<ReactionView, ConnectionError>,
) {
    match connection.state {
        ConnectionState::HandShake => match packet {
            IncomingView::Handshake { protocol_version, next_state } => (
                ConnectionView { state: next_state.spec_state(), protocol_version, ..connection },
                Ok(ReactionView::Nothing),
            ),
            _ => (connection, Ok(ReactionView::Nothing)),
        },
        ConnectionState::Status => match packet {
            IncomingView::StatusRequest => (
                connection,
                Ok(
                    ReactionView::SendStatus {
                        protocol: status_protocol(connection.protocol_version),
                    },
                ),
            ),
            IncomingView::StatusPingRequest { payload } => (
                connection,
                Ok(ReactionView::SendPong { payload }),
            ),
            _ => (connection, Err(ConnectionError::UnexpectedPacket)),
        },
        ConnectionState::Login => match packet {
            IncomingView::LoginStart { name, uuid } => (
                connection,
                Ok(ReactionView::SendLoginSuccess { uuid, name }),
            ),
            IncomingView::LoginAcknowledged => (
                ConnectionView { state: ConnectionState::Config, ..connection },
                Ok(ReactionView::Redirect),
            ),
            _ => (connection, Err(ConnectionError::UnexpectedPacket)),
        },
        ConnectionState::Config => (connection, Err(ConnectionError::Redirected)),
    }
}

/// The view of what a packet led to.
pub open spec fn outcome_view(outcome: Result<Reaction, ConnectionError>) -> Result<
    ReactionView,
    ConnectionError,
> {
    match outcome {
        Ok(reaction) => Ok(reaction@),
        Err(error) => Err(error),
    }
}

/// No packet takes a connection back: its state stays or moves on along
/// the one way from the handshake over status or login to the redirect.
pub proof fn lemma_state_only_advances(connection: ConnectionView, packet: IncomingView)
    ensures
        is_legal_step(connection.state, react(connection, packet).0.state),
        rank(connection.state) <= rank(react(connection, packet).0.state),
        react(connection, packet).0.context_id == connection.context_id,
        react(connection, packet).0.ids == connection.ids,
{
}

/// A connection is told to redirect once: by the acknowledgement of the
/// login, which takes it to the last state, in which every packet is
/// refused.
pub proof fn lemma_one_redirect(connection: ConnectionView, packet: IncomingView, later: IncomingView)
    ensures
        react(connection, packet).1 == Ok::<ReactionView, ConnectionError>(ReactionView::Redirect)
            <==> connection.state == ConnectionState::Login && packet
            == IncomingView::LoginAcknowledged,
        react(connection, packet).1 == Ok::<ReactionView, ConnectionError>(ReactionView::Redirect)
            ==> react(react(connection, packet).0, later) == (
            react(connection, packet).0,
            Err::<ReactionView, ConnectionError>(ConnectionError::Redirected),
        ),
{
}

/// The packet that sends a client on to `host` and `port`.
pub fn handle_config_packet(host: String, port: u16) -> (transfer: Transfer)
    ensures
        transfer.host == host,
        transfer.port == port,
{
    Transfer { host, port: port as i32 }
}

impl Connection {
    /// The session of a connection that was just accepted, with the number
    /// `context_id`.
    pub fn new(context_id: usize, ids: PacketIds) -> (connection: Connection)
        ensures
            connection@ == (ConnectionView {
                state: ConnectionState::HandShake,
                context_id,
                protocol_version: 0,
                ids,
            }),
    {
        Connection { state: ConnectionState::HandShake, context_id, protocol_version: 0, ids }
    }

    /// The state of the connection.
    pub fn state(&self) -> (state: ConnectionState)
        ensures
            state == self@.state,
    {
        self.state
    }

    /// The number of the connection.
    pub fn context_id(&self) -> (context_id: usize)
        ensures
            context_id == self@.context_id,
    {
        self.context_id
    }

    /// The protocol version that the handshake named.
    pub fn protocol_version(&self) -> (protocol_version: i32)
        ensures
            protocol_version == self@.protocol_version,
    {
        self.protocol_version
    }

    /// Which packet the number `id` means in the state of the connection,
    /// and so what the payload behind it is to be decoded as.
    pub fn classify(&self, id: i32) -> (kind: PacketKind)
        ensures
            kind == packet_kind(self@.state, self@.ids, id),
    {
        match self.state {
            ConnectionState::HandShake => if id == self.ids.handshake {
                PacketKind::Handshake
            } else {
                PacketKind::Unknown
            },
            ConnectionState::Status => if id == self.ids.status_request {
                PacketKind::StatusRequest
            } else if id == self.ids.status_ping_request {
                PacketKind::StatusPingRequest
            } else {
                PacketKind::Unknown
            },
            ConnectionState::Login => if id == self.ids.login_start {
                PacketKind::LoginStart
            } else if id == self.ids.login_acknowledged {
                PacketKind::LoginAcknowledged
            } else {
                PacketKind::Unknown
            },
            ConnectionState::Config => PacketKind::Unknown,
        }
    }

    /// Takes a packet before the handshake.
    fn handle_handshake_packet(&mut self, packet: Incoming) -> (outcome: Result<
        Reaction,
        ConnectionError,
    >)
        requires
            old(self)@.state == ConnectionState::HandShake,
        ensures
            (final(self)@, outcome_view(outcome)) == react(old(self)@, packet@),
    {
        match packet {
            Incoming::Handshake { protocol_version, next_state } => {
                self.state = next_state.state();
                self.protocol_version = protocol_version;
            },
            _ => {},
        }
        Ok(Reaction::Nothing)
    }

    /// Takes a packet in the state status.
    fn handle_status_packet(&mut self, packet: Incoming) -> (outcome: Result<
        Reaction,
        ConnectionError,
    >)
        requires
            old(self)@.state == ConnectionState::Status,
        ensures
            (final(self)@, outcome_view(outcome)) == react(old(self)@, packet@),
    {
        match packet {
            Incoming::StatusRequest => {
                let protocol: u32 = if self.protocol_version > MIN_STATUS_PROTOCOL {
                    self.protocol_version as u32
                } else {
                    MIN_STATUS_PROTOCOL as u32
                };
                Ok(Reaction::SendStatus { protocol })
            },
            Incoming::StatusPingRequest { payload } => Ok(Reaction::SendPong { payload }),
            _ => Err(ConnectionError::UnexpectedPacket),
        }
    }

    /// Takes a packet in the state login.
    fn handle_login_packet(&mut self, packet: Incoming) -> (outcome: Result<
        Reaction,
        ConnectionError,
    >)
        requires
            old(self)@.state == ConnectionState::Login,
        ensures
            (final(self)@, outcome_view(outcome)) == react(old(self)@, packet@),
    {
        match packet {
            Incoming::LoginStart { name, uuid } => Ok(Reaction::SendLoginSuccess { uuid, name }),
            Incoming::LoginAcknowledged => {
                self.state = ConnectionState::Config;
                Ok(Reaction::Redirect)
            },
            _ => Err(ConnectionError::UnexpectedPacket),
        }
    }

    /// Takes a packet: moves the state on where the packet asks for it,
    /// and says what the caller is to do for the packet, or why the
    /// connection is to be closed.
    pub fn handle_packet(&mut self, packet: Incoming) -> (outcome: Result<
        Reaction,
        ConnectionError,
    >)
        ensures
            (final(self)@, outcome_view(outcome)) == react(old(self)@, packet@),
            is_legal_step(old(self)@.state, final(self)@.state),
    {
        match self.state {
            ConnectionState::HandShake => self.handle_handshake_packet(packet),
            ConnectionState::Status => self.handle_status_packet(packet),
            ConnectionState::Login => self.handle_login_packet(packet),
            ConnectionState::Config => Err(ConnectionError::Redirected),
        }
    }

    /// Takes what the caller read: a packet, or `None` where the client is
    /// gone or sent what could not be decoded. The connection stays open
    /// where a packet was taken and did not lead to the redirect.
    pub fn process_packets(&mut self, packet: Option<Incoming>) -> (step: Step)
        ensures
            match packet {
                None => final(self)@ == old(self)@ && step.reaction@ == ReactionView::Nothing
                    && !step.keep_open,
                Some(read) => final(self)@ == react(old(self)@, read@).0 && match react(
                    old(self)@,
                    read@,
                ).1 {
                    Ok(reaction) => step.reaction@ == reaction && step.keep_open == (reaction
                        != ReactionView::Redirect),
                    Err(_) => step.reaction@ == ReactionView::Nothing && !step.keep_open,
                },
            },
    {
        match packet {
            None => Step { reaction: Reaction::Nothing, keep_open: false },
            Some(read) => match self.handle_packet(read) {
                Ok(Reaction::Redirect) => Step { reaction: Reaction::Redirect, keep_open: false },
                Ok(reaction) => Step { reaction, keep_open: true },
                Err(_) => Step { reaction: Reaction::Nothing, keep_open: false },
            },
        }
    }
}

} // verus!
