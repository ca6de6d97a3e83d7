//! A server behind the balancer, and what the balancer says to it and reads
//! of it when it asks how many players it has.

use crate::address_resolver::{
    first_stage, resolve_host_port, RequestView, Resolution, ResolvedEndpoint,
};
use crate::protocol::{Handshake, NextState};
use serde_json::Value;
use vstd::prelude::*;

verus! {

/// The protocol version that the balancer names when it asks a server for
/// its status.
pub const PROBE_PROTOCOL_VERSION: i32 = 772;

/// The port of a server whose address names none.
pub const DEFAULT_SERVER_PORT: u16 = 25565;

/// Why a status response gave no number of players.
#[derive(Debug, Clone, Copy, PartialEq, Eq, Structural)]
pub enum ProbeError {
    /// The response is no JSON document.
    Malformed,
    /// The document has no member `players`.
    NoPlayers,
    /// The member `players` has no member `online`.
    NoOnline,
    /// The member `online` is no integer from 0 to 2^64 - 1.
    OnlineNotAnInteger,
    /// The member `online` is an integer above 2^32 - 1, which no count holds.
    OnlineTooLarge,
}

/// A server that clients can be sent to. Where a port is given, the address
/// is the host to connect to; where none is given, the address is still to
/// be resolved. Two servers are the same where their addresses are.
#[derive(Debug)]
pub struct MinecraftServer {
    pub address: String,
    pub port: Option<u16>,
}

impl Clone for MinecraftServer {
    fn clone(&self) -> (copy: Self)
        ensures
            copy == *self,
    {
        MinecraftServer { address: self.address.clone(), port: self.port }
    }
}

impl PartialEq for MinecraftServer {
    fn eq(&self, other: &Self) -> (same: bool) {
        self.address == other.address
    }
}

impl vstd::std_specs::cmp::PartialEqSpecImpl for MinecraftServer {
    open spec fn obeys_eq_spec() -> bool {
        true
    }

    open spec fn eq_spec(&self, other: &Self) -> bool {
        self.address@ == other.address@
    }
}

/// What is to be done to learn host and port of a server.
#[derive(Debug)]
pub enum HostLookup {
    /// Nothing: these are host and port.
    Known { host: String, port: u16 },
    /// The address is to be resolved; this is the resolution, started.
    Resolve(Resolution),
}

/// A JSON value, as `serde_json` holds it. The library looks into such a
/// value only through the three functions below.
#[verifier::external_type_specification]
#[verifier::external_body]
pub struct ExValue(Value);

/// The JSON document that `text` writes, as `serde_json::from_str` reads it;
/// `None` where `text` writes none.
pub uninterp spec fn json_document(text: Seq<char>) -> Option<Value>;

/// The member `key` of the JSON object `value`, as `Value::get` finds it;
/// `None` where `value` is no object or has no such member.
pub uninterp spec fn json_member(value: Value, key: Seq<char>) -> Option<Value>;

/// The number that the JSON value `value` is, as `Value::as_u64` gives it;
/// `None` where `value` is no integer from 0 to 2^64 - 1.
pub uninterp spec fn json_unsigned(value: Value) -> Option<u64>;

/// Calls `serde_json::from_str` for a `Value` and drops the error: the
/// result is the document that the text writes.
#[verifier::external_body]
fn parse_json(text: &str) -> (document: Option<Value>)
    ensures
        document == json_document(text@),
{
    serde_json::from_str::<Value>(text).ok()
}

/// Calls `Value::get` with a text as the index: the result is the member of
/// that name.
#[verifier::external_body]
fn member_of<'a>(value: &'a Value, key: &str) -> (member: Option<&'a Value>)
    ensures
        match member {
            Some(found) => json_member(*value, key@) == Some(*found),
            None => json_member(*value, key@) is None,
        },
{
    value.get(key)
}

/// Calls `Value::as_u64`: the result is the number that the value is.
#[verifier::external_body]
fn unsigned_of(value: &Value) -> (number: Option<u64>)
    ensures
        number == json_unsigned(*value),
{
    value.as_u64()
}

/// What the text of a status response says of the players online: the
/// number at `players.online`, or why there is none.
pub open spec fn reported_online(json: Seq<char>) -> Result<u64, ProbeError> {
    match json_document(json) {
        None => Err(ProbeError::Malformed),
        Some(document) => match json_member(document, "players"@) {
            None => Err(ProbeError::NoPlayers),
            Some(players) => match json_member(players, "online"@) {
                None => Err(ProbeError::NoOnline),
                Some(online) => match json_unsigned(online) {
                    None => Err(ProbeError::OnlineNotAnInteger),
                    Some(number) => Ok(number),
                },
            },
        },
    }
}

/// The count that a reported number of players is taken as: the number
/// itself where a count can hold it, and a failure where it cannot.
pub open spec fn spec_count_of(online: u64) -> Result<u32, ProbeError> {
    if online <= u32::MAX {
        Ok(online as u32)
    } else {
        Err(ProbeError::OnlineTooLarge)
    }
}

/// The count that a reported number of players is taken as: the number
/// itself where a count can hold it, and a failure where it cannot.
#[verifier::when_used_as_spec(spec_count_of)]
pub fn count_of(online: u64) -> (count: Result<u32, ProbeError>)
    ensures
        count == spec_count_of(online),
        count matches Ok(n) ==> n == online,
{
    if online <= 0xffff_ffff {
        Ok(online as u32)
    } else {
        Err(ProbeError::OnlineTooLarge)
    }
}

/// Reads the number of players online out of the text of a status
/// response: the number at `players.online`, or why there is none.
pub fn player_count_from_status(json: &str) -> (count: Result<u32, ProbeError>)
    ensures
        count == match reported_online(json@) {
            Ok(online) => count_of(online),
            Err(error) => Err(error),
        },
        count matches Ok(n) ==> reported_online(json@) == Ok::<u64, ProbeError>(n as u64),
{
    let document = match parse_json(json) {
        Some(document) => document,
        None => return Err(ProbeError::Malformed),
    };
    let players = match member_of(&document, "players") {
        Some(players) => players,
        None => return Err(ProbeError::NoPlayers),
    };
    let online = match member_of(players, "online") {
        Some(online) => online,
        None => return Err(ProbeError::NoOnline),
    };
    match unsigned_of(online) {
        Some(number) => count_of(number),
        None => Err(ProbeError::OnlineNotAnInteger),
    }
}

/// The handshake that opens a request for the status of the server at
/// `host` and `port`.
pub fn status_handshake(host: &str, port: u16) -> (handshake: Handshake)
    ensures
        handshake.protocol_version == PROBE_PROTOCOL_VERSION,
        handshake.server_address@ == host@,
        handshake.server_port == port,
        handshake.next_state == NextState::Status,
{
    Handshake {
        protocol_version: PROBE_PROTOCOL_VERSION,
        server_address: host.to_owned(),
        server_port: port,
        next_state: NextState::Status,
    }
}

impl MinecraftServer {
    /// A server whose host and port are known.
    pub fn new(hostname: String, port: u16) -> (server: MinecraftServer)
        ensures
            server.address == hostname,
            server.port == Some(port),
    {
        MinecraftServer { address: hostname, port: Some(port) }
    }

    /// A server whose address is still to be resolved. Every text is taken.
    pub fn parse(address: String) -> (server: Result<MinecraftServer, ProbeError>)
        ensures
            server matches Ok(parsed) && parsed.address == address && parsed.port is None,
    {
        Ok(MinecraftServer { address, port: None })
    }

    /// What is to be done to learn host and port of the server: nothing
    /// where the port is given, else the resolution of the address, for the
    /// service `minecraft` over `tcp` and with the port 25565 where nothing
    /// names another.
    pub fn get_host_and_port(&self) -> (lookup: HostLookup)
        ensures
            match self.port {
                Some(port) => lookup matches HostLookup::Known { host, port: known } && host
                    == self.address && known == port,
                None => lookup matches HostLookup::Resolve(resolution) && resolution@.request == (
                RequestView {
                    input: self.address@,
                    service: "minecraft"@,
                    proto: "tcp"@,
                    fallback_port: DEFAULT_SERVER_PORT,
                }) && resolution@.stage == first_stage(resolution@.request),
            },
    {
        match self.port {
            Some(port) => HostLookup::Known { host: self.address.clone(), port },
            None => HostLookup::Resolve(
                resolve_host_port(self.address.as_str(), "minecraft", "tcp", DEFAULT_SERVER_PORT),
            ),
        }
    }

    /// Host and port that a finished resolution gives.
    pub fn host_and_port_of(endpoint: ResolvedEndpoint) -> (pair: (String, u16))
        ensures
            pair.0 == endpoint.ip,
            pair.1 == endpoint.port,
    {
        (endpoint.ip, endpoint.port)
    }
}

} // verus!
