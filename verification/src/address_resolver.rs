//! Turns address text into an endpoint: the grammar of `host`, `host:port`
//! and `[v6]:port`, the choice among service records, and the steps of a
//! resolution whose lookups the caller performs.

use crate::srv::{is_eligible, pick_srv, record_views, SrvRecord, SrvRecordView};
use crate::text::{
    chars_of, contains_ascii_letter, find_first, find_last, first_index, has_ascii_letter,
    last_index, parse_port, port_value, scan_prefix, scan_suffix, substring, trim_bounds, trimmed,
    without_final, without_leading, without_trailing, CharClass,
};
use hickory_resolver::error::ResolveError;
use vstd::prelude::*;
use vstd::slice::slice_subrange;
use vstd::string::*;

verus! {

/// The failure of a lookup, as the resolver reports it. The library carries
/// such a value to its caller and never looks inside.
#[verifier::external_type_specification]
#[verifier::external_body]
pub struct ExResolveError(ResolveError);

/// Why an address text could not be turned into an endpoint.
#[derive(Debug)]
pub enum EndpointError {
    /// A lookup failed; the resolver's own error.
    Resolve(ResolveError),
    /// The named host has no address record.
    NoAddress(String),
    /// The text is no `host`, `host:port` or `[v6]:port`.
    InvalidHostPort,
    /// The text names no port and holds no letter, so that no service can be
    /// looked up for it.
    NoSrvAndNoFallback,
}

/// An [`EndpointError`] with its text as a sequence of characters.
pub enum EndpointErrorView {
    Resolve(ResolveError),
    NoAddress(Seq<char>),
    InvalidHostPort,
    NoSrvAndNoFallback,
}

impl View for EndpointError {
    type V = EndpointErrorView;

    open spec fn view(&self) -> EndpointErrorView {
        match *self {
            EndpointError::Resolve(e) => EndpointErrorView::Resolve(e),
            EndpointError::NoAddress(host) => EndpointErrorView::NoAddress(host@),
            EndpointError::InvalidHostPort => EndpointErrorView::InvalidHostPort,
            EndpointError::NoSrvAndNoFallback => EndpointErrorView::NoSrvAndNoFallback,
        }
    }
}

/// What the resolver says of a failed lookup, as `Display` prints it.
pub uninterp spec fn resolve_error_text(error: ResolveError) -> Seq<char>;

/// Calls `to_string` on the resolver's error: the result is the text that
/// its `Display` prints.
#[verifier::external_body]
fn print_resolve_error(error: &ResolveError) -> (text: String)
    ensures
        text@ == resolve_error_text(*error),
{
    error.to_string()
}

impl EndpointErrorView {
    /// The error in words.
    pub open spec fn message(self) -> Seq<char> {
        match self {
            EndpointErrorView::Resolve(error) => "DNS resolve error: "@ + resolve_error_text(error),
            EndpointErrorView::NoAddress(host) => "No A/AAAA records found for "@ + host,
            EndpointErrorView::InvalidHostPort => "Invalid host:port format"@,
            EndpointErrorView::NoSrvAndNoFallback => "SRV lookup failed and no fallback available"@,
        }
    }
}

impl EndpointError {
    /// The error in words.
    pub fn message(&self) -> (text: String)
        ensures
            text@ == self@.message(),
    {
        match self {
            EndpointError::Resolve(error) => {
                let mut text = "DNS resolve error: ".to_owned();
                text.append(print_resolve_error(error).as_str());
                text
            },
            EndpointError::NoAddress(host) => {
                let mut text = "No A/AAAA records found for ".to_owned();
                text.append(host.as_str());
                text
            },
            EndpointError::InvalidHostPort => "Invalid host:port format".to_owned(),
            EndpointError::NoSrvAndNoFallback => "SRV lookup failed and no fallback available".to_owned(),
        }
    }
}

/// Where a client is to connect.
#[derive(Debug, Clone)]
pub struct ResolvedEndpoint {
    /// The address, or the host that a service record names.
    pub ip: String,
    pub port: u16,
    /// The text that was resolved.
    pub original_input: String,
    /// The host that the address was found for.
    pub resolved_host: String,
}

/// A [`ResolvedEndpoint`] with its texts as sequences of characters.
pub struct ResolvedEndpointView {
    pub ip: Seq<char>,
    pub port: u16,
    pub original_input: Seq<char>,
    pub resolved_host: Seq<char>,
}

impl View for ResolvedEndpoint {
    type V = ResolvedEndpointView;

    open spec fn view(&self) -> ResolvedEndpointView {
        ResolvedEndpointView {
            ip: self.ip@,
            port: self.port,
            original_input: self.original_input@,
            resolved_host: self.resolved_host@,
        }
    }
}

/// What an address text is made of.
pub enum Split {
    /// The text breaks the grammar.
    Invalid,
    /// The text names a host and no port.
    Whole,
    /// The text names a host and a port.
    Pair { host: Seq<char>, port: u16 },
}

/// Whether `s` holds `c` at two places or more.
pub open spec fn has_several(s: Seq<char>, c: char) -> bool {
    first_index(s, c) != last_index(s, c)
}

/// Whether `s` begins with an opening bracket.
pub open spec fn is_bracketed(s: Seq<char>) -> bool {
    s.len() > 0 && s[0] == '['
}

/// Whether a bracket stands in `s` where none may stand: an opening one
/// anywhere but in front, or a closing one in a text without an opening one
/// in front.
pub open spec fn has_stray_bracket(s: Seq<char>) -> bool {
    if is_bracketed(s) {
        last_index(s, '[') != Some(0int)
    } else {
        s.contains('[') || s.contains(']')
    }
}

/// Whether only a look at the whole of `s` can tell how it splits: `s` holds
/// no bracket and several colons, so that it is either an address of the
/// newer family without a port, or a host with a port.
pub open spec fn needs_address_check(s: Seq<char>) -> bool {
    !is_bracketed(s) && !has_stray_bracket(s) && has_several(s, ':')
}

/// How a text that begins with `[` splits: the host stands between the
/// brackets and is not empty, and what follows the closing bracket is
/// nothing or `:port`.
pub open spec fn split_bracketed(s: Seq<char>) -> Split {
    match first_index(s, ']') {
        None => Split::Invalid,
        Some(end) => if end == 1 {
            Split::Invalid
        } else if end + 1 < s.len() {
            if s[end + 1] != ':' {
                Split::Invalid
            } else {
                match port_value(s.skip(end + 2)) {
                    None => Split::Invalid,
                    Some(port) => Split::Pair { host: s.subrange(1, end), port },
                }
            }
        } else {
            Split::Whole
        },
    }
}

/// How a text without a bracket splits: at its last colon, unless it has
/// none, or has several and is an address as a whole. Neither the host
/// before the colon nor the port behind it may be empty.
pub open spec fn split_plain(s: Seq<char>, is_address: bool) -> Split {
    match last_index(s, ':') {
        None => Split::Whole,
        Some(at) => if has_several(s, ':') && is_address {
            Split::Whole
        } else if at == 0 || at + 1 == s.len() {
            Split::Invalid
        } else {
            match port_value(s.skip(at + 1)) {
                None => Split::Invalid,
                Some(port) => Split::Pair { host: s.take(at), port },
            }
        },
    }
}

/// How the address text `s` splits into host and port. `is_address` says
/// whether `s` as a whole is an address literal; it is read only where
/// [`needs_address_check`] holds.
pub open spec fn split(s: Seq<char>, is_address: bool) -> Split {
    if has_stray_bracket(s) {
        Split::Invalid
    } else if is_bracketed(s) {
        split_bracketed(s)
    } else {
        split_plain(s, is_address)
    }
}

/// Whether a bracket stands in `chars` where none may stand.
fn stray_bracket(chars: &[char]) -> (stray: bool)
    ensures
        stray == has_stray_bracket(chars@),
{
    let opening = find_last(chars, '[');
    if chars.len() > 0 && chars[0] == '[' {
        match opening {
            Some(i) => i != 0,
            None => true,
        }
    } else {
        opening.is_some() || find_first(chars, ']').is_some()
    }
}

/// Whether only a look at the whole input can tell how it splits.
pub fn several_colons_unbracketed(input: &str) -> (b: bool)
    ensures
        b == needs_address_check(input@),
{
    let chars = chars_of(input);
    if chars.len() > 0 && chars[0] == '[' {
        return false;
    }
    if stray_bracket(chars.as_slice()) {
        return false;
    }
    match (find_first(chars.as_slice(), ':'), find_last(chars.as_slice(), ':')) {
        (Some(i), Some(j)) => i != j,
        _ => false,
    }
}

/// Splits an address text into host and port. `input_is_address` tells
/// whether the whole input is an address literal, which decides how a text
/// with several colons and no bracket is read.
pub fn split_host_port(input: &str, input_is_address: bool) -> (r: Result<
    Option<(String, u16)>,
    EndpointError,
>)
    ensures
        match split(input@, input_is_address) {
            Split::Invalid => r matches Err(e) && e@ == EndpointErrorView::InvalidHostPort,
            Split::Whole => r matches Ok(None),
            Split::Pair { host, port } => r matches Ok(Some(pair)) && pair.0@ == host && pair.1
                == port,
        },
{
    let chars = chars_of(input);
    let n = chars.len();
    if stray_bracket(chars.as_slice()) {
        return Err(EndpointError::InvalidHostPort);
    }
    if n > 0 && chars[0] == '[' {
        match find_first(chars.as_slice(), ']') {
            None => Err(EndpointError::InvalidHostPort),
            Some(end) => {
                if end == 1 {
                    Err(EndpointError::InvalidHostPort)
                } else if end + 1 < n {
                    if chars[end + 1] != ':' {
                        return Err(EndpointError::InvalidHostPort);
                    }
                    let tail = slice_subrange(chars.as_slice(), end + 2, n);
                    assert(tail@ == input@.skip(end + 2));
                    match parse_port(tail) {
                        None => Err(EndpointError::InvalidHostPort),
                        Some(port) => Ok(Some((substring(input, 1, end), port))),
                    }
                } else {
                    Ok(None)
                }
            },
        }
    } else {
        let first = find_first(chars.as_slice(), ':');
        match find_last(chars.as_slice(), ':') {
            None => Ok(None),
            Some(at) => {
                let several = match first {
                    Some(i) => i != at,
                    None => false,
                };
                if several && input_is_address {
                    Ok(None)
                } else if at == 0 || at + 1 == n {
                    Err(EndpointError::InvalidHostPort)
                } else {
                    let tail = slice_subrange(chars.as_slice(), at + 1, n);
                    assert(tail@ == input@.skip(at + 1));
                    match parse_port(tail) {
                        None => Err(EndpointError::InvalidHostPort),
                        Some(port) => Ok(Some((substring(input, 0, at), port))),
                    }
                }
            },
        }
    }
}

/// The host that an input without a port names: what stands between the
/// brackets of a bracketed input, and else the input without the whitespace
/// at its ends and without one final dot.
pub open spec fn host_of_whole(s: Seq<char>) -> Seq<char> {
    if is_bracketed(s) {
        match first_index(s, ']') {
            Some(end) => s.subrange(1, end),
            None => normalized_host(s),
        }
    } else {
        normalized_host(s)
    }
}

/// The host that an input without a port names.
pub fn host_without_port(input: &str) -> (host: String)
    ensures
        host@ == host_of_whole(input@),
{
    let chars = chars_of(input);
    if chars.len() > 0 && chars[0] == '[' {
        match find_first(chars.as_slice(), ']') {
            Some(end) => substring(input, 1, end),
            None => normalize_host_without_port(input),
        }
    } else {
        normalize_host_without_port(input)
    }
}

/// The host that an unbracketed input without a port names: the input
/// without the whitespace at its ends and without one final dot.
pub open spec fn normalized_host(s: Seq<char>) -> Seq<char> {
    without_final(trimmed(s), '.')
}

/// Trims the input and removes the dot of the root domain from its end.
pub fn normalize_host_without_port(input: &str) -> (host: String)
    ensures
        host@ == normalized_host(input@),
{
    let chars = chars_of(input);
    let (from, to) = trim_bounds(chars.as_slice());
    if from < to && chars[to - 1] == '.' {
        assert(input@.subrange(from as int, to as int).drop_last() == input@.subrange(
            from as int,
            to as int - 1,
        ));
        substring(input, from, to - 1)
    } else {
        substring(input, from, to)
    }
}

/// The name under which the service records of `host` are looked up:
/// `_service._proto.host`, with one underscore before the service and one
/// before the protocol, however many the caller wrote.
pub open spec fn service_name(service: Seq<char>, proto: Seq<char>, host: Seq<char>) -> Seq<char> {
    seq!['_'] + without_leading(service, '_') + seq!['.', '_'] + without_leading(proto, '_')
        + seq!['.'] + host
}

/// `text` without the underscores in front of it.
fn strip_leading_underscores(text: &str) -> (rest: String)
    ensures
        rest@ == without_leading(text@, '_'),
{
    let chars = chars_of(text);
    let k = scan_prefix(chars.as_slice(), CharClass::Exactly('_'), true);
    substring(text, k, chars.len())
}

/// `text` without the dots at its end.
pub fn strip_trailing_dots(text: &str) -> (rest: String)
    ensures
        rest@ == without_trailing(text@, '.'),
{
    let chars = chars_of(text);
    let k = scan_suffix(chars.as_slice(), CharClass::Exactly('.'), true);
    substring(text, 0, chars.len() - k)
}

/// Builds the name under which the service records of `host` are looked up.
pub fn srv_lookup_name(service: &str, proto: &str, host: &str) -> (name: String)
    ensures
        name@ == service_name(service@, proto@, host@),
{
    let bare_service = strip_leading_underscores(service);
    let bare_proto = strip_leading_underscores(proto);
    proof {
        reveal_strlit("_");
        reveal_strlit("._");
        reveal_strlit(".");
        assert("_"@ =~= seq!['_']);
        assert("._"@ =~= seq!['.', '_']);
        assert("."@ =~= seq!['.']);
    }
    let mut name = String::new();
    name.append("_");
    name.append(bare_service.as_str());
    name.append("._");
    name.append(bare_proto.as_str());
    name.append(".");
    name.append(host);
    assert(name@ =~= service_name(service@, proto@, host@));
    name
}

/// What is to be resolved.
#[derive(Debug)]
pub struct Request {
    /// The address text.
    pub input: String,
    /// The service whose records are looked up for a host without a port.
    pub service: String,
    /// The protocol of that service.
    pub proto: String,
    /// The port of an endpoint whose text and records name none.
    pub fallback_port: u16,
}

/// A [`Request`] with its texts as sequences of characters.
pub struct RequestView {
    pub input: Seq<char>,
    pub service: Seq<char>,
    pub proto: Seq<char>,
    pub fallback_port: u16,
}

impl View for Request {
    type V = RequestView;

    open spec fn view(&self) -> RequestView {
        RequestView {
            input: self.input@,
            service: self.service@,
            proto: self.proto@,
            fallback_port: self.fallback_port,
        }
    }
}

/// How far a resolution has come: the question that the caller is to answer
/// next, or the outcome.
#[derive(Debug)]
pub enum Stage {
    /// Is the whole input an address literal?
    CheckInput,
    /// Is `host`, which the input names together with `port`, an address literal?
    CheckHost { host: String, port: u16 },
    /// Is `host`, which the input names without a port, an address literal?
    CheckBare { host: String },
    /// Which service records does `name` have? They are asked for `host`.
    LookupService { host: String, name: String },
    /// Which addresses does `host` have? The endpoint will have `port`.
    LookupHost { host: String, port: u16 },
    /// The resolution has ended.
    Done(Result<ResolvedEndpoint, EndpointError>),
}

/// A [`Stage`] with its texts as sequences of characters.
pub enum StageView {
    CheckInput,
    CheckHost { host: Seq<char>, port: u16 },
    CheckBare { host: Seq<char> },
    LookupService { host: Seq<char>, name: Seq<char> },
    LookupHost { host: Seq<char>, port: u16 },
    Done(Result<ResolvedEndpointView, EndpointErrorView>),
}

impl View for Stage {
    type V = StageView;

    open spec fn view(&self) -> StageView {
        match *self {
            Stage::CheckInput => StageView::CheckInput,
            Stage::CheckHost { host, port } => StageView::CheckHost { host: host@, port },
            Stage::CheckBare { host } => StageView::CheckBare { host: host@ },
            Stage::LookupService { host, name } => StageView::LookupService {
                host: host@,
                name: name@,
            },
            Stage::LookupHost { host, port } => StageView::LookupHost { host: host@, port },
            Stage::Done(Ok(endpoint)) => StageView::Done(Ok(endpoint@)),
            Stage::Done(Err(error)) => StageView::Done(Err(error@)),
        }
    }
}

/// A resolution under way: the request and the stage it has reached.
#[derive(Debug)]
pub struct Resolution {
    pub request: Request,
    pub stage: Stage,
}

/// A [`Resolution`] with its texts as sequences of characters.
pub struct ResolutionView {
    pub request: RequestView,
    pub stage: StageView,
}

impl View for Resolution {
    type V = ResolutionView;

    open spec fn view(&self) -> ResolutionView {
        ResolutionView { request: self.request@, stage: self.stage@ }
    }
}

/// The caller's answer to the question of a stage.
#[derive(Debug)]
pub enum Reply {
    /// The address that the text writes, in the form in which addresses are
    /// printed; `None` where the text is no address literal.
    Literal(Option<String>),
    /// The service records that were found; `None` where the lookup failed.
    Service(Option<Vec<SrvRecord>>),
    /// The addresses that were found, in the order of the answer, or the
    /// failure of the lookup.
    Addresses(Result<Vec<String>, ResolveError>),
}

/// A [`Reply`] with its texts as sequences of characters.
pub enum ReplyView {
    Literal(Option<Seq<char>>),
    Service(Option<Seq<SrvRecordView>>),
    Addresses(Result<Seq<Seq<char>>, ResolveError>),
}

/// The texts of `items` as sequences of characters, in their order.
pub open spec fn text_views(items: Seq<String>) -> Seq<Seq<char>> {
    Seq::new(items.len(), |i: int| items[i]@)
}

impl View for Reply {
    type V = ReplyView;

    open spec fn view(&self) -> ReplyView {
        match *self {
            Reply::Literal(Some(address)) => ReplyView::Literal(Some(address@)),
            Reply::Literal(None) => ReplyView::Literal(None),
            Reply::Service(Some(records)) => ReplyView::Service(Some(record_views(records@))),
            Reply::Service(None) => ReplyView::Service(None),
            Reply::Addresses(Ok(addresses)) => ReplyView::Addresses(Ok(text_views(addresses@))),
            Reply::Addresses(Err(error)) => ReplyView::Addresses(Err(error)),
        }
    }
}

/// The stage that follows the split of the input.
pub open spec fn after_split(request: RequestView, parts: Split) -> StageView {
    match parts {
        Split::Invalid => StageView::Done(Err(EndpointErrorView::InvalidHostPort)),
        Split::Pair { host, port } => StageView::CheckHost { host, port },
        Split::Whole => StageView::CheckBare { host: host_of_whole(request.input) },
    }
}

/// An address in brackets without a port is asked about without its
/// brackets, and where it is an address literal, the resolution ends with
/// that address and the fallback port, and nothing is looked up.
pub proof fn lemma_bracketed_literal_without_port(
    request: RequestView,
    end: int,
    address: Seq<char>,
)
    requires
        is_bracketed(request.input),
        !has_stray_bracket(request.input),
        first_index(request.input, ']') == Some(end),
        1 < end,
        end + 1 == request.input.len(),
    ensures
        first_stage(request) == (StageView::CheckBare { host: request.input.subrange(1, end) }),
        next_stage(request, first_stage(request), ReplyView::Literal(Some(address)), None)
            == StageView::Done(
            Ok(
                ResolvedEndpointView {
                    ip: address,
                    port: request.fallback_port,
                    original_input: request.input,
                    resolved_host: request.input.subrange(1, end),
                },
            ),
        ),
{
}

/// The stage that a resolution starts in.
pub open spec fn first_stage(request: RequestView) -> StageView {
    if needs_address_check(request.input) {
        StageView::CheckInput
    } else {
        after_split(request, split(request.input, false))
    }
}

/// The endpoint that a service record gives: host and port are those of the
/// record, the host without the dots at its end.
pub open spec fn service_endpoint(request: RequestView, record: SrvRecordView) -> ResolvedEndpointView {
    ResolvedEndpointView {
        ip: without_trailing(record.target, '.'),
        port: record.port,
        original_input: request.input,
        resolved_host: without_trailing(record.target, '.'),
    }
}

/// The stage that follows `stage` on `reply`. `chosen` is the position of
/// the service record that was picked, which is read only at the stage
/// `LookupService` on a reply with records. A reply that does not answer
/// the question of the stage leaves the stage as it is.
pub open spec fn next_stage(
    request: RequestView,
    stage: StageView,
    reply: ReplyView,
    chosen: Option<int>,
) -> StageView {
    match (stage, reply) {
        (StageView::CheckInput, ReplyView::Literal(literal)) => after_split(
            request,
            split(request.input, literal is Some),
        ),
        (StageView::CheckHost { host, port }, ReplyView::Literal(Some(address))) => StageView::Done(
            Ok(
                ResolvedEndpointView {
                    ip: address,
                    port,
                    original_input: request.input,
                    resolved_host: host,
                },
            ),
        ),
        (StageView::CheckHost { host, port }, ReplyView::Literal(None)) => StageView::LookupHost {
            host,
            port,
        },
        (StageView::CheckBare { host }, ReplyView::Literal(Some(address))) => StageView::Done(
            Ok(
                ResolvedEndpointView {
                    ip: address,
                    port: request.fallback_port,
                    original_input: request.input,
                    resolved_host: host,
                },
            ),
        ),
        (StageView::CheckBare { host }, ReplyView::Literal(None)) => if has_ascii_letter(host) {
            StageView::LookupService {
                host,
                name: service_name(request.service, request.proto, host),
            }
        } else {
            StageView::Done(Err(EndpointErrorView::NoSrvAndNoFallback))
        },
        (StageView::LookupService { host, name }, ReplyView::Service(Some(records))) => match chosen {
            Some(i) if 0 <= i < records.len() => StageView::Done(
                Ok(service_endpoint(request, records[i])),
            ),
            _ => StageView::LookupHost { host, port: request.fallback_port },
        },
        (StageView::LookupService { host, name }, ReplyView::Service(None)) => StageView::LookupHost {
            host,
            port: request.fallback_port,
        },
        (StageView::LookupHost { host, port }, ReplyView::Addresses(Ok(addresses))) => if addresses.len()
            > 0 {
            StageView::Done(
                Ok(
                    ResolvedEndpointView {
                        ip: addresses[0],
                        port,
                        original_input: request.input,
                        resolved_host: host,
                    },
                ),
            )
        } else {
            StageView::Done(Err(EndpointErrorView::NoAddress(host)))
        },
        (StageView::LookupHost { host, port }, ReplyView::Addresses(Err(error))) => StageView::Done(
            Err(EndpointErrorView::Resolve(error)),
        ),
        _ => stage,
    }
}

/// Whether `chosen` may be the choice among the records of `reply` at
/// `stage`: where records are answered to the question for them, none is
/// chosen of no records and an eligible one of some; anywhere else there is
/// nothing to choose.
pub open spec fn is_choice(stage: StageView, reply: ReplyView, chosen: Option<int>) -> bool {
    match (stage, reply) {
        (StageView::LookupService { host, name }, ReplyView::Service(Some(records))) => match chosen {
            None => records.len() == 0,
            Some(i) => is_eligible(records, i),
        },
        _ => chosen is None,
    }
}

/// The stage that follows the split of the input.
fn stage_after_split(request: &Request, input_is_address: bool) -> (stage: Stage)
    ensures
        stage@ == after_split(request@, split(request.input@, input_is_address)),
{
    match split_host_port(request.input.as_str(), input_is_address) {
        Err(error) => Stage::Done(Err(error)),
        Ok(Some((host, port))) => Stage::CheckHost { host, port },
        Ok(None) => Stage::CheckBare { host: host_without_port(request.input.as_str()) },
    }
}

/// Starts the resolution of `input`. No lookup has been made yet: the stage
/// of the result says what the caller is to find out first, or that the
/// input breaks the grammar.
pub fn resolve_host_port(input: &str, service: &str, proto: &str, fallback_port: u16) -> (started:
    Resolution)
    ensures
        started@.request == (RequestView {
            input: input@,
            service: service@,
            proto: proto@,
            fallback_port,
        }),
        started@.stage == first_stage(started@.request),
{
    let request = Request {
        input: input.to_owned(),
        service: service.to_owned(),
        proto: proto.to_owned(),
        fallback_port,
    };
    let stage = if several_colons_unbracketed(input) {
        Stage::CheckInput
    } else {
        stage_after_split(&request, false)
    };
    Resolution { request, stage }
}

impl Resolution {
    /// Whether the resolution has ended.
    pub fn is_done(&self) -> (done: bool)
        ensures
            done == (self@.stage is Done),
    {
        match &self.stage {
            Stage::Done(_) => true,
            _ => false,
        }
    }

    /// Takes the resolution one stage further on the caller's reply, with
    /// `chosen` as the position of the service record to use where the reply
    /// brings records.
    pub fn advance_with(self, reply: Reply, chosen: Option<usize>) -> (next: Resolution)
        ensures
            next@.request == self@.request,
            next@.stage == next_stage(
                self@.request,
                self@.stage,
                reply@,
                match chosen {
                    Some(i) => Some(i as int),
                    None => None,
                },
            ),
    {
        let Resolution { request, stage } = self;
        let stage = match stage {
            Stage::CheckInput => match reply {
                Reply::Literal(literal) => stage_after_split(&request, literal.is_some()),
                _ => Stage::CheckInput,
            },
            Stage::CheckHost { host, port } => match reply {
                Reply::Literal(Some(address)) => Stage::Done(
                    Ok(
                        ResolvedEndpoint {
                            ip: address,
                            port,
                            original_input: request.input.clone(),
                            resolved_host: host,
                        },
                    ),
                ),
                Reply::Literal(None) => Stage::LookupHost { host, port },
                _ => Stage::CheckHost { host, port },
            },
            Stage::CheckBare { host } => match reply {
                Reply::Literal(Some(address)) => Stage::Done(
                    Ok(
                        ResolvedEndpoint {
                            ip: address,
                            port: request.fallback_port,
                            original_input: request.input.clone(),
                            resolved_host: host,
                        },
                    ),
                ),
                Reply::Literal(None) => {
                    let chars = chars_of(host.as_str());
                    if contains_ascii_letter(chars.as_slice()) {
                        let name = srv_lookup_name(
                            request.service.as_str(),
                            request.proto.as_str(),
                            host.as_str(),
                        );
                        Stage::LookupService { host, name }
                    } else {
                        Stage::Done(Err(EndpointError::NoSrvAndNoFallback))
                    }
                },
                _ => Stage::CheckBare { host },
            },
            Stage::LookupService { host, name } => match reply {
                Reply::Service(Some(records)) => {
                    let usable = match chosen {
                        Some(i) => i < records.len(),
                        None => false,
                    };
                    if usable {
                        let i = chosen.unwrap();
                        let target = strip_trailing_dots(records[i].target.as_str());
                        Stage::Done(
                            Ok(
                                ResolvedEndpoint {
                                    ip: target.clone(),
                                    port: records[i].port,
                                    original_input: request.input.clone(),
                                    resolved_host: target,
                                },
                            ),
                        )
                    } else {
                        Stage::LookupHost { host, port: request.fallback_port }
                    }
                },
                Reply::Service(None) => Stage::LookupHost { host, port: request.fallback_port },
                _ => Stage::LookupService { host, name },
            },
            Stage::LookupHost { host, port } => match reply {
                Reply::Addresses(Ok(addresses)) => {
                    if addresses.len() > 0 {
                        Stage::Done(
                            Ok(
                                ResolvedEndpoint {
                                    ip: addresses[0].clone(),
                                    port,
                                    original_input: request.input.clone(),
                                    resolved_host: host,
                                },
                            ),
                        )
                    } else {
                        Stage::Done(Err(EndpointError::NoAddress(host)))
                    }
                },
                Reply::Addresses(Err(error)) => Stage::Done(Err(EndpointError::Resolve(error))),
                _ => Stage::LookupHost { host, port },
            },
            Stage::Done(outcome) => Stage::Done(outcome),
        };
        Resolution { request, stage }
    }

    /// Takes the resolution one stage further on the caller's reply. Where
    /// the reply brings service records to the question for them, one of
    /// them is chosen at random, so that the next stage is one of those that
    /// an eligible choice leads to.
    pub fn advance(self, reply: Reply) -> (next: Resolution)
        ensures
            next@.request == self@.request,
            exists|chosen: Option<int>|
                is_choice(self@.stage, reply@, chosen) && next@.stage == #[trigger] next_stage(
                    self@.request,
                    self@.stage,
                    reply@,
                    chosen,
                ),
    {
        let chosen = match (&self.stage, &reply) {
            (Stage::LookupService { .. }, Reply::Service(Some(records))) => pick_srv(records),
            _ => None,
        };
        let ghost picked: Option<int> = match chosen {
            Some(i) => Some(i as int),
            None => None,
        };
        assert(is_choice(self@.stage, reply@, picked));
        self.advance_with(reply, chosen)
    }
}

} // verus!
