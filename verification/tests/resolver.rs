use hickory_resolver::error::ResolveError;
use mc_balancer::address_resolver::{
    host_without_port, normalize_host_without_port, resolve_host_port, several_colons_unbracketed, split_host_port,
    srv_lookup_name, strip_trailing_dots, EndpointError, Reply, Resolution, Stage,
};
use mc_balancer::srv::{pick_srv, pick_weighted, SrvRecord};
use mc_balancer::text::{
    chars_of, contains_ascii_letter, find_first, find_last, parse_port, scan_prefix, scan_suffix,
    substring, trim_bounds, CharClass,
};

fn record(priority: u16, weight: u16, port: u16, target: &str) -> SrvRecord {
    SrvRecord { priority, weight, port, target: target.to_string() }
}

fn start(input: &str, fallback_port: u16) -> Resolution {
    resolve_host_port(input, "minecraft", "tcp", fallback_port)
}

fn port_of(text: &str) -> Option<u16> {
    parse_port(&chars_of(text))
}

#[test]
fn port_numbers_are_decimal_and_at_most_65535() {
    assert_eq!(port_of("0"), Some(0));
    assert_eq!(port_of("25565"), Some(25565));
    assert_eq!(port_of("65535"), Some(65535));
    assert_eq!(port_of("65536"), None);
    assert_eq!(port_of("0000000000000000000080"), Some(80));
    assert_eq!(port_of("99999999999999999999"), None);
    assert_eq!(port_of("+443"), Some(443));
    assert_eq!(port_of("+"), None);
    assert_eq!(port_of(""), None);
    assert_eq!(port_of("-1"), None);
    assert_eq!(port_of("12a"), None);
    assert_eq!(port_of(" 12"), None);
    assert_eq!(port_of("١٢"), None);
}

#[test]
fn port_numbers_agree_with_the_standard_parser() {
    for text in ["1", "+1", "65535", "65536", "007", "", "+", "++1", "1 ", "0x10", "1_000"] {
        assert_eq!(port_of(text), text.parse::<u16>().ok(), "{:?}", text);
    }
}

#[test]
fn character_classes() {
    assert!(CharClass::Whitespace.contains(' '));
    assert!(CharClass::Whitespace.contains('\t'));
    assert!(CharClass::Whitespace.contains('\u{3000}'));
    assert!(!CharClass::Whitespace.contains('a'));
    assert!(CharClass::AsciiAlphabetic.contains('z'));
    assert!(CharClass::AsciiAlphabetic.contains('A'));
    assert!(!CharClass::AsciiAlphabetic.contains('é'));
    assert!(CharClass::AsciiDigit.contains('7'));
    assert!(!CharClass::AsciiDigit.contains('/'));
    assert!(CharClass::Exactly(':').contains(':'));
    assert!(!CharClass::Exactly(':').contains(';'));
}

#[test]
fn whitespace_is_what_the_standard_library_calls_whitespace() {
    for code in 0u32..0x3100 {
        if let Some(c) = char::from_u32(code) {
            assert_eq!(CharClass::Whitespace.contains(c), c.is_whitespace(), "{:x}", code);
        }
    }
}

#[test]
fn scans_find_runs_and_positions() {
    let chars = chars_of("__a_b__");
    assert_eq!(chars.len(), 7);
    assert_eq!(scan_prefix(&chars, CharClass::Exactly('_'), true), 2);
    assert_eq!(scan_suffix(&chars, CharClass::Exactly('_'), true), 2);
    assert_eq!(scan_prefix(&chars, CharClass::Exactly('b'), false), 4);
    assert_eq!(find_first(&chars, '_'), Some(0));
    assert_eq!(find_last(&chars, '_'), Some(6));
    assert_eq!(find_first(&chars, 'a'), Some(2));
    assert_eq!(find_last(&chars, 'a'), Some(2));
    assert_eq!(find_first(&chars, 'x'), None);
    assert_eq!(find_last(&chars, 'x'), None);
    assert_eq!(trim_bounds(&chars_of("  a b \n")), (2, 5));
    assert_eq!(trim_bounds(&chars_of("   ")), (3, 3));
    assert_eq!(trim_bounds(&chars_of("")), (0, 0));
    assert!(contains_ascii_letter(&chars_of("12.3x")));
    assert!(!contains_ascii_letter(&chars_of("12.3:é")));
    assert_eq!(substring("héllo", 1, 3), "él");
}

#[test]
fn split_reads_host_and_port() {
    let pair = split_host_port("example.com:25565", false).unwrap();
    assert_eq!(pair, Some(("example.com".to_string(), 25565)));
    let pair = split_host_port("203.0.113.5:1234", false).unwrap();
    assert_eq!(pair, Some(("203.0.113.5".to_string(), 1234)));
    assert_eq!(split_host_port("example.com", false).unwrap(), None);
    assert_eq!(split_host_port("", false).unwrap(), None);
}

#[test]
fn split_reads_brackets() {
    let pair = split_host_port("[2001:db8::1]:1234", false).unwrap();
    assert_eq!(pair, Some(("2001:db8::1".to_string(), 1234)));
    assert_eq!(split_host_port("[2001:db8::1]", false).unwrap(), None);
    assert!(matches!(split_host_port("[2001:db8::1", false), Err(EndpointError::InvalidHostPort)));
    assert!(matches!(split_host_port("[::1]x25", false), Err(EndpointError::InvalidHostPort)));
    assert!(matches!(split_host_port("[::1]é", false), Err(EndpointError::InvalidHostPort)));
    assert!(matches!(split_host_port("[::1]:", false), Err(EndpointError::InvalidHostPort)));
    assert!(matches!(split_host_port("[::1]:http", false), Err(EndpointError::InvalidHostPort)));
    assert!(matches!(split_host_port("[::1]:65536", false), Err(EndpointError::InvalidHostPort)));
    assert!(matches!(split_host_port("[]:25565", false), Err(EndpointError::InvalidHostPort)));
}

#[test]
fn split_refuses_empty_parts_and_bad_ports() {
    assert!(matches!(split_host_port(":25565", false), Err(EndpointError::InvalidHostPort)));
    assert!(matches!(split_host_port("example.com:", false), Err(EndpointError::InvalidHostPort)));
    assert!(matches!(split_host_port("example.com:port", false), Err(EndpointError::InvalidHostPort)));
    assert!(matches!(split_host_port("example.com:65536", false), Err(EndpointError::InvalidHostPort)));
}

#[test]
fn split_refuses_stray_brackets() {
    for text in ["bad[bracket", "bad]bracket", "host]:25565", "a[b]:1", "[a[b]:1", "[[::1]]:1", "[a[b]", "x[", "]"] {
        assert!(
            matches!(split_host_port(text, false), Err(EndpointError::InvalidHostPort)),
            "{}",
            text
        );
        assert!(
            matches!(split_host_port(text, true), Err(EndpointError::InvalidHostPort)),
            "{}",
            text
        );
        assert!(!several_colons_unbracketed(text), "{}", text);
    }
    assert!(matches!(split_host_port("[]", false), Err(EndpointError::InvalidHostPort)));
    assert!(!several_colons_unbracketed("a:b]:c"));
}

#[test]
fn split_of_several_colons_depends_on_the_whole() {
    assert!(several_colons_unbracketed("2001:db8::1"));
    assert!(several_colons_unbracketed("a:b:1"));
    assert!(!several_colons_unbracketed("a:1"));
    assert!(!several_colons_unbracketed("a"));
    assert!(!several_colons_unbracketed("[2001:db8::1]:1"));
    assert_eq!(split_host_port("2001:db8::1", true).unwrap(), None);
    assert_eq!(
        split_host_port("2001:db8::1", false).unwrap(),
        Some(("2001:db8:".to_string(), 1))
    );
    assert_eq!(split_host_port("a:1", true).unwrap(), Some(("a".to_string(), 1)));
}

#[test]
fn normalize_trims_and_drops_one_dot() {
    assert_eq!(normalize_host_without_port("example.com."), "example.com");
    assert_eq!(normalize_host_without_port("  example.com.  "), "example.com");
    assert_eq!(normalize_host_without_port("example.com.."), "example.com.");
    assert_eq!(normalize_host_without_port("example.com"), "example.com");
    assert_eq!(normalize_host_without_port("."), "");
    assert_eq!(normalize_host_without_port(""), "");
    assert_eq!(normalize_host_without_port(" \t "), "");
    assert_eq!(normalize_host_without_port("a. "), "a");
    assert_eq!(normalize_host_without_port("a .b"), "a .b");
}

#[test]
fn service_names_have_one_underscore_each() {
    assert_eq!(srv_lookup_name("minecraft", "tcp", "example.com"), "_minecraft._tcp.example.com");
    assert_eq!(srv_lookup_name("_minecraft", "__tcp", "example.com"), "_minecraft._tcp.example.com");
    assert_eq!(srv_lookup_name("", "_", "h"), "_._.h");
    assert_eq!(strip_trailing_dots("mc.example.com."), "mc.example.com");
    assert_eq!(strip_trailing_dots("mc.example.com..."), "mc.example.com");
    assert_eq!(strip_trailing_dots("..."), "");
    assert_eq!(strip_trailing_dots("a.b"), "a.b");
}

#[test]
fn resolve_literal_with_port_needs_no_lookup() {
    let started = start("203.0.113.5:1234", 25565);
    match &started.stage {
        Stage::CheckHost { host, port } => {
            assert_eq!(host, "203.0.113.5");
            assert_eq!(*port, 1234);
        }
        other => panic!("unexpected stage {:?}", other),
    }
    let done = started.advance(Reply::Literal(Some("203.0.113.5".to_string())));
    assert!(done.is_done());
    match done.stage {
        Stage::Done(Ok(endpoint)) => {
            assert_eq!(endpoint.ip, "203.0.113.5");
            assert_eq!(endpoint.port, 1234);
            assert_eq!(endpoint.original_input, "203.0.113.5:1234");
            assert_eq!(endpoint.resolved_host, "203.0.113.5");
        }
        other => panic!("unexpected stage {:?}", other),
    }
}

#[test]
fn resolve_bracketed_literal_with_port() {
    let started = start("[2001:db8::1]:1234", 25565);
    assert!(matches!(&started.stage, Stage::CheckHost { host, port: 1234 } if host == "2001:db8::1"));
    let done = started.advance(Reply::Literal(Some("2001:db8::1".to_string())));
    match done.stage {
        Stage::Done(Ok(endpoint)) => {
            assert_eq!(endpoint.ip, "2001:db8::1");
            assert_eq!(endpoint.port, 1234);
        }
        other => panic!("unexpected stage {:?}", other),
    }
}

#[test]
fn resolve_bad_bracket_is_invalid() {
    let started = start("bad[bracket", 25565);
    assert!(started.is_done());
    assert!(matches!(started.stage, Stage::Done(Err(EndpointError::InvalidHostPort))));
    let started = start("[bad:bracket", 25565);
    assert!(started.is_done());
    assert!(matches!(started.stage, Stage::Done(Err(EndpointError::InvalidHostPort))));
    let started = start("[2001:db8::1]1234", 25565);
    assert!(matches!(started.stage, Stage::Done(Err(EndpointError::InvalidHostPort))));
    let started = start("host:notaport", 25565);
    assert!(matches!(started.stage, Stage::Done(Err(EndpointError::InvalidHostPort))));
}

#[test]
fn resolve_literal_without_port_takes_the_fallback_port() {
    let started = start("203.0.113.5", 25565);
    assert!(matches!(&started.stage, Stage::CheckBare { host } if host == "203.0.113.5"));
    let done = started.advance(Reply::Literal(Some("203.0.113.5".to_string())));
    match done.stage {
        Stage::Done(Ok(endpoint)) => {
            assert_eq!(endpoint.ip, "203.0.113.5");
            assert_eq!(endpoint.port, 25565);
            assert_eq!(endpoint.original_input, "203.0.113.5");
            assert_eq!(endpoint.resolved_host, "203.0.113.5");
        }
        other => panic!("unexpected stage {:?}", other),
    }
}

#[test]
fn resolve_unbracketed_v6_literal_has_no_port() {
    let started = start("2001:db8::1", 25565);
    assert!(matches!(started.stage, Stage::CheckInput));
    let next = started.advance(Reply::Literal(Some("2001:db8::1".to_string())));
    assert!(matches!(&next.stage, Stage::CheckBare { host } if host == "2001:db8::1"));
    let done = next.advance(Reply::Literal(Some("2001:db8::1".to_string())));
    match done.stage {
        Stage::Done(Ok(endpoint)) => {
            assert_eq!(endpoint.ip, "2001:db8::1");
            assert_eq!(endpoint.port, 25565);
        }
        other => panic!("unexpected stage {:?}", other),
    }
}

#[test]
fn resolve_several_colons_that_are_no_address_split_at_the_last() {
    let started = start("a:b:7", 25565);
    assert!(matches!(started.stage, Stage::CheckInput));
    let next = started.advance(Reply::Literal(None));
    assert!(matches!(&next.stage, Stage::CheckHost { host, port: 7 } if host == "a:b"));
}

#[test]
fn resolve_host_with_port_looks_the_host_up() {
    let started = start("mc.example.com:25570", 25565);
    let next = started.advance(Reply::Literal(None));
    assert!(matches!(&next.stage, Stage::LookupHost { host, port: 25570 } if host == "mc.example.com"));
    let done = next.advance(Reply::Addresses(Ok(vec![
        "198.51.100.7".to_string(),
        "198.51.100.8".to_string(),
    ])));
    match done.stage {
        Stage::Done(Ok(endpoint)) => {
            assert_eq!(endpoint.ip, "198.51.100.7");
            assert_eq!(endpoint.port, 25570);
            assert_eq!(endpoint.original_input, "mc.example.com:25570");
            assert_eq!(endpoint.resolved_host, "mc.example.com");
        }
        other => panic!("unexpected stage {:?}", other),
    }
}

#[test]
fn resolve_host_without_addresses_fails() {
    let next = start("mc.example.com:25570", 25565).advance(Reply::Literal(None));
    let done = next.advance(Reply::Addresses(Ok(Vec::new())));
    assert!(matches!(&done.stage, Stage::Done(Err(EndpointError::NoAddress(host))) if host == "mc.example.com"));
}

#[test]
fn resolve_hands_the_failure_of_a_lookup_on() {
    let next = start("mc.example.com:25570", 25565).advance(Reply::Literal(None));
    let done = next.advance(Reply::Addresses(Err(ResolveError::from("no connection"))));
    match done.stage {
        Stage::Done(Err(EndpointError::Resolve(error))) => {
            assert!(error.to_string().contains("no connection"));
        }
        other => panic!("unexpected stage {:?}", other),
    }
}

#[test]
fn resolve_text_without_letters_and_port_fails() {
    let next = start("999.999", 25565).advance(Reply::Literal(None));
    assert!(matches!(next.stage, Stage::Done(Err(EndpointError::NoSrvAndNoFallback))));
    let next = start("", 25565).advance(Reply::Literal(None));
    assert!(matches!(next.stage, Stage::Done(Err(EndpointError::NoSrvAndNoFallback))));
}

#[test]
fn resolve_name_uses_the_service_record() {
    let started = start("Example.com.", 25565);
    assert!(matches!(&started.stage, Stage::CheckBare { host } if host == "Example.com"));
    let next = started.advance(Reply::Literal(None));
    match &next.stage {
        Stage::LookupService { host, name } => {
            assert_eq!(host, "Example.com");
            assert_eq!(name, "_minecraft._tcp.Example.com");
        }
        other => panic!("unexpected stage {:?}", other),
    }
    let done = next.advance(Reply::Service(Some(vec![record(5, 1, 25570, "mc1.example.com.")])));
    match done.stage {
        Stage::Done(Ok(endpoint)) => {
            assert_eq!(endpoint.ip, "mc1.example.com");
            assert_eq!(endpoint.port, 25570);
            assert_eq!(endpoint.original_input, "Example.com.");
            assert_eq!(endpoint.resolved_host, "mc1.example.com");
        }
        other => panic!("unexpected stage {:?}", other),
    }
}

#[test]
fn resolve_name_without_service_records_looks_the_host_up() {
    for reply in [Reply::Service(None), Reply::Service(Some(Vec::new()))] {
        let next = start("example.com", 25565).advance(Reply::Literal(None)).advance(reply);
        assert!(matches!(&next.stage, Stage::LookupHost { host, port: 25565 } if host == "example.com"));
        let done = next.advance(Reply::Addresses(Ok(vec!["198.51.100.7".to_string()])));
        match done.stage {
            Stage::Done(Ok(endpoint)) => {
                assert_eq!(endpoint.ip, "198.51.100.7");
                assert_eq!(endpoint.port, 25565);
                assert_eq!(endpoint.resolved_host, "example.com");
            }
            other => panic!("unexpected stage {:?}", other),
        }
    }
}

#[test]
fn resolve_ignores_a_reply_to_another_question() {
    let started = start("example.com:1", 25565);
    let same = started.advance(Reply::Service(None));
    assert!(matches!(&same.stage, Stage::CheckHost { host, port: 1 } if host == "example.com"));
    let same = same.advance(Reply::Addresses(Ok(vec!["198.51.100.7".to_string()])));
    assert!(matches!(&same.stage, Stage::CheckHost { host, port: 1 } if host == "example.com"));
    let done = same.advance(Reply::Literal(Some("198.51.100.9".to_string())));
    let still = done.advance(Reply::Literal(None));
    assert!(matches!(&still.stage, Stage::Done(Ok(endpoint)) if endpoint.ip == "198.51.100.9"));
}

#[test]
fn advance_with_uses_the_chosen_record() {
    let records = vec![record(0, 1, 1000, "a.example."), record(0, 1, 2000, "b.example.")];
    let next = start("example.com", 25565).advance(Reply::Literal(None));
    let done = next.advance_with(Reply::Service(Some(records)), Some(1));
    assert!(matches!(&done.stage, Stage::Done(Ok(endpoint)) if endpoint.ip == "b.example" && endpoint.port == 2000));
    let records = vec![record(0, 1, 1000, "a.example.")];
    let next = start("example.com", 25565).advance(Reply::Literal(None));
    let fallback = next.advance_with(Reply::Service(Some(records)), Some(1));
    assert!(matches!(&fallback.stage, Stage::LookupHost { port: 25565, .. }));
}

#[test]
fn pick_weighted_walks_the_candidates() {
    let records = vec![
        record(1, 10, 1, "a"),
        record(3, 50, 2, "b"),
        record(1, 0, 3, "c"),
        record(1, 5, 4, "d"),
    ];
    for draw in 0..10 {
        assert_eq!(pick_weighted(&records, draw), 0);
    }
    for draw in 10..15 {
        assert_eq!(pick_weighted(&records, draw), 3);
    }
}

#[test]
fn pick_srv_of_nothing_is_nothing() {
    assert_eq!(pick_srv(&Vec::new()), None);
}

#[test]
fn pick_srv_never_takes_a_higher_priority() {
    let records = vec![record(0, 0, 1, "a"), record(7, 100, 2, "x"), record(0, 0, 3, "b")];
    let mut seen = [0usize; 3];
    for _ in 0..400 {
        let chosen = pick_srv(&records).unwrap();
        seen[chosen] += 1;
    }
    assert_eq!(seen[1], 0);
    assert!(seen[0] > 0);
    assert!(seen[2] > 0);
}

#[test]
fn pick_srv_never_takes_a_zero_weight_beside_a_weight() {
    let records = vec![record(0, 10, 1, "a"), record(0, 0, 2, "b")];
    for _ in 0..400 {
        assert_eq!(pick_srv(&records), Some(0));
    }
}

#[test]
fn pick_srv_follows_the_weights() {
    let records = vec![record(0, 1, 1, "a"), record(0, 3, 2, "b")];
    let mut seen = [0usize; 2];
    for _ in 0..4000 {
        seen[pick_srv(&records).unwrap()] += 1;
    }
    assert!(seen[0] > 600 && seen[0] < 1400, "{:?}", seen);
    assert_eq!(seen[0] + seen[1], 4000);
}

#[test]
fn endpoint_errors_in_words() {
    assert_eq!(EndpointError::InvalidHostPort.message(), "Invalid host:port format");
    assert_eq!(
        EndpointError::NoSrvAndNoFallback.message(),
        "SRV lookup failed and no fallback available"
    );
    assert_eq!(
        EndpointError::NoAddress("mc.example.com".to_string()).message(),
        "No A/AAAA records found for mc.example.com"
    );
    let error = ResolveError::from("no connection");
    let shown = error.to_string();
    assert!(!shown.is_empty());
    assert_eq!(
        EndpointError::Resolve(error).message(),
        format!("DNS resolve error: {}", shown)
    );
}

#[test]
fn resolve_bracketed_literal_without_port_takes_the_fallback_port() {
    let started = start("[::1]", 25565);
    assert!(matches!(&started.stage, Stage::CheckBare { host } if host == "::1"));
    let done = started.advance(Reply::Literal(Some("::1".to_string())));
    match done.stage {
        Stage::Done(Ok(endpoint)) => {
            assert_eq!(endpoint.ip, "::1");
            assert_eq!(endpoint.port, 25565);
            assert_eq!(endpoint.original_input, "[::1]");
            assert_eq!(endpoint.resolved_host, "::1");
        }
        other => panic!("unexpected stage {:?}", other),
    }
    let started = start("[2001:db8::1]", 19132);
    assert!(matches!(&started.stage, Stage::CheckBare { host } if host == "2001:db8::1"));
    let done = started.advance(Reply::Literal(Some("2001:db8::1".to_string())));
    assert!(matches!(&done.stage, Stage::Done(Ok(endpoint)) if endpoint.ip == "2001:db8::1" && endpoint.port == 19132));
}

#[test]
fn an_empty_bracketed_host_is_invalid_with_and_without_port() {
    for text in ["[]", "[]:80", "[]:"] {
        let started = start(text, 25565);
        assert!(matches!(started.stage, Stage::Done(Err(EndpointError::InvalidHostPort))), "{}", text);
    }
}

#[test]
fn the_host_of_an_input_without_port() {
    assert_eq!(host_without_port("[::1]"), "::1");
    assert_eq!(host_without_port("[mc.example.com.]"), "mc.example.com.");
    assert_eq!(host_without_port(" example.com. "), "example.com");
    assert_eq!(host_without_port("example.com"), "example.com");
    assert_eq!(host_without_port("[unclosed."), "[unclosed");
    assert_eq!(host_without_port(""), "");
}
