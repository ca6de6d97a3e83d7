use mc_balancer::backend::MinecraftServer;
use mc_balancer::config::{
    Algorithm, Config, GeoConfig, LogLevel, Mode, Region, Server, StaticConfig,
};
use mc_balancer::finder::{
    get_server_finder, lowest_index, total_player_count, Evidence, FinderError, GeoServerFinder,
    Need, ServerFinder, StaticServerFiner,
};
use mc_balancer::geo_api::IpInfo;
use mc_balancer::region_table::RegionTable;

fn server(address: &str) -> Server {
    Server { name: None, address: address.to_string(), port: 25565 }
}

fn pool(algorithm: Algorithm, addresses: &[&str]) -> StaticServerFiner {
    StaticServerFiner::new(StaticConfig {
        algorithm,
        servers: addresses.iter().map(|a| server(a)).collect(),
    })
}

fn located(continent: &str, country: &str) -> IpInfo {
    IpInfo {
        ip: "1.2.3.4".to_string(),
        asn: "AS1234".to_string(),
        as_name: "Test ASN".to_string(),
        as_domain: "test.com".to_string(),
        country_code: country.to_string(),
        country: "Somewhere".to_string(),
        continent_code: continent.to_string(),
        continent: "Some Continent".to_string(),
    }
}

fn geo() -> GeoServerFinder {
    GeoServerFinder::new(GeoConfig {
        token: "secret".to_string(),
        regions: vec![
            Region { code: "NA".to_string(), server: server("us.example.com") },
            Region { code: "EU".to_string(), server: server("eu.example.com") },
            Region { code: "DE".to_string(), server: server("de.example.com") },
        ],
        fallback: server("fallback.example.com"),
    })
}

#[test]
fn round_robin_visits_every_server_once_per_round() {
    let names = ["a", "b", "c", "d"];
    let mut finder = pool(Algorithm::RoundRobin, &names);
    let none = Vec::new();
    let mut rounds: Vec<Vec<String>> = Vec::new();
    for _ in 0..3 {
        let mut round = Vec::new();
        for _ in 0..names.len() {
            round.push(finder.find_server(&none).unwrap().address);
        }
        rounds.push(round);
    }
    assert_eq!(rounds[0], vec!["b", "c", "d", "a"]);
    assert_eq!(rounds[1], rounds[0]);
    assert_eq!(rounds[2], rounds[0]);
    let mut seen = rounds[0].clone();
    seen.sort();
    assert_eq!(seen, vec!["a", "b", "c", "d"]);
}

#[test]
fn round_robin_never_repeats_at_once() {
    let mut finder = pool(Algorithm::RoundRobin, &["a", "b"]);
    let none = Vec::new();
    let mut last = finder.find_server(&none).unwrap().address;
    for _ in 0..10 {
        let next = finder.find_server(&none).unwrap().address;
        assert_ne!(next, last);
        last = next;
    }
}

#[test]
fn round_robin_of_one_server_is_that_server() {
    let mut finder = pool(Algorithm::RoundRobin, &["only.example.com"]);
    let none = Vec::new();
    for _ in 0..5 {
        let chosen = finder.find_server(&none).unwrap();
        assert_eq!(chosen.address, "only.example.com");
        assert_eq!(chosen.port, None);
    }
}

#[test]
fn no_server_to_choose_from() {
    let none = Vec::new();
    let mut finder = pool(Algorithm::RoundRobin, &[]);
    assert_eq!(finder.find_server(&none).unwrap_err(), FinderError::NoServers);
    let mut finder = pool(Algorithm::LowestPlayerCount, &[]);
    assert_eq!(finder.find_server(&vec![Some(1)]).unwrap_err(), FinderError::NoServers);
}

#[test]
fn lowest_load_takes_the_smallest_count() {
    let mut finder = pool(Algorithm::LowestPlayerCount, &["a", "b", "c"]);
    assert!(finder.needs_probes());
    let chosen = finder.find_server(&vec![Some(5), Some(0), None]).unwrap();
    assert_eq!(chosen.address, "b");
    let chosen = finder.find_server(&vec![Some(5), Some(7), Some(6)]).unwrap();
    assert_eq!(chosen.address, "a");
}

#[test]
fn lowest_load_with_no_answer_still_chooses() {
    let mut finder = pool(Algorithm::LowestPlayerCount, &["a", "b", "c"]);
    assert_eq!(finder.find_server(&vec![None, None, None]).unwrap().address, "a");
    assert_eq!(finder.find_server(&Vec::new()).unwrap().address, "a");
    assert_eq!(finder.find_server(&vec![None, None, Some(u32::MAX)]).unwrap().address, "a");
    assert_eq!(finder.find_server(&vec![None]).unwrap().address, "a");
}

#[test]
fn lowest_load_breaks_ties_by_order() {
    let mut finder = pool(Algorithm::LowestPlayerCount, &["a", "b", "c"]);
    assert_eq!(finder.find_server(&vec![Some(9), Some(3), Some(3)]).unwrap().address, "b");
    assert_eq!(lowest_index(&vec![Some(2), Some(2)], 2), 0);
    assert_eq!(lowest_index(&vec![None, Some(4)], 2), 1);
    assert_eq!(lowest_index(&vec![Some(1), Some(0)], 1), 0);
}

#[test]
fn player_counts_add_up() {
    assert_eq!(total_player_count(&Vec::new()), Some(0));
    assert_eq!(total_player_count(&vec![Some(5), None, Some(7)]), Some(12));
    assert_eq!(total_player_count(&vec![None, None]), Some(0));
    assert_eq!(total_player_count(&vec![Some(u32::MAX), Some(0)]), Some(u32::MAX));
    assert_eq!(total_player_count(&vec![Some(u32::MAX), Some(1)]), None);
    assert_eq!(total_player_count(&vec![Some(u32::MAX), Some(u32::MAX), None]), None);
    let finder = pool(Algorithm::RoundRobin, &["a", "b"]);
    assert_eq!(finder.get_player_count(&vec![Some(3), Some(4)]), Some(7));
    assert_eq!(geo().get_player_count(&vec![Some(1), None, Some(1), Some(1)]), Some(3));
}

#[test]
fn static_plan_asks_every_server_five_at_a_time() {
    let finder = pool(Algorithm::RoundRobin, &["a", "b", "c"]);
    assert!(!finder.needs_probes());
    let plan = finder.probe_plan();
    let asked: Vec<&str> = plan.targets.iter().map(|s| s.address.as_str()).collect();
    assert_eq!(asked, vec!["a", "b", "c"]);
    assert_eq!(plan.window, 5);
    assert_eq!(plan.timeout_secs, 5);
}

#[test]
fn geo_plan_asks_regions_and_fallback_eight_at_a_time() {
    let plan = geo().probe_plan();
    let asked: Vec<&str> = plan.targets.iter().map(|s| s.address.as_str()).collect();
    assert_eq!(
        asked,
        vec!["us.example.com", "eu.example.com", "de.example.com", "fallback.example.com"]
    );
    assert_eq!(plan.window, 8);
    assert_eq!(plan.timeout_secs, 5);
}

#[test]
fn geo_prefers_continent_then_country_then_fallback() {
    let finder = geo();
    assert_eq!(finder.token(), "secret");
    assert_eq!(finder.find_server(Some(&located("EU", "DE"))).address, "eu.example.com");
    assert_eq!(finder.find_server(Some(&located("AF", "DE"))).address, "de.example.com");
    assert_eq!(finder.find_server(Some(&located("AF", "ZA"))).address, "fallback.example.com");
    assert_eq!(finder.find_server(Some(&located("eu", "de"))).address, "fallback.example.com");
    assert_eq!(finder.find_server(None).address, "fallback.example.com");
}

#[test]
fn geo_takes_the_later_of_two_lines_of_one_region() {
    let finder = GeoServerFinder::new(GeoConfig {
        token: String::new(),
        regions: vec![
            Region { code: "EU".to_string(), server: server("old.example.com") },
            Region { code: "NA".to_string(), server: server("us.example.com") },
            Region { code: "EU".to_string(), server: server("new.example.com") },
        ],
        fallback: server("fallback.example.com"),
    });
    assert_eq!(finder.find_server(Some(&located("EU", "FR"))).address, "new.example.com");
    let plan = finder.probe_plan();
    let asked: Vec<&str> = plan.targets.iter().map(|s| s.address.as_str()).collect();
    assert_eq!(asked, vec!["new.example.com", "us.example.com", "fallback.example.com"]);
}

#[test]
fn region_table_keeps_one_line_per_code() {
    let mut table = RegionTable::new();
    assert_eq!(table.len(), 0);
    assert!(table.get("EU").is_none());
    table.insert("EU".to_string(), MinecraftServer::new("a".to_string(), 1));
    table.insert("NA".to_string(), MinecraftServer::new("b".to_string(), 2));
    table.insert("EU".to_string(), MinecraftServer::new("c".to_string(), 3));
    assert_eq!(table.len(), 2);
    assert_eq!(table.get("EU").unwrap().address, "c");
    assert_eq!(table.get("NA").unwrap().address, "b");
    assert_eq!(table.server_at(0).address, "c");
    assert_eq!(table.server_at(1).port, Some(2));
    assert!(table.get("eu").is_none());
}

#[test]
fn finder_of_the_settings() {
    let settings = Config {
        mode: Mode::Static,
        static_cfg: Some(StaticConfig {
            algorithm: Algorithm::LowestPlayerCount,
            servers: vec![server("a"), server("b")],
        }),
        geo: None,
        http_cfg: None,
        timeout_seconds: None,
        log_level: Some(LogLevel::Warn),
    };
    let mut finder = get_server_finder(settings).unwrap();
    assert_eq!(finder.need(), Need::Probes);
    assert_eq!(finder.probe_plan().targets.len(), 2);
    let chosen = finder.find_server(&Evidence::Probes(vec![Some(4), Some(2)])).unwrap();
    assert_eq!(chosen.address, "b");
    let chosen = finder.find_server(&Evidence::Nothing).unwrap();
    assert_eq!(chosen.address, "a");
    assert_eq!(finder.get_player_count(&vec![Some(4), Some(2)]), Some(6));
}

#[test]
fn finder_of_the_settings_by_region() {
    let settings = Config {
        mode: Mode::Geo,
        static_cfg: None,
        geo: Some(GeoConfig {
            token: "t".to_string(),
            regions: vec![Region { code: "EU".to_string(), server: server("eu.example.com") }],
            fallback: server("fallback.example.com"),
        }),
        http_cfg: None,
        timeout_seconds: None,
        log_level: None,
    };
    let mut finder = get_server_finder(settings).unwrap();
    assert_eq!(finder.need(), Need::Location);
    let chosen = finder.find_server(&Evidence::Location(Some(located("EU", "FR")))).unwrap();
    assert_eq!(chosen.address, "eu.example.com");
    let chosen = finder.find_server(&Evidence::Location(None)).unwrap();
    assert_eq!(chosen.address, "fallback.example.com");
    let chosen = finder.find_server(&Evidence::Probes(vec![Some(1)])).unwrap();
    assert_eq!(chosen.address, "fallback.example.com");
    assert!(matches!(finder, ServerFinder::Geo(_)));
}

#[test]
fn finder_of_settings_without_their_section() {
    let mut settings = Config {
        mode: Mode::Static,
        static_cfg: None,
        geo: None,
        http_cfg: None,
        timeout_seconds: None,
        log_level: None,
    };
    assert_eq!(get_server_finder(settings.clone()).unwrap_err(), FinderError::MissingStaticSection);
    settings.mode = Mode::Geo;
    assert_eq!(get_server_finder(settings.clone()).unwrap_err(), FinderError::MissingGeoSection);
    settings.mode = Mode::Http;
    assert_eq!(get_server_finder(settings).unwrap_err(), FinderError::HttpUnsupported);
}

#[test]
fn round_robin_finder_needs_nothing() {
    let finder = ServerFinder::Static(pool(Algorithm::RoundRobin, &["a"]));
    assert_eq!(finder.need(), Need::Nothing);
}
