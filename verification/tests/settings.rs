use mc_balancer::config::{
    default_port, Algorithm, Config, ConfigError, GeoConfig, Header, HttpConfig, HttpMethod,
    LogLevel, Mode, Region, Server, StaticConfig,
};

fn server(name: Option<&str>, address: &str) -> Server {
    Server { name: name.map(|n| n.to_string()), address: address.to_string(), port: default_port() }
}

fn bare(mode: Mode) -> Config {
    Config {
        mode,
        static_cfg: None,
        geo: None,
        http_cfg: None,
        timeout_seconds: None,
        log_level: None,
    }
}

fn complaint(settings: &Config) -> String {
    match settings.validate() {
        Err(ConfigError::Invalid(text)) => text,
        Ok(()) => panic!("the settings were taken"),
    }
}

#[test]
fn load_static_ok() {
    let cfg = Config {
        mode: Mode::Static,
        static_cfg: Some(StaticConfig {
            algorithm: Algorithm::RoundRobin,
            servers: vec![server(Some("A"), "a.example.com"), server(None, "b.example.com")],
        }),
        geo: None,
        http_cfg: None,
        timeout_seconds: Some(10),
        log_level: Some(LogLevel::Debug),
    };
    cfg.validate().unwrap();
    assert_eq!(cfg.mode, Mode::Static);
    assert_eq!(cfg.static_cfg.as_ref().unwrap().servers.len(), 2);
    assert_eq!(cfg.timeout(), 10);
    assert_eq!(cfg.log_level(), LogLevel::Debug);
    assert_eq!(cfg.static_cfg.as_ref().unwrap().servers[1].port, 25565);
}

#[test]
fn invalid_missing_section() {
    let mut cfg = bare(Mode::Http);
    cfg.timeout_seconds = Some(3);
    let err = cfg.validate().unwrap_err();
    assert!(matches!(err, ConfigError::Invalid(_)));
    assert_eq!(complaint(&cfg), "mode 'http' requires an 'http' section");
}

#[test]
fn http_ok() {
    let mut cfg = bare(Mode::Http);
    cfg.http_cfg = Some(HttpConfig {
        endpoint: "https://example.com/api".to_string(),
        request_method: HttpMethod::GET,
        headers: Vec::new(),
        fallback: server(None, "fallback.example.com"),
    });
    cfg.validate().unwrap();
    assert_eq!(cfg.mode, Mode::Http);
    assert!(cfg.http_cfg.is_some());
}

#[test]
fn every_complaint_has_its_text() {
    assert_eq!(complaint(&bare(Mode::Static)), "mode 'static' requires a 'static' section");
    assert_eq!(complaint(&bare(Mode::Geo)), "mode 'geo' requires a 'geo' section");
    let mut cfg = bare(Mode::Static);
    cfg.static_cfg = Some(StaticConfig { algorithm: Algorithm::RoundRobin, servers: Vec::new() });
    assert_eq!(complaint(&cfg), "static.servers must contain at least one server");
    let mut cfg = bare(Mode::Geo);
    cfg.geo = Some(GeoConfig {
        token: "t".to_string(),
        regions: Vec::new(),
        fallback: server(None, "f"),
    });
    assert_eq!(complaint(&cfg), "geo.regions must contain at least one region entry");
    for endpoint in ["", "   ", "\t\n"] {
        let mut cfg = bare(Mode::Http);
        cfg.http_cfg = Some(HttpConfig {
            endpoint: endpoint.to_string(),
            request_method: HttpMethod::POST,
            headers: vec![Header { name: "Authorization".to_string(), value: "x".to_string() }],
            fallback: server(None, "f"),
        });
        assert_eq!(complaint(&cfg), "http.endpoint cannot be empty");
    }
}

#[test]
fn only_the_section_of_the_mode_counts() {
    let mut cfg = bare(Mode::Geo);
    cfg.static_cfg = Some(StaticConfig { algorithm: Algorithm::RoundRobin, servers: Vec::new() });
    cfg.geo = Some(GeoConfig {
        token: String::new(),
        regions: vec![Region { code: "EU".to_string(), server: server(None, "eu") }],
        fallback: server(None, "f"),
    });
    assert!(cfg.validate().is_ok());
}

#[test]
fn what_the_settings_leave_open() {
    let cfg = bare(Mode::Static);
    assert_eq!(cfg.timeout(), 5);
    assert_eq!(cfg.log_level(), LogLevel::Info);
    assert_eq!(LogLevel::default(), LogLevel::Info);
    assert_eq!(HttpMethod::default(), HttpMethod::GET);
    assert_eq!(default_port(), 25565);
}

#[test]
fn the_settings_that_are_written_out() {
    let text = Config::default_config_str();
    assert!(text.starts_with("# Minecraft Server Load Balancer Configuration\n"));
    assert!(text.contains("\nmode: static"));
    assert!(text.contains("  algorithm: round_robin"));
    assert!(text.contains("timeout_seconds: 5"));
    assert!(text.ends_with("log_level: info            # Options: info, debug, warn, error\n"));
    let parsed: serde_yaml::Value = serde_yaml::from_str(text).unwrap();
    assert_eq!(parsed.get("mode").and_then(|m| m.as_str()), Some("static"));
    let servers = parsed
        .get("static")
        .and_then(|s| s.get("servers"))
        .and_then(|s| s.as_sequence())
        .unwrap();
    assert_eq!(servers.len(), 3);
    assert_eq!(parsed.get("timeout_seconds").and_then(|t| t.as_u64()), Some(5));
}

#[test]
fn a_complaint_in_words() {
    let error = bare(Mode::Geo).validate().unwrap_err();
    assert_eq!(error.message(), "Invalid configuration: mode 'geo' requires a 'geo' section");
    assert_eq!(ConfigError::Invalid(String::new()).message(), "Invalid configuration: ");
}
