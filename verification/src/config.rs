//! Settings of the balancer and their consistency rules.

use crate::text::{chars_of, trim_bounds, trimmed};
use vstd::prelude::*;
use vstd::string::*;

verus! {

/// Why settings were refused.
#[derive(Debug)]
pub enum ConfigError {
    /// The settings contradict themselves; the text says how.
    Invalid(String),
}

impl ConfigError {
    /// The error in words.
    pub fn message(&self) -> (text: String)
        ensures
            text@ == match *self {
                ConfigError::Invalid(complaint) => "Invalid configuration: "@ + complaint@,
            },
    {
        match self {
            ConfigError::Invalid(complaint) => {
                let mut text = "Invalid configuration: ".to_owned();
                text.append(complaint.as_str());
                text
            },
        }
    }
}

/// Where the servers to choose from come from.
#[derive(Debug, Clone, Copy, PartialEq, Eq, Structural)]
pub enum Mode {
    Static,
    Geo,
    Http,
}

/// How a server is chosen from a fixed list.
#[derive(Debug, Clone, Copy, PartialEq, Eq, Structural)]
pub enum Algorithm {
    RoundRobin,
    LowestPlayerCount,
}

/// How much is logged.
#[derive(Debug, Clone, Copy, PartialEq, Eq, Structural)]
pub enum LogLevel {
    Trace,
    Debug,
    Info,
    Warn,
    Error,
}

impl Default for LogLevel {
    fn default() -> (level: LogLevel)
        ensures
            level == LogLevel::Info,
    {
        LogLevel::Info
    }
}

/// The method of the request that asks a remote endpoint for a server.
#[derive(Debug, Clone, Copy, PartialEq, Eq, Structural)]
pub enum HttpMethod {
    GET,
    POST,
}

impl Default for HttpMethod {
    fn default() -> (method: HttpMethod)
        ensures
            method == HttpMethod::GET,
    {
        HttpMethod::GET
    }
}

/// The port a server listens on when none is configured.
pub open spec fn spec_default_port() -> u16 {
    25565
}

/// The port a server listens on when none is configured.
pub fn default_port() -> (port: u16)
    ensures
        port == spec_default_port(),
{
    25565
}

/// A server that clients can be sent to.
#[derive(Debug, Clone)]
pub struct Server {
    pub name: Option<String>,
    pub address: String,
    pub port: u16,
}

/// A server for the clients of one region.
#[derive(Debug, Clone)]
pub struct Region {
    /// The code of a continent or of a country, such as `EU`.
    pub code: String,
    pub server: Server,
}

/// A header of the request to a remote endpoint.
#[derive(Debug, Clone)]
pub struct Header {
    pub name: String,
    pub value: String,
}

/// Settings of the mode `static`.
#[derive(Debug, Clone)]
pub struct StaticConfig {
    pub algorithm: Algorithm,
    pub servers: Vec<Server>,
}

/// Settings of the mode `geo`.
#[derive(Debug, Clone)]
pub struct GeoConfig {
    /// The token of the service that locates addresses.
    pub token: String,
    pub regions: Vec<Region>,
    /// The server for clients of no listed region.
    pub fallback: Server,
}

/// Settings of the mode `http`.
#[derive(Debug, Clone)]
pub struct HttpConfig {
    pub endpoint: String,
    pub request_method: HttpMethod,
    pub headers: Vec<Header>,
    pub fallback: Server,
}

/// All settings.
#[derive(Debug, Clone)]
pub struct Config {
    pub mode: Mode,
    pub static_cfg: Option<StaticConfig>,
    pub geo: Option<GeoConfig>,
    pub http_cfg: Option<HttpConfig>,
    pub timeout_seconds: Option<u64>,
    pub log_level: Option<LogLevel>,
}

/// The settings that are written out where none are found.
pub const DEFAULT_CONFIG: &'static str = r#"# Minecraft Server Load Balancer Configuration
# --------------------------------------------
# Select one of the modes below: 'static', 'geo', or 'http'

mode: static           # Options: static, geo, http

# 1. Static Mode - Predefined list of servers with load balancing algorithm
static:
  algorithm: round_robin   # Options: round_robin, lowest_player_count
  servers:
    - name: "US-East"
      address: "useast.example.com"
      port: 25565
    - name: "EU-West"
      address: "euwest.example.com"
      port: 25565
    - name: "Asia"
      address: "asia.example.com"
      port: 25565

# 2. Geo Mode - Select server based on user's region (using a geo-location API)
geo:
  token: "YOUR-TOKEN"   # Your geolocation API endpoint
  regions:
    NA:
      address: "us.example.com"
      port: 25565
    EU:
      address: "eu.example.com"
      port: 25565
    ASIA:
      address: "asia.example.com"
      port: 25565
  fallback:
    address: "fallback.example.com"
    port: 25565

# 3. HTTP Mode - Server address is fetched from a remote HTTP endpoint
http:
  endpoint: "https://serverselector.example.com/getserver"
  request_method: GET      # Typically GET or POST
  headers:
    Authorization: "Bearer YOUR_API_TOKEN"
  fallback:
    address: "fallback.example.com"
    port: 25565

# Advanced options (optional)
timeout_seconds: 5         # Maximum time to wait for server selection
log_level: info            # Options: info, debug, warn, error
"#;

/// Settings that pass the check have what their mode chooses from: the
/// mode `static` a list with a server in it, the mode `geo` a region, and
/// the mode `http` an endpoint that is more than whitespace.
pub proof fn lemma_valid_settings_have_servers(config: Config)
    requires
        config.complaint() is None,
    ensures
        config.mode == Mode::Static ==> config.static_cfg is Some
            && config.static_cfg->0.servers.len() > 0,
        config.mode == Mode::Geo ==> config.geo is Some && config.geo->0.regions.len() > 0,
        config.mode == Mode::Http ==> config.http_cfg is Some && trimmed(
            config.http_cfg->0.endpoint@,
        ).len() > 0,
{
}

impl Config {
    /// What is wrong with the settings, if anything: the section of the
    /// chosen mode is missing, or it lacks what the mode cannot do without.
    pub open spec fn complaint(&self) -> Option<Seq<char>> {
        match self.mode {
            Mode::Static => match self.static_cfg {
                None => Some("mode 'static' requires a 'static' section"@),
                Some(section) => if section.servers.len() == 0 {
                    Some("static.servers must contain at least one server"@)
                } else {
                    None
                },
            },
            Mode::Geo => match self.geo {
                None => Some("mode 'geo' requires a 'geo' section"@),
                Some(section) => if section.regions.len() == 0 {
                    Some("geo.regions must contain at least one region entry"@)
                } else {
                    None
                },
            },
            Mode::Http => match self.http_cfg {
                None => Some("mode 'http' requires an 'http' section"@),
                Some(section) => if trimmed(section.endpoint@).len() == 0 {
                    Some("http.endpoint cannot be empty"@)
                } else {
                    None
                },
            },
        }
    }

    /// Checks that the settings fit together.
    pub fn validate(&self) -> (r: Result<(), ConfigError>)
        ensures
            match self.complaint() {
                None => r is Ok,
                Some(text) => r matches Err(ConfigError::Invalid(message)) && message@ == text,
            },
    {
        match self.mode {
            Mode::Static => match &self.static_cfg {
                None => Err(
                    ConfigError::Invalid("mode 'static' requires a 'static' section".to_owned()),
                ),
                Some(section) => if section.servers.len() == 0 {
                    Err(
                        ConfigError::Invalid(
                            "static.servers must contain at least one server".to_owned(),
                        ),
                    )
                } else {
                    Ok(())
                },
            },
            Mode::Geo => match &self.geo {
                None => Err(ConfigError::Invalid("mode 'geo' requires a 'geo' section".to_owned())),
                Some(section) => if section.regions.len() == 0 {
                    Err(
                        ConfigError::Invalid(
                            "geo.regions must contain at least one region entry".to_owned(),
                        ),
                    )
                } else {
                    Ok(())
                },
            },
            Mode::Http => match &self.http_cfg {
                None => Err(
                    ConfigError::Invalid("mode 'http' requires an 'http' section".to_owned()),
                ),
                Some(section) => {
                    let chars = chars_of(section.endpoint.as_str());
                    let (from, to) = trim_bounds(chars.as_slice());
                    if from == to {
                        Err(ConfigError::Invalid("http.endpoint cannot be empty".to_owned()))
                    } else {
                        Ok(())
                    }
                },
            },
        }
    }

    /// The seconds to wait for a server: those of the settings, or 5.
    pub fn timeout(&self) -> (seconds: u64)
        ensures
            seconds == match self.timeout_seconds {
                Some(configured) => configured,
                None => 5,
            },
    {
        match self.timeout_seconds {
            Some(configured) => configured,
            None => 5,
        }
    }

    /// How much is logged: what the settings say, or `Info`.
    pub fn log_level(&self) -> (level: LogLevel)
        ensures
            level == match self.log_level {
                Some(configured) => configured,
                None => LogLevel::Info,
            },
    {
        match self.log_level {
            Some(configured) => configured,
            None => LogLevel::default(),
        }
    }

    /// The settings that are written out where none are found.
    pub fn default_config_str() -> (text: &'static str)
        ensures
            text@ == DEFAULT_CONFIG@,
    {
        DEFAULT_CONFIG
    }
}

} // verus!
