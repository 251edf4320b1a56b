//! The daemon configuration: server, authentication, logging and security
//! sections, with the validation rules and the in-config credential check.

use vstd::prelude::*;

use crate::netaddr::{is_ip_literal, is_network_entry, spec_is_ip_literal, spec_is_network_entry};
use crate::user_config::HashType;

verus! {

broadcast use vstd::string::group_string_axioms;

/// Listener addresses, ports, concurrency cap and per-connection limits.
#[derive(Debug, Clone, PartialEq)]
pub struct ServerConfig {
    pub bind_address: String,
    pub socks5_port: u16,
    pub http_port: u16,
    pub max_connections: usize,
    pub connection_timeout: u64,
    pub buffer_size: usize,
}

/// A plaintext credential pair kept directly in the configuration.
#[derive(Debug, Clone, PartialEq)]
pub struct UserCredentials {
    pub username: String,
    pub password: String,
}

/// How clients authenticate at the protocol layer.
#[derive(Debug, Clone, Copy, PartialEq, Eq, Structural)]
pub enum AuthMethod {
    Disabled,
    UsernamePassword,
}

/// The credential backend the authenticator facade dispatches to.
#[derive(Debug, Clone, PartialEq)]
pub enum AuthBackendConfig {
    NoBackend,
    Simple { user_config_file: String },
    Pam { service: String },
    Ldap {
        url: String,
        base_dn: String,
        bind_dn: Option<String>,
        bind_password: Option<String>,
        user_filter: String,
    },
    Database { db_type: String, url: String, query: String, hash_type: HashType },
}

/// The authentication section.
#[derive(Debug, Clone, PartialEq)]
pub struct AuthConfig {
    pub enabled: bool,
    pub method: AuthMethod,
    pub users: Vec<UserCredentials>,
    pub backend: AuthBackendConfig,
}

/// The logging section: level and sinks.
#[derive(Debug, Clone, PartialEq)]
pub struct LoggingConfig {
    pub level: String,
    pub file: Option<String>,
    pub console: bool,
    pub journald: bool,
}

/// Request-rate limits; present in the configuration but not enforced.
#[derive(Debug, Clone, Copy, PartialEq, Eq, Structural)]
pub struct RateLimitConfig {
    pub requests_per_minute: u32,
    pub burst_size: u32,
}

/// The security section.
#[derive(Debug, Clone, PartialEq)]
pub struct SecurityConfig {
    pub allowed_networks: Vec<String>,
    pub blocked_domains: Vec<String>,
    pub max_request_size: usize,
    pub rate_limit: Option<RateLimitConfig>,
}

/// The whole configuration; immutable after validation.
#[derive(Debug, Clone, PartialEq)]
pub struct Config {
    pub server: ServerConfig,
    pub auth: AuthConfig,
    pub logging: LoggingConfig,
    pub security: SecurityConfig,
}

/// The reasons validation can reject a configuration.
#[derive(Debug, Clone, Copy, PartialEq, Eq, Structural)]
pub enum ConfigError {
    InvalidSocks5Port,
    InvalidHttpPort,
    PortsEqual,
    InvalidBindAddress,
    InvalidMaxConnections,
    InvalidBufferSize,
    EmptyUserCredentials,
    MissingBackend,
    EmptyBackendField,
    InvalidNetworkEntry,
    InvalidLogLevel,
}

impl ConfigError {
    /// A short description of the error.
    pub fn message(&self) -> (r: &'static str) {
        match self {
            ConfigError::InvalidSocks5Port => "invalid SOCKS5 port",
            ConfigError::InvalidHttpPort => "invalid HTTP port",
            ConfigError::PortsEqual => "SOCKS5 and HTTP ports cannot be the same",
            ConfigError::InvalidBindAddress => "invalid bind address",
            ConfigError::InvalidMaxConnections => "max connections must be greater than 0",
            ConfigError::InvalidBufferSize => "buffer size must be at least 1024 bytes",
            ConfigError::EmptyUserCredentials => "username and password cannot be empty",
            ConfigError::MissingBackend => "authentication enabled but no backend configured",
            ConfigError::EmptyBackendField => "authentication backend field cannot be empty",
            ConfigError::InvalidNetworkEntry => "invalid network address",
            ConfigError::InvalidLogLevel => "invalid log level",
        }
    }
}

/// An enabled backend and its required fields filled in.
pub open spec fn spec_backend_complete(b: AuthBackendConfig) -> bool {
    match b {
        AuthBackendConfig::NoBackend => false,
        AuthBackendConfig::Simple { user_config_file } => user_config_file@.len() > 0,
        AuthBackendConfig::Pam { service } => service@.len() > 0,
        AuthBackendConfig::Ldap { url, base_dn, bind_dn: _, bind_password: _, user_filter } => url@.len()
            > 0 && base_dn@.len() > 0 && user_filter@.len() > 0,
        AuthBackendConfig::Database { db_type, url, query, hash_type: _ } => db_type@.len() > 0
            && url@.len() > 0 && query@.len() > 0,
    }
}

pub open spec fn spec_valid_log_level(l: Seq<char>) -> bool {
    ||| l == "trace"@
    ||| l == "debug"@
    ||| l == "info"@
    ||| l == "warn"@
    ||| l == "error"@
}

pub open spec fn spec_valid_users(users: Seq<UserCredentials>) -> bool {
    forall|i: int|
        0 <= i < users.len() ==> (#[trigger] users[i]).username@.len() > 0
            && users[i].password@.len() > 0
}

pub open spec fn spec_valid_networks(nets: Seq<String>) -> bool {
    forall|i: int| 0 <= i < nets.len() ==> spec_is_network_entry((#[trigger] nets[i])@)
}

/// Everything validation enforces.
pub open spec fn spec_valid_config(c: Config) -> bool {
    &&& c.server.socks5_port != 0
    &&& c.server.http_port != 0
    &&& c.server.socks5_port != c.server.http_port
    &&& spec_is_ip_literal(c.server.bind_address@)
    &&& c.server.max_connections >= 1
    &&& c.server.buffer_size >= 1024
    &&& spec_valid_users(c.auth.users@)
    &&& (c.auth.enabled ==> spec_backend_complete(c.auth.backend))
    &&& spec_valid_networks(c.security.allowed_networks@)
    &&& spec_valid_log_level(c.logging.level@)
}

fn is_valid_log_level(l: &String) -> (r: bool)
    ensures
        r == spec_valid_log_level(l@),
{
    *l == String::from_str("trace") || *l == String::from_str("debug") || *l == String::from_str(
        "info",
    ) || *l == String::from_str("warn") || *l == String::from_str("error")
}

fn backend_complete(b: &AuthBackendConfig) -> (r: bool)
    ensures
        r == spec_backend_complete(*b),
{
    match b {
        AuthBackendConfig::NoBackend => false,
        AuthBackendConfig::Simple { user_config_file } => !user_config_file.as_str().is_empty(),
        AuthBackendConfig::Pam { service } => !service.as_str().is_empty(),
        AuthBackendConfig::Ldap { url, base_dn, bind_dn: _, bind_password: _, user_filter } => {
            !url.as_str().is_empty() && !base_dn.as_str().is_empty()
                && !user_filter.as_str().is_empty()
        },
        AuthBackendConfig::Database { db_type, url, query, hash_type: _ } => {
            !db_type.as_str().is_empty() && !url.as_str().is_empty() && !query.as_str().is_empty()
        },
    }
}

impl Config {
    /// Checks every validation rule: ports non-zero and distinct, the bind
    /// address a parseable IP literal, the caps and sizes in range, credential
    /// entries non-empty, a complete backend when authentication is enabled,
    /// well-formed allowed-network entries, and a known log level.
    pub fn validate(&self) -> (r: Result<(), ConfigError>)
        ensures
            r is Ok <==> spec_valid_config(*self),
            r matches Err(e) && e == ConfigError::InvalidSocks5Port ==> self.server.socks5_port
                == 0,
            r matches Err(e) && e == ConfigError::InvalidHttpPort ==> self.server.http_port == 0,
            r matches Err(e) && e == ConfigError::PortsEqual ==> self.server.socks5_port
                == self.server.http_port,
            r matches Err(e) && e == ConfigError::InvalidBindAddress ==> !spec_is_ip_literal(
                self.server.bind_address@,
            ),
            r matches Err(e) && e == ConfigError::InvalidMaxConnections
                ==> self.server.max_connections == 0,
            r matches Err(e) && e == ConfigError::InvalidBufferSize ==> self.server.buffer_size
                < 1024,
            r matches Err(e) && e == ConfigError::EmptyUserCredentials ==> !spec_valid_users(
                self.auth.users@,
            ),
            r matches Err(e) && (e == ConfigError::MissingBackend || e
                == ConfigError::EmptyBackendField) ==> self.auth.enabled
                && !spec_backend_complete(self.auth.backend),
            r matches Err(e) && e == ConfigError::InvalidNetworkEntry ==> !spec_valid_networks(
                self.security.allowed_networks@,
            ),
            r matches Err(e) && e == ConfigError::InvalidLogLevel ==> !spec_valid_log_level(
                self.logging.level@,
            ),
    {
        if self.server.socks5_port == 0 {
            return Err(ConfigError::InvalidSocks5Port);
        }
        if self.server.http_port == 0 {
            return Err(ConfigError::InvalidHttpPort);
        }
        if self.server.socks5_port == self.server.http_port {
            return Err(ConfigError::PortsEqual);
        }
        if !is_ip_literal(self.server.bind_address.as_str()) {
            return Err(ConfigError::InvalidBindAddress);
        }
        if self.server.max_connections == 0 {
            return Err(ConfigError::InvalidMaxConnections);
        }
        if self.server.buffer_size < 1024 {
            return Err(ConfigError::InvalidBufferSize);
        }
        let nusers = self.auth.users.len();
        for i in 0..nusers
            invariant
                nusers == self.auth.users@.len(),
                forall|k: int|
                    0 <= k < i ==> (#[trigger] self.auth.users@[k]).username@.len() > 0
                        && self.auth.users@[k].password@.len() > 0,
        {
            if self.auth.users[i].username.as_str().is_empty()
                || self.auth.users[i].password.as_str().is_empty() {
                return Err(ConfigError::EmptyUserCredentials);
            }
        }
        if self.auth.enabled {
            if matches!(&self.auth.backend, AuthBackendConfig::NoBackend) {
                return Err(ConfigError::MissingBackend);
            }
            if !backend_complete(&self.auth.backend) {
                return Err(ConfigError::EmptyBackendField);
            }
        }
        let nnets = self.security.allowed_networks.len();
        for i in 0..nnets
            invariant
                nnets == self.security.allowed_networks@.len(),
                forall|k: int|
                    0 <= k < i ==> spec_is_network_entry(
                        (#[trigger] self.security.allowed_networks@[k])@,
                    ),
        {
            if !is_network_entry(self.security.allowed_networks[i].as_str()) {
                return Err(ConfigError::InvalidNetworkEntry);
            }
        }
        if !is_valid_log_level(&self.logging.level) {
            return Err(ConfigError::InvalidLogLevel);
        }
        Ok(())
    }

    /// The text form of the SOCKS5 listener address, `bind_address:port`.
    pub fn socks5_bind_addr(&self) -> (r: String)
        ensures
            r@ == self.server.bind_address@ + ":"@ + crate::strutil::spec_dec_string(
                self.server.socks5_port as nat,
            ),
    {
        let mut out = self.server.bind_address.clone();
        out.append(":");
        let port = crate::strutil::format_u64(self.server.socks5_port as u64);
        out.append(port.as_str());
        out
    }

    /// The text form of the HTTP listener address, `bind_address:port`.
    pub fn http_bind_addr(&self) -> (r: String)
        ensures
            r@ == self.server.bind_address@ + ":"@ + crate::strutil::spec_dec_string(
                self.server.http_port as nat,
            ),
    {
        let mut out = self.server.bind_address.clone();
        out.append(":");
        let port = crate::strutil::format_u64(self.server.http_port as u64);
        out.append(port.as_str());
        out
    }

    /// Whether the in-config user list accepts the pair. With authentication
    /// disabled every pair is accepted; otherwise some configured entry must
    /// match both fields.
    pub open spec fn spec_validate_user(self, user: Seq<char>, pass: Seq<char>) -> bool {
        if !self.auth.enabled {
            true
        } else {
            exists|i: int|
                0 <= i < self.auth.users@.len() && (#[trigger] self.auth.users@[i]).username@
                    == user && self.auth.users@[i].password@ == pass
        }
    }

    /// Checks a username/password pair against the configured user list.
    pub fn validate_user(&self, username: &str, password: &str) -> (r: bool)
        ensures
            r == self.spec_validate_user(username@, password@),
    {
        if !self.auth.enabled {
            return true;
        }
        let user = String::from_str(username);
        let pass = String::from_str(password);
        let n = self.auth.users.len();
        for i in 0..n
            invariant
                n == self.auth.users@.len(),
                user@ == username@,
                pass@ == password@,
                forall|k: int|
                    0 <= k < i ==> !((#[trigger] self.auth.users@[k]).username@ == username@
                        && self.auth.users@[k].password@ == password@),
        {
            if self.auth.users[i].username == user && self.auth.users[i].password == pass {
                return true;
            }
        }
        false
    }
}

impl Default for Config {
    /// The shipped defaults: local listeners on 1080 and 8080, no
    /// authentication, console logging at `info`, and a permissive network
    /// list.
    fn default() -> (r: Self)
        ensures
            r.server.bind_address@ == "127.0.0.1"@,
            r.server.socks5_port == 1080,
            r.server.http_port == 8080,
            r.server.max_connections == 1000,
            r.server.connection_timeout == 300,
            r.server.buffer_size == 65536,
            !r.auth.enabled,
            r.auth.method == AuthMethod::Disabled,
            r.auth.users@.len() == 0,
            r.auth.backend == AuthBackendConfig::NoBackend,
            r.logging.level@ == "info"@,
            r.logging.file is None,
            r.logging.console,
            !r.logging.journald,
            r.security.allowed_networks@.len() == 1,
            r.security.allowed_networks@[0]@ == "0.0.0.0/0"@,
            r.security.blocked_domains@.len() == 0,
            r.security.max_request_size == 1048576,
            r.security.rate_limit is None,
    {
        let mut allowed_networks: Vec<String> = Vec::new();
        allowed_networks.push(String::from_str("0.0.0.0/0"));
        Config {
            server: ServerConfig {
                bind_address: String::from_str("127.0.0.1"),
                socks5_port: 1080,
                http_port: 8080,
                max_connections: 1000,
                connection_timeout: 300,
                buffer_size: 65536,
            },
            auth: AuthConfig {
                enabled: false,
                method: AuthMethod::Disabled,
                users: Vec::new(),
                backend: AuthBackendConfig::NoBackend,
            },
            logging: LoggingConfig {
                level: String::from_str("info"),
                file: None,
                console: true,
                journald: false,
            },
            security: SecurityConfig {
                allowed_networks,
                blocked_domains: Vec::new(),
                max_request_size: 1048576,
                rate_limit: None,
            },
        }
    }
}

} // verus!
