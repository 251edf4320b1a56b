use rust_socksd::config::{AuthBackendConfig, Config, ConfigError, UserCredentials};
use rust_socksd::netaddr::{is_ip_literal, is_ipv4_literal, is_ipv6_literal, is_network_entry};
use rust_socksd::user_config::HashType;

#[test]
fn default_configuration_is_valid() {
    let config = Config::default();
    assert!(config.validate().is_ok());
    assert_eq!(config.server.socks5_port, 1080);
    assert_eq!(config.server.http_port, 8080);
    assert_eq!(config.server.max_connections, 1000);
    assert_eq!(config.server.buffer_size, 65536);
    assert_eq!(config.security.max_request_size, 1_048_576);
    assert!(!config.auth.enabled);
}

#[test]
fn each_validation_rule_has_its_error() {
    let mut c = Config::default();
    c.server.socks5_port = 0;
    assert_eq!(c.validate().unwrap_err(), ConfigError::InvalidSocks5Port);

    let mut c = Config::default();
    c.server.http_port = 0;
    assert_eq!(c.validate().unwrap_err(), ConfigError::InvalidHttpPort);

    let mut c = Config::default();
    c.server.http_port = c.server.socks5_port;
    assert_eq!(c.validate().unwrap_err(), ConfigError::PortsEqual);

    let mut c = Config::default();
    c.server.bind_address = "not-an-ip".to_string();
    assert_eq!(c.validate().unwrap_err(), ConfigError::InvalidBindAddress);

    let mut c = Config::default();
    c.server.max_connections = 0;
    assert_eq!(c.validate().unwrap_err(), ConfigError::InvalidMaxConnections);

    let mut c = Config::default();
    c.server.buffer_size = 1023;
    assert_eq!(c.validate().unwrap_err(), ConfigError::InvalidBufferSize);

    let mut c = Config::default();
    c.auth.users.push(UserCredentials { username: "".to_string(), password: "x".to_string() });
    assert_eq!(c.validate().unwrap_err(), ConfigError::EmptyUserCredentials);

    let mut c = Config::default();
    c.auth.enabled = true;
    assert_eq!(c.validate().unwrap_err(), ConfigError::MissingBackend);

    let mut c = Config::default();
    c.auth.enabled = true;
    c.auth.backend = AuthBackendConfig::Simple { user_config_file: "".to_string() };
    assert_eq!(c.validate().unwrap_err(), ConfigError::EmptyBackendField);

    let mut c = Config::default();
    c.security.allowed_networks.push("10.0.0.0/33".to_string());
    assert_eq!(c.validate().unwrap_err(), ConfigError::InvalidNetworkEntry);

    let mut c = Config::default();
    c.logging.level = "loud".to_string();
    assert_eq!(c.validate().unwrap_err(), ConfigError::InvalidLogLevel);
    assert_eq!(ConfigError::InvalidLogLevel.message(), "invalid log level");
}

#[test]
fn complete_backends_pass_validation() {
    let mut c = Config::default();
    c.auth.enabled = true;
    c.auth.backend = AuthBackendConfig::Ldap {
        url: "ldap://localhost".to_string(),
        base_dn: "dc=example".to_string(),
        bind_dn: None,
        bind_password: None,
        user_filter: "(uid={})".to_string(),
    };
    assert!(c.validate().is_ok());

    c.auth.backend = AuthBackendConfig::Database {
        db_type: "postgres".to_string(),
        url: "postgres://localhost/x".to_string(),
        query: "SELECT 1".to_string(),
        hash_type: HashType::Argon2,
    };
    assert!(c.validate().is_ok());

    c.auth.backend = AuthBackendConfig::Pam { service: "proxy".to_string() };
    assert!(c.validate().is_ok());
}

#[test]
fn in_config_credentials_check() {
    let mut c = Config::default();
    assert!(c.validate_user("anyone", "anything")); // auth disabled
    c.auth.enabled = true;
    c.auth.users.push(UserCredentials {
        username: "alice".to_string(),
        password: "secret".to_string(),
    });
    assert!(c.validate_user("alice", "secret"));
    assert!(!c.validate_user("alice", "wrong"));
    assert!(!c.validate_user("bob", "secret"));
}

#[test]
fn ipv4_literals() {
    assert!(is_ipv4_literal("127.0.0.1"));
    assert!(is_ipv4_literal("0.0.0.0"));
    assert!(is_ipv4_literal("255.255.255.255"));
    assert!(!is_ipv4_literal("256.0.0.1"));
    assert!(!is_ipv4_literal("1.2.3"));
    assert!(!is_ipv4_literal("1.2.3.4.5"));
    assert!(!is_ipv4_literal("01.2.3.4"));
    assert!(!is_ipv4_literal("1.2.3."));
    assert!(!is_ipv4_literal("a.b.c.d"));
    assert!(!is_ipv4_literal(""));
}

#[test]
fn ipv6_literals() {
    assert!(is_ipv6_literal("::"));
    assert!(is_ipv6_literal("::1"));
    assert!(is_ipv6_literal("2001:db8::1"));
    assert!(is_ipv6_literal("1:2:3:4:5:6:7:8"));
    assert!(is_ipv6_literal("1:2:3:4:5:6:7::"));
    assert!(is_ipv6_literal("::ffff:192.168.0.1"));
    assert!(is_ipv6_literal("fe80::"));
    assert!(!is_ipv6_literal("1:2:3:4:5:6:7:8:9"));
    assert!(!is_ipv6_literal("1:2:3:4:5:6:7:8::"));
    assert!(!is_ipv6_literal("::1:2:3:4:5:6:7:8"));
    assert!(!is_ipv6_literal(":::"));
    assert!(!is_ipv6_literal(":1::2"));
    assert!(!is_ipv6_literal("12345::"));
    assert!(!is_ipv6_literal("1.2.3.4"));
    assert!(!is_ipv6_literal("g::1"));
    assert!(!is_ipv6_literal("192.168.0.1::ffff"));
}

#[test]
fn ip_and_network_entries() {
    assert!(is_ip_literal("10.1.2.3"));
    assert!(is_ip_literal("::1"));
    assert!(!is_ip_literal("10.1.2"));
    assert!(is_network_entry("0.0.0.0/0"));
    assert!(is_network_entry("10.0.0.0/8"));
    assert!(is_network_entry("192.168.1.0/24"));
    assert!(is_network_entry("192.168.1.7"));
    assert!(is_network_entry("2001:db8::1"));
    assert!(!is_network_entry("10.0.0.0/33"));
    assert!(!is_network_entry("10.0.0.0/08"));
    assert!(!is_network_entry("10.0.0/8"));
    assert!(!is_network_entry("banana/8"));
}

#[test]
fn listener_address_text() {
    let config = Config::default();
    assert_eq!(config.socks5_bind_addr(), "127.0.0.1:1080");
    assert_eq!(config.http_bind_addr(), "127.0.0.1:8080");
}
