//! A dual-protocol forward proxy library: the SOCKS5 negotiation state
//! machine and codec, the HTTP CONNECT and absolute-URI request parser,
//! credential verification over pluggable backends, the admission policy,
//! and the relay's data path — the protocol logic, verified.

pub mod auth;
pub mod base64;
pub mod config;
pub mod dispatch;
pub mod hashes;
pub mod http_proxy;
pub mod ldap;
pub mod netaddr;
pub mod relay;
pub mod socks5;
pub mod sql;
pub mod strutil;
pub mod user_config;
pub mod user_file;

pub use config::Config;
pub use user_config::{HashType, UserConfig};
