[package]
name = "rust_socksd"
version = "0.1.0"
edition = "2021"
publish = false

[dependencies]
anyhow = "=1.0.104"
argon2 = "=0.6.0"
async-trait = "=0.1.92"
bcrypt = "=0.19.3"
chrono = "=0.4.45"
clap = "=4.6.7"
ldap3 = { version = "=0.12.1", default-features = false }
scrypt = { version = "=0.12.0", features = ["phc", "getrandom"] }
serde = { version = "=1.0.229", features = ["derive"] }
serde_yaml = "=0.9.34"
sqlx = { version = "=0.9.0", features = ["runtime-tokio", "mysql", "postgres"] }
tokio = { version = "=1.53.2", features = ["full"] }
tracing = "=0.1.44"
tracing-appender = "=0.2.5"
tracing-journald = "=0.3.2"
tracing-subscriber = { version = "=0.3.23", features = ["env-filter"] }
trust-dns-resolver = "=0.23.2"
