use rust_socksd::user_config::{HashType, UserConfig, UserEntry};
use rust_socksd::user_file::{parse_user_file, render_user_file};

fn entry(hash: &str, salt: Option<&str>, enabled: bool) -> UserEntry {
    UserEntry {
        password_hash: hash.to_string(),
        salt: salt.map(|s| s.to_string()),
        created_at: "2024-01-01T00:00:00+00:00".to_string(),
        last_modified: "2024-02-02T12:30:00+00:00".to_string(),
        enabled,
    }
}

fn sample_store() -> UserConfig {
    UserConfig {
        hash_type: HashType::Scrypt,
        users: vec![
            ("alice".to_string(), entry("$argon2id$v=19$m=4096$abc", None, true)),
            ("bob jones".to_string(), entry("$2b$12$abcdefghij", Some("c2FsdA"), false)),
            ("with:colon".to_string(), entry("$scrypt$ln=16$xyz", None, true)),
        ],
    }
}

#[test]
fn user_file_round_trip_preserves_the_structure() {
    let store = sample_store();
    let lines = render_user_file(&store);
    let reloaded = parse_user_file(&lines).unwrap();
    assert_eq!(reloaded, store);
}

#[test]
fn empty_store_round_trips() {
    let store = UserConfig { hash_type: HashType::Argon2, users: Vec::new() };
    let lines = render_user_file(&store);
    assert_eq!(lines, vec!["hash_type: argon2".to_string(), "users:".to_string()]);
    let reloaded = parse_user_file(&lines).unwrap();
    assert_eq!(reloaded, store);
}

#[test]
fn rendered_lines_have_the_documented_shape() {
    let store = UserConfig {
        hash_type: HashType::Bcrypt,
        users: vec![("alice".to_string(), entry("$2b$12$h", None, true))],
    };
    let lines = render_user_file(&store);
    assert_eq!(
        lines,
        vec![
            "hash_type: bcrypt".to_string(),
            "users:".to_string(),
            "  alice:".to_string(),
            "    password_hash: $2b$12$h".to_string(),
            "    salt: ~".to_string(),
            "    created_at: 2024-01-01T00:00:00+00:00".to_string(),
            "    last_modified: 2024-02-02T12:30:00+00:00".to_string(),
            "    enabled: true".to_string(),
        ]
    );
}

#[test]
fn rendered_document_is_readable_yaml() {
    let store = sample_store();
    let text = render_user_file(&store).join("\n");
    let value: serde_yaml::Value = serde_yaml::from_str(&text).unwrap();
    assert_eq!(value["hash_type"].as_str(), Some("scrypt"));
    assert_eq!(
        value["users"]["alice"]["password_hash"].as_str(),
        Some("$argon2id$v=19$m=4096$abc")
    );
    assert!(value["users"]["alice"]["salt"].is_null());
    assert_eq!(value["users"]["bob jones"]["salt"].as_str(), Some("c2FsdA"));
    assert_eq!(value["users"]["bob jones"]["enabled"].as_bool(), Some(false));
    assert_eq!(value["users"]["alice"]["enabled"].as_bool(), Some(true));
    assert_eq!(
        value["users"]["alice"]["created_at"].as_str(),
        Some("2024-01-01T00:00:00+00:00")
    );
}

#[test]
fn malformed_documents_are_rejected() {
    // Wrong header.
    assert!(parse_user_file(&vec!["hash: argon2".to_string(), "users:".to_string()]).is_none());
    // Unknown scheme.
    assert!(parse_user_file(&vec!["hash_type: md5".to_string(), "users:".to_string()]).is_none());
    // Missing users line.
    assert!(parse_user_file(&vec!["hash_type: argon2".to_string()]).is_none());
    // Truncated entry.
    let mut lines = render_user_file(&sample_store());
    lines.pop();
    assert!(parse_user_file(&lines).is_none());
    // A field line with the wrong prefix.
    let mut lines = render_user_file(&sample_store());
    lines[3] = "    passwordhash: x".to_string();
    assert!(parse_user_file(&lines).is_none());
    // A bad enabled value.
    let mut lines = render_user_file(&sample_store());
    lines[7] = "    enabled: yes".to_string();
    assert!(parse_user_file(&lines).is_none());
}

#[test]
fn duplicate_usernames_are_rejected() {
    let store = UserConfig {
        hash_type: HashType::Argon2,
        users: vec![
            ("alice".to_string(), entry("$h1", None, true)),
            ("alice".to_string(), entry("$h2", None, true)),
        ],
    };
    let lines = render_user_file(&store);
    assert!(parse_user_file(&lines).is_none());
}

#[test]
fn null_is_also_read_as_an_absent_salt() {
    let store = UserConfig {
        hash_type: HashType::Argon2,
        users: vec![("dora".to_string(), entry("$h", None, true))],
    };
    let mut lines = render_user_file(&store);
    lines[4] = "    salt: null".to_string();
    let reloaded = parse_user_file(&lines).unwrap();
    assert_eq!(reloaded.users[0].1.salt, None);
}

#[test]
fn tilde_stands_for_an_absent_salt() {
    // The document reserves `~` for a missing salt, so a literal tilde salt
    // comes back as absent.
    let store = UserConfig {
        hash_type: HashType::Argon2,
        users: vec![("carol".to_string(), entry("$h", Some("~"), true))],
    };
    let lines = render_user_file(&store);
    let reloaded = parse_user_file(&lines).unwrap();
    assert_eq!(reloaded.users[0].1.salt, None);
}
