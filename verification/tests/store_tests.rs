use rust_socksd::user_config::{
    parse_hash_type, HashType, UserConfig, UserConfigError, UserEntry,
};
use scrypt::password_hash::PasswordHasher;

#[test]
fn add_then_verify_round_trip_argon2() {
    let mut store = UserConfig::default();
    assert_eq!(store.hash_type, HashType::Argon2);
    store.add_user("alice".to_string(), "correct horse").unwrap();
    assert!(store.verify_password("alice", "correct horse"));
    assert!(!store.verify_password("alice", "wrong"));
    assert!(!store.verify_password("bob", "correct horse"));
    let entry = &store.users[0];
    assert_eq!(entry.0, "alice");
    assert!(entry.1.enabled);
    assert!(!entry.1.created_at.is_empty());
    assert_eq!(entry.1.created_at, entry.1.last_modified);
}

#[test]
fn add_then_verify_round_trip_bcrypt() {
    let mut store = UserConfig::default();
    store.hash_type = HashType::Bcrypt;
    store.add_user("bob".to_string(), "pa55").unwrap();
    assert!(store.verify_password("bob", "pa55"));
    assert!(!store.verify_password("bob", "pa56"));
}

#[test]
fn scrypt_hash_from_the_crate_verifies_through_the_store() {
    // Light parameters keep the derivation fast; the hash is computed by the
    // scrypt crate itself and checked through the library.
    let params = scrypt::Params::new(8, 8, 1).unwrap();
    let hashed = scrypt::Scrypt::new_with_params(params)
        .hash_password_with_salt(b"s3cret", b"0123456789abcdef")
        .unwrap()
        .to_string();
    let mut store = UserConfig { hash_type: HashType::Scrypt, users: Vec::new() };
    store
        .insert_user(
            "carol".to_string(),
            hashed,
            None,
            "2024-01-01T00:00:00+00:00".to_string(),
        )
        .unwrap();
    assert!(store.verify_password("carol", "s3cret"));
    assert!(!store.verify_password("carol", "S3cret"));
}

#[test]
fn scrypt_fixed_vector_verifies() {
    // PHC-format scrypt test vector for the password `password`.
    let store = UserConfig { hash_type: HashType::Scrypt, users: Vec::new() };
    let hash = "$scrypt$ln=16,r=8,p=1$aM15713r3Xsvxbi31lqr1Q$nFNh2CVHVjNldFVKDHDlm4CbdRSCdEBsjjJxD+iCs5E";
    let mut with_user = store.clone();
    with_user
        .insert_user(
            "dave".to_string(),
            hash.to_string(),
            None,
            "2024-01-01T00:00:00+00:00".to_string(),
        )
        .unwrap();
    assert!(with_user.verify_password("dave", "password"));
    assert!(!with_user.verify_password("dave", "invalid"));
}

#[test]
fn garbage_hash_strings_never_verify() {
    let mut store = UserConfig::default();
    store
        .insert_user(
            "eve".to_string(),
            "not-a-phc-string".to_string(),
            None,
            "2024-01-01T00:00:00+00:00".to_string(),
        )
        .unwrap();
    assert!(!store.verify_password("eve", "anything"));
}

#[test]
fn disabled_users_always_fail() {
    let mut store = UserConfig::default();
    store.hash_type = HashType::Bcrypt;
    store.add_user("frank".to_string(), "pw").unwrap();
    assert!(store.verify_password("frank", "pw"));
    store.enable_user("frank", false).unwrap();
    assert!(!store.verify_password("frank", "pw"));
    store.enable_user("frank", true).unwrap();
    assert!(store.verify_password("frank", "pw"));
    assert_eq!(store.enable_user("ghost", true), Err(UserConfigError::UserNotFound));
}

#[test]
fn duplicate_and_missing_users_are_errors() {
    let mut store = UserConfig::default();
    store.hash_type = HashType::Bcrypt;
    store.add_user("alice".to_string(), "one").unwrap();
    assert_eq!(
        store.add_user("alice".to_string(), "two"),
        Err(UserConfigError::UserExists)
    );
    assert_eq!(store.remove_user("nobody"), Err(UserConfigError::UserNotFound));
    store.remove_user("alice").unwrap();
    assert!(store.users.is_empty());
}

#[test]
fn update_password_replaces_the_hash() {
    let mut store = UserConfig::default();
    store.hash_type = HashType::Bcrypt;
    store.add_user("gina".to_string(), "old").unwrap();
    let created = store.users[0].1.created_at.clone();
    store.update_password("gina", "new").unwrap();
    assert!(store.verify_password("gina", "new"));
    assert!(!store.verify_password("gina", "old"));
    assert_eq!(store.users[0].1.created_at, created);
    assert_eq!(
        store.update_password("nobody", "x"),
        Err(UserConfigError::UserNotFound)
    );
}

#[test]
fn validation_rejects_empty_fields() {
    let mut store = UserConfig::default();
    assert!(store.validate().is_ok());
    store.users.push((
        "".to_string(),
        UserEntry {
            password_hash: "h".to_string(),
            salt: None,
            created_at: "t".to_string(),
            last_modified: "t".to_string(),
            enabled: true,
        },
    ));
    assert_eq!(store.validate(), Err(UserConfigError::EmptyUsername));
    store.users.clear();
    store.users.push((
        "x".to_string(),
        UserEntry {
            password_hash: "".to_string(),
            salt: None,
            created_at: "t".to_string(),
            last_modified: "t".to_string(),
            enabled: true,
        },
    ));
    assert_eq!(store.validate(), Err(UserConfigError::EmptyPasswordHash));
}

#[test]
fn hash_type_names_parse_case_insensitively() {
    assert_eq!(parse_hash_type("argon2"), Ok(HashType::Argon2));
    assert_eq!(parse_hash_type("Argon2"), Ok(HashType::Argon2));
    assert_eq!(parse_hash_type("BCRYPT"), Ok(HashType::Bcrypt));
    assert_eq!(parse_hash_type("scrypt"), Ok(HashType::Scrypt));
    assert_eq!(parse_hash_type("md5"), Err(UserConfigError::UnknownHashType));
    assert_eq!(parse_hash_type(""), Err(UserConfigError::UnknownHashType));
}

#[test]
fn hash_password_output_verifies_only_the_same_password() {
    let store = UserConfig { hash_type: HashType::Bcrypt, users: Vec::new() };
    let (hash, salt) = store.hash_password("topsecret").unwrap();
    assert!(salt.is_none());
    assert!(!hash.is_empty());
    assert_ne!(hash, "topsecret");
    let other = store.hash_password("topsecret").unwrap().0;
    // Fresh random salts: two hashes of one password differ.
    assert_ne!(hash, other);
}
