use rust_socksd::auth::{
    decide_pam_outcome, outcome_granted, AuthError, Authenticator, PamAuthenticator, PamOutcome,
    SimpleAuthenticator,
};
use rust_socksd::ldap::{LdapAuthenticator, LdapSearchDecision};
use rust_socksd::sql::{parse_db_type, DatabaseBackend, SqlAuthenticator, SqlQueryOutcome};
use rust_socksd::user_config::{HashType, UserConfig};

#[test]
fn ldap_injection_attempt_is_neutralized() {
    // Username `admin)(uid=*` under the filter `(uid={})`.
    let escaped = LdapAuthenticator::escape_filter_value("admin)(uid=*");
    assert_eq!(escaped, "admin\\29\\28uid=\\2a");
    let auth = LdapAuthenticator::new("ldap://localhost", "dc=example,dc=org", None, None, "(uid={})");
    let filter = auth.substituted_filter("admin)(uid=*");
    assert_eq!(filter, "(uid=admin\\29\\28uid=\\2a)");
    // No entry matches such a filter: zero results reject the user.
    assert_eq!(LdapAuthenticator::decide_search(0), LdapSearchDecision::RejectNoMatch);
    assert_eq!(LdapAuthenticator::decide_verify_bind(None), Ok(false));
}

#[test]
fn ldap_escaping_covers_every_special() {
    assert_eq!(LdapAuthenticator::escape_filter_value("a*b"), "a\\2ab");
    assert_eq!(LdapAuthenticator::escape_filter_value("(x)"), "\\28x\\29");
    assert_eq!(LdapAuthenticator::escape_filter_value("a\\b"), "a\\5cb");
    assert_eq!(LdapAuthenticator::escape_filter_value("a\u{0}b"), "a\\00b");
    assert_eq!(LdapAuthenticator::escape_filter_value("plain"), "plain");
    assert_eq!(LdapAuthenticator::escape_filter_value(""), "");
}

#[test]
fn ldap_decisions() {
    assert_eq!(LdapAuthenticator::decide_search(1), LdapSearchDecision::VerifyBind);
    assert_eq!(LdapAuthenticator::decide_search(2), LdapSearchDecision::RejectAmbiguous);
    assert_eq!(LdapAuthenticator::decide_initial_bind(true), Ok(()));
    assert_eq!(LdapAuthenticator::decide_initial_bind(false), Err(AuthError::BindFailed));
    assert_eq!(LdapAuthenticator::decide_verify_bind(Some(true)), Ok(true));
    assert_eq!(LdapAuthenticator::decide_verify_bind(Some(false)), Ok(false));
    let auth = LdapAuthenticator::new("u", "b", Some("cn=admin".to_string()), None, "(cn={})");
    assert_eq!(auth.bind_dn.as_deref(), Some("cn=admin"));
}

#[test]
fn pam_outcomes_map_to_facade_results() {
    assert_eq!(decide_pam_outcome(&PamOutcome::AuthSucceeded), Ok(true));
    assert_eq!(decide_pam_outcome(&PamOutcome::AuthFailed), Ok(false));
    assert_eq!(decide_pam_outcome(&PamOutcome::InitFailed), Err(AuthError::InitFailed));
    assert_eq!(
        decide_pam_outcome(&PamOutcome::WorkerPanicked),
        Err(AuthError::WorkerPanicked)
    );
    let pam = PamAuthenticator::new("sshd");
    assert_eq!(pam.service, "sshd");
}

#[test]
fn database_type_names() {
    assert_eq!(parse_db_type("mysql"), Some(DatabaseBackend::MySql));
    assert_eq!(parse_db_type("MySQL"), Some(DatabaseBackend::MySql));
    assert_eq!(parse_db_type("postgres"), Some(DatabaseBackend::Postgres));
    assert_eq!(parse_db_type("PGSQL"), Some(DatabaseBackend::Postgres));
    assert_eq!(parse_db_type("PostgreSQL"), Some(DatabaseBackend::Postgres));
    assert_eq!(parse_db_type("sqlite"), None);
    assert!(matches!(
        SqlAuthenticator::new("oracle", "q", HashType::Bcrypt),
        Err(AuthError::UnsupportedBackend)
    ));
}

#[test]
fn sql_outcomes_deny_on_missing_rows_and_errors_alike() {
    let auth = SqlAuthenticator::new(
        "postgres",
        "SELECT password_hash FROM users WHERE username = $1",
        HashType::Bcrypt,
    )
    .unwrap();
    assert_eq!(auth.decide_query_outcome("pw", &SqlQueryOutcome::NoRow), Ok(false));
    assert_eq!(auth.decide_query_outcome("pw", &SqlQueryOutcome::QueryError), Ok(false));

    // With a real hash row the answer is the verifier's.
    let store = UserConfig { hash_type: HashType::Bcrypt, users: Vec::new() };
    let (hash, _) = store.hash_password("pw").unwrap();
    assert_eq!(auth.decide_query_outcome("pw", &SqlQueryOutcome::Row(hash.clone())), Ok(true));
    assert_eq!(auth.decide_query_outcome("other", &SqlQueryOutcome::Row(hash)), Ok(false));
}

#[test]
fn simple_authenticator_delegates_to_the_store() {
    let mut store = UserConfig::default();
    store.hash_type = HashType::Bcrypt;
    store.add_user("alice".to_string(), "sec").unwrap();
    let auth = SimpleAuthenticator::new(store);
    assert_eq!(auth.authenticate("alice", "sec"), Ok(true));
    assert_eq!(auth.authenticate("alice", "wrong"), Ok(false));
    assert_eq!(auth.authenticate("nobody", "sec"), Ok(false));
    assert!(auth.check("alice", "sec"));
}

#[test]
fn loaded_store_authenticates_through_the_facade() {
    // A credential file parsed by the verified document parser carries the
    // unique-name invariant, so the facade's answer is the store's.
    let mut source = UserConfig::default();
    source.hash_type = HashType::Bcrypt;
    source.add_user("alice".to_string(), "sec").unwrap();
    let lines = rust_socksd::user_file::render_user_file(&source);
    let loaded = rust_socksd::user_file::parse_user_file(&lines).unwrap();
    let auth = SimpleAuthenticator::new(loaded);
    assert_eq!(auth.authenticate("alice", "sec"), Ok(true));
    assert_eq!(auth.authenticate("alice", "nope"), Ok(false));
    assert_eq!(auth.authenticate("mallory", "sec"), Ok(false));
}

#[test]
fn outcome_gate_denies_errors_exactly_like_rejections() {
    assert!(outcome_granted(&Ok(true)));
    assert!(!outcome_granted(&Ok(false)));
    assert!(!outcome_granted(&Err(AuthError::SearchFailed)));
    assert_eq!(AuthError::InitFailed.message(), "failed to initialize authentication backend");
}
