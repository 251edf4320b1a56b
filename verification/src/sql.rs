//! The SQL lookup-then-compare backend: which engine a connection string
//! names, and the decision on a fetched hash row. The query itself runs on a
//! connection pool outside the library and its outcome is reported back in.

use vstd::prelude::*;

use crate::auth::AuthError;
use crate::strutil::{lower_string, spec_lower_chars};
use crate::user_config::{spec_hash_verifies, verify_hash, HashType};

verus! {

broadcast use vstd::string::group_string_axioms;

/// Which database engine serves the credential query.
#[derive(Debug, Clone, Copy, PartialEq, Eq, Structural)]
pub enum DatabaseBackend {
    MySql,
    Postgres,
}

/// What the credential query reported: the stored hash for the user, no such
/// row, or a database failure.
#[derive(Debug, Clone, PartialEq)]
pub enum SqlQueryOutcome {
    Row(String),
    NoRow,
    QueryError,
}

/// The lookup-then-compare backend's settings: the engine, the parameterized
/// query with the username as its sole bound parameter, and the hash scheme
/// the stored column uses.
#[derive(Debug, Clone, PartialEq)]
pub struct SqlAuthenticator {
    pub backend: DatabaseBackend,
    pub query: String,
    pub hash_type: HashType,
}

/// The engine named by a database-type string, ASCII case-insensitively:
/// `mysql`, or `postgres` under any of its three accepted spellings.
pub open spec fn spec_parse_db_type(s: Seq<char>) -> Option<DatabaseBackend> {
    let l = spec_lower_chars(s);
    if l == "mysql"@ {
        Some(DatabaseBackend::MySql)
    } else if l == "postgres"@ || l == "pgsql"@ || l == "postgresql"@ {
        Some(DatabaseBackend::Postgres)
    } else {
        None
    }
}

/// Parses a database-type string.
pub fn parse_db_type(s: &str) -> (r: Option<DatabaseBackend>)
    ensures
        r == spec_parse_db_type(s@),
{
    proof {
        reveal_strlit("mysql");
        reveal_strlit("postgres");
        reveal_strlit("pgsql");
        reveal_strlit("postgresql");
        assert("mysql"@.len() == 5);
        assert("postgres"@.len() == 8);
        assert("pgsql"@.len() == 5);
        assert("postgresql"@.len() == 10);
        assert("mysql"@[0] == 'm');
        assert("pgsql"@[0] == 'p');
        assert("postgres"@[1] == 'o');
        assert("pgsql"@[1] == 'g');
    }
    let l = lower_string(s);
    if l == String::from_str("mysql") {
        Some(DatabaseBackend::MySql)
    } else if l == String::from_str("postgres") || l == String::from_str("pgsql") || l
        == String::from_str("postgresql") {
        Some(DatabaseBackend::Postgres)
    } else {
        None
    }
}

impl SqlAuthenticator {
    /// Builds the backend's settings; an unrecognized engine name is an
    /// infrastructure error, reported exactly when
    /// [`spec_parse_db_type`] has no answer.
    pub fn new(db_type: &str, query: &str, hash_type: HashType) -> (r: Result<Self, AuthError>)
        ensures
            match r {
                Ok(a) => spec_parse_db_type(db_type@) == Some(a.backend) && a.query@ == query@
                    && a.hash_type == hash_type,
                Err(e) => spec_parse_db_type(db_type@) is None && e
                    == AuthError::UnsupportedBackend,
            },
    {
        match parse_db_type(db_type) {
            Some(backend) => Ok(
                SqlAuthenticator { backend, query: String::from_str(query), hash_type },
            ),
            None => Err(AuthError::UnsupportedBackend),
        }
    }

    /// The decision on a query outcome: a fetched hash is compared under the
    /// configured scheme; a missing row denies; a database failure also
    /// denies, so backend health cannot be probed through authentication.
    pub fn decide_query_outcome(&self, password: &str, outcome: &SqlQueryOutcome) -> (r: Result<
        bool,
        AuthError,
    >)
        ensures
            match outcome {
                SqlQueryOutcome::Row(h) => r == Ok::<bool, AuthError>(
                    spec_hash_verifies(self.hash_type, password@, h@),
                ),
                SqlQueryOutcome::NoRow => r == Ok::<bool, AuthError>(false),
                SqlQueryOutcome::QueryError => r == Ok::<bool, AuthError>(false),
            },
    {
        match outcome {
            SqlQueryOutcome::Row(hash) => Ok(
                verify_hash(self.hash_type, password, hash.as_str()),
            ),
            SqlQueryOutcome::NoRow => Ok(false),
            SqlQueryOutcome::QueryError => Ok(false),
        }
    }
}

} // verus!
