//! The hashed-user credential store: a mapping from username to a hashed
//! password entry, with verification and the management operations.

use vstd::prelude::*;

use crate::hashes::{
    argon2_verifies, bcrypt_verifies, hash_argon2, hash_bcrypt, hash_scrypt, scrypt_verifies,
    verify_argon2, verify_bcrypt, verify_scrypt,
};
use crate::strutil::{lower_string, spec_lower_chars};

verus! {

broadcast use vstd::string::group_string_axioms;

/// The password-hash scheme a credential file uses.
#[derive(Debug, Clone, Copy, PartialEq, Eq, Structural)]
pub enum HashType {
    Argon2,
    Bcrypt,
    Scrypt,
}

/// One stored user: the hash string, the optional salt that some schemes
/// record beside it, RFC-3339 timestamps, and an enabled flag.
#[derive(Debug, Clone, PartialEq)]
pub struct UserEntry {
    pub password_hash: String,
    pub salt: Option<String>,
    pub created_at: String,
    pub last_modified: String,
    pub enabled: bool,
}

/// The credential file contents: the scheme and the user entries, keyed by
/// username. Usernames are unique (see [`UserConfig::wf`]).
#[derive(Debug, Clone, PartialEq)]
pub struct UserConfig {
    pub hash_type: HashType,
    pub users: Vec<(String, UserEntry)>,
}

/// Errors from validation and the management operations.
#[derive(Debug, Clone, Copy, PartialEq, Eq, Structural)]
pub enum UserConfigError {
    EmptyUsername,
    EmptyPasswordHash,
    UserExists,
    UserNotFound,
    HashFailure,
    UnknownHashType,
}

impl UserConfigError {
    /// A short description of the error.
    pub fn message(&self) -> (r: &'static str) {
        match self {
            UserConfigError::EmptyUsername => "username cannot be empty",
            UserConfigError::EmptyPasswordHash => "password hash cannot be empty",
            UserConfigError::UserExists => "user already exists",
            UserConfigError::UserNotFound => "user not found",
            UserConfigError::HashFailure => "failed to hash password",
            UserConfigError::UnknownHashType => "unknown hash type",
        }
    }
}

/// Whether verification of `password` against `hash` succeeds under the
/// given scheme.
pub open spec fn spec_hash_verifies(ht: HashType, password: Seq<char>, hash: Seq<char>) -> bool {
    match ht {
        HashType::Argon2 => argon2_verifies(password, hash),
        HashType::Bcrypt => bcrypt_verifies(password, hash),
        HashType::Scrypt => scrypt_verifies(password, hash),
    }
}

/// Verifies a password against a hash string under the given scheme.
pub fn verify_hash(ht: HashType, password: &str, hash: &str) -> (r: bool)
    ensures
        r == spec_hash_verifies(ht, password@, hash@),
{
    match ht {
        HashType::Argon2 => verify_argon2(password, hash),
        HashType::Bcrypt => verify_bcrypt(password, hash),
        HashType::Scrypt => verify_scrypt(password, hash),
    }
}

pub open spec fn spec_has_user(users: Seq<(String, UserEntry)>, name: Seq<char>) -> bool {
    exists|i: int| 0 <= i < users.len() && #[trigger] users[i].0@ == name
}

/// The index of the entry for `name`; meaningful only when the name is
/// present and usernames are unique.
pub open spec fn spec_user_index(users: Seq<(String, UserEntry)>, name: Seq<char>) -> int {
    choose|i: int| 0 <= i < users.len() && #[trigger] users[i].0@ == name
}

pub open spec fn spec_user_entry(users: Seq<(String, UserEntry)>, name: Seq<char>) -> UserEntry {
    users[spec_user_index(users, name)].1
}

/// Every entry names a user and carries a hash string.
pub open spec fn spec_valid_entries(users: Seq<(String, UserEntry)>) -> bool {
    forall|i: int|
        0 <= i < users.len() ==> (#[trigger] users[i]).0@.len() > 0
            && users[i].1.password_hash@.len() > 0
}

/// Relies on chrono's `Utc::now().to_rfc3339()`: the current wall-clock time
/// in RFC-3339 form. The value depends on the clock, so only non-emptiness
/// is stated.
#[verifier::external_body]
fn now_rfc3339() -> (r: String)
    ensures
        r@.len() > 0,
{
    chrono::Utc::now().to_rfc3339()
}

/// Finds the entry for `username`; with unique names the index found is the
/// index every contract speaks of.
fn find_user_index(users: &Vec<(String, UserEntry)>, username: &String) -> (r: Option<usize>)
    requires
        forall|i: int, j: int|
            0 <= i < j < users@.len() ==> (#[trigger] users@[i]).0@ != (#[trigger] users@[j]).0@,
    ensures
        match r {
            Some(i) => i < users@.len() && users@[i as int].0@ == username@ && spec_has_user(
                users@,
                username@,
            ) && i as int == spec_user_index(users@, username@),
            None => !spec_has_user(users@, username@),
        },
{
    let n = users.len();
    for i in 0..n
        invariant
            n == users@.len(),
            forall|k: int| 0 <= k < i ==> (#[trigger] users@[k]).0@ != username@,
            forall|p: int, q: int|
                0 <= p < q < users@.len() ==> (#[trigger] users@[p]).0@ != (
                #[trigger] users@[q]).0@,
    {
        if users[i].0 == *username {
            proof {
                let j = spec_user_index(users@, username@);
                assert(users@[i as int].0@ == username@);
                assert(0 <= j < users@.len() && users@[j].0@ == username@);
                assert(i as int == j);
            }
            return Some(i);
        }
    }
    None
}

impl UserConfig {
    /// Usernames are unique; the store behaves as a mapping.
    pub open spec fn wf(self) -> bool {
        forall|i: int, j: int|
            0 <= i < j < self.users@.len() ==> (#[trigger] self.users@[i]).0@ != (
            #[trigger] self.users@[j]).0@
    }

    /// Whether `password` verifies for `user`: the user must exist, be
    /// enabled, and the stored hash must verify under the configured scheme.
    pub open spec fn spec_verify_password(self, user: Seq<char>, pass: Seq<char>) -> bool {
        &&& spec_has_user(self.users@, user)
        &&& spec_user_entry(self.users@, user).enabled
        &&& spec_hash_verifies(
            self.hash_type,
            pass,
            spec_user_entry(self.users@, user).password_hash@,
        )
    }

    /// Checks that no username is empty and every entry has a hash string.
    pub fn validate(&self) -> (r: Result<(), UserConfigError>)
        ensures
            r is Ok <==> spec_valid_entries(self.users@),
            r matches Err(e) ==> (e == UserConfigError::EmptyUsername || e
                == UserConfigError::EmptyPasswordHash),
    {
        let n = self.users.len();
        for i in 0..n
            invariant
                n == self.users@.len(),
                forall|k: int|
                    0 <= k < i ==> (#[trigger] self.users@[k]).0@.len() > 0
                        && self.users@[k].1.password_hash@.len() > 0,
        {
            if self.users[i].0.as_str().is_empty() {
                return Err(UserConfigError::EmptyUsername);
            }
            if self.users[i].1.password_hash.as_str().is_empty() {
                return Err(UserConfigError::EmptyPasswordHash);
            }
        }
        Ok(())
    }

    /// Hashes a password under the configured scheme, returning the hash
    /// string and the salt string, where the scheme records one.
    pub fn hash_password(&self, password: &str) -> (r: Result<
        (String, Option<String>),
        UserConfigError,
    >)
        ensures
            r matches Ok(p) ==> spec_hash_verifies(self.hash_type, password@, p.0@),
            r matches Ok(p) ==> (p.1 is Some <==> self.hash_type == HashType::Scrypt),
            r matches Err(e) ==> e == UserConfigError::HashFailure,
    {
        match self.hash_type {
            HashType::Argon2 => match hash_argon2(password) {
                Some(h) => Ok((h, None)),
                None => Err(UserConfigError::HashFailure),
            },
            HashType::Bcrypt => match hash_bcrypt(password) {
                Some(h) => Ok((h, None)),
                None => Err(UserConfigError::HashFailure),
            },
            HashType::Scrypt => match hash_scrypt(password) {
                Some(p) => Ok((p.0, Some(p.1))),
                None => Err(UserConfigError::HashFailure),
            },
        }
    }

    /// Inserts a ready-made entry for a new user: both timestamps are set to
    /// `timestamp` and the user starts enabled. Fails exactly when the
    /// username is already present.
    pub fn insert_user(
        &mut self,
        username: String,
        password_hash: String,
        salt: Option<String>,
        timestamp: String,
    ) -> (r: Result<(), UserConfigError>)
        requires
            old(self).wf(),
        ensures
            final(self).wf(),
            final(self).hash_type == old(self).hash_type,
            r is Err <==> spec_has_user(old(self).users@, username@),
            r matches Err(e) ==> e == UserConfigError::UserExists && *final(self) == *old(self),
            r is Ok ==> final(self).users@ == old(self).users@.push(
                (
                    username,
                    UserEntry {
                        password_hash,
                        salt,
                        created_at: timestamp,
                        last_modified: timestamp,
                        enabled: true,
                    },
                ),
            ),
    {
        if find_user_index(&self.users, &username).is_some() {
            return Err(UserConfigError::UserExists);
        }
        let entry = UserEntry {
            password_hash,
            salt,
            created_at: timestamp.clone(),
            last_modified: timestamp,
            enabled: true,
        };
        self.users.push((username, entry));
        proof {
            assert forall|i: int, j: int| 0 <= i < j < self.users@.len() implies (
            #[trigger] self.users@[i]).0@ != (#[trigger] self.users@[j]).0@ by {
                if j == self.users@.len() - 1 {
                    assert(!spec_has_user(old(self).users@, self.users@[j].0@));
                }
            }
        }
        Ok(())
    }

    /// Adds a new user: hashes the password under the configured scheme and
    /// stores the entry with fresh timestamps, enabled. Fails with
    /// `UserExists` exactly when the name is taken; hashing itself may also
    /// fail.
    pub fn add_user(&mut self, username: String, password: &str) -> (r: Result<
        (),
        UserConfigError,
    >)
        requires
            old(self).wf(),
        ensures
            final(self).wf(),
            final(self).hash_type == old(self).hash_type,
            (r matches Err(e) && e == UserConfigError::UserExists) <==> spec_has_user(
                old(self).users@,
                username@,
            ),
            r is Err ==> *final(self) == *old(self),
            r is Ok ==> {
                &&& final(self).users@.len() == old(self).users@.len() + 1
                &&& final(self).users@.subrange(0, old(self).users@.len() as int) == old(self).users@
                &&& final(self).users@.last().0@ == username@
                &&& final(self).users@.last().1.enabled
                &&& final(self).users@.last().1.created_at == final(self).users@.last().1.last_modified
                &&& spec_hash_verifies(
                    final(self).hash_type,
                    password@,
                    final(self).users@.last().1.password_hash@,
                )
            },
    {
        if find_user_index(&self.users, &username).is_some() {
            return Err(UserConfigError::UserExists);
        }
        let (password_hash, salt) = match self.hash_password(password) {
            Ok(p) => p,
            Err(e) => {
                return Err(e);
            },
        };
        let now = now_rfc3339();
        let ghost prior = self.users@;
        let r = self.insert_user(username, password_hash, salt, now);
        proof {
            assert(r is Ok);
            assert(self.users@.subrange(0, prior.len() as int) =~= prior);
        }
        Ok(())
    }

    /// Removes a user; fails exactly when the name is absent.
    pub fn remove_user(&mut self, username: &str) -> (r: Result<(), UserConfigError>)
        requires
            old(self).wf(),
        ensures
            final(self).wf(),
            final(self).hash_type == old(self).hash_type,
            r is Err <==> !spec_has_user(old(self).users@, username@),
            r matches Err(e) ==> e == UserConfigError::UserNotFound && *final(self) == *old(self),
            r is Ok ==> final(self).users@ == old(self).users@.remove(
                spec_user_index(old(self).users@, username@),
            ),
    {
        let name = String::from_str(username);
        match find_user_index(&self.users, &name) {
            Some(i) => {
                self.users.remove(i);
                proof {
                    assert forall|p: int, q: int| 0 <= p < q < self.users@.len() implies (
                    #[trigger] self.users@[p]).0@ != (#[trigger] self.users@[q]).0@ by {
                        let a: int = if p < i as int {
                            p
                        } else {
                            p + 1
                        };
                        let b: int = if q < i as int {
                            q
                        } else {
                            q + 1
                        };
                        assert(old(self).users@[a].0@ != old(self).users@[b].0@);
                    }
                }
                Ok(())
            },
            None => Err(UserConfigError::UserNotFound),
        }
    }

    /// Replaces a user's password hash under the configured scheme and
    /// re-stamps `last_modified`; fails with `UserNotFound` exactly when the
    /// name is absent, and hashing itself may also fail.
    pub fn update_password(&mut self, username: &str, new_password: &str) -> (r: Result<
        (),
        UserConfigError,
    >)
        requires
            old(self).wf(),
        ensures
            final(self).wf(),
            final(self).hash_type == old(self).hash_type,
            (r matches Err(e) && e == UserConfigError::UserNotFound) <==> !spec_has_user(
                old(self).users@,
                username@,
            ),
            r is Err ==> *final(self) == *old(self),
            r is Ok ==> {
                let i = spec_user_index(old(self).users@, username@);
                let e = old(self).users@[i].1;
                &&& final(self).users@.len() == old(self).users@.len()
                &&& forall|k: int|
                    0 <= k < final(self).users@.len() && k != i ==> final(self).users@[k] == old(self).users@[k]
                &&& final(self).users@[i].0 == old(self).users@[i].0
                &&& final(self).users@[i].1.enabled == e.enabled
                &&& final(self).users@[i].1.created_at == e.created_at
                &&& spec_hash_verifies(
                    final(self).hash_type,
                    new_password@,
                    final(self).users@[i].1.password_hash@,
                )
            },
    {
        let name = String::from_str(username);
        let idx = match find_user_index(&self.users, &name) {
            Some(i) => i,
            None => {
                return Err(UserConfigError::UserNotFound);
            },
        };
        let (password_hash, salt) = match self.hash_password(new_password) {
            Ok(p) => p,
            Err(e) => {
                return Err(e);
            },
        };
        let now = now_rfc3339();
        let old_pair = &self.users[idx];
        let updated = (
            old_pair.0.clone(),
            UserEntry {
                password_hash,
                salt,
                created_at: old_pair.1.created_at.clone(),
                last_modified: now,
                enabled: old_pair.1.enabled,
            },
        );
        self.users.set(idx, updated);
        proof {
            assert forall|p: int, q: int| 0 <= p < q < self.users@.len() implies (
            #[trigger] self.users@[p]).0@ != (#[trigger] self.users@[q]).0@ by {
                assert(old(self).users@[p].0@ != old(self).users@[q].0@);
            }
        }
        Ok(())
    }

    /// Sets a user's enabled flag and re-stamps `last_modified`; fails
    /// exactly when the name is absent.
    pub fn enable_user(&mut self, username: &str, enabled: bool) -> (r: Result<
        (),
        UserConfigError,
    >)
        requires
            old(self).wf(),
        ensures
            final(self).wf(),
            final(self).hash_type == old(self).hash_type,
            r is Err <==> !spec_has_user(old(self).users@, username@),
            r matches Err(e) ==> e == UserConfigError::UserNotFound && *final(self) == *old(self),
            r is Ok ==> {
                let i = spec_user_index(old(self).users@, username@);
                let e = old(self).users@[i].1;
                &&& final(self).users@.len() == old(self).users@.len()
                &&& forall|k: int|
                    0 <= k < final(self).users@.len() && k != i ==> final(self).users@[k] == old(self).users@[k]
                &&& final(self).users@[i].0 == old(self).users@[i].0
                &&& final(self).users@[i].1.enabled == enabled
                &&& final(self).users@[i].1.password_hash == e.password_hash
                &&& final(self).users@[i].1.salt == e.salt
                &&& final(self).users@[i].1.created_at == e.created_at
            },
    {
        let name = String::from_str(username);
        let idx = match find_user_index(&self.users, &name) {
            Some(i) => i,
            None => {
                return Err(UserConfigError::UserNotFound);
            },
        };
        let now = now_rfc3339();
        let old_pair = &self.users[idx];
        let updated = (
            old_pair.0.clone(),
            UserEntry {
                password_hash: old_pair.1.password_hash.clone(),
                salt: old_pair.1.salt.clone(),
                created_at: old_pair.1.created_at.clone(),
                last_modified: now,
                enabled,
            },
        );
        self.users.set(idx, updated);
        proof {
            assert forall|p: int, q: int| 0 <= p < q < self.users@.len() implies (
            #[trigger] self.users@[p]).0@ != (#[trigger] self.users@[q]).0@ by {
                assert(old(self).users@[p].0@ != old(self).users@[q].0@);
            }
        }
        Ok(())
    }

    /// Whether `password` verifies for `username`: false when the user is
    /// missing or disabled, otherwise the verifier's answer on the stored
    /// hash under the configured scheme.
    pub fn verify_password(&self, username: &str, password: &str) -> (r: bool)
        requires
            self.wf(),
        ensures
            r == self.spec_verify_password(username@, password@),
    {
        let name = String::from_str(username);
        match find_user_index(&self.users, &name) {
            Some(i) => {
                let entry = &self.users[i].1;
                if !entry.enabled {
                    false
                } else {
                    verify_hash(self.hash_type, password, entry.password_hash.as_str())
                }
            },
            None => false,
        }
    }
}

impl Default for UserConfig {
    /// An empty store using argon2.
    fn default() -> (r: Self)
        ensures
            r.hash_type == HashType::Argon2,
            r.users@.len() == 0,
            r.wf(),
    {
        UserConfig { hash_type: HashType::Argon2, users: Vec::new() }
    }
}

/// The three scheme names differ from each other.
proof fn lemma_hash_type_names_distinct()
    ensures
        "argon2"@ != "bcrypt"@,
        "argon2"@ != "scrypt"@,
        "bcrypt"@ != "scrypt"@,
{
    reveal_strlit("argon2");
    reveal_strlit("bcrypt");
    reveal_strlit("scrypt");
    assert("argon2"@[0] == 'a');
    assert("bcrypt"@[0] == 'b');
    assert("scrypt"@[0] == 's');
}

/// Parses a hash-type name, ASCII case-insensitively: `argon2`, `bcrypt` or
/// `scrypt`.
pub fn parse_hash_type(hash_type_str: &str) -> (r: Result<HashType, UserConfigError>)
    ensures
        r == Ok::<HashType, UserConfigError>(HashType::Argon2) <==> spec_lower_chars(
            hash_type_str@,
        ) == "argon2"@,
        r == Ok::<HashType, UserConfigError>(HashType::Bcrypt) <==> spec_lower_chars(
            hash_type_str@,
        ) == "bcrypt"@,
        r == Ok::<HashType, UserConfigError>(HashType::Scrypt) <==> spec_lower_chars(
            hash_type_str@,
        ) == "scrypt"@,
        r matches Err(e) ==> e == UserConfigError::UnknownHashType,
{
    proof {
        lemma_hash_type_names_distinct();
    }
    let lowered = lower_string(hash_type_str);
    if lowered == String::from_str("argon2") {
        Ok(HashType::Argon2)
    } else if lowered == String::from_str("bcrypt") {
        Ok(HashType::Bcrypt)
    } else if lowered == String::from_str("scrypt") {
        Ok(HashType::Scrypt)
    } else {
        Err(UserConfigError::UnknownHashType)
    }
}

} // verus!
