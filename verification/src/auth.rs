//! The authenticator facade: a single `authenticate` operation over
//! pluggable credential backends, and the outcome policy that keeps
//! infrastructure failures indistinguishable from credential denials on the
//! wire.

use vstd::prelude::*;

use crate::user_config::UserConfig;

verus! {

/// An authentication infrastructure failure: the backend could not be
/// consulted at all. Credential mismatches are not errors.
#[derive(Debug, Clone, Copy, PartialEq, Eq, Structural)]
pub enum AuthError {
    InitFailed,
    BindFailed,
    SearchFailed,
    WorkerPanicked,
    UnsupportedBackend,
}

impl AuthError {
    /// A short description of the error.
    pub fn message(&self) -> (r: &'static str) {
        match self {
            AuthError::InitFailed => "failed to initialize authentication backend",
            AuthError::BindFailed => "backend bind failed",
            AuthError::SearchFailed => "backend search failed",
            AuthError::WorkerPanicked => "authentication worker panicked",
            AuthError::UnsupportedBackend => "unsupported authentication backend",
        }
    }
}

/// Uniform credential check over the configured backend: `Ok(true)` accepts,
/// `Ok(false)` rejects, `Err` reports an infrastructure failure. Each backend
/// states what its outcomes mean through [`Authenticator::spec_auth_ok`].
pub trait Authenticator {
    /// What the backend promises of an authentication outcome.
    spec fn spec_auth_ok(&self, username: Seq<char>, password: Seq<char>, r: Result<
        bool,
        AuthError,
    >) -> bool;

    fn authenticate(&self, username: &str, password: &str) -> (r: Result<bool, AuthError>)
        ensures
            self.spec_auth_ok(username@, password@, r),
    ;
}

/// Whether an authentication outcome grants access: only a definite
/// acceptance does; rejection and infrastructure failure both deny.
pub open spec fn spec_outcome_granted(outcome: Result<bool, AuthError>) -> bool {
    outcome == Ok::<bool, AuthError>(true)
}

/// Collapses an authentication outcome to a grant decision; an `Err` denies
/// exactly like `Ok(false)`, so a client cannot probe backend health.
pub fn outcome_granted(outcome: &Result<bool, AuthError>) -> (r: bool)
    ensures
        r == spec_outcome_granted(*outcome),
{
    match outcome {
        Ok(granted) => *granted,
        Err(_) => false,
    }
}

/// The backend that checks against a hashed-user credential file.
pub struct SimpleAuthenticator {
    pub user_config: UserConfig,
}

impl SimpleAuthenticator {
    pub fn new(user_config: UserConfig) -> (r: Self)
        ensures
            r.user_config == user_config,
    {
        SimpleAuthenticator { user_config }
    }
}

impl Authenticator for SimpleAuthenticator {
    /// This backend never errs, and on a store with unique usernames the
    /// outcome is exactly the store's answer.
    open spec fn spec_auth_ok(&self, username: Seq<char>, password: Seq<char>, r: Result<
        bool,
        AuthError,
    >) -> bool {
        &&& r is Ok
        &&& self.user_config.wf() ==> r == Ok::<bool, AuthError>(
            self.user_config.spec_verify_password(username, password),
        )
    }

    fn authenticate(&self, username: &str, password: &str) -> (r: Result<bool, AuthError>) {
        if !self.user_config_is_wf() {
            return Ok(false);
        }
        Ok(self.user_config.verify_password(username, password))
    }
}

impl SimpleAuthenticator {
    /// Checks the unique-username invariant at run time, so the trait entry
    /// point can be called on any store an unverified caller built.
    pub fn user_config_is_wf(&self) -> (r: bool)
        ensures
            r == self.user_config.wf(),
    {
        let n = self.user_config.users.len();
        for i in 0..n
            invariant
                n == self.user_config.users@.len(),
                forall|p: int, q: int|
                    0 <= p < q < i ==> (#[trigger] self.user_config.users@[p]).0@ != (
                    #[trigger] self.user_config.users@[q]).0@,
        {
            for j in 0..i
                invariant
                    n == self.user_config.users@.len(),
                    i < n,
                    forall|p: int, q: int|
                        0 <= p < q < i ==> (#[trigger] self.user_config.users@[p]).0@ != (
                        #[trigger] self.user_config.users@[q]).0@,
                    forall|p: int|
                        0 <= p < j ==> (#[trigger] self.user_config.users@[p]).0@
                            != self.user_config.users@[i as int].0@,
            {
                if self.user_config.users[j].0 == self.user_config.users[i].0 {
                    return false;
                }
            }
        }
        true
    }

    /// The answer for a well-formed store, stated exactly.
    pub fn check(&self, username: &str, password: &str) -> (r: bool)
        requires
            self.user_config.wf(),
        ensures
            r == self.user_config.spec_verify_password(username@, password@),
    {
        self.user_config.verify_password(username, password)
    }
}

/// The PAM backend: holds the service name; the platform conversation runs
/// on a blocking worker outside the library.
pub struct PamAuthenticator {
    pub service: String,
}

impl PamAuthenticator {
    pub fn new(service: &str) -> (r: Self)
        ensures
            r.service@ == service@,
    {
        PamAuthenticator { service: String::from_str(service) }
    }
}

/// What the PAM conversation reported.
#[derive(Debug, Clone, Copy, PartialEq, Eq, Structural)]
pub enum PamOutcome {
    InitFailed,
    AuthFailed,
    AuthSucceeded,
    WorkerPanicked,
}

/// Maps a PAM conversation outcome to the facade's result: initialization
/// problems and worker panics are infrastructure errors, an authentication
/// refusal is a plain denial.
pub fn decide_pam_outcome(outcome: &PamOutcome) -> (r: Result<bool, AuthError>)
    ensures
        outcome == PamOutcome::AuthSucceeded ==> r == Ok::<bool, AuthError>(true),
        outcome == PamOutcome::AuthFailed ==> r == Ok::<bool, AuthError>(false),
        outcome == PamOutcome::InitFailed ==> r == Err::<bool, AuthError>(AuthError::InitFailed),
        outcome == PamOutcome::WorkerPanicked ==> r == Err::<bool, AuthError>(
            AuthError::WorkerPanicked,
        ),
{
    match outcome {
        PamOutcome::AuthSucceeded => Ok(true),
        PamOutcome::AuthFailed => Ok(false),
        PamOutcome::InitFailed => Err(AuthError::InitFailed),
        PamOutcome::WorkerPanicked => Err(AuthError::WorkerPanicked),
    }
}

} // verus!
