//! The credential contract: the types an authentication provider speaks in.
//!
//! A provider leases bearer tokens for outbound GitHub calls and is told what
//! quota each one has left. Nothing here holds a token longer than a
//! [`Credential`], and nothing prints one.

use crate::strings::{decimal, push_decimal, push_str};
use core::time::Duration;
use std::time::{SystemTime, SystemTimeError, UNIX_EPOCH};
use vstd::prelude::*;

verus! {

/// GitHub's GraphQL budget for one credential, per hour.
pub const GRAPHQL_POINTS_PER_HOUR: u32 = 5_000;

#[verifier::external_type_specification]
#[verifier::external_body]
pub struct ExSystemTime(SystemTime);

#[verifier::external_type_specification]
#[verifier::external_body]
pub struct ExSystemTimeError(SystemTimeError);

/// `SystemTime::now`: the wall clock. Nothing is claimed of the value.
#[verifier::external_body]
fn system_time_now() -> SystemTime {
    SystemTime::now()
}

/// `SystemTime::duration_since(UNIX_EPOCH)`: fails when the clock reads
/// before 1970. Nothing is claimed of the value.
#[verifier::external_body]
fn since_unix_epoch(t: SystemTime) -> Result<Duration, SystemTimeError> {
    t.duration_since(UNIX_EPOCH)
}

/// `Duration::as_secs`: the whole seconds of a duration. Nothing is claimed of
/// the value, since a `Duration` is opaque here.
#[verifier::external_body]
fn whole_seconds(d: Duration) -> u64 {
    d.as_secs()
}

/// The Unix time a clock reading stands for: the whole seconds elapsed since
/// the epoch (taken as `i64`, as the cast does), or zero for a clock that
/// reads before the epoch (`None`).
pub open spec fn unix_time_of(elapsed: Option<u64>) -> i64 {
    match elapsed {
        Some(seconds) => seconds as i64,
        None => 0,
    }
}

/// The Unix time for a clock reading: whole seconds since the epoch, or zero
/// when the clock read before it.
pub fn unix_seconds(elapsed: Option<u64>) -> (r: i64)
    ensures
        r == unix_time_of(elapsed),
{
    match elapsed {
        Some(seconds) => {
            #[verifier::truncate]
            (seconds as i64)
        },
        None => 0,
    }
}

/// Seconds since the Unix epoch, or zero when the clock reads before it.
///
/// The result is [`unix_time_of`] applied to the wall clock's reading; which
/// second the clock reads is not something a contract can know.
pub fn now_unix() -> (r: i64)
    ensures
        exists|elapsed: Option<u64>| r == unix_time_of(elapsed),
{
    let elapsed: Option<u64> = match since_unix_epoch(system_time_now()) {
        Ok(duration) => Some(whole_seconds(duration)),
        Err(_) => None,
    };
    let r = unix_seconds(elapsed);
    assert(r == unix_time_of(elapsed));
    r
}

/// Which kind of credential a token is.
#[derive(Debug, Clone, Copy, PartialEq, Eq, Hash, Structural)]
pub enum CredentialKind {
    /// A personal access token.
    Pat,
    /// A GitHub App installation token — the app acting as itself.
    Installation,
    /// A user-to-server token — the app acting as a signed-in user.
    User,
}

/// The log name of a credential kind.
pub open spec fn kind_name(kind: CredentialKind) -> Seq<char> {
    match kind {
        CredentialKind::Pat => "pat"@,
        CredentialKind::Installation => "installation"@,
        CredentialKind::User => "user"@,
    }
}

/// The variant name of a credential kind, as `Debug` spells it.
pub open spec fn kind_variant(kind: CredentialKind) -> Seq<char> {
    match kind {
        CredentialKind::Pat => "Pat"@,
        CredentialKind::Installation => "Installation"@,
        CredentialKind::User => "User"@,
    }
}

impl CredentialKind {
    pub fn as_str(self) -> (r: &'static str)
        ensures
            r@ == kind_name(self),
    {
        match self {
            CredentialKind::Pat => "pat",
            CredentialKind::Installation => "installation",
            CredentialKind::User => "user",
        }
    }

    fn variant_name(self) -> (r: &'static str)
        ensures
            r@ == kind_variant(self),
    {
        match self {
            CredentialKind::Pat => "Pat",
            CredentialKind::Installation => "Installation",
            CredentialKind::User => "User",
        }
    }
}

/// Identifies a credential for rate-limit accounting, without revealing it.
#[derive(Debug, Clone, Copy, PartialEq, Eq, Hash, Structural)]
pub struct CredentialId {
    pub kind: CredentialKind,
    pub index: usize,
}

/// `kind#index`, the form a credential id takes in logs.
pub open spec fn id_text(id: CredentialId) -> Seq<char> {
    kind_name(id.kind) + "#"@ + decimal(id.index as nat)
}

/// `CredentialId { kind: Pat, index: 3 }`, as a derived `Debug` spells it.
pub open spec fn id_debug_text(id: CredentialId) -> Seq<char> {
    "CredentialId { kind: "@ + kind_variant(id.kind) + ", index: "@ + decimal(id.index as nat)
        + " }"@
}

impl CredentialId {
    /// The id rendered for logs, e.g. `installation#7`.
    pub fn to_string(&self) -> (r: String)
        ensures
            r@ == id_text(*self),
    {
        let mut out = String::new();
        push_str(&mut out, self.kind.as_str());
        push_str(&mut out, "#");
        push_decimal(&mut out, self.index as u64);
        out
    }

    fn debug_string(&self) -> (r: String)
        ensures
            r@ == id_debug_text(*self),
    {
        let mut out = String::new();
        push_str(&mut out, "CredentialId { kind: ");
        push_str(&mut out, self.kind.variant_name());
        push_str(&mut out, ", index: ");
        push_decimal(&mut out, self.index as u64);
        push_str(&mut out, " }");
        out
    }
}

/// A bearer token plus the handle used to report its quota back.
///
/// There is deliberately no `Debug`: the token must never reach a log line.
/// [`Credential::debug_string`] renders it with the token redacted.
#[derive(Clone)]
pub struct Credential {
    pub id: CredentialId,
    token: String,
}

impl Credential {
    /// The token a credential carries.
    pub closed spec fn secret(&self) -> Seq<char> {
        self.token@
    }

    /// Which credential this is.
    pub closed spec fn ident(&self) -> CredentialId {
        self.id
    }

    pub fn new(id: CredentialId, token: &str) -> (r: Self)
        ensures
            r.ident() == id,
            r.secret() == token@,
    {
        Credential { id, token: String::from_str(token) }
    }

    /// The secret itself. Only an HTTP client should call this.
    pub fn expose(&self) -> (r: &str)
        ensures
            r@ == self.secret(),
    {
        self.token.as_str()
    }

    /// The credential as a debug line, with the token replaced by
    /// `<redacted>`: `Credential { id: ..., token: "<redacted>" }`.
    pub fn debug_string(&self) -> (r: String)
        ensures
            r@ == "Credential { id: "@ + id_debug_text(self.ident()) + ", token: \"<redacted>\" }"@,
    {
        let mut out = String::new();
        push_str(&mut out, "Credential { id: ");
        let id = self.id.debug_string();
        push_str(&mut out, id.as_str());
        push_str(&mut out, ", token: \"<redacted>\" }");
        out
    }
}

/// What GitHub told us about a credential's remaining quota.
#[derive(Debug, Clone, Copy, PartialEq, Eq, Structural)]
pub struct RateLimitStatus {
    /// GraphQL points left in the current window.
    pub remaining: u32,
    /// Unix seconds at which the window resets.
    pub reset_at: i64,
}

/// Why a credential could not be issued.
///
/// Transport-agnostic: the service maps these onto status codes.
#[derive(Debug, Clone)]
pub enum AuthError {
    Misconfigured(String),
    /// Every credential is rate-limited.
    Exhausted {
        /// Seconds until the earliest window reopens, when known.
        retry_after: Option<u64>,
    },
    /// The credential was refused.
    Rejected(String),
}

/// The human-readable text of an authentication failure.
pub open spec fn auth_error_text(e: AuthError) -> Seq<char> {
    match e {
        AuthError::Misconfigured(m) => m@,
        AuthError::Exhausted { .. } => "all credentials are rate-limited"@,
        AuthError::Rejected(m) => "credential rejected: "@ + m@,
    }
}

impl AuthError {
    /// The message a user sees for this failure.
    pub fn message(&self) -> (r: String)
        ensures
            r@ == auth_error_text(*self),
    {
        match self {
            AuthError::Misconfigured(m) => m.clone(),
            AuthError::Exhausted { .. } => String::from_str("all credentials are rate-limited"),
            AuthError::Rejected(m) => {
                let mut out = String::from_str("credential rejected: ");
                push_str(&mut out, m.as_str());
                out
            },
        }
    }
}

pub type AuthResult<T> = Result<T, AuthError>;

} // verus!
