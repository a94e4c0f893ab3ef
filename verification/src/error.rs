//! API errors.
//!
//! The JSON shape and status codes are part of the public contract: anything
//! already consuming the API must not be able to tell the backend apart. The
//! HTTP response is assembled by the service from [`ApiError::body`],
//! [`ApiError::status`] and the caching lifetimes here.

use crate::cache::{TTL_ERROR, TTL_NOT_FOUND};
use crate::credential::AuthError;
use crate::strings::{push_str, same_text};
use crate::validation::{
    rejected_field, rejected_value, rejection_hint, rejection_message, ValidationError,
};
use vstd::prelude::*;

verus! {

/// Structured hints attached to a validation error: a JSON object whose
/// values are strings, in insertion order.
pub type Details = Vec<(String, String)>;

/// An error as the API reports it.
#[derive(Debug)]
pub enum ApiError {
    Validation { message: String, details: Details },
    UserNotFound { username: String },
    RateLimit { message: String, retry_after: Option<u64> },
    GitHubApi { message: String },
    Internal(String),
}

/// The texts of a detail list.
pub open spec fn entries_view(d: Seq<(String, String)>) -> Seq<(Seq<char>, Seq<char>)> {
    d.map_values(|p: (String, String)| (p.0@, p.1@))
}

/// An [`ApiError`] with its texts as character sequences.
pub enum ErrorView {
    Validation { message: Seq<char>, details: Seq<(Seq<char>, Seq<char>)> },
    UserNotFound { username: Seq<char> },
    RateLimit { message: Seq<char>, retry_after: Option<u64> },
    GitHubApi { message: Seq<char> },
    Internal(Seq<char>),
}

impl View for ApiError {
    type V = ErrorView;

    open spec fn view(&self) -> ErrorView {
        match self {
            ApiError::Validation { message, details } => ErrorView::Validation {
                message: message@,
                details: entries_view(details@),
            },
            ApiError::UserNotFound { username } => ErrorView::UserNotFound { username: username@ },
            ApiError::RateLimit { message, retry_after } => ErrorView::RateLimit {
                message: message@,
                retry_after: *retry_after,
            },
            ApiError::GitHubApi { message } => ErrorView::GitHubApi { message: message@ },
            ApiError::Internal(detail) => ErrorView::Internal(detail@),
        }
    }
}

// ---------------------------------------------------------------------------
// Details: a JSON object of string values.

/// `entries` with `key` set to `value`: the entry holding `key` is replaced
/// where there is one, otherwise the pair is appended.
pub open spec fn inserted(
    entries: Seq<(Seq<char>, Seq<char>)>,
    key: Seq<char>,
    value: Seq<char>,
) -> Seq<(Seq<char>, Seq<char>)>
    decreases entries.len(),
{
    if entries.len() == 0 {
        seq![(key, value)]
    } else if entries[0].0 == key {
        entries.update(0, (key, value))
    } else {
        seq![entries[0]] + inserted(entries.drop_first(), key, value)
    }
}

/// The value held under `key`, if any.
pub open spec fn detail_value(entries: Seq<(Seq<char>, Seq<char>)>, key: Seq<char>) -> Option<Seq<char>>
    decreases entries.len(),
{
    if entries.len() == 0 {
        None
    } else if entries[0].0 == key {
        Some(entries[0].1)
    } else {
        detail_value(entries.drop_first(), key)
    }
}

/// No key occurs twice.
pub open spec fn distinct_keys(entries: Seq<(Seq<char>, Seq<char>)>) -> bool {
    forall|i: int, j: int| 0 <= i < j < entries.len() ==> entries[i].0 != entries[j].0
}

proof fn lemma_inserted_at(
    entries: Seq<(Seq<char>, Seq<char>)>,
    key: Seq<char>,
    value: Seq<char>,
    i: int,
)
    requires
        0 <= i < entries.len(),
        entries[i].0 == key,
        forall|j: int| 0 <= j < i ==> entries[j].0 != key,
    ensures
        inserted(entries, key, value) == entries.update(i, (key, value)),
    decreases i,
{
    if i > 0 {
        let rest = entries.drop_first();
        assert forall|j: int| 0 <= j < i - 1 implies rest[j].0 != key by {
            assert(rest[j] == entries[j + 1]);
        }
        lemma_inserted_at(rest, key, value, i - 1);
        assert(seq![entries[0]] + rest.update(i - 1, (key, value)) =~= entries.update(i, (key, value)));
    }
}

proof fn lemma_inserted_absent(entries: Seq<(Seq<char>, Seq<char>)>, key: Seq<char>, value: Seq<char>)
    requires
        forall|j: int| 0 <= j < entries.len() ==> entries[j].0 != key,
    ensures
        inserted(entries, key, value) == entries.push((key, value)),
    decreases entries.len(),
{
    if entries.len() > 0 {
        let rest = entries.drop_first();
        assert forall|j: int| 0 <= j < rest.len() implies rest[j].0 != key by {
            assert(rest[j] == entries[j + 1]);
        }
        lemma_inserted_absent(rest, key, value);
        assert(seq![entries[0]] + rest.push((key, value)) =~= entries.push((key, value)));
    }
}

/// Setting a detail and reading it back gives the value just set.
pub proof fn law_detail_reads_back(entries: Seq<(Seq<char>, Seq<char>)>, key: Seq<char>, value: Seq<char>)
    ensures
        detail_value(inserted(entries, key, value), key) == Some(value),
    decreases entries.len(),
{
    if entries.len() > 0 && entries[0].0 != key {
        law_detail_reads_back(entries.drop_first(), key, value);
        let tail = inserted(entries.drop_first(), key, value);
        assert((seq![entries[0]] + tail).drop_first() =~= tail);
    }
}

/// Setting one detail leaves every other key's value as it was.
pub proof fn law_other_details_untouched(
    entries: Seq<(Seq<char>, Seq<char>)>,
    key: Seq<char>,
    value: Seq<char>,
    other: Seq<char>,
)
    requires
        other != key,
    ensures
        detail_value(inserted(entries, key, value), other) == detail_value(entries, other),
    decreases entries.len(),
{
    if entries.len() == 0 {
        let single = seq![(key, value)];
        assert(single.drop_first() =~= Seq::<(Seq<char>, Seq<char>)>::empty());
        assert(detail_value(single, other) == detail_value(single.drop_first(), other));
    } else if entries[0].0 == key {
        let updated = entries.update(0, (key, value));
        assert(updated.drop_first() =~= entries.drop_first());
        assert(detail_value(updated, other) == detail_value(updated.drop_first(), other));
    } else {
        law_other_details_untouched(entries.drop_first(), key, value, other);
        let tail = inserted(entries.drop_first(), key, value);
        assert((seq![entries[0]] + tail).drop_first() =~= tail);
    }
}

/// Setting a detail never makes a key occur twice.
pub proof fn law_details_stay_distinct(entries: Seq<(Seq<char>, Seq<char>)>, key: Seq<char>, value: Seq<char>)
    requires
        distinct_keys(entries),
    ensures
        distinct_keys(inserted(entries, key, value)),
{
    if exists|i: int| 0 <= i < entries.len() && entries[i].0 == key {
        let i = choose|i: int| 0 <= i < entries.len() && entries[i].0 == key;
        lemma_inserted_at(entries, key, value, i);
    } else {
        lemma_inserted_absent(entries, key, value);
    }
}

/// Copies a detail list text for text.
fn copy_details(d: &Details) -> (r: Details)
    ensures
        entries_view(r@) == entries_view(d@),
{
    let mut r: Details = Vec::new();
    let mut i: usize = 0;
    while i < d.len()
        invariant
            i <= d@.len(),
            r@.len() == i,
            forall|j: int| 0 <= j < i ==> r@[j].0@ == d@[j].0@ && r@[j].1@ == d@[j].1@,
        decreases d@.len() - i,
    {
        let k = d[i].0.clone();
        let v = d[i].1.clone();
        r.push((k, v));
        i = i + 1;
    }
    assert(entries_view(r@) =~= entries_view(d@));
    r
}

/// Sets `key` to `value` in a detail list.
fn set_detail(details: &mut Details, key: &str, value: &str)
    ensures
        entries_view(final(details)@) == inserted(entries_view(old(details)@), key@, value@),
{
    let ghost before = entries_view(details@);
    let mut i: usize = 0;
    while i < details.len()
        invariant
            i <= details@.len(),
            details@ == old(details)@,
            before == entries_view(details@),
            forall|j: int| 0 <= j < i ==> before[j].0 != key@,
        decreases details@.len() - i,
    {
        if same_text(details[i].0.as_str(), key) {
            proof {
                lemma_inserted_at(before, key@, value@, i as int);
            }
            details.set(i, (String::from_str(key), String::from_str(value)));
            assert(entries_view(details@) =~= before.update(i as int, (key@, value@)));
            return;
        }
        i = i + 1;
    }
    proof {
        lemma_inserted_absent(before, key@, value@);
    }
    details.push((String::from_str(key), String::from_str(value)));
    assert(entries_view(details@) =~= before.push((key@, value@)));
}

// ---------------------------------------------------------------------------
// What an error says.

/// The error name clients switch on.
pub open spec fn error_name(e: ErrorView) -> Seq<char> {
    match e {
        ErrorView::Validation { .. } => "ValidationError"@,
        ErrorView::UserNotFound { .. } => "UserNotFound"@,
        ErrorView::RateLimit { .. } => "RateLimitExceeded"@,
        ErrorView::GitHubApi { .. } => "GitHubAPIError"@,
        ErrorView::Internal(_) => "InternalError"@,
    }
}

/// The HTTP status an error is answered with.
pub open spec fn error_status(e: ErrorView) -> u16 {
    match e {
        ErrorView::Validation { .. } => 400,
        ErrorView::UserNotFound { .. } => 404,
        ErrorView::RateLimit { .. } => 429,
        ErrorView::GitHubApi { .. } => 502,
        ErrorView::Internal(_) => 500,
    }
}

/// The error's full text, as its `Display` reads.
pub open spec fn error_text(e: ErrorView) -> Seq<char> {
    match e {
        ErrorView::Validation { message, .. } => message,
        ErrorView::UserNotFound { username } => "User not found: "@ + username,
        ErrorView::RateLimit { message, .. } => message,
        ErrorView::GitHubApi { message } => message,
        ErrorView::Internal(detail) => "internal error: "@ + detail,
    }
}

/// The message a client is shown: internal detail is never echoed, since it
/// can carry token or upstream detail.
pub open spec fn public_message(e: ErrorView) -> Seq<char> {
    match e {
        ErrorView::Internal(_) => "Internal server error"@,
        _ => error_text(e),
    }
}

/// The `details` object of the error body, if there is one.
pub open spec fn body_details(e: ErrorView) -> Option<Seq<(Seq<char>, Seq<char>)>> {
    match e {
        ErrorView::Validation { details, .. } => if details.len() > 0 {
            Some(details)
        } else {
            None
        },
        ErrorView::UserNotFound { username } => Some(seq![("username"@, username)]),
        _ => None,
    }
}

/// Seconds the client should wait before retrying, when known.
pub open spec fn error_retry_after(e: ErrorView) -> Option<u64> {
    match e {
        ErrorView::RateLimit { retry_after, .. } => retry_after,
        _ => None,
    }
}

/// Seconds an error response may be cached: an hour for a missing user, so a
/// typo'd badge in a popular README cannot hammer the GitHub API.
pub open spec fn error_cache_ttl(e: ErrorView) -> u64 {
    match e {
        ErrorView::UserNotFound { .. } => TTL_NOT_FOUND,
        _ => TTL_ERROR,
    }
}

/// Only a missing user is cached for long: it is held for `TTL_NOT_FOUND`,
/// and every other failure, all of them transient (a rate limit, an upstream
/// error, a rejected parameter, an internal fault), for the shorter
/// `TTL_ERROR`, so an answer such as a rate limit is not served long after
/// the cause has passed.
pub proof fn law_only_missing_users_are_cached_long(e: ErrorView)
    ensures
        e is UserNotFound ==> error_cache_ttl(e) == TTL_NOT_FOUND,
        !(e is UserNotFound) ==> error_cache_ttl(e) == TTL_ERROR,
        error_cache_ttl(e) == TTL_NOT_FOUND <==> e is UserNotFound,
        e is RateLimit ==> error_cache_ttl(e) <= 300,
        TTL_ERROR < TTL_NOT_FOUND,
{
}

/// The JSON error envelope: `error`, `code`, `message`, `details`,
/// `requestId`, `retryAfter` (the last omitted when absent, as is `details`).
pub struct ErrorBody {
    pub error: &'static str,
    pub code: u16,
    pub message: String,
    pub details: Option<Details>,
    pub request_id: String,
    pub retry_after: Option<u64>,
}

impl ApiError {
    /// A validation failure with no details yet.
    pub fn validation(message: &str) -> (r: Self)
        ensures
            r@ == (ErrorView::Validation { message: message@, details: Seq::empty() }),
    {
        let r = ApiError::Validation { message: String::from_str(message), details: Vec::new() };
        assert(entries_view(Seq::<(String, String)>::empty()) =~= Seq::empty());
        r
    }

    /// Attach a structured hint to a validation error, e.g. the expected
    /// format. Any other error is returned as it was.
    pub fn with_detail(self, key: &str, value: &str) -> (r: Self)
        ensures
            r@ == match self@ {
                ErrorView::Validation { message, details } => ErrorView::Validation {
                    message,
                    details: inserted(details, key@, value@),
                },
                other => other,
            },
    {
        match self {
            ApiError::Validation { message, mut details } => {
                set_detail(&mut details, key, value);
                ApiError::Validation { message, details }
            },
            other => other,
        }
    }

    /// Rate limited, with the wait when known.
    pub fn rate_limited(message: &str, retry_after: Option<u64>) -> (r: Self)
        ensures
            r@ == (ErrorView::RateLimit { message: message@, retry_after }),
    {
        ApiError::RateLimit { message: String::from_str(message), retry_after }
    }

    /// GitHub failed or answered with something unusable.
    pub fn github(message: &str) -> (r: Self)
        ensures
            r@ == (ErrorView::GitHubApi { message: message@ }),
    {
        ApiError::GitHubApi { message: String::from_str(message) }
    }

    /// The error name, which clients may switch on.
    pub fn name(&self) -> (r: &'static str)
        ensures
            r@ == error_name(self@),
    {
        match self {
            ApiError::Validation { .. } => "ValidationError",
            ApiError::UserNotFound { .. } => "UserNotFound",
            ApiError::RateLimit { .. } => "RateLimitExceeded",
            ApiError::GitHubApi { .. } => "GitHubAPIError",
            ApiError::Internal(_) => "InternalError",
        }
    }

    /// The HTTP status code.
    pub fn status(&self) -> (r: u16)
        ensures
            r == error_status(self@),
    {
        match self {
            ApiError::Validation { .. } => 400,
            ApiError::UserNotFound { .. } => 404,
            ApiError::RateLimit { .. } => 429,
            ApiError::GitHubApi { .. } => 502,
            ApiError::Internal(_) => 500,
        }
    }

    /// How long a client should wait before retrying, when we know.
    pub fn retry_after(&self) -> (r: Option<u64>)
        ensures
            r == error_retry_after(self@),
    {
        match self {
            ApiError::RateLimit { retry_after, .. } => *retry_after,
            _ => None,
        }
    }

    /// Seconds this error may be cached for.
    pub fn cache_ttl(&self) -> (r: u64)
        ensures
            r == error_cache_ttl(self@),
    {
        match self {
            ApiError::UserNotFound { .. } => TTL_NOT_FOUND,
            _ => TTL_ERROR,
        }
    }

    /// The error's text, as `Display` renders it.
    pub fn to_string(&self) -> (r: String)
        ensures
            r@ == error_text(self@),
    {
        match self {
            ApiError::Validation { message, .. } => message.clone(),
            ApiError::UserNotFound { username } => {
                let mut out = String::from_str("User not found: ");
                push_str(&mut out, username.as_str());
                out
            },
            ApiError::RateLimit { message, .. } => message.clone(),
            ApiError::GitHubApi { message } => message.clone(),
            ApiError::Internal(detail) => {
                let mut out = String::from_str("internal error: ");
                push_str(&mut out, detail.as_str());
                out
            },
        }
    }

    /// Whether retrying cannot change the answer: a missing user or a rate
    /// limit is a reply, not a failure.
    pub fn is_definitive(&self) -> (r: bool)
        ensures
            r == (self@ is UserNotFound || self@ is RateLimit),
    {
        match self {
            ApiError::UserNotFound { .. } | ApiError::RateLimit { .. } => true,
            _ => false,
        }
    }

    /// The JSON envelope, tagged with the request id for correlation.
    pub fn body(&self, request_id: &str) -> (r: ErrorBody)
        ensures
            r.error@ == error_name(self@),
            r.code == error_status(self@),
            r.message@ == public_message(self@),
            match body_details(self@) {
                Some(d) => r.details is Some && entries_view(r.details->0@) == d,
                None => r.details is None,
            },
            r.request_id@ == request_id@,
            r.retry_after == error_retry_after(self@),
    {
        let details = match self {
            ApiError::Validation { details, .. } => if details.len() > 0 {
                Some(copy_details(details))
            } else {
                None
            },
            ApiError::UserNotFound { username } => {
                let mut d: Details = Vec::new();
                d.push((String::from_str("username"), username.clone()));
                assert(entries_view(d@) =~= seq![("username"@, username@)]);
                Some(d)
            },
            _ => None,
        };
        let message = match self {
            ApiError::Internal(_) => String::from_str("Internal server error"),
            other => other.to_string(),
        };
        ErrorBody {
            error: self.name(),
            code: self.status(),
            message,
            details,
            request_id: String::from_str(request_id),
            retry_after: self.retry_after(),
        }
    }

    /// A failed parameter check, keeping the field and hint the check
    /// produced: `{field: value, hint: hint}`.
    pub fn from_validation(error: ValidationError) -> (r: Self)
        ensures
            r@ == (ErrorView::Validation {
                message: rejection_message(error),
                details: seq![(rejected_field(error), rejected_value(error)), ("hint"@, rejection_hint(error))],
            }),
    {
        let hint = error.hint();
        let r = ApiError::validation(error.message()).with_detail(error.field(), error.value()).with_detail(
            "hint",
            hint.as_str(),
        );
        proof {
            reveal_strlit("hint");
            reveal_strlit("username");
            reveal_strlit("season");
            let field = rejected_field(error);
            assert(field[0] != 'h');
            let first = inserted(Seq::empty(), field, rejected_value(error));
            assert(first =~= seq![(field, rejected_value(error))]);
            assert(first.drop_first() =~= Seq::<(Seq<char>, Seq<char>)>::empty());
            assert("hint"@[0] == 'h');
            assert(first[0].0 != "hint"@);
            let last = inserted(Seq::<(Seq<char>, Seq<char>)>::empty(), "hint"@, hint@);
            assert(last =~= seq![("hint"@, hint@)]);
            assert(inserted(first, "hint"@, hint@) == seq![first[0]] + inserted(first.drop_first(), "hint"@, hint@));
            assert(inserted(first, "hint"@, hint@) =~= seq![(field, rejected_value(error)), ("hint"@, hint@)]);
        }
        r
    }

    /// Authentication failures acquire a status here: a misconfigured
    /// credential is our fault, exhaustion is a rate limit, a refusal is
    /// GitHub's answer.
    pub fn from_auth(error: AuthError) -> (r: Self)
        ensures
            r@ == match error {
                AuthError::Misconfigured(m) => ErrorView::Internal(m@),
                AuthError::Exhausted { retry_after } => ErrorView::RateLimit {
                    message: "All GitHub credentials are rate-limited. Please try again later."@,
                    retry_after,
                },
                AuthError::Rejected(m) => ErrorView::GitHubApi { message: m@ },
            },
    {
        match error {
            AuthError::Misconfigured(message) => ApiError::Internal(message),
            AuthError::Exhausted { retry_after } => ApiError::rate_limited(
                "All GitHub credentials are rate-limited. Please try again later.",
                retry_after,
            ),
            AuthError::Rejected(message) => ApiError::GitHubApi { message },
        }
    }
}

/// An owned copy of an error, field for field. A cache that coalesces
/// concurrent computations hands every waiter the same shared error; each
/// caller gets its own copy.
pub fn clone_error(error: &ApiError) -> (r: ApiError)
    ensures
        r@ == error@,
{
    match error {
        ApiError::UserNotFound { username } => ApiError::UserNotFound { username: username.clone() },
        ApiError::RateLimit { message, retry_after } => ApiError::RateLimit {
            message: message.clone(),
            retry_after: *retry_after,
        },
        ApiError::Validation { message, details } => ApiError::Validation {
            message: message.clone(),
            details: copy_details(details),
        },
        ApiError::GitHubApi { message } => ApiError::GitHubApi { message: message.clone() },
        ApiError::Internal(detail) => ApiError::Internal(detail.clone()),
    }
}

/// Cache lifetime for an error response, so failures aren't retried in a loop.
pub fn error_ttl(error: &ApiError) -> (r: u64)
    ensures
        r == error_cache_ttl(error@),
{
    error.cache_ttl()
}

/// A configuration problem, reported as an internal error.
pub fn misconfigured(what: &str) -> (r: ApiError)
    ensures
        r@ == ErrorView::Internal("misconfigured: "@ + what@),
{
    let mut out = String::from_str("misconfigured: ");
    push_str(&mut out, what);
    ApiError::Internal(out)
}

/// The GraphQL layer cannot know which username it was resolving, so fill it
/// in; every other error passes through.
pub fn name_not_found(error: ApiError, username: &str) -> (r: ApiError)
    ensures
        r@ == match error@ {
            ErrorView::UserNotFound { .. } => ErrorView::UserNotFound { username: username@ },
            other => other,
        },
{
    match error {
        ApiError::UserNotFound { .. } => ApiError::UserNotFound { username: String::from_str(username) },
        other => other,
    }
}

pub type ApiResult<T> = Result<T, ApiError>;

} // verus!
