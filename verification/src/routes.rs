//! What the HTTP surface decides: query parameters, request ids, caching
//! headers and probe answers.

use crate::error::{entries_view, Details, ErrorBody};
use crate::strings::{decimal, push_decimal, push_str, same_text};
use vstd::prelude::*;

verus! {

/// Query parameters accepted by the badge and rank endpoints.
///
/// Everything is taken as text and validated by hand: a malformed `?theme=`
/// must fall back to the default and still render, because the alternative is
/// a broken image in someone's README.
pub struct BadgeParams {
    pub theme: Option<String>,
    pub season: Option<String>,
    pub force: Option<String>,
}

impl BadgeParams {
    /// No parameters at all.
    pub fn empty() -> (r: Self)
        ensures
            r.theme is None,
            r.season is None,
            r.force is None,
    {
        BadgeParams { theme: None, season: None, force: None }
    }

    /// `?force=true` or `?force=1` bypasses the cache read.
    pub fn force_refresh(&self) -> (r: bool)
        ensures
            r == (self.force matches Some(f) && (f@ == "true"@ || f@ == "1"@)),
    {
        match &self.force {
            Some(f) => same_text(f.as_str(), "true") || same_text(f.as_str(), "1"),
            None => false,
        }
    }
}

/// Header a proxy or load balancer may set upstream of us.
pub const REQUEST_ID_HEADER: &'static str = "x-request-id";

/// The id assigned to the request being handled.
pub struct RequestId(pub String);

/// An inbound id is adopted only when it is non-empty, at most 128 bytes and
/// ASCII: it ends up in logs and response headers, and it arrives from
/// outside.
pub open spec fn acceptable_id(value: Seq<char>) -> bool {
    value.len() > 0 && vstd::utf8::is_ascii_chars(value) && value.len() <= 128
}

/// A lower-case hexadecimal digit.
pub open spec fn is_lower_hex(c: char) -> bool {
    ('0' <= c <= '9') || ('a' <= c <= 'f')
}

/// The hyphenated form of a UUID: `67e55044-10b1-426f-9247-bb680e5fe0c8`.
pub open spec fn hyphenated_uuid(s: Seq<char>) -> bool {
    &&& s.len() == 36
    &&& forall|i: int|
        0 <= i < 36 ==> if i == 8 || i == 13 || i == 18 || i == 23 {
            #[trigger] s[i] == '-'
        } else {
            is_lower_hex(s[i])
        }
}

/// A random UUID's text: hyphenated, with the version digit `4` and the
/// RFC 9562 variant (`8`, `9`, `a` or `b`) in their places.
pub open spec fn version4_uuid(s: Seq<char>) -> bool {
    &&& hyphenated_uuid(s)
    &&& s[14] == '4'
    &&& (s[19] == '8' || s[19] == '9' || s[19] == 'a' || s[19] == 'b')
}

/// `Uuid::new_v4().to_string()`: a random version-4 UUID in hyphenated
/// lower-case form. Which UUID comes out is chance; its shape is what the
/// `uuid` crate's formatter writes, and the version and variant digits are
/// the bits `new_v4` sets.
#[verifier::external_body]
fn random_uuid() -> (r: String)
    ensures
        version4_uuid(r@),
{
    uuid::Uuid::new_v4().to_string()
}

/// Whether an inbound request id may be adopted.
pub fn acceptable_request_id(value: &str) -> (r: bool)
    ensures
        r == acceptable_id(value@),
{
    if value.is_empty() || !value.is_ascii() {
        return false;
    }
    let n = value.as_bytes().len();
    proof {
        vstd::string::is_ascii_spec_bytes(value);
    }
    n <= 128
}

/// Whatever arrives, the id a request ends up with is safe to put in logs
/// and headers: an inbound id is adopted only when acceptable, and a minted
/// one always is.
pub proof fn law_assigned_ids_are_acceptable(inbound: Option<Seq<char>>, minted: Seq<char>)
    requires
        hyphenated_uuid(minted),
    ensures
        acceptable_id(
            match inbound {
                Some(v) => if acceptable_id(v) { v } else { minted },
                None => minted,
            },
        ),
{
    assert forall|i: int| 0 <= i < minted.len() implies '\0' <= #[trigger] minted[i] <= '\u{7f}' by {
        if !(i == 8 || i == 13 || i == 18 || i == 23) {
            assert(is_lower_hex(minted[i]));
        }
    }
}

impl RequestId {
    /// Adopt an inbound request id when there is an acceptable one, so traces
    /// join up across a proxy; otherwise mint a fresh one.
    pub fn assign(inbound: Option<&str>) -> (r: Self)
        ensures
            match inbound {
                Some(v) => if acceptable_id(v@) {
                    r.0@ == v@
                } else {
                    version4_uuid(r.0@)
                },
                None => version4_uuid(r.0@),
            },
    {
        match inbound {
            Some(v) => if acceptable_request_id(v) {
                RequestId(String::from_str(v))
            } else {
                RequestId(random_uuid())
            },
            None => RequestId(random_uuid()),
        }
    }

    pub fn as_str(&self) -> (r: &str)
        ensures
            r@ == self.0@,
    {
        self.0.as_str()
    }

    /// The id as it is displayed: the id itself.
    pub fn to_string(&self) -> (r: String)
        ensures
            r@ == self.0@,
    {
        self.0.clone()
    }
}

/// `Cache-Control` of a badge: `stale-while-revalidate` lets caches serve the
/// old badge while it is refreshed, so an expiring entry never shows a
/// loading failure.
pub open spec fn badge_cache_control_text(max_age: u64) -> Seq<char> {
    "public, max-age="@ + decimal(max_age as nat) + ", s-maxage="@ + decimal(max_age as nat)
        + ", stale-while-revalidate="@ + decimal((max_age / 2) as nat)
}

pub fn badge_cache_control(max_age: u64) -> (r: String)
    ensures
        r@ == badge_cache_control_text(max_age),
{
    let mut out = String::from_str("public, max-age=");
    push_decimal(&mut out, max_age);
    push_str(&mut out, ", s-maxage=");
    push_decimal(&mut out, max_age);
    push_str(&mut out, ", stale-while-revalidate=");
    push_decimal(&mut out, max_age / 2);
    proof {
        assert(out@ =~= badge_cache_control_text(max_age));
    }
    out
}

/// `Cache-Control` of a JSON answer or an error: `public, max-age=N`.
pub fn public_cache_control(max_age: u64) -> (r: String)
    ensures
        r@ == "public, max-age="@ + decimal(max_age as nat),
{
    let mut out = String::from_str("public, max-age=");
    push_decimal(&mut out, max_age);
    out
}

/// The hint given for a path under `/api/` that matches no route.
pub const NOT_FOUND_HINT: &'static str = "Try /api/rank/{username} or /api/v1/rank/{username}";

/// The body for a path under `/api/` that matches no route: the same envelope
/// as every other error, so a client never parses two shapes, with a 404.
pub fn not_found_body(request_id: &str) -> (r: ErrorBody)
    ensures
        r.error@ == "NotFound"@,
        r.code == 404,
        r.message@ == "No such endpoint"@,
        r.details matches Some(d) && entries_view(d@) == seq![("hint"@, NOT_FOUND_HINT@)],
        r.request_id@ == request_id@,
        r.retry_after is None,
{
    let mut details: Details = Vec::new();
    details.push((String::from_str("hint"), String::from_str(NOT_FOUND_HINT)));
    assert(entries_view(details@) =~= seq![("hint"@, NOT_FOUND_HINT@)]);
    ErrorBody {
        error: "NotFound",
        code: 404,
        message: String::from_str("No such endpoint"),
        details: Some(details),
        request_id: String::from_str(request_id),
        retry_after: None,
    }
}

/// Whether a request counts in the request metrics: every path but the
/// scrape endpoint itself, which would otherwise inflate its own counters.
pub fn counts_in_metrics(path: &str) -> (r: bool)
    ensures
        r == (path@ != "/metrics"@),
{
    !same_text(path, "/metrics")
}

/// The readiness probe's answer.
pub struct Readiness {
    pub ready: bool,
    /// `ready` or `degraded`.
    pub status: &'static str,
    /// The HTTP status: 200 when ready, 503 otherwise.
    pub code: u16,
}

/// Ready means a badge can be served right now, cache miss included: some
/// credential has quota. Serving from cache still works without, but traffic
/// is better sent to a pod that can also handle a miss.
pub fn readiness(available_credentials: usize) -> (r: Readiness)
    ensures
        r.ready == (available_credentials > 0),
        r.status@ == if available_credentials > 0 { "ready"@ } else { "degraded"@ },
        r.code == if available_credentials > 0 { 200u16 } else { 503u16 },
{
    if available_credentials > 0 {
        Readiness { ready: true, status: "ready", code: 200 }
    } else {
        Readiness { ready: false, status: "degraded", code: 503 }
    }
}

} // verus!
