//! The decisions of the GitHub GraphQL transport.
//!
//! The service owns the HTTP client and the sleeping; what to make of each
//! response, how long to wait before retrying and when to give up are decided
//! here.

use crate::cache::{as_signed, now_unix, signed_bits};
use crate::credential::RateLimitStatus;
use crate::error::{ApiError, ErrorView};
use crate::strings::{
    decimal, lemma_parse_integer_bounds, parse_i64, parse_i64_bytes, parse_u64, parse_u64_bytes,
    push_decimal, push_str, same_text, ten_pow,
};
use vstd::prelude::*;
use vstd::utf8::encode_utf8;

verus! {

/// Attempts per query, including the first.
pub const MAX_ATTEMPTS: u32 = 3;
/// Base delay of the exponential backoff between attempts, in milliseconds.
pub const BACKOFF_BASE_MILLIS: u64 = 250;
/// Never wait longer than this to retry, in milliseconds: beyond it the query
/// fails fast and the response is cached as an error.
pub const MAX_BACKOFF_MILLIS: u64 = 8_000;

/// `2^e`.
pub open spec fn two_pow(e: nat) -> nat
    decreases e,
{
    if e == 0 { 1 } else { 2 * two_pow((e - 1) as nat) }
}

/// `2u32.saturating_pow(e)`.
pub open spec fn saturating_two_pow(e: nat) -> nat {
    if two_pow(e) > u32::MAX { u32::MAX as nat } else { two_pow(e) }
}

/// The wait before attempt `attempt` (counting the first as zero): the base
/// doubled per earlier retry, capped.
pub open spec fn backoff_millis(attempt: u32) -> nat {
    let grown = (BACKOFF_BASE_MILLIS as nat) * saturating_two_pow((attempt - 1) as nat);
    if grown < MAX_BACKOFF_MILLIS { grown } else { MAX_BACKOFF_MILLIS as nat }
}

proof fn lemma_two_pow_grows(e: nat)
    requires
        e >= 6,
    ensures
        two_pow(e) >= 64,
    decreases e,
{
    if e > 6 {
        lemma_two_pow_grows((e - 1) as nat);
    } else {
        reveal_with_fuel(two_pow, 7);
    }
}

proof fn lemma_two_pow_monotone(a: nat, b: nat)
    requires
        a <= b,
    ensures
        two_pow(a) <= two_pow(b),
    decreases b,
{
    if a < b {
        lemma_two_pow_monotone(a, (b - 1) as nat);
    }
}

/// The wait between attempts never shrinks as attempts go on, and never
/// exceeds the cap.
pub proof fn law_backoff_grows_then_caps(a: u32, b: u32)
    requires
        1 <= a <= b,
    ensures
        backoff_millis(a) <= backoff_millis(b) <= MAX_BACKOFF_MILLIS,
{
    lemma_two_pow_monotone((a - 1) as nat, (b - 1) as nat);
}

/// Milliseconds to wait before retry number `attempt` (the first attempt is
/// zero and is not delayed).
pub fn backoff(attempt: u32) -> (r: u64)
    requires
        attempt >= 1,
    ensures
        r == backoff_millis(attempt),
{
    let e = attempt - 1;
    proof {
        reveal_with_fuel(two_pow, 6);
    }
    if e >= 6 {
        proof {
            lemma_two_pow_grows(e as nat);
        }
        MAX_BACKOFF_MILLIS
    } else if e == 0 {
        250
    } else if e == 1 {
        500
    } else if e == 2 {
        1_000
    } else if e == 3 {
        2_000
    } else if e == 4 {
        4_000
    } else {
        8_000
    }
}

// ---------------------------------------------------------------------------
// Reset timestamps.

/// Days from 1970-01-01 to the given civil date, by Howard Hinnant's
/// days-from-civil construction: years are counted from March, in 400-year
/// eras. Divisions round down.
pub open spec fn civil_days(year: int, month: int, day: int) -> int {
    let y = if month <= 2 { year - 1 } else { year };
    let era = y / 400;
    let year_of_era = y - era * 400;
    let day_of_year = (153 * (if month > 2 { month - 3 } else { month + 9 }) + 2) / 5 + day - 1;
    let day_of_era = year_of_era * 365 + year_of_era / 4 - year_of_era / 100 + day_of_year;
    era * 146_097 + day_of_era - 719_468
}

/// Rounding `y - 399` toward zero divides a negative `y` rounding down.
proof fn lemma_floor_quotient(y: int)
    requires
        y < 0,
    ensures
        -((399 - y) / 400) == y / 400,
{
    let q = y / 400;
    let r = y % 400;
    assert(y == 400 * q + r && 0 <= r < 400);
    assert(399 - y == 400 * (-q) + (399 - r));
    assert((399 - y) / 400 == -q);
}

/// Days since the Unix epoch.
#[verifier::rlimit(40)]
fn days_from_civil(year: i64, month: i64, day: i64) -> (r: i64)
    requires
        -1000 < year < 10000,
        -10 < month < 100,
        -10 < day < 100,
    ensures
        r == civil_days(year as int, month as int, day as int),
{
    let y = if month <= 2 { year - 1 } else { year };
    let era = (if y >= 0 { y } else { y - 399 }) / 400;
    proof {
        if y < 0 {
            lemma_floor_quotient(y as int);
        }
    }
    assert(era == y as int / 400);
    let year_of_era = y - era * 400;
    let shifted = if month > 2 { month - 3 } else { month + 9 };
    let day_of_year = (153 * shifted + 2) / 5 + day - 1;
    let day_of_era = year_of_era * 365 + year_of_era / 4 - year_of_era / 100 + day_of_year;
    era * 146_097 + day_of_era - 719_468
}

/// A leap year of the proleptic Gregorian calendar.
pub open spec fn is_leap(year: int) -> bool {
    (year % 4 == 0 && year % 100 != 0) || year % 400 == 0
}

/// Days from 0001-01-01 to the first of January of `year`.
pub open spec fn days_before_year(year: int) -> int {
    let p = year - 1;
    365 * p + p / 4 - p / 100 + p / 400
}

/// Days of `year` before the first of `month` (1 to 12).
pub open spec fn days_before_month(year: int, month: int) -> int {
    let common: int = if month == 1 { 0 }
        else if month == 2 { 31 }
        else if month == 3 { 59 }
        else if month == 4 { 90 }
        else if month == 5 { 120 }
        else if month == 6 { 151 }
        else if month == 7 { 181 }
        else if month == 8 { 212 }
        else if month == 9 { 243 }
        else if month == 10 { 273 }
        else if month == 11 { 304 }
        else { 334 };
    common + if month > 2 && is_leap(year) { 1int } else { 0 }
}

proof fn lemma_step_quotient(y: int, k: int)
    requires
        k > 0,
    ensures
        y / k - (y - 1) / k == (if y % k == 0 { 1int } else { 0 }),
{
    let q = y / k;
    let r = y % k;
    vstd::arithmetic::div_mod::lemma_fundamental_div_mod(y, k);
    assert(y == q * k + r) by (nonlinear_arith)
        requires
            y == k * q + r,
    ;
    if r == 0 {
        assert(y - 1 == (q - 1) * k + (k - 1)) by (nonlinear_arith)
            requires
                y == q * k,
        ;
        vstd::arithmetic::div_mod::lemma_fundamental_div_mod_converse(y - 1, k, q - 1, k - 1);
    } else {
        vstd::arithmetic::div_mod::lemma_fundamental_div_mod_converse(y - 1, k, q, r - 1);
    }
}

/// Splits a year into 400-year eras: the count of days before it, era by era.
proof fn lemma_era_split(y: int)
    ensures
        (y / 400) * 146_097 + (y - (y / 400) * 400) * 365 + (y - (y / 400) * 400) / 4 - (y - (y / 400)
            * 400) / 100 == 365 * y + y / 4 - y / 100 + y / 400,
{
    let e = y / 400;
    let x = y - e * 400;
    vstd::arithmetic::div_mod::lemma_fundamental_div_mod(y, 400);
    assert(0 <= x < 400);
    vstd::arithmetic::div_mod::lemma_fundamental_div_mod(x, 4);
    vstd::arithmetic::div_mod::lemma_fundamental_div_mod_converse(y, 4, 100 * e + x / 4, x % 4);
    vstd::arithmetic::div_mod::lemma_fundamental_div_mod(x, 100);
    vstd::arithmetic::div_mod::lemma_fundamental_div_mod_converse(y, 100, 4 * e + x / 100, x % 100);
}

/// A day count agrees with the calendar: for a real month, `civil_days` is the
/// number of days from 1970-01-01 to the date, counting 365 days a year plus
/// one for each leap year, and the days of the months before.
pub proof fn law_civil_days_count_calendar_days(year: int, month: int, day: int)
    requires
        1 <= month <= 12,
    ensures
        civil_days(year, month, day) == days_before_year(year) + days_before_month(year, month) + day - 1
            - days_before_year(1970),
{
    let y = if month <= 2 { year - 1 } else { year };
    lemma_era_split(y);
    assert(days_before_year(1970) == 719_162);
    if month > 2 {
        lemma_step_quotient(year, 4);
        lemma_step_quotient(year, 100);
        lemma_step_quotient(year, 400);
        assert(is_leap(year) <==> (year / 4 - (year - 1) / 4) - (year / 100 - (year - 1) / 100) + (year
            / 400 - (year - 1) / 400) == 1) by {
            if year % 400 == 0 {
                assert(year % 100 == 0);
                assert(year % 4 == 0);
            } else if year % 100 == 0 {
                assert(year % 4 == 0);
            }
        }
    }
}

/// The fields of an RFC 3339 UTC timestamp like `2026-08-28T15:04:05Z`, read
/// from fixed byte positions, each as `i64::from_str` reads it.
pub open spec fn timestamp_fields(b: Seq<u8>) -> Option<(i64, i64, i64, i64, i64, i64)> {
    if b.len() < 20 || b[4] != 45u8 || b[10] != 84u8 {
        None
    } else {
        match (
            parse_i64_bytes(b.subrange(0, 4)),
            parse_i64_bytes(b.subrange(5, 7)),
            parse_i64_bytes(b.subrange(8, 10)),
            parse_i64_bytes(b.subrange(11, 13)),
            parse_i64_bytes(b.subrange(14, 16)),
            parse_i64_bytes(b.subrange(17, 19)),
        ) {
            (Some(y), Some(mo), Some(d), Some(h), Some(mi), Some(s)) => Some((y, mo, d, h, mi, s)),
            _ => None,
        }
    }
}

/// Epoch seconds of a timestamp whose fields are known.
pub open spec fn epoch_seconds(f: (i64, i64, i64, i64, i64, i64)) -> int {
    civil_days(f.0 as int, f.1 as int, f.2 as int) * 86_400 + f.3 * 3_600 + f.4 * 60 + f.5
}

/// The epoch seconds an RFC 3339 timestamp denotes, when it can be read.
pub open spec fn rfc3339_epoch(b: Seq<u8>) -> Option<int> {
    match timestamp_fields(b) {
        Some(f) => Some(epoch_seconds(f)),
        None => None,
    }
}

fn field(bytes: &[u8], lo: usize, hi: usize) -> (r: Option<i64>)
    requires
        lo < hi <= bytes@.len(),
    ensures
        r == parse_i64_bytes(bytes@.subrange(lo as int, hi as int)),
        r matches Some(v) ==> -(ten_pow((hi - lo - 1) as nat) as int) < v && v < ten_pow((hi - lo) as nat),
{
    proof {
        lemma_parse_integer_bounds(bytes@.subrange(lo as int, hi as int));
    }
    parse_i64(bytes, lo, hi)
}

/// Epoch seconds from an RFC 3339 timestamp like `2026-08-28T15:04:05Z`.
///
/// GitHub always returns UTC here, so only that one shape is read; anything
/// else is `None`.
pub fn parse_rfc3339_epoch(value: &str) -> (r: Option<i64>)
    ensures
        match r {
            Some(v) => rfc3339_epoch(encode_utf8(value@)) == Some(v as int),
            None => rfc3339_epoch(encode_utf8(value@)) is None,
        },
{
    let bytes = value.as_bytes();
    if bytes.len() < 20 || bytes[4] != 45u8 || bytes[10] != 84u8 {
        return None;
    }
    proof {
        reveal_with_fuel(ten_pow, 5);
    }
    let year = match field(bytes, 0, 4) {
        Some(v) => v,
        None => return None,
    };
    let month = match field(bytes, 5, 7) {
        Some(v) => v,
        None => return None,
    };
    let day = match field(bytes, 8, 10) {
        Some(v) => v,
        None => return None,
    };
    let hour = match field(bytes, 11, 13) {
        Some(v) => v,
        None => return None,
    };
    let minute = match field(bytes, 14, 16) {
        Some(v) => v,
        None => return None,
    };
    let second = match field(bytes, 17, 19) {
        Some(v) => v,
        None => return None,
    };
    let days = days_from_civil(year, month, day);
    assert(-4_000_000 < days < 4_000_000) by (nonlinear_arith)
        requires
            days == civil_days(year as int, month as int, day as int),
            -1000 < year < 10000,
            -10 < month < 100,
            -10 < day < 100,
    ;
    Some(days * 86_400 + hour * 3_600 + minute * 60 + second)
}

// ---------------------------------------------------------------------------
// Quota reports.

/// What GitHub reports about the remaining GraphQL budget.
pub struct RateLimit {
    pub limit: u32,
    pub cost: u32,
    pub remaining: u32,
    /// RFC 3339.
    pub reset_at: String,
}

/// When a window reported as resetting at `reset_at` reopens, reading the
/// clock as `now`: the reported time, or an hour from now when it cannot be
/// read.
pub open spec fn reset_epoch_or(reset_at: Seq<char>, now: i64) -> int {
    match rfc3339_epoch(encode_utf8(reset_at)) {
        Some(v) => v,
        None => now + 3_600,
    }
}

impl RateLimit {
    /// Epoch seconds at which the window resets, with the clock reading `now`.
    pub fn reset_epoch_at(&self, now: i64) -> (r: i64)
        requires
            now <= i64::MAX - 3_600,
        ensures
            r == reset_epoch_or(self.reset_at@, now),
    {
        match parse_rfc3339_epoch(self.reset_at.as_str()) {
            Some(v) => v,
            None => now + 3_600,
        }
    }

    /// Epoch seconds at which the window resets; an hour from now (by the
    /// clock) when the reported time cannot be read.
    pub fn reset_epoch(&self) -> (r: i64)
        ensures
            rfc3339_epoch(encode_utf8(self.reset_at@)) matches Some(v) ==> r == v,
    {
        match parse_rfc3339_epoch(self.reset_at.as_str()) {
            Some(v) => v,
            None => {
                let now = now_unix();
                if now <= i64::MAX - 3_600 {
                    now + 3_600
                } else {
                    i64::MAX
                }
            },
        }
    }

    /// The credential's quota, with the clock reading `now`.
    pub fn status_at(&self, now: i64) -> (r: RateLimitStatus)
        requires
            now <= i64::MAX - 3_600,
        ensures
            r.remaining == self.remaining,
            r.reset_at == reset_epoch_or(self.reset_at@, now),
    {
        RateLimitStatus { remaining: self.remaining, reset_at: self.reset_epoch_at(now) }
    }

    /// The credential's quota as reported.
    pub fn status(&self) -> (r: RateLimitStatus)
        ensures
            r.remaining == self.remaining,
            rfc3339_epoch(encode_utf8(self.reset_at@)) matches Some(v) ==> r.reset_at == v,
    {
        RateLimitStatus { remaining: self.remaining, reset_at: self.reset_epoch() }
    }
}

/// How the quota of the credential used is to be updated after a response.
pub enum QuotaReport {
    /// GitHub said how much is left: record it.
    Record(RateLimitStatus),
    /// No authoritative figure came back: assume this many points were spent.
    Spend(u32),
}

/// Record the reported quota before handling errors, since a failed query
/// still costs; with no report, assume one point was spent.
pub fn quota_report_at(rate_limit: Option<&RateLimit>, now: i64) -> (r: QuotaReport)
    requires
        now <= i64::MAX - 3_600,
    ensures
        match rate_limit {
            Some(rl) => r matches QuotaReport::Record(q) && q.remaining == rl.remaining && q.reset_at
                == reset_epoch_or(rl.reset_at@, now),
            None => r matches QuotaReport::Spend(points) && points == 1,
        },
{
    match rate_limit {
        Some(rl) => QuotaReport::Record(rl.status_at(now)),
        None => QuotaReport::Spend(1),
    }
}

// ---------------------------------------------------------------------------
// Reading a response.

/// An entry of a GraphQL response's `errors`.
pub struct GraphQlError {
    /// The error's `type`, when GitHub gave one.
    pub kind: Option<String>,
    pub message: String,
}

/// The error's `type`, empty when absent.
pub open spec fn kind_text(e: &GraphQlError) -> Seq<char> {
    match e.kind {
        Some(k) => k@,
        None => Seq::empty(),
    }
}

/// What a GraphQL error becomes: a missing user or a rate limit are answers,
/// anything else a GitHub failure. The username of a missing user is filled
/// in by the caller, which knows it.
pub open spec fn classified(e: &GraphQlError) -> ErrorView {
    if kind_text(e) == "NOT_FOUND"@ {
        ErrorView::UserNotFound { username: Seq::empty() }
    } else if kind_text(e) == "RATE_LIMITED"@ {
        ErrorView::RateLimit { message: "GitHub rate limit exceeded"@, retry_after: Some(60) }
    } else {
        ErrorView::GitHubApi { message: "GitHub GraphQL error: "@ + e.message@ }
    }
}

/// Map a GraphQL error onto the API's error type.
pub fn classify(error: &GraphQlError) -> (r: ApiError)
    ensures
        r@ == classified(error),
{
    let kind: &str = match &error.kind {
        Some(k) => k.as_str(),
        None => "",
    };
    proof {
        reveal_strlit("");
        assert(""@ =~= Seq::<char>::empty());
    }
    assert(kind@ == kind_text(error));
    if same_text(kind, "NOT_FOUND") {
        ApiError::UserNotFound { username: String::new() }
    } else if same_text(kind, "RATE_LIMITED") {
        ApiError::rate_limited("GitHub rate limit exceeded", Some(60))
    } else {
        let mut message = String::from_str("GitHub GraphQL error: ");
        push_str(&mut message, error.message.as_str());
        ApiError::GitHubApi { message }
    }
}

/// After a successful HTTP exchange: the first GraphQL error wins; a body
/// without `data` is a failure too.
pub fn settle_payload(first_error: Option<&GraphQlError>, has_data: bool) -> (r: Result<(), ApiError>)
    ensures
        match first_error {
            Some(e) => r matches Err(err) && err@ == classified(e),
            None => if has_data {
                r is Ok
            } else {
                r matches Err(err) && err@ == (ErrorView::GitHubApi { message: "GitHub returned no data"@ })
            },
        },
{
    match first_error {
        Some(e) => Err(classify(e)),
        None => if has_data {
            Ok(())
        } else {
            Err(ApiError::github("GitHub returned no data"))
        },
    }
}

/// A name for the standard reason phrase of a status code (`Not Found` for
/// 404), as the `http` crate's table has it; `None` for codes it does not list.
pub uninterp spec fn reason_phrase(code: u16) -> Option<Seq<char>>;

/// `StatusCode::from_u16` then `StatusCode::canonical_reason`. Codes from 100
/// to 999 are valid status codes; the phrase is named by [`reason_phrase`].
#[verifier::external_body]
fn canonical_reason(code: u16) -> (r: Option<&'static str>)
    requires
        100 <= code <= 999,
    ensures
        match r {
            Some(phrase) => reason_phrase(code) == Some(phrase@),
            None => reason_phrase(code) is None,
        },
{
    match reqwest::StatusCode::from_u16(code) {
        Ok(status) => status.canonical_reason(),
        Err(_) => None,
    }
}

/// A status code as `Display` renders it: `404 Not Found`.
pub open spec fn status_text(code: u16, reason: Option<Seq<char>>) -> Seq<char> {
    decimal(code as nat) + " "@ + match reason {
        Some(phrase) => phrase,
        None => "<unknown status code>"@,
    }
}

/// What to make of a response's status.
pub enum Verdict {
    /// GitHub refused for rate limiting: the credential counts as spent until
    /// `quota.reset_at`.
    RateLimited { quota: RateLimitStatus, error: ApiError },
    /// The credential itself was refused: it is parked for an hour rather than
    /// retried forever.
    CredentialRejected { quota: RateLimitStatus, error: ApiError },
    /// Any other unsuccessful status.
    Failed(ApiError),
    /// A success: read the body.
    Proceed,
}

/// When a rate-limited credential's window is taken to reopen: after the
/// `Retry-After` GitHub sent, or a minute, counted from `now`.
pub open spec fn throttled_until(now: i64, retry_after: Option<u64>) -> int {
    now + as_signed(
        match retry_after {
            Some(seconds) => seconds,
            None => 60,
        },
    )
}

/// The verdict on a status, with `reason` the status code's reason phrase.
pub open spec fn verdict_holds(
    r: &Verdict,
    status: u16,
    reason: Option<Seq<char>>,
    retry_after: Option<u64>,
    now: i64,
) -> bool {
    if status == 429 || status == 403 {
        r matches Verdict::RateLimited { quota, error } && quota.remaining == 0 && quota.reset_at
            == throttled_until(now, retry_after) && error@ == (ErrorView::RateLimit {
            message: "GitHub rate limit exceeded"@,
            retry_after: Some(
                match retry_after {
                    Some(seconds) => seconds,
                    None => 60,
                },
            ),
        })
    } else if status == 401 {
        r matches Verdict::CredentialRejected { quota, error } && quota.remaining == 0
            && quota.reset_at == now + 3_600 && error@ == (ErrorView::GitHubApi {
            message: "GitHub rejected the credential"@,
        })
    } else if !(200 <= status <= 299) {
        r matches Verdict::Failed(error) && error@ == (ErrorView::GitHubApi {
            message: "GitHub returned HTTP "@ + status_text(status, reason),
        })
    } else {
        r is Proceed
    }
}

/// Judge a status whose reason phrase is `reason`. GitHub signals both its
/// primary and secondary rate limits with 403 or 429.
pub fn judge_status(status: u16, reason: Option<&str>, retry_after: Option<u64>, now: i64) -> (r: Verdict)
    requires
        (status == 429 || status == 403) ==> i64::MIN <= throttled_until(now, retry_after) <= i64::MAX,
        status == 401 ==> now <= i64::MAX - 3_600,
    ensures
        verdict_holds(
            &r,
            status,
            match reason {
                Some(p) => Some(p@),
                None => None,
            },
            retry_after,
            now,
        ),
{
    if status == 429 || status == 403 {
        let seconds = match retry_after {
            Some(s) => s,
            None => 60,
        };
        let quota = RateLimitStatus { remaining: 0, reset_at: now + signed_bits(seconds) };
        Verdict::RateLimited {
            quota,
            error: ApiError::rate_limited("GitHub rate limit exceeded", Some(seconds)),
        }
    } else if status == 401 {
        Verdict::CredentialRejected {
            quota: RateLimitStatus { remaining: 0, reset_at: now + 3_600 },
            error: ApiError::github("GitHub rejected the credential"),
        }
    } else if !(200 <= status && status <= 299) {
        let mut message = String::from_str("GitHub returned HTTP ");
        push_decimal(&mut message, status as u64);
        push_str(&mut message, " ");
        match reason {
            Some(phrase) => push_str(&mut message, phrase),
            None => push_str(&mut message, "<unknown status code>"),
        }
        proof {
            let reason_view = match reason {
                Some(p) => Some(p@),
                None => None,
            };
            assert(message@ =~= "GitHub returned HTTP "@ + status_text(status, reason_view));
        }
        Verdict::Failed(ApiError::GitHubApi { message })
    } else {
        Verdict::Proceed
    }
}

/// Judge a response's status code (100 to 999, as every HTTP status is).
pub fn judge_response(status: u16, retry_after: Option<u64>, now: i64) -> (r: Verdict)
    requires
        100 <= status <= 999,
        (status == 429 || status == 403) ==> i64::MIN <= throttled_until(now, retry_after) <= i64::MAX,
        status == 401 ==> now <= i64::MAX - 3_600,
    ensures
        verdict_holds(&r, status, reason_phrase(status), retry_after, now),
{
    let reason = canonical_reason(status);
    judge_status(status, reason, retry_after, now)
}

/// A `Retry-After` header's value, in seconds, as `u64::from_str` reads it.
pub fn parse_retry_after(value: &str) -> (r: Option<u64>)
    ensures
        r == parse_u64_bytes(encode_utf8(value@)),
{
    let bytes = value.as_bytes();
    assert(bytes@.subrange(0, bytes@.len() as int) =~= bytes@);
    parse_u64(bytes, 0, bytes.len())
}

// ---------------------------------------------------------------------------
// Retrying.

/// What to do after a failed attempt.
pub enum RetryStep {
    /// Wait, then make attempt number `attempt`.
    Retry { attempt: u32, delay_millis: u64 },
    /// Stop and answer with this error.
    GiveUp(ApiError),
}

/// After attempt `attempt` (counting from zero) failed with `error`: a
/// definitive answer (a missing user, a rate limit) is returned at once;
/// anything else is retried with backoff until the attempts run out, and
/// then the last error is returned.
pub fn after_failure(attempt: u32, error: ApiError) -> (r: RetryStep)
    requires
        attempt < MAX_ATTEMPTS,
    ensures
        if error@ is UserNotFound || error@ is RateLimit || attempt + 1 >= MAX_ATTEMPTS {
            r matches RetryStep::GiveUp(e) && e@ == error@
        } else {
            r matches RetryStep::Retry { attempt: next, delay_millis }
                && next == attempt + 1 && delay_millis == backoff_millis(next)
        },
{
    if error.is_definitive() || attempt + 1 >= MAX_ATTEMPTS {
        RetryStep::GiveUp(error)
    } else {
        RetryStep::Retry { attempt: attempt + 1, delay_millis: backoff(attempt + 1) }
    }
}

} // verus!
