//! Prometheus metrics.
//!
//! A handful of counters, two sampled gauges and one latency histogram,
//! rendered in the text exposition format. Labels stay low-cardinality: the
//! status class, never the status code or the path.
//!
//! Counters wrap at `u64::MAX` like the atomic counters a concurrent service
//! keeps; a service shares one `Metrics` behind a lock.

use crate::strings::{
    decimal, digit, digit_char, lemma_ten_pow_positive, push_char, push_decimal, push_str, ten_pow,
};
use vstd::prelude::*;

verus! {

/// Number of finite latency buckets; the histogram keeps one more, `+Inf`.
pub const LATENCY_BUCKET_COUNT: usize = 9;

/// Upper bound of finite bucket `i`, in nanoseconds: 1ms, 5ms, 10ms, 50ms,
/// 100ms, 500ms, 1s, 5s, 10s.
pub open spec fn bucket_bound(i: int) -> nat {
    if i == 0 { 1_000_000 }
    else if i == 1 { 5_000_000 }
    else if i == 2 { 10_000_000 }
    else if i == 3 { 50_000_000 }
    else if i == 4 { 100_000_000 }
    else if i == 5 { 500_000_000 }
    else if i == 6 { 1_000_000_000 }
    else if i == 7 { 5_000_000_000 }
    else { 10_000_000_000 }
}

/// The `le` label of finite bucket `i`: its bound in seconds.
pub open spec fn bucket_label(i: int) -> Seq<char> {
    if i == 0 { "0.001"@ }
    else if i == 1 { "0.005"@ }
    else if i == 2 { "0.01"@ }
    else if i == 3 { "0.05"@ }
    else if i == 4 { "0.1"@ }
    else if i == 5 { "0.5"@ }
    else if i == 6 { "1"@ }
    else if i == 7 { "5"@ }
    else { "10"@ }
}

/// The value of a decimal digit character.
pub open spec fn digit_value(c: char) -> int {
    (c as int) - ('0' as int)
}

/// Where the decimal point of a number's text stands: the position of the
/// first `.`, or the text's length when there is none.
pub open spec fn point_position(s: Seq<char>) -> nat
    decreases s.len(),
{
    if s.len() == 0 || s[0] == '.' {
        0
    } else {
        1 + point_position(s.subrange(1, s.len() as int))
    }
}

/// The value of a run of decimal digits, most significant first.
pub open spec fn whole_value(s: Seq<char>) -> int
    decreases s.len(),
{
    if s.len() == 0 {
        0
    } else {
        whole_value(s.drop_last()) * 10 + digit_value(s.last())
    }
}

/// The digits after a decimal point, in billionths: the first counts
/// hundred-millions, each later one a tenth of the one before.
pub open spec fn fraction_nanos(s: Seq<char>) -> int
    decreases s.len(),
{
    if s.len() == 0 {
        0
    } else {
        digit_value(s[0]) * 100_000_000 + fraction_nanos(s.subrange(1, s.len() as int)) / 10
    }
}

/// A duration written in seconds as a decimal (`0.005`, `1`, `10`), in
/// nanoseconds.
pub open spec fn seconds_text_nanos(s: Seq<char>) -> int {
    let p = point_position(s);
    whole_value(s.subrange(0, p as int)) * 1_000_000_000 + if p < s.len() {
        fraction_nanos(s.subrange((p + 1) as int, s.len() as int))
    } else {
        0
    }
}

/// Each finite bucket counts exactly the samples its `le` label admits: its
/// bound is the label's number of seconds, in nanoseconds, so a sample is
/// counted under `le="x"` only when it took at most `x` seconds. The bounds
/// rise strictly from bucket to bucket.
pub proof fn law_bucket_bounds_match_their_labels(i: int, j: int)
    requires
        0 <= i < LATENCY_BUCKET_COUNT,
        0 <= j < LATENCY_BUCKET_COUNT,
    ensures
        bucket_bound(i) == seconds_text_nanos(bucket_label(i)),
        i < j ==> bucket_bound(i) < bucket_bound(j),
{
    reveal_strlit("0.001");
    reveal_strlit("0.005");
    reveal_strlit("0.01");
    reveal_strlit("0.05");
    reveal_strlit("0.1");
    reveal_strlit("0.5");
    reveal_strlit("1");
    reveal_strlit("5");
    reveal_strlit("10");
    let s = bucket_label(i);
    reveal_with_fuel(point_position, 4);
    reveal_with_fuel(whole_value, 3);
    reveal_with_fuel(fraction_nanos, 4);
    if s.len() > 1 && s[1] == '.' {
        assert(s.subrange(1, s.len() as int)[0] == '.');
        assert(point_position(s) == 1);
        assert(s.subrange(0, 1).drop_last() =~= Seq::<char>::empty());
        let f = s.subrange(2, s.len() as int);
        assert(whole_value(s.subrange(0, 1)) == 0);
        if f.len() == 3 {
            assert(f.subrange(1, 3).subrange(1, 2).subrange(1, 1) =~= Seq::<char>::empty());
        } else {
            assert(f.subrange(1, 1) =~= Seq::<char>::empty());
        }
    } else if s.len() == 1 {
        assert(s.subrange(1, 1) =~= Seq::<char>::empty());
        assert(s.subrange(0, 1) =~= s);
        assert(s.drop_last() =~= Seq::<char>::empty());
    } else {
        assert(s.subrange(1, 2).subrange(1, 1) =~= Seq::<char>::empty());
        assert(s.subrange(0, 2) =~= s);
        assert(s.drop_last().drop_last() =~= Seq::<char>::empty());
    }
}

fn bucket_bound_nanos(i: usize) -> (r: u64)
    requires
        i < LATENCY_BUCKET_COUNT,
    ensures
        r == bucket_bound(i as int),
{
    if i == 0 { 1_000_000 }
    else if i == 1 { 5_000_000 }
    else if i == 2 { 10_000_000 }
    else if i == 3 { 50_000_000 }
    else if i == 4 { 100_000_000 }
    else if i == 5 { 500_000_000 }
    else if i == 6 { 1_000_000_000 }
    else if i == 7 { 5_000_000_000 }
    else { 10_000_000_000 }
}

fn bucket_label_text(i: usize) -> (r: &'static str)
    requires
        i < LATENCY_BUCKET_COUNT,
    ensures
        r@ == bucket_label(i as int),
{
    if i == 0 { "0.001" }
    else if i == 1 { "0.005" }
    else if i == 2 { "0.01" }
    else if i == 3 { "0.05" }
    else if i == 4 { "0.1" }
    else if i == 5 { "0.5" }
    else if i == 6 { "1" }
    else if i == 7 { "5" }
    else { "10" }
}

/// Which response counter a status code lands in.
#[derive(Debug, Clone, Copy, PartialEq, Eq, Structural)]
pub enum StatusClass {
    /// 200 to 399: served.
    Success,
    /// 400 to 499: the caller's fault.
    ClientError,
    /// Anything else, including codes below 200.
    ServerError,
}

pub open spec fn status_class(status: u16) -> StatusClass {
    if 200 <= status <= 399 {
        StatusClass::Success
    } else if 400 <= status <= 499 {
        StatusClass::ClientError
    } else {
        StatusClass::ServerError
    }
}

/// The counters a `Metrics` holds.
pub struct MetricsView {
    pub requests_total: u64,
    pub responses_2xx: u64,
    pub responses_4xx: u64,
    pub responses_5xx: u64,
    pub cache_hits: u64,
    pub cache_misses: u64,
    pub github_requests: u64,
    pub github_errors: u64,
    pub github_rate_limited: u64,
    pub cards_rendered: u64,
    /// Cumulative bucket counts, the last one being `+Inf`.
    pub latency_buckets: Seq<u64>,
    pub latency_sum_micros: u64,
}

/// Service counters and the request-latency histogram.
#[derive(Debug)]
pub struct Metrics {
    requests_total: u64,
    responses_2xx: u64,
    responses_4xx: u64,
    responses_5xx: u64,
    cache_hits: u64,
    cache_misses: u64,
    github_requests: u64,
    github_errors: u64,
    github_rate_limited: u64,
    cards_rendered: u64,
    latency_buckets: [u64; 10],
    latency_sum_micros: u64,
}

impl View for Metrics {
    type V = MetricsView;

    closed spec fn view(&self) -> MetricsView {
        MetricsView {
            requests_total: self.requests_total,
            responses_2xx: self.responses_2xx,
            responses_4xx: self.responses_4xx,
            responses_5xx: self.responses_5xx,
            cache_hits: self.cache_hits,
            cache_misses: self.cache_misses,
            github_requests: self.github_requests,
            github_errors: self.github_errors,
            github_rate_limited: self.github_rate_limited,
            cards_rendered: self.cards_rendered,
            latency_buckets: self.latency_buckets@,
            latency_sum_micros: self.latency_sum_micros,
        }
    }
}

/// Every counter at zero.
pub open spec fn zeroed() -> MetricsView {
    MetricsView {
        requests_total: 0,
        responses_2xx: 0,
        responses_4xx: 0,
        responses_5xx: 0,
        cache_hits: 0,
        cache_misses: 0,
        github_requests: 0,
        github_errors: 0,
        github_rate_limited: 0,
        cards_rendered: 0,
        latency_buckets: Seq::new(10, |i: int| 0u64),
        latency_sum_micros: 0,
    }
}

/// One more, wrapping at `u64::MAX` as an atomic counter does.
pub open spec fn bump(n: u64) -> u64 {
    n.wrapping_add(1)
}

/// The histogram after one sample of `nanos`: every finite bucket whose bound
/// the sample does not exceed, and `+Inf`, count it.
pub open spec fn observed(buckets: Seq<u64>, nanos: u128) -> Seq<u64> {
    Seq::new(
        10,
        |i: int|
            if i == 9 || nanos <= bucket_bound(i) {
                bump(buckets[i])
            } else {
                buckets[i]
            },
    )
}

/// `Duration::as_micros` of `nanos`, as the `u64` the sum is kept in.
pub open spec fn micros_of(nanos: u128) -> u64 {
    ((nanos / 1000) % 0x1_0000_0000_0000_0000) as u64
}

/// The state after recording one response.
pub open spec fn after_response(v: MetricsView, status: u16, nanos: u128) -> MetricsView {
    let class = status_class(status);
    MetricsView {
        responses_2xx: if class == StatusClass::Success { bump(v.responses_2xx) } else { v.responses_2xx },
        responses_4xx: if class == StatusClass::ClientError { bump(v.responses_4xx) } else { v.responses_4xx },
        responses_5xx: if class == StatusClass::ServerError { bump(v.responses_5xx) } else { v.responses_5xx },
        latency_buckets: observed(v.latency_buckets, nanos),
        latency_sum_micros: v.latency_sum_micros.wrapping_add(micros_of(nanos)),
        ..v
    }
}

/// No finite bucket counts more samples than a wider one, and `+Inf` counts
/// them all.
pub open spec fn cumulative(buckets: Seq<u64>) -> bool {
    buckets.len() == 10 && forall|i: int, j: int| 0 <= i <= j < 10 ==> buckets[i] <= buckets[j]
}

/// A sample counts in its own bucket and in every wider one, so recording a
/// response keeps the histogram cumulative, as long as the total count has not
/// reached `u64::MAX`.
pub proof fn law_histogram_stays_cumulative(before: MetricsView, status: u16, nanos: u128)
    requires
        cumulative(before.latency_buckets),
        before.latency_buckets[9] < u64::MAX,
    ensures
        cumulative(after_response(before, status, nanos).latency_buckets),
{
    let b = before.latency_buckets;
    let a = after_response(before, status, nanos).latency_buckets;
    assert forall|i: int, j: int| 0 <= i <= j < 10 implies a[i] <= a[j] by {
        assert(b[i] <= b[9] && b[j] <= b[9]);
        assert(i < 9 && nanos <= bucket_bound(i) ==> (j == 9 || nanos <= bucket_bound(j)));
    }
}

/// A fresh set of metrics has a cumulative histogram.
pub proof fn law_fresh_histogram_is_cumulative()
    ensures
        cumulative(zeroed().latency_buckets),
{
}

// ---------------------------------------------------------------------------
// The exposition text.

/// A counter's `HELP`, `TYPE` and sample lines.
pub open spec fn counter_block(name: Seq<char>, help: Seq<char>, value: nat) -> Seq<char> {
    "# HELP "@ + name + " "@ + help + "\n# TYPE "@ + name + " counter\n"@ + name + " "@
        + decimal(value) + "\n"@
}

/// A gauge's `HELP`, `TYPE` and sample lines.
pub open spec fn gauge_block(name: Seq<char>, help: Seq<char>, value: nat) -> Seq<char> {
    "# HELP "@ + name + " "@ + help + "\n# TYPE "@ + name + " gauge\n"@ + name + " "@
        + decimal(value) + "\n"@
}

/// One status-class sample line.
pub open spec fn class_line(class: Seq<char>, value: nat) -> Seq<char> {
    "github_ranked_responses_total{class=\""@ + class + "\"} "@ + decimal(value) + "\n"@
}

/// The sample line of finite bucket `i`.
pub open spec fn bucket_line(i: int, value: nat) -> Seq<char> {
    "github_ranked_request_duration_seconds_bucket{le=\""@ + bucket_label(i) + "\"} "@
        + decimal(value) + "\n"@
}

/// The sample lines of the first `n` finite buckets.
pub open spec fn bucket_lines(buckets: Seq<u64>, n: nat) -> Seq<char>
    decreases n,
{
    if n == 0 {
        Seq::empty()
    } else {
        bucket_lines(buckets, (n - 1) as nat) + bucket_line(n - 1, buckets[n - 1] as nat)
    }
}

/// `digits` without its trailing zeros.
pub open spec fn without_trailing_zeros(digits: Seq<char>) -> Seq<char>
    decreases digits.len(),
{
    if digits.len() > 0 && digits.last() == '0' {
        without_trailing_zeros(digits.drop_last())
    } else {
        digits
    }
}

/// The six-digit, zero-padded fractional part of `micros` seconds.
pub open spec fn micro_digits(frac: nat) -> Seq<char> {
    Seq::new(6, |i: int| digit_char(((frac / ten_pow((5 - i) as nat)) % 10) as nat))
}

/// `micros` microseconds in seconds, in shortest decimal form: `0.02`, `3`,
/// `1.000001`.
pub open spec fn seconds_text(micros: nat) -> Seq<char> {
    let whole = micros / 1_000_000;
    let frac = micros % 1_000_000;
    if frac == 0 {
        decimal(whole)
    } else {
        decimal(whole) + "."@ + without_trailing_zeros(micro_digits(frac))
    }
}

/// The whole scrape body.
pub open spec fn exposition(v: MetricsView, credentials_available: nat, cache_entries: nat) -> Seq<char> {
    let total = v.latency_buckets[9] as nat;
    counter_block("github_ranked_requests_total"@, "Total HTTP requests received."@, v.requests_total as nat)
        + "# HELP github_ranked_responses_total HTTP responses by status class.\n"@
        + "# TYPE github_ranked_responses_total counter\n"@
        + class_line("2xx"@, v.responses_2xx as nat)
        + class_line("4xx"@, v.responses_4xx as nat)
        + class_line("5xx"@, v.responses_5xx as nat)
        + counter_block("github_ranked_cache_hits_total"@, "Rank lookups served from cache."@, v.cache_hits as nat)
        + counter_block("github_ranked_cache_misses_total"@, "Rank lookups that required a fetch."@, v.cache_misses as nat)
        + counter_block("github_ranked_github_requests_total"@, "GraphQL requests sent to GitHub."@, v.github_requests as nat)
        + counter_block("github_ranked_github_errors_total"@, "GitHub requests that failed."@, v.github_errors as nat)
        + counter_block("github_ranked_github_rate_limited_total"@, "GitHub requests rejected for rate limiting."@, v.github_rate_limited as nat)
        + counter_block("github_ranked_cards_rendered_total"@, "Badge cards rendered."@, v.cards_rendered as nat)
        + gauge_block("github_ranked_credentials_available"@, "Credentials with quota remaining."@, credentials_available)
        + gauge_block("github_ranked_cache_entries"@, "Entries held in the in-memory cache."@, cache_entries)
        + "# HELP github_ranked_request_duration_seconds Request latency.\n"@
        + "# TYPE github_ranked_request_duration_seconds histogram\n"@
        + bucket_lines(v.latency_buckets, 9)
        + "github_ranked_request_duration_seconds_bucket{le=\"+Inf\"} "@ + decimal(total) + "\n"@
        + "github_ranked_request_duration_seconds_sum "@ + seconds_text(v.latency_sum_micros as nat) + "\n"@
        + "github_ranked_request_duration_seconds_count "@ + decimal(total) + "\n"@
}

fn counter(out: &mut String, name: &str, help: &str, value: u64)
    ensures
        final(out)@ == old(out)@ + counter_block(name@, help@, value as nat),
{
    push_str(out, "# HELP ");
    push_str(out, name);
    push_str(out, " ");
    push_str(out, help);
    push_str(out, "\n# TYPE ");
    push_str(out, name);
    push_str(out, " counter\n");
    push_str(out, name);
    push_str(out, " ");
    push_decimal(out, value);
    push_str(out, "\n");
    proof {
        assert(final(out)@ =~= old(out)@ + counter_block(name@, help@, value as nat));
    }
}

fn gauge(out: &mut String, name: &str, help: &str, value: u64)
    ensures
        final(out)@ == old(out)@ + gauge_block(name@, help@, value as nat),
{
    push_str(out, "# HELP ");
    push_str(out, name);
    push_str(out, " ");
    push_str(out, help);
    push_str(out, "\n# TYPE ");
    push_str(out, name);
    push_str(out, " gauge\n");
    push_str(out, name);
    push_str(out, " ");
    push_decimal(out, value);
    push_str(out, "\n");
    proof {
        assert(final(out)@ =~= old(out)@ + gauge_block(name@, help@, value as nat));
    }
}

fn class_sample(out: &mut String, class: &str, value: u64)
    ensures
        final(out)@ == old(out)@ + class_line(class@, value as nat),
{
    push_str(out, "github_ranked_responses_total{class=\"");
    push_str(out, class);
    push_str(out, "\"} ");
    push_decimal(out, value);
    push_str(out, "\n");
    proof {
        assert(final(out)@ =~= old(out)@ + class_line(class@, value as nat));
    }
}

proof fn lemma_trim_digits_step(d: Seq<char>, k: int)
    requires
        0 < k <= d.len(),
        d[k - 1] == '0',
    ensures
        without_trailing_zeros(d.subrange(0, k)) == without_trailing_zeros(d.subrange(0, k - 1)),
{
    assert(d.subrange(0, k).drop_last() =~= d.subrange(0, k - 1));
}

/// Appends `micros` microseconds as seconds.
fn push_seconds(out: &mut String, micros: u64)
    ensures
        final(out)@ == old(out)@ + seconds_text(micros as nat),
{
    let whole = micros / 1_000_000;
    let frac = micros % 1_000_000;
    push_decimal(out, whole);
    if frac == 0 {
        return;
    }
    // The six fractional digits, most significant first.
    let mut digits: Vec<char> = Vec::new();
    let mut scale: u64 = 100_000;
    assert(ten_pow(5) == 100_000) by {
        reveal_with_fuel(ten_pow, 6);
    }
    let mut k: usize = 0;
    while k < 6
        invariant
            k <= 6,
            frac < 1_000_000,
            k < 6 ==> scale == ten_pow((5 - k) as nat),
            scale >= 1,
            digits@.len() == k,
            forall|j: int| 0 <= j < k ==> digits@[j] == micro_digits(frac as nat)[j],
        decreases 6 - k,
    {
        let d = (frac / scale) % 10;
        digits.push(digit(d));
        proof {
            lemma_ten_pow_positive((4 - k) as nat);
        }
        if k < 5 {
            scale = scale / 10;
        }
        k = k + 1;
    }
    assert(digits@ =~= micro_digits(frac as nat));
    // Drop trailing zeros: at least one digit is non-zero since frac > 0.
    let mut len: usize = 6;
    assert(digits@.subrange(0, 6) =~= digits@);
    while len > 0 && digits[len - 1] == '0'
        invariant
            len <= 6,
            digits@ == micro_digits(frac as nat),
            without_trailing_zeros(digits@) == without_trailing_zeros(digits@.subrange(0, len as int)),
        decreases len,
    {
        proof {
            lemma_trim_digits_step(digits@, len as int);
        }
        len = len - 1;
    }
    proof {
        let s = digits@.subrange(0, len as int);
        assert(!(s.len() > 0 && s.last() == '0'));
        assert(without_trailing_zeros(s) == s);
    }
    push_char(out, '.');
    proof {
        reveal_strlit(".");
        assert(out@ =~= old(out)@ + decimal(whole as nat) + "."@ + digits@.subrange(0, 0));
    }
    let mut i: usize = 0;
    while i < len
        invariant
            i <= len <= 6,
            digits@.len() == 6,
            out@ == old(out)@ + decimal(whole as nat) + "."@ + digits@.subrange(0, i as int),
        decreases len - i,
    {
        push_char(out, digits[i]);
        proof {
            assert(digits@.subrange(0, i as int).push(digits@[i as int]) =~= digits@.subrange(0, i + 1));
        }
        i = i + 1;
    }
    proof {
        assert(seconds_text(micros as nat) == decimal(whole as nat) + "."@ + without_trailing_zeros(micro_digits(frac as nat)));
    }
}

impl Metrics {
    /// Every counter at zero.
    pub fn new() -> (m: Self)
        ensures
            m@ == zeroed(),
    {
        let m = Metrics {
            requests_total: 0,
            responses_2xx: 0,
            responses_4xx: 0,
            responses_5xx: 0,
            cache_hits: 0,
            cache_misses: 0,
            github_requests: 0,
            github_errors: 0,
            github_rate_limited: 0,
            cards_rendered: 0,
            latency_buckets: [0u64; 10],
            latency_sum_micros: 0,
        };
        assert(m@.latency_buckets =~= zeroed().latency_buckets);
        m
    }

    /// A request arrived.
    pub fn record_request(&mut self)
        ensures
            final(self)@ == (MetricsView { requests_total: bump(old(self)@.requests_total), ..old(self)@ }),
    {
        self.requests_total = self.requests_total.wrapping_add(1);
    }

    /// A response left after `latency_nanos` nanoseconds (`Duration::as_nanos`).
    pub fn record_response(&mut self, status: u16, latency_nanos: u128)
        ensures
            final(self)@ == after_response(old(self)@, status, latency_nanos),
    {
        if 200 <= status && status <= 399 {
            self.responses_2xx = self.responses_2xx.wrapping_add(1);
        } else if 400 <= status && status <= 499 {
            self.responses_4xx = self.responses_4xx.wrapping_add(1);
        } else {
            self.responses_5xx = self.responses_5xx.wrapping_add(1);
        }
        let mut buckets = self.latency_buckets;
        let ghost before = buckets@;
        let mut i: usize = 0;
        while i < LATENCY_BUCKET_COUNT
            invariant
                i <= LATENCY_BUCKET_COUNT,
                buckets@.len() == 10,
                before.len() == 10,
                forall|j: int| 0 <= j < i ==> buckets@[j] == observed(before, latency_nanos)[j],
                forall|j: int| i <= j < 10 ==> buckets@[j] == before[j],
            decreases LATENCY_BUCKET_COUNT - i,
        {
            if latency_nanos <= bucket_bound_nanos(i) as u128 {
                buckets[i] = buckets[i].wrapping_add(1);
            }
            i = i + 1;
        }
        buckets[9] = buckets[9].wrapping_add(1);
        assert(buckets@ =~= observed(before, latency_nanos));
        self.latency_buckets = buckets;
        let micros_wide: u128 = latency_nanos / 1000;
        let micros: u64 = #[verifier::truncate] (micros_wide as u64);
        assert(micros == micros_of(latency_nanos)) by (bit_vector)
            requires
                micros_wide == latency_nanos / 1000,
                micros == micros_wide as u64;
        self.latency_sum_micros = self.latency_sum_micros.wrapping_add(micros);
    }

    /// A rank was served from cache.
    pub fn record_cache_hit(&mut self)
        ensures
            final(self)@ == (MetricsView { cache_hits: bump(old(self)@.cache_hits), ..old(self)@ }),
    {
        self.cache_hits = self.cache_hits.wrapping_add(1);
    }

    /// A rank had to be fetched.
    pub fn record_cache_miss(&mut self)
        ensures
            final(self)@ == (MetricsView { cache_misses: bump(old(self)@.cache_misses), ..old(self)@ }),
    {
        self.cache_misses = self.cache_misses.wrapping_add(1);
    }

    /// A GraphQL request went out.
    pub fn record_github_request(&mut self)
        ensures
            final(self)@ == (MetricsView { github_requests: bump(old(self)@.github_requests), ..old(self)@ }),
    {
        self.github_requests = self.github_requests.wrapping_add(1);
    }

    /// A GraphQL request failed.
    pub fn record_github_error(&mut self)
        ensures
            final(self)@ == (MetricsView { github_errors: bump(old(self)@.github_errors), ..old(self)@ }),
    {
        self.github_errors = self.github_errors.wrapping_add(1);
    }

    /// GitHub refused a request for rate limiting.
    pub fn record_github_rate_limited(&mut self)
        ensures
            final(self)@ == (MetricsView {
                github_rate_limited: bump(old(self)@.github_rate_limited),
                ..old(self)@
            }),
    {
        self.github_rate_limited = self.github_rate_limited.wrapping_add(1);
    }

    /// A badge card was rendered.
    pub fn record_card_rendered(&mut self)
        ensures
            final(self)@ == (MetricsView { cards_rendered: bump(old(self)@.cards_rendered), ..old(self)@ }),
    {
        self.cards_rendered = self.cards_rendered.wrapping_add(1);
    }

    /// The Prometheus text exposition of every metric.
    ///
    /// `credentials_available` and `cache_entries` are sampled at scrape time:
    /// they are live properties of other components, not events.
    pub fn encode(&self, credentials_available: usize, cache_entries: u64) -> (r: String)
        ensures
            r@ == exposition(self@, credentials_available as nat, cache_entries as nat),
    {
        let mut out = String::new();
        counter(&mut out, "github_ranked_requests_total", "Total HTTP requests received.", self.requests_total);
        push_str(&mut out, "# HELP github_ranked_responses_total HTTP responses by status class.\n");
        push_str(&mut out, "# TYPE github_ranked_responses_total counter\n");
        class_sample(&mut out, "2xx", self.responses_2xx);
        class_sample(&mut out, "4xx", self.responses_4xx);
        class_sample(&mut out, "5xx", self.responses_5xx);
        counter(&mut out, "github_ranked_cache_hits_total", "Rank lookups served from cache.", self.cache_hits);
        counter(&mut out, "github_ranked_cache_misses_total", "Rank lookups that required a fetch.", self.cache_misses);
        counter(&mut out, "github_ranked_github_requests_total", "GraphQL requests sent to GitHub.", self.github_requests);
        counter(&mut out, "github_ranked_github_errors_total", "GitHub requests that failed.", self.github_errors);
        counter(
            &mut out,
            "github_ranked_github_rate_limited_total",
            "GitHub requests rejected for rate limiting.",
            self.github_rate_limited,
        );
        counter(&mut out, "github_ranked_cards_rendered_total", "Badge cards rendered.", self.cards_rendered);
        gauge(
            &mut out,
            "github_ranked_credentials_available",
            "Credentials with quota remaining.",
            credentials_available as u64,
        );
        gauge(&mut out, "github_ranked_cache_entries", "Entries held in the in-memory cache.", cache_entries);
        push_str(&mut out, "# HELP github_ranked_request_duration_seconds Request latency.\n");
        push_str(&mut out, "# TYPE github_ranked_request_duration_seconds histogram\n");
        let ghost head = out@;
        let mut i: usize = 0;
        while i < LATENCY_BUCKET_COUNT
            invariant
                i <= LATENCY_BUCKET_COUNT,
                self.latency_buckets@.len() == 10,
                out@ == head + bucket_lines(self@.latency_buckets, i as nat),
            decreases LATENCY_BUCKET_COUNT - i,
        {
            push_str(&mut out, "github_ranked_request_duration_seconds_bucket{le=\"");
            push_str(&mut out, bucket_label_text(i));
            push_str(&mut out, "\"} ");
            push_decimal(&mut out, self.latency_buckets[i]);
            push_str(&mut out, "\n");
            proof {
                assert(out@ =~= head + bucket_lines(self@.latency_buckets, (i + 1) as nat));
            }
            i = i + 1;
        }
        let total = self.latency_buckets[9];
        push_str(&mut out, "github_ranked_request_duration_seconds_bucket{le=\"+Inf\"} ");
        push_decimal(&mut out, total);
        push_str(&mut out, "\n");
        push_str(&mut out, "github_ranked_request_duration_seconds_sum ");
        push_seconds(&mut out, self.latency_sum_micros);
        push_str(&mut out, "\n");
        push_str(&mut out, "github_ranked_request_duration_seconds_count ");
        push_decimal(&mut out, total);
        push_str(&mut out, "\n");
        proof {
            assert(out@ =~= exposition(self@, credentials_available as nat, cache_entries as nat));
        }
        out
    }
}

} // verus!
