//! Cache keys and lifetimes.
//!
//! The stores themselves (an in-process cache in front of SQLite) live with the
//! service; what is decided here is which key a value is stored under and how
//! long it stays valid.

use crate::strings::{
    lemma_decimal_digits, lemma_signed_decimal_injective, push_signed, push_str, signed_decimal, trim,
    trimmed,
};
use vstd::prelude::*;

verus! {

/// Rank results, refreshed daily.
pub const TTL_DEFAULT: u64 = 86_400;
/// The in-progress season changes, so it is held briefly.
pub const TTL_CURRENT_YEAR: u64 = 3_600;
/// Completed seasons are immutable; hold them for a month.
pub const TTL_HISTORICAL_YEAR: u64 = 2_592_000;
/// Missing users, so a typo'd badge can't hammer the API.
pub const TTL_NOT_FOUND: u64 = 3_600;
/// Transient failures.
pub const TTL_ERROR: u64 = 300;

/// Data a rank was computed from. Part of the cache key so that variants (a
/// rank over private contributions, say) can never be served for one another.
pub const SCOPE_PUBLIC: &'static str = "public";

/// Seconds since the Unix epoch, or zero when the clock reads before it.
pub fn now_unix() -> (r: i64)
    ensures
        exists|elapsed: Option<u64>| r == crate::credential::unix_time_of(elapsed),
{
    crate::credential::now_unix()
}

/// A name for what `str::to_lowercase` returns: the Unicode lower-case
/// mapping of the text.
pub uninterp spec fn lowercase(s: Seq<char>) -> Seq<char>;

/// `str::to_lowercase`. Its result is named by [`lowercase`], not described:
/// the mapping is Unicode's.
#[verifier::external_body]
pub(crate) fn to_lowercase(s: &str) -> (r: String)
    ensures
        r@ == lowercase(s@),
{
    s.to_lowercase()
}

/// The form of a username that keys are built from: trimmed and lower-cased,
/// since usernames are case-insensitive.
pub open spec fn key_name(username: Seq<char>) -> Seq<char> {
    lowercase(trimmed(username))
}

/// A username as it appears in cache keys.
pub fn normalize_username(username: &str) -> (r: String)
    ensures
        r@ == key_name(username@),
{
    let t = trim(username);
    to_lowercase(t.as_str())
}

/// The season part of a rank key: the year, or `all` for an all-time rank.
pub open spec fn season_segment(season: Option<i32>) -> Seq<char> {
    match season {
        Some(year) => signed_decimal(year as int),
        None => "all"@,
    }
}

/// `rank:{name}:{season}:{scope}`.
pub open spec fn rank_key_text(name: Seq<char>, season: Option<i32>, scope: Seq<char>) -> Seq<char> {
    "rank:"@ + name + ":"@ + season_segment(season) + ":"@ + scope
}

/// `year:{name}:{year}`.
pub open spec fn year_key_text(name: Seq<char>, year: i32) -> Seq<char> {
    "year:"@ + name + ":"@ + signed_decimal(year as int)
}

/// The rank key for an already-normalized username.
pub fn rank_key_for(name: &str, season: Option<i32>, scope: &str) -> (r: String)
    ensures
        r@ == rank_key_text(name@, season, scope@),
{
    let mut out = String::from_str("rank:");
    push_str(&mut out, name);
    push_str(&mut out, ":");
    match season {
        Some(year) => push_signed(&mut out, year as i64),
        None => push_str(&mut out, "all"),
    }
    push_str(&mut out, ":");
    push_str(&mut out, scope);
    proof {
        assert(out@ =~= rank_key_text(name@, season, scope@));
    }
    out
}

/// Cache key for a rank result.
///
/// Not keyed by theme: a rank does not depend on its colour scheme, and
/// keying by it would split one entry into one per theme.
pub fn rank_key(username: &str, season: Option<i32>, scope: &str) -> (r: String)
    ensures
        r@ == rank_key_text(key_name(username@), season, scope@),
{
    let name = normalize_username(username);
    rank_key_for(name.as_str(), season, scope)
}

/// Variants of a rank computed over different data can never be served for
/// one another: ranks of different scopes never share a key.
pub proof fn law_scopes_never_share_a_key(name: Seq<char>, season: Option<i32>, a: Seq<char>, b: Seq<char>)
    requires
        a != b,
    ensures
        rank_key_text(name, season, a) != rank_key_text(name, season, b),
{
    let prefix = "rank:"@ + name + ":"@ + season_segment(season) + ":"@;
    assert(rank_key_text(name, season, a) =~= prefix + a);
    assert(rank_key_text(name, season, b) =~= prefix + b);
    if prefix + a == prefix + b {
        assert((prefix + a).subrange(prefix.len() as int, (prefix + a).len() as int) =~= a);
        assert((prefix + b).subrange(prefix.len() as int, (prefix + b).len() as int) =~= b);
    }
}

/// A season's rank and the all-time rank, or the ranks of two different
/// seasons, never share a key.
pub proof fn law_seasons_never_share_a_key(name: Seq<char>, a: Option<i32>, b: Option<i32>, scope: Seq<char>)
    requires
        a != b,
    ensures
        rank_key_text(name, a, scope) != rank_key_text(name, b, scope),
{
    let prefix = "rank:"@ + name + ":"@;
    let ka = rank_key_text(name, a, scope);
    let kb = rank_key_text(name, b, scope);
    let sa = season_segment(a);
    let sb = season_segment(b);
    reveal_strlit(":");
    reveal_strlit("all");
    assert(ka =~= prefix + (sa + ":"@ + scope));
    assert(kb =~= prefix + (sb + ":"@ + scope));
    if ka == kb {
        let ra = ka.subrange(prefix.len() as int, ka.len() as int);
        let rb = kb.subrange(prefix.len() as int, kb.len() as int);
        assert(ra =~= sa + ":"@ + scope);
        assert(rb =~= sb + ":"@ + scope);
        assert(sa.len() == sb.len());
        assert(sa =~= ra.subrange(0, sa.len() as int));
        assert(sb =~= rb.subrange(0, sb.len() as int));
        match (a, b) {
            (Some(x), Some(y)) => {
                lemma_signed_decimal_injective(x as int, y as int);
            },
            (Some(x), None) => {
                lemma_decimal_digits(if x < 0 { (-x) as nat } else { x as nat });
                reveal_strlit("-");
                assert(sa[0] == '-' || ('0' <= sa[0] <= '9'));
                assert(sb[0] == 'a');
            },
            (None, Some(y)) => {
                lemma_decimal_digits(if y < 0 { (-y) as nat } else { y as nat });
                reveal_strlit("-");
                assert(sb[0] == '-' || ('0' <= sb[0] <= '9'));
                assert(sa[0] == 'a');
            },
            (None, None) => {},
        }
    }
}

/// Usernames are case-insensitive, so keys never fragment by case or by
/// surrounding blanks: two spellings with the same key form share every key.
pub proof fn law_keys_follow_the_key_name(u: Seq<char>, v: Seq<char>, season: Option<i32>, scope: Seq<char>, year: i32)
    requires
        key_name(u) == key_name(v),
    ensures
        rank_key_text(key_name(u), season, scope) == rank_key_text(key_name(v), season, scope),
        year_key_text(key_name(u), year) == year_key_text(key_name(v), year),
{
}

/// The year key for an already-normalized username.
pub fn year_key_for(name: &str, year: i32) -> (r: String)
    ensures
        r@ == year_key_text(name@, year),
{
    let mut out = String::from_str("year:");
    push_str(&mut out, name);
    push_str(&mut out, ":");
    push_signed(&mut out, year as i64);
    proof {
        assert(out@ =~= year_key_text(name@, year));
    }
    out
}

/// Cache key for one year of a user's stats.
pub fn year_key(username: &str, year: i32) -> (r: String)
    ensures
        r@ == year_key_text(key_name(username@), year),
{
    let name = normalize_username(username);
    year_key_for(name.as_str(), year)
}

/// How long a year's stats stay valid: finished seasons never change.
pub fn ttl_for_year(year: i32, current_year: i32) -> (r: u64)
    ensures
        r == if year < current_year { TTL_HISTORICAL_YEAR } else { TTL_CURRENT_YEAR },
{
    if year < current_year {
        TTL_HISTORICAL_YEAR
    } else {
        TTL_CURRENT_YEAR
    }
}

/// A `u64` read as the `i64` with the same bits.
pub open spec fn as_signed(x: u64) -> int {
    if x <= i64::MAX {
        x as int
    } else {
        x - 0x1_0000_0000_0000_0000
    }
}

/// `x as i64`.
pub fn signed_bits(x: u64) -> (r: i64)
    ensures
        r == as_signed(x),
{
    let r: i64 = #[verifier::truncate] (x as i64);
    assert(x <= 0x7fff_ffff_ffff_ffff ==> r == x) by (bit_vector)
        requires
            r == x as i64;
    assert(x > 0x7fff_ffff_ffff_ffff ==> r + 0x1_0000_0000_0000_0000 == x) by (bit_vector)
        requires
            r == x as i64;
    r
}

/// When an entry stored at `now` with a lifetime of `ttl` seconds expires.
pub fn expires_at(now: i64, ttl: u64) -> (r: i64)
    requires
        i64::MIN <= now + as_signed(ttl) <= i64::MAX,
    ensures
        r == now + as_signed(ttl),
{
    now + signed_bits(ttl)
}

/// Seconds an entry expiring at `expires_at` has left at `now`; none once it
/// has expired. An in-memory store evicts the entry after this long.
pub fn remaining_lifetime(expires_at: i64, now: i64) -> (r: u64)
    ensures
        r == if expires_at > now { expires_at - now } else { 0 },
{
    if expires_at > now {
        (expires_at as i128 - now as i128) as u64
    } else {
        0
    }
}

/// Whether an entry expiring at `expires_at` may still be served at `now`.
/// At the expiry second itself it is already gone.
pub fn is_live(expires_at: i64, now: i64) -> (r: bool)
    ensures
        r == (expires_at > now),
{
    expires_at > now
}

} // verus!
