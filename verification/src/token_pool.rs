//! Personal access token pool.
//!
//! Round-robins a set of tokens, skipping any GitHub has reported out of quota
//! until their window resets. Meant for development and single-tenant
//! instances: every caller shares the same tokens' hourly budget.

use crate::credential::{
    AuthError, AuthResult, Credential, CredentialId, CredentialKind,
    RateLimitStatus, GRAPHQL_POINTS_PER_HOUR,
};
use crate::strings::{decimal, push_decimal, push_signed, push_str, signed_decimal};
use vstd::prelude::*;

verus! {

/// Whether this build permits personal access tokens in production.
///
/// A constant rather than configuration, so no environment variable can flip
/// it: a build that says no cannot run production traffic on a token.
pub const ALLOWED_IN_PRODUCTION: bool = false;

/// The pool as the contracts see it: each token's text and quota, and the
/// slot the next lease starts searching from.
pub struct PoolView {
    pub tokens: Seq<Seq<char>>,
    pub quotas: Seq<RateLimitStatus>,
    pub next: nat,
}

impl PoolView {
    /// A pool holds at least one token, one quota per token, and a cursor on
    /// one of them.
    pub open spec fn wf(self) -> bool {
        &&& self.tokens.len() > 0
        &&& self.quotas.len() == self.tokens.len()
        &&& self.next < self.tokens.len()
    }
}

/// A slot can be leased: quota left, or its window has elapsed.
pub open spec fn has_quota_at(q: RateLimitStatus, now: int) -> bool {
    q.remaining > 0 || now >= q.reset_at
}

/// A slot after a lease check: an exhausted slot whose window has elapsed is
/// granted a fresh hour of quota; any other slot is left as it was.
pub open spec fn refreshed(q: RateLimitStatus, now: int) -> RateLimitStatus {
    if q.remaining == 0 && now >= q.reset_at {
        RateLimitStatus { remaining: GRAPHQL_POINTS_PER_HOUR, reset_at: q.reset_at }
    } else {
        q
    }
}

/// The first slot with quota, searching cyclically from `start + offset`.
pub open spec fn first_with_quota_from(
    quotas: Seq<RateLimitStatus>,
    start: nat,
    now: int,
    offset: nat,
) -> Option<nat>
    decreases quotas.len() - offset,
{
    if offset >= quotas.len() {
        None
    } else if has_quota_at(quotas[((start + offset) % quotas.len()) as int], now) {
        Some(((start + offset) % quotas.len()) as nat)
    } else {
        first_with_quota_from(quotas, start, now, offset + 1)
    }
}

/// The slot a lease at `now` hands out: the first with quota, starting at
/// the cursor.
pub open spec fn lease_slot(v: PoolView, now: int) -> Option<nat> {
    first_with_quota_from(v.quotas, v.next, now, 0)
}

/// The earliest reset time over all slots.
pub open spec fn earliest_reset(quotas: Seq<RateLimitStatus>) -> int
    decreases quotas.len(),
{
    if quotas.len() == 0 {
        0
    } else if quotas.len() == 1 {
        quotas[0].reset_at as int
    } else {
        let rest = earliest_reset(quotas.drop_last());
        if quotas.last().reset_at < rest {
            quotas.last().reset_at as int
        } else {
            rest
        }
    }
}

/// Seconds until the earliest window reopens, never negative.
pub open spec fn retry_after_at(quotas: Seq<RateLimitStatus>, now: int) -> int {
    if earliest_reset(quotas) - now > 0 {
        earliest_reset(quotas) - now
    } else {
        0
    }
}

/// A slot counted as available: one a lease could hand out, with quota left
/// or its window elapsed. A slot whose reset time was never reported counts
/// once spent, since a lease would refresh it.
pub open spec fn counts_as_available(q: RateLimitStatus, now: int) -> bool {
    has_quota_at(q, now)
}

/// How many slots count as available.
pub open spec fn available_count(quotas: Seq<RateLimitStatus>, now: int) -> nat
    decreases quotas.len(),
{
    if quotas.len() == 0 {
        0
    } else {
        available_count(quotas.drop_last(), now) + if counts_as_available(quotas.last(), now) {
            1nat
        } else {
            0nat
        }
    }
}

/// The pool after a lease of `slot` at `now`: that slot refreshed, the
/// cursor just past it.
pub open spec fn after_lease(v: PoolView, slot: nat, now: int) -> PoolView {
    PoolView {
        tokens: v.tokens,
        quotas: v.quotas.update(slot as int, refreshed(v.quotas[slot as int], now)),
        next: (slot + 1) % v.tokens.len(),
    }
}

/// The slot a report about `id` concerns, if it is one of ours.
pub open spec fn slot_of(v: PoolView, id: CredentialId) -> Option<nat> {
    if id.kind == CredentialKind::Pat && id.index < v.tokens.len() {
        Some(id.index as nat)
    } else {
        None
    }
}

/// The message an empty pool is refused with.
pub open spec fn no_tokens_message() -> Seq<char> {
    "no GitHub tokens configured; set GITHUB_TOKEN or GITHUB_TOKEN_1"@
}

/// The message a production build without the capability refuses with.
pub open spec fn not_in_production_message() -> Seq<char> {
    "personal access tokens are not permitted in production; rebuild with --features pat-in-production for a single-tenant instance, or configure the GitHub App"@
}

/// A fresh slot: a full hour of quota and no known reset time.
pub open spec fn fresh_quota() -> RateLimitStatus {
    RateLimitStatus { remaining: GRAPHQL_POINTS_PER_HOUR, reset_at: 0 }
}

/// What a cyclic search finds: a slot in range with quota, found only if no
/// earlier slot in the search order has quota; nothing only if no remaining
/// slot has quota.
proof fn lemma_search(quotas: Seq<RateLimitStatus>, start: nat, now: int, offset: nat)
    requires
        quotas.len() > 0,
    ensures
        first_with_quota_from(quotas, start, now, offset) matches Some(i) ==> i < quotas.len()
            && has_quota_at(quotas[i as int], now),
        first_with_quota_from(quotas, start, now, offset) is None <==> forall|k: nat|
            offset <= k < quotas.len() ==> !has_quota_at(
                #[trigger] quotas[((start + k) % quotas.len()) as int],
                now,
            ),
    decreases quotas.len() - offset,
{
    if offset < quotas.len() {
        lemma_search(quotas, start, now, offset + 1);
        assert(((start + offset) % quotas.len()) < quotas.len()) by (nonlinear_arith)
            requires
                quotas.len() > 0,
        ;
        if first_with_quota_from(quotas, start, now, offset) is None {
            assert forall|k: nat| offset <= k < quotas.len() implies !has_quota_at(
                #[trigger] quotas[((start + k) % quotas.len()) as int],
                now,
            ) by {
                if k > offset {
                }
            }
        }
    }
}

/// Every slot is reached by the cyclic search from any start.
proof fn lemma_cyclic_cover(n: nat, start: nat, i: nat) -> (k: nat)
    requires
        start < n,
        i < n,
    ensures
        k < n,
        (start + k) % n == i,
{
    if i >= start {
        let k = (i - start) as nat;
        vstd::arithmetic::div_mod::lemma_small_mod(i, n);
        k
    } else {
        let k = (i + n - start) as nat;
        vstd::arithmetic::div_mod::lemma_mod_add_multiples_vanish(i as int, n as int);
        vstd::arithmetic::div_mod::lemma_small_mod(i, n);
        k
    }
}

/// Counting agrees with existence: some slot counts as available exactly
/// when the count is positive, and the count never exceeds the pool.
proof fn lemma_available_count(quotas: Seq<RateLimitStatus>, now: int)
    ensures
        available_count(quotas, now) <= quotas.len(),
        available_count(quotas, now) > 0 <==> exists|i: int|
            0 <= i < quotas.len() && counts_as_available(#[trigger] quotas[i], now),
    decreases quotas.len(),
{
    if quotas.len() > 0 {
        let rest = quotas.drop_last();
        lemma_available_count(rest, now);
        if available_count(quotas, now) > 0 {
            if counts_as_available(quotas.last(), now) {
                assert(counts_as_available(quotas[quotas.len() - 1], now));
            } else {
                let i = choose|i: int| 0 <= i < rest.len() && counts_as_available(#[trigger] rest[i], now);
                assert(quotas[i] == rest[i]);
            }
        } else {
            assert forall|i: int| 0 <= i < quotas.len() implies !counts_as_available(#[trigger] quotas[i], now) by {
                if i < rest.len() {
                    assert(quotas[i] == rest[i]);
                }
            }
        }
    }
}

/// A lease never hands out a token that is out of quota with its window
/// still closed.
pub proof fn law_leased_token_has_quota(v: PoolView, now: int)
    requires
        v.wf(),
    ensures
        lease_slot(v, now) matches Some(i) ==> i < v.tokens.len() && has_quota_at(v.quotas[i as int], now),
        lease_slot(v, now) matches Some(i) ==> !(v.quotas[i as int].remaining == 0
            && v.quotas[i as int].reset_at > now),
{
    lemma_search(v.quotas, v.next, now, 0);
}

/// A lease fails exactly when every token is out of quota with its window
/// still closed.
pub proof fn law_lease_fails_only_when_all_spent(v: PoolView, now: int)
    requires
        v.wf(),
    ensures
        lease_slot(v, now) is None <==> forall|i: int| 0 <= i < v.quotas.len() ==> !has_quota_at(#[trigger] v.quotas[i], now),
{
    lemma_search(v.quotas, v.next, now, 0);
    if lease_slot(v, now) is None {
        assert forall|i: int| 0 <= i < v.quotas.len() implies !has_quota_at(#[trigger] v.quotas[i], now) by {
            let k = lemma_cyclic_cover(v.quotas.len(), v.next, i as nat);
            assert(!has_quota_at(v.quotas[((v.next + k) % v.quotas.len()) as int], now));
        }
    } else {
        let i = lease_slot(v, now)->0;
        assert(has_quota_at(v.quotas[i as int], now));
    }
}

/// With every token healthy, leases go round-robin: the one under the
/// cursor is handed out and the cursor moves to the next.
pub proof fn law_round_robin(v: PoolView, now: int)
    requires
        v.wf(),
        forall|i: int| 0 <= i < v.quotas.len() ==> has_quota_at(#[trigger] v.quotas[i], now),
    ensures
        lease_slot(v, now) == Some(v.next),
        after_lease(v, v.next, now).next == (v.next + 1) % v.tokens.len(),
{
    vstd::arithmetic::div_mod::lemma_small_mod(v.next, v.quotas.len());
    assert(has_quota_at(v.quotas[v.next as int], now));
}

/// The availability count agrees with leasing: a lease succeeds exactly when
/// the count is positive, and the count never exceeds the pool.
pub proof fn law_availability_matches_leasing(v: PoolView, now: int)
    requires
        v.wf(),
    ensures
        available_count(v.quotas, now) <= v.tokens.len(),
        lease_slot(v, now) is Some <==> available_count(v.quotas, now) > 0,
{
    lemma_available_count(v.quotas, now);
    law_lease_fails_only_when_all_spent(v, now);
    assert forall|i: int| 0 <= i < v.quotas.len() implies (counts_as_available(#[trigger] v.quotas[i], now)
        <==> has_quota_at(v.quotas[i], now)) by {
    }
}

/// The wait reported for an exhausted pool is measured to the earliest
/// window: no token resets before it, and one resets exactly then.
pub proof fn law_retry_after_is_the_earliest_reset(quotas: Seq<RateLimitStatus>)
    requires
        quotas.len() > 0,
    ensures
        forall|i: int| 0 <= i < quotas.len() ==> earliest_reset(quotas) <= (#[trigger] quotas[i]).reset_at,
        exists|i: int| 0 <= i < quotas.len() && earliest_reset(quotas) == (#[trigger] quotas[i]).reset_at,
    decreases quotas.len(),
{
    if quotas.len() == 1 {
        assert(earliest_reset(quotas) == quotas[0].reset_at);
    } else {
        let rest = quotas.drop_last();
        law_retry_after_is_the_earliest_reset(rest);
        assert forall|i: int| 0 <= i < quotas.len() implies earliest_reset(quotas) <= (#[trigger] quotas[i]).reset_at by {
            if i < rest.len() {
                assert(quotas[i] == rest[i]);
            }
        }
        if quotas.last().reset_at < earliest_reset(rest) {
            assert(earliest_reset(quotas) == quotas[quotas.len() - 1].reset_at);
        } else {
            let i = choose|i: int| 0 <= i < rest.len() && earliest_reset(rest) == (#[trigger] rest[i]).reset_at;
            assert(quotas[i] == rest[i]);
        }
    }
}

/// Once GitHub reports a token exhausted until a later time, no lease
/// before then hands that token out.
pub proof fn law_reported_exhaustion_is_respected(
    v: PoolView,
    slot: nat,
    status: RateLimitStatus,
    now: int,
)
    requires
        v.wf(),
        slot < v.tokens.len(),
        status.remaining == 0,
        status.reset_at > now,
    ensures
        lease_slot(PoolView { quotas: v.quotas.update(slot as int, status), ..v }, now) != Some(slot),
{
    let w = PoolView { quotas: v.quotas.update(slot as int, status), ..v };
    law_leased_token_has_quota(w, now);
}

/// The pool after `m` leases made at the same moment `now`.
pub open spec fn after_leases(v: PoolView, now: int, m: nat) -> PoolView
    decreases m,
{
    if m == 0 {
        v
    } else {
        let w = after_leases(v, now, (m - 1) as nat);
        match lease_slot(w, now) {
            Some(slot) => after_lease(w, slot, now),
            None => w,
        }
    }
}

/// What `m` leases made at the moment `now` hand out, in order: the slot
/// leased, or `None` for a lease that failed.
pub open spec fn lease_history(v: PoolView, now: int, m: nat) -> Seq<Option<nat>>
    decreases m,
{
    if m == 0 {
        Seq::empty()
    } else {
        let p = (m - 1) as nat;
        lease_history(v, now, p).push(lease_slot(after_leases(v, now, p), now))
    }
}

/// How many leases in a history handed out `slot`.
pub open spec fn times_leased(h: Seq<Option<nat>>, slot: nat) -> nat
    decreases h.len(),
{
    if h.len() == 0 {
        0
    } else {
        times_leased(h.drop_last(), slot) + if h.last() == Some(slot) {
            1nat
        } else {
            0nat
        }
    }
}

/// Leasing never changes which tokens have quota at the moment of the lease:
/// a leased token had quota and keeps it, every other token is untouched.
proof fn lemma_leases_keep_quota(v: PoolView, now: int, m: nat)
    requires
        v.wf(),
    ensures
        after_leases(v, now, m).wf(),
        after_leases(v, now, m).tokens == v.tokens,
        after_leases(v, now, m).quotas.len() == v.quotas.len(),
        forall|i: int| 0 <= i < v.quotas.len() ==> has_quota_at(#[trigger] after_leases(v, now, m).quotas[i], now)
            == has_quota_at(v.quotas[i], now),
        lease_history(v, now, m).len() == m,
        forall|j: int| 0 <= j < m ==> #[trigger] lease_history(v, now, m)[j] == lease_slot(
            after_leases(v, now, j as nat),
            now,
        ),
    decreases m,
{
    if m > 0 {
        let p = (m - 1) as nat;
        lemma_leases_keep_quota(v, now, p);
        let w = after_leases(v, now, p);
        law_leased_token_has_quota(w, now);
        if let Some(slot) = lease_slot(w, now) {
            let n = w.tokens.len();
            assert((slot + 1) % n < n) by (nonlinear_arith)
                requires
                    n > 0,
            ;
            assert forall|i: int| 0 <= i < v.quotas.len() implies has_quota_at(
                #[trigger] after_leases(v, now, m).quotas[i],
                now,
            ) == has_quota_at(v.quotas[i], now) by {
                assert(has_quota_at(w.quotas[i], now) == has_quota_at(v.quotas[i], now));
            }
        }
        assert forall|j: int| 0 <= j < m implies #[trigger] lease_history(v, now, m)[j] == lease_slot(
            after_leases(v, now, j as nat),
            now,
        ) by {
            if j < p {
                assert(lease_history(v, now, m)[j] == lease_history(v, now, p)[j]);
            }
        }
    }
}

/// Every token is out of quota with its window still closed.
pub open spec fn all_spent(quotas: Seq<RateLimitStatus>, now: int) -> bool {
    forall|i: int| 0 <= i < quotas.len() ==> !has_quota_at(#[trigger] quotas[i], now)
}

/// Over any run of leases made at one moment, a token out of quota with its
/// window still closed is never handed out, and a lease fails only when every
/// token is in that state.
pub proof fn law_spent_tokens_never_leased(v: PoolView, now: int, m: nat)
    requires
        v.wf(),
    ensures
        lease_history(v, now, m).len() == m,
        forall|j: int| 0 <= j < m ==> (#[trigger] lease_history(v, now, m)[j] matches Some(i) ==> i
            < v.tokens.len() && has_quota_at(v.quotas[i as int], now)),
        forall|j: int| 0 <= j < m ==> (#[trigger] lease_history(v, now, m)[j] is None <==> all_spent(v.quotas, now)),
{
    lemma_leases_keep_quota(v, now, m);
    assert forall|j: int| 0 <= j < m implies {
        &&& (#[trigger] lease_history(v, now, m)[j] matches Some(i) ==> i < v.tokens.len()
            && has_quota_at(v.quotas[i as int], now))
        &&& (lease_history(v, now, m)[j] is None <==> all_spent(v.quotas, now))
    } by {
        let w = after_leases(v, now, j as nat);
        lemma_leases_keep_quota(v, now, j as nat);
        law_leased_token_has_quota(w, now);
        law_lease_fails_only_when_all_spent(w, now);
        if let Some(i) = lease_slot(w, now) {
            assert(has_quota_at(w.quotas[i as int], now));
        }
        if lease_slot(w, now) is None {
            assert forall|x: int| 0 <= x < v.quotas.len() implies !has_quota_at(#[trigger] v.quotas[x], now) by {
                assert(!has_quota_at(w.quotas[x], now));
            }
        } else {
            let i = lease_slot(w, now)->0 as int;
            assert(has_quota_at(v.quotas[i], now));
        }
    }
}

/// With every token healthy, the cursor advances by one per lease.
proof fn lemma_healthy_cursor(v: PoolView, now: int, m: nat)
    requires
        v.wf(),
        forall|i: int| 0 <= i < v.quotas.len() ==> has_quota_at(#[trigger] v.quotas[i], now),
    ensures
        after_leases(v, now, m).next == (v.next + m) % v.tokens.len(),
        lease_slot(after_leases(v, now, m), now) == Some((v.next + m) % v.tokens.len()),
    decreases m,
{
    let n = v.tokens.len() as int;
    lemma_leases_keep_quota(v, now, m);
    let w = after_leases(v, now, m);
    if m == 0 {
        vstd::arithmetic::div_mod::lemma_small_mod(v.next, v.tokens.len());
    } else {
        let p = (m - 1) as nat;
        lemma_healthy_cursor(v, now, p);
        lemma_leases_keep_quota(v, now, p);
        let u = after_leases(v, now, p);
        law_round_robin(u, now);
        vstd::arithmetic::div_mod::lemma_add_mod_noop_right(1, (v.next + p) as int, n);
    }
    assert forall|i: int| 0 <= i < w.quotas.len() implies has_quota_at(#[trigger] w.quotas[i], now) by {
        assert(has_quota_at(v.quotas[i], now));
    }
    law_round_robin(w, now);
}

/// Slots handed out cyclically from `start` over a pool of `n`.
spec fn cyclic(start: nat, n: nat, m: nat) -> Seq<Option<nat>> {
    Seq::new(m, |j: int| Some(((start + j) % (n as int)) as nat))
}

proof fn lemma_times_leased_none(h: Seq<Option<nat>>, slot: nat)
    requires
        forall|j: int| 0 <= j < h.len() ==> h[j] != Some(slot),
    ensures
        times_leased(h, slot) == 0,
    decreases h.len(),
{
    if h.len() > 0 {
        assert(h.last() == h[h.len() - 1]);
        lemma_times_leased_none(h.drop_last(), slot);
    }
}

proof fn lemma_times_leased_once(h: Seq<Option<nat>>, slot: nat, at: int)
    requires
        0 <= at < h.len(),
        h[at] == Some(slot),
        forall|j: int| 0 <= j < h.len() && j != at ==> h[j] != Some(slot),
    ensures
        times_leased(h, slot) == 1,
    decreases h.len(),
{
    let rest = h.drop_last();
    assert(h.last() == h[h.len() - 1]);
    if at == h.len() - 1 {
        lemma_times_leased_none(rest, slot);
    } else {
        lemma_times_leased_once(rest, slot, at);
    }
}

proof fn lemma_times_leased_concat(a: Seq<Option<nat>>, b: Seq<Option<nat>>, slot: nat)
    ensures
        times_leased(a + b, slot) == times_leased(a, slot) + times_leased(b, slot),
    decreases b.len(),
{
    if b.len() == 0 {
        assert(a + b =~= a);
    } else {
        assert((a + b).drop_last() =~= a + b.drop_last());
        assert((a + b).last() == b.last());
        lemma_times_leased_concat(a, b.drop_last(), slot);
    }
}

/// One full turn of the pool hands out every slot exactly once.
proof fn lemma_one_turn(start: nat, n: nat, slot: nat)
    requires
        start < n,
        slot < n,
    ensures
        times_leased(cyclic(start, n, n), slot) == 1,
{
    let h = cyclic(start, n, n);
    let at: int = if slot >= start { slot - start } else { slot + n - start };
    assert forall|t: int| 0 <= t < n implies (#[trigger] h[t] == Some(slot) <==> t == at) by {
        if start + t < n {
            vstd::arithmetic::div_mod::lemma_small_mod((start + t) as nat, n);
        } else {
            vstd::arithmetic::div_mod::lemma_mod_sub_multiples_vanish(start + t, n as int);
            vstd::arithmetic::div_mod::lemma_small_mod((start + t - n) as nat, n);
        }
    }
    lemma_times_leased_once(h, slot, at);
}

/// `k` full turns of the pool hand out every slot exactly `k` times.
proof fn lemma_full_turns(start: nat, n: nat, k: nat, slot: nat)
    requires
        start < n,
        slot < n,
    ensures
        times_leased(cyclic(start, n, n * k), slot) == k,
    decreases k,
{
    if k == 0 {
        assert(n * k == 0) by (nonlinear_arith)
            requires
                k == 0,
        ;
        assert(cyclic(start, n, 0) =~= Seq::<Option<nat>>::empty());
    } else {
        let p = (k - 1) as nat;
        lemma_full_turns(start, n, p, slot);
        assert(n * k == n * p + n) by (nonlinear_arith)
            requires
                k == p + 1,
        ;
        let turn = cyclic(start, n, n);
        assert forall|t: int| 0 <= t < n implies #[trigger] cyclic(start, n, n * k)[n * p + t] == turn[t] by {
            assert(start + (n * p + t) == (n as int) * (p as int) + (start + t)) by (nonlinear_arith);
            vstd::arithmetic::div_mod::lemma_mod_multiples_vanish(p as int, start + t, n as int);
        }
        assert(cyclic(start, n, n * k) =~= cyclic(start, n, n * p) + turn) by {
            assert forall|j: int| 0 <= j < n * k implies #[trigger] cyclic(start, n, n * k)[j] == (
            cyclic(start, n, n * p) + turn)[j] by {
                if j >= n * p {
                    let t = j - n * p;
                    assert(cyclic(start, n, n * k)[n * p + t] == turn[t]);
                }
            }
        }
        lemma_times_leased_concat(cyclic(start, n, n * p), turn, slot);
        lemma_one_turn(start, n, slot);
    }
}

/// With every token healthy, leases made at one moment go round the pool in
/// order from the cursor, so `n * k` leases hand each of the `n` tokens out
/// exactly `k` times.
pub proof fn law_leases_spread_evenly(v: PoolView, now: int, k: nat)
    requires
        v.wf(),
        forall|i: int| 0 <= i < v.quotas.len() ==> has_quota_at(#[trigger] v.quotas[i], now),
    ensures
        forall|j: int| 0 <= j < v.tokens.len() * k ==> #[trigger] lease_history(v, now, v.tokens.len() * k)[j]
            == Some(((v.next + j) % (v.tokens.len() as int)) as nat),
        forall|slot: nat| slot < v.tokens.len() ==> #[trigger] times_leased(
            lease_history(v, now, v.tokens.len() * k),
            slot,
        ) == k,
{
    let n = v.tokens.len();
    let m = n * k;
    lemma_leases_keep_quota(v, now, m);
    assert forall|j: int| 0 <= j < m implies #[trigger] lease_history(v, now, m)[j] == Some(
        ((v.next + j) % (n as int)) as nat,
    ) by {
        lemma_healthy_cursor(v, now, j as nat);
    }
    assert(lease_history(v, now, m) =~= cyclic(v.next, n, m));
    assert forall|slot: nat| slot < n implies #[trigger] times_leased(lease_history(v, now, m), slot) == k by {
        lemma_full_turns(v.next, n, k, slot);
    }
}

/// Where a successful cyclic search stopped: the offset of the slot found,
/// with every slot searched before it out of quota.
proof fn lemma_search_skipped(quotas: Seq<RateLimitStatus>, start: nat, now: int, offset: nat) -> (k: nat)
    requires
        quotas.len() > 0,
        first_with_quota_from(quotas, start, now, offset) is Some,
    ensures
        offset <= k < quotas.len(),
        first_with_quota_from(quotas, start, now, offset) == Some(((start + k) % quotas.len()) as nat),
        forall|k2: nat| offset <= k2 < k ==> !has_quota_at(#[trigger] quotas[((start + k2) % quotas.len()) as int], now),
    decreases quotas.len() - offset,
{
    if has_quota_at(quotas[((start + offset) % quotas.len()) as int], now) {
        offset
    } else {
        lemma_search_skipped(quotas, start, now, offset + 1)
    }
}

/// `b` is the first token with quota cyclically after `a`: every token
/// strictly between them, going round from `a`, is out of quota.
pub open spec fn next_in_turn(quotas: Seq<RateLimitStatus>, now: int, a: nat, b: nat) -> bool {
    exists|k: nat|
        #![trigger (a + 1 + k) % quotas.len()]
        k < quotas.len() && b == (a + 1 + k) % quotas.len() && forall|k2: nat|
            k2 < k ==> !has_quota_at(#[trigger] quotas[((a + 1 + k2) % quotas.len()) as int], now)
}

/// Leases made at one moment take the healthy tokens in turn: after a
/// successful lease the next one also succeeds, and hands out the first token
/// with quota cyclically after the one just leased, so no healthy token is
/// passed over, whichever spent tokens lie between.
pub proof fn law_leases_take_healthy_tokens_in_turn(v: PoolView, now: int, m: nat)
    requires
        v.wf(),
    ensures
        forall|j: int|
            0 <= j && j + 1 < m ==> (#[trigger] lease_history(v, now, m)[j] matches Some(a) ==> (
            lease_history(v, now, m)[j + 1] matches Some(b) && has_quota_at(v.quotas[b as int], now)
                && next_in_turn(v.quotas, now, a, b))),
{
    lemma_leases_keep_quota(v, now, m);
    let n = v.tokens.len();
    assert forall|j: int| 0 <= j && j + 1 < m implies (#[trigger] lease_history(v, now, m)[j] matches Some(a) ==> (
    lease_history(v, now, m)[j + 1] matches Some(b) && has_quota_at(v.quotas[b as int], now)
        && next_in_turn(v.quotas, now, a, b))) by {
        if let Some(a) = lease_history(v, now, m)[j] {
            let w = after_leases(v, now, j as nat);
            let w2 = after_leases(v, now, (j + 1) as nat);
            lemma_leases_keep_quota(v, now, j as nat);
            lemma_leases_keep_quota(v, now, (j + 1) as nat);
            law_leased_token_has_quota(w, now);
            assert(lease_slot(w, now) == Some(a));
            assert(w2 == after_lease(w, a, now));
            assert(has_quota_at(v.quotas[a as int], now)) by {
                assert(has_quota_at(w.quotas[a as int], now));
            }
            assert(has_quota_at(w2.quotas[a as int], now));
            law_lease_fails_only_when_all_spent(w2, now);
            law_leased_token_has_quota(w2, now);
            let start = ((a + 1) % n) as nat;
            assert(w2.next == start);
            let k = lemma_search_skipped(w2.quotas, start, now, 0);
            let b = lease_slot(w2, now)->0;
            assert(lease_history(v, now, m)[j + 1] == Some(b));
            assert(has_quota_at(w2.quotas[b as int], now));
            assert(has_quota_at(v.quotas[b as int], now));
            vstd::arithmetic::div_mod::lemma_small_mod(k, n);
            vstd::arithmetic::div_mod::lemma_add_mod_noop((a + 1) as int, k as int, n as int);
            assert(b == (a + 1 + k) % n);
            assert forall|k2: nat| k2 < k implies !has_quota_at(#[trigger] v.quotas[((a + 1 + k2) % n) as int], now) by {
                vstd::arithmetic::div_mod::lemma_small_mod(k2, n);
                vstd::arithmetic::div_mod::lemma_add_mod_noop((a + 1) as int, k2 as int, n as int);
                assert(((start + k2) % n) == (a + 1 + k2) % n);
                assert(!has_quota_at(w2.quotas[((start + k2) % n) as int], now));
            }
            assert(next_in_turn(v.quotas, now, a, b));
        }
    }
}

/// A round-robin pool of personal access tokens.
pub struct PatProvider {
    tokens: Vec<String>,
    quotas: Vec<RateLimitStatus>,
    next: usize,
}

impl View for PatProvider {
    type V = PoolView;

    closed spec fn view(&self) -> PoolView {
        PoolView {
            tokens: self.tokens@.map_values(|t: String| t@),
            quotas: self.quotas@,
            next: self.next as nat,
        }
    }
}

impl PatProvider {
    /// The pool is well formed.
    pub open spec fn wf(&self) -> bool {
        self@.wf()
    }

    /// Build a pool from explicit tokens; an empty list is a configuration
    /// error.
    pub fn new(tokens: Vec<String>) -> (r: AuthResult<Self>)
        ensures
            tokens@.len() == 0 <==> r is Err,
            r matches Err(e) ==> e matches AuthError::Misconfigured(m) && m@ == no_tokens_message(),
            r matches Ok(pool) ==> {
                &&& pool.wf()
                &&& pool@.tokens == tokens@.map_values(|t: String| t@)
                &&& pool@.quotas == Seq::new(tokens@.len(), |i: int| fresh_quota())
                &&& pool@.next == 0
            },
    {
        if tokens.len() == 0 {
            return Err(AuthError::Misconfigured(
                String::from_str("no GitHub tokens configured; set GITHUB_TOKEN or GITHUB_TOKEN_1"),
            ));
        }
        let count = tokens.len();
        let mut quotas: Vec<RateLimitStatus> = Vec::new();
        while quotas.len() < count
            invariant
                quotas.len() <= count,
                forall|i: int| 0 <= i < quotas.len() ==> quotas@[i] == fresh_quota(),
            decreases count - quotas.len(),
        {
            quotas.push(RateLimitStatus { remaining: GRAPHQL_POINTS_PER_HOUR, reset_at: 0 });
        }
        assert(quotas@ =~= Seq::new(tokens@.len(), |i: int| fresh_quota()));
        Ok(PatProvider { tokens, quotas, next: 0 })
    }

    /// Build a pool for an environment: production refuses tokens unless
    /// this build allows them, then the pool is built as [`PatProvider::new`]
    /// builds it.
    pub fn for_environment(is_production: bool, tokens: Vec<String>) -> (r: AuthResult<Self>)
        ensures
            is_production && !ALLOWED_IN_PRODUCTION ==> (r matches Err(e) && e matches AuthError::Misconfigured(m)
                && m@ == not_in_production_message()),
            !(is_production && !ALLOWED_IN_PRODUCTION) ==> {
                &&& (tokens@.len() == 0 <==> r is Err)
                &&& r matches Err(e) ==> e matches AuthError::Misconfigured(m) && m@ == no_tokens_message()
                &&& r matches Ok(pool) ==> {
                    &&& pool.wf()
                    &&& pool@.tokens == tokens@.map_values(|t: String| t@)
                    &&& pool@.quotas == Seq::new(tokens@.len(), |i: int| fresh_quota())
                    &&& pool@.next == 0
                }
            },
    {
        if is_production && !ALLOWED_IN_PRODUCTION {
            return Err(AuthError::Misconfigured(String::from_str(
                "personal access tokens are not permitted in production; rebuild with --features pat-in-production for a single-tenant instance, or configure the GitHub App",
            )));
        }
        Self::new(tokens)
    }

    /// Whether a slot has quota, granting a fresh hour if its window elapsed.
    fn has_quota(entry: &mut RateLimitStatus, now: i64) -> (r: bool)
        ensures
            r == has_quota_at(*old(entry), now as int),
            *final(entry) == refreshed(*old(entry), now as int),
    {
        if entry.remaining > 0 {
            return true;
        }
        if now >= entry.reset_at {
            entry.remaining = GRAPHQL_POINTS_PER_HOUR;
            return true;
        }
        false
    }

    /// The slot a report concerns, when it names one of ours by kind.
    fn position(&self, id: CredentialId) -> (r: Option<usize>)
        ensures
            r == (if id.kind == CredentialKind::Pat { Some(id.index) } else { None::<usize> }),
    {
        if id.kind == CredentialKind::Pat {
            Some(id.index)
        } else {
            None
        }
    }

    /// Number of tokens in the pool, regardless of quota.
    pub fn len(&self) -> (r: usize)
        ensures
            r == self@.tokens.len(),
    {
        proof {
            assert(self@.tokens.len() == self.tokens@.len());
        }
        self.tokens.len()
    }

    pub fn is_empty(&self) -> (r: bool)
        ensures
            r == (self@.tokens.len() == 0),
    {
        self.len() == 0
    }
    /// Lease the first token with quota, searching from the cursor; when
    /// every token is spent, say how long until the earliest one reopens.
    pub fn credential(&mut self, now: i64) -> (r: AuthResult<Credential>)
        requires
            old(self).wf(),
            lease_slot(old(self)@, now as int) is None ==> i64::MIN <= earliest_reset(
                old(self)@.quotas,
            ) - now <= i64::MAX,
        ensures
            final(self).wf(),
            match lease_slot(old(self)@, now as int) {
                Some(slot) => {
                    &&& r matches Ok(c)
                    &&& c.ident() == (CredentialId { kind: CredentialKind::Pat, index: slot as usize })
                    &&& c.secret() == old(self)@.tokens[slot as int]
                    &&& final(self)@ == after_lease(old(self)@, slot, now as int)
                },
                None => {
                    &&& r matches Err(e)
                    &&& e matches AuthError::Exhausted { retry_after }
                    &&& retry_after == Some(retry_after_at(old(self)@.quotas, now as int) as u64)
                    &&& final(self)@ == old(self)@
                },
            },
    {
        let count = self.quotas.len();
        let start = self.next;
        let ghost v0 = self@;
        assert(v0 == old(self)@);
        let mut offset: usize = 0;
        while offset < count
            invariant
                self@ == v0,
                v0 == old(self)@,
                v0.wf(),
                count == v0.quotas.len(),
                start == v0.next,
                self.tokens@.len() == count,
                self.quotas@.len() == count,
                offset <= count,
                lease_slot(v0, now as int) == first_with_quota_from(
                    v0.quotas,
                    start as nat,
                    now as int,
                    offset as nat,
                ),
            decreases count - offset,
        {
            let index: usize = if offset < count - start {
                start + offset
            } else {
                offset - (count - start)
            };
            assert(index as int == (start + offset) % (count as int)) by (nonlinear_arith)
                requires
                    start < count,
                    offset < count,
                    index as int == (if offset < count - start { start + offset } else { offset - (
                    count - start) }),
            {
            }
            let mut entry = self.quotas[index];
            if Self::has_quota(&mut entry, now) {
                self.quotas.set(index, entry);
                self.next = (index + 1) % count;
                let credential = Credential::new(
                    CredentialId { kind: CredentialKind::Pat, index },
                    self.tokens[index].as_str(),
                );
                proof {
                    assert(has_quota_at(v0.quotas[index as int], now as int));
                    assert(first_with_quota_from(v0.quotas, start as nat, now as int, offset as nat)
                        == Some(index as nat));
                    assert(v0.tokens[index as int] == self.tokens@[index as int]@);
                    assert(self@.quotas =~= v0.quotas.update(index as int, refreshed(v0.quotas[index as int], now as int)));
                    assert(self@.tokens =~= v0.tokens);
                    assert(self@.next == (index as nat + 1) % (count as nat));
                    assert(self@ == after_lease(v0, index as nat, now as int));
                    assert(credential.ident() == (CredentialId { kind: CredentialKind::Pat, index: index }));
                }
                return Ok(credential);
            }
            offset = offset + 1;
        }
        let mut earliest: i64 = self.quotas[0].reset_at;
        let mut i: usize = 1;
        while i < count
            invariant
                self@ == v0,
                v0.wf(),
                count == v0.quotas.len(),
                self.quotas@ == v0.quotas,
                1 <= i <= count,
                earliest as int == earliest_reset(v0.quotas.take(i as int)),
            decreases count - i,
        {
            let candidate = self.quotas[i].reset_at;
            proof {
                let prefix = v0.quotas.take(i as int + 1);
                assert(prefix.drop_last() =~= v0.quotas.take(i as int));
                assert(prefix.last() == v0.quotas[i as int]);
            }
            if candidate < earliest {
                earliest = candidate;
            }
            i = i + 1;
        }
        assert(v0.quotas.take(count as int) =~= v0.quotas);
        let wait: i128 = earliest as i128 - now as i128;
        let seconds: u64 = if wait > 0 { wait as u64 } else { 0 };
        Err(AuthError::Exhausted { retry_after: Some(seconds) })
    }

    /// Whether the wait until the earliest reset, seen from `now`, is a
    /// 64-bit signed number of seconds: the condition under which leasing from
    /// a fully spent pool can report it.
    pub fn exhaustion_wait_fits(&self, now: i64) -> (r: bool)
        requires
            self.wf(),
        ensures
            r == (i64::MIN <= earliest_reset(self@.quotas) - now <= i64::MAX),
    {
        let count = self.quotas.len();
        let mut earliest: i64 = self.quotas[0].reset_at;
        let mut i: usize = 1;
        while i < count
            invariant
                self.wf(),
                count == self@.quotas.len(),
                1 <= i <= count,
                earliest as int == earliest_reset(self@.quotas.take(i as int)),
            decreases count - i,
        {
            let candidate = self.quotas[i].reset_at;
            proof {
                let prefix = self@.quotas.take(i as int + 1);
                assert(prefix.drop_last() =~= self@.quotas.take(i as int));
                assert(prefix.last() == self@.quotas[i as int]);
            }
            if candidate < earliest {
                earliest = candidate;
            }
            i = i + 1;
        }
        assert(self@.quotas.take(count as int) =~= self@.quotas);
        let wait: i128 = earliest as i128 - now as i128;
        -9_223_372_036_854_775_808 <= wait && wait <= 9_223_372_036_854_775_807
    }

    /// Record the quota GitHub reported for one of our tokens; reports about
    /// anything else are ignored.
    pub fn record(&mut self, id: CredentialId, status: RateLimitStatus)
        requires
            old(self).wf(),
        ensures
            final(self).wf(),
            final(self)@ == match slot_of(old(self)@, id) {
                Some(slot) => PoolView { quotas: old(self)@.quotas.update(slot as int, status), ..old(self)@ },
                None => old(self)@,
            },
    {
        let Some(index) = self.position(id) else { return };
        if index < self.quotas.len() {
            self.quotas.set(index, status);
        }
    }

    /// Estimate a spend between authoritative reports; quota never drops below
    /// zero.
    pub fn record_spend(&mut self, id: CredentialId, points: u32)
        requires
            old(self).wf(),
        ensures
            final(self).wf(),
            final(self)@ == match slot_of(old(self)@, id) {
                Some(slot) => PoolView {
                    quotas: old(self)@.quotas.update(
                        slot as int,
                        RateLimitStatus {
                            remaining: if old(self)@.quotas[slot as int].remaining >= points {
                                (old(self)@.quotas[slot as int].remaining - points) as u32
                            } else {
                                0u32
                            },
                            reset_at: old(self)@.quotas[slot as int].reset_at,
                        },
                    ),
                    ..old(self)@
                },
                None => old(self)@,
            },
    {
        let Some(index) = self.position(id) else { return };
        if index < self.quotas.len() {
            let entry = self.quotas[index];
            let remaining = entry.remaining.saturating_sub(points);
            self.quotas.set(index, RateLimitStatus { remaining, reset_at: entry.reset_at });
        }
    }

    /// How many tokens count as available: quota left, or the window has
    /// elapsed, so that the count is positive exactly when a lease succeeds.
    pub fn available(&self, now: i64) -> (r: usize)
        requires
            self.wf(),
        ensures
            r == available_count(self@.quotas, now as int),
    {
        let count = self.quotas.len();
        let mut total: usize = 0;
        let mut i: usize = 0;
        while i < count
            invariant
                count == self@.quotas.len(),
                i <= count,
                total == available_count(self@.quotas.take(i as int), now as int),
                total <= i,
            decreases count - i,
        {
            let entry = self.quotas[i];
            proof {
                let prefix = self@.quotas.take(i as int + 1);
                assert(prefix.drop_last() =~= self@.quotas.take(i as int));
                assert(prefix.last() == self@.quotas[i as int]);
            }
            if entry.remaining > 0 || now >= entry.reset_at {
                total = total + 1;
            }
            i = i + 1;
        }
        assert(self@.quotas.take(count as int) =~= self@.quotas);
        total
    }

    pub fn kind(&self) -> (r: CredentialKind)
        ensures
            r == CredentialKind::Pat,
    {
        CredentialKind::Pat
    }
}


/// One token's state as a debug line, the token itself redacted.
pub open spec fn token_state_text(q: RateLimitStatus) -> Seq<char> {
    "TokenState { token: \"<redacted>\", remaining: "@ + decimal(q.remaining as nat) + ", reset_at: "@
        + signed_decimal(q.reset_at as int) + " }"@
}

/// The states of every token, comma-separated.
pub open spec fn token_states_text(qs: Seq<RateLimitStatus>) -> Seq<char>
    decreases qs.len(),
{
    if qs.len() == 0 {
        Seq::empty()
    } else if qs.len() == 1 {
        token_state_text(qs[0])
    } else {
        token_states_text(qs.drop_last()) + ", "@ + token_state_text(qs.last())
    }
}

/// A pool as a debug line: quotas and cursor, never a token.
pub open spec fn pool_debug_text(v: PoolView) -> Seq<char> {
    "PatProvider { state: ["@ + token_states_text(v.quotas) + "], next: "@ + decimal(v.next) + " }"@
}

/// A pool can be printed for debugging without spilling tokens: its debug
/// text depends on quotas and the cursor alone, so pools that differ only in
/// their tokens print the same.
pub proof fn law_debug_text_hides_tokens(v: PoolView, w: PoolView)
    requires
        v.quotas == w.quotas,
        v.next == w.next,
    ensures
        pool_debug_text(v) == pool_debug_text(w),
{
}

impl PatProvider {
    /// The pool as a debug line, with every token redacted.
    pub fn debug_string(&self) -> (r: String)
        ensures
            r@ == pool_debug_text(self@),
    {
        let mut out = String::from_str("PatProvider { state: [");
        let ghost head = out@;
        let n = self.quotas.len();
        let mut i: usize = 0;
        while i < n
            invariant
                n == self@.quotas.len(),
                i <= n,
                out@ == head + token_states_text(self@.quotas.take(i as int)),
            decreases n - i,
        {
            let q = self.quotas[i];
            let ghost before = out@;
            if i > 0 {
                push_str(&mut out, ", ");
            }
            push_str(&mut out, "TokenState { token: \"<redacted>\", remaining: ");
            push_decimal(&mut out, q.remaining as u64);
            push_str(&mut out, ", reset_at: ");
            push_signed(&mut out, q.reset_at);
            push_str(&mut out, " }");
            proof {
                let prefix = self@.quotas.take(i + 1);
                assert(prefix.drop_last() =~= self@.quotas.take(i as int));
                assert(prefix.last() == q);
                if i > 0 {
                    assert(out@ =~= before + ", "@ + token_state_text(q));
                } else {
                    assert(self@.quotas.take(0) =~= Seq::<RateLimitStatus>::empty());
                    assert(prefix =~= seq![q]);
                    assert(out@ =~= before + token_state_text(q));
                }
            }
            i = i + 1;
        }
        assert(self@.quotas.take(n as int) =~= self@.quotas);
        push_str(&mut out, "], next: ");
        push_decimal(&mut out, self.next as u64);
        push_str(&mut out, " }");
        proof {
            assert(out@ =~= pool_debug_text(self@));
        }
        out
    }
}

} // verus!
