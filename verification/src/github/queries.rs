//! GraphQL query construction.
//!
//! GitHub's GraphQL API lets one document alias the same field many times, so
//! every contribution year is fetched in a single request:
//!
//! ```graphql
//! y2024: contributionsCollection(from: "…", to: "…") { ...Contributions }
//! y2023: contributionsCollection(from: "…", to: "…") { ...Contributions }
//! ```
//!
//! A full profile then costs two requests whatever the account's age: one to
//! learn which years have contributions, one to fetch them all.

use crate::strings::{push_signed, push_str, signed_decimal};
use vstd::prelude::*;

verus! {

/// Years per request. Each alias is cheap, but bounded batches keep very old
/// accounts clear of GitHub's query complexity limits.
pub const YEARS_PER_BATCH: usize = 12;

/// The contribution counters, requested identically for every year.
pub const CONTRIBUTION_FRAGMENT: &'static str = "
fragment Contributions on ContributionsCollection {
  totalCommitContributions
  totalPullRequestContributions
  totalPullRequestReviewContributions
  totalIssueContributions
  restrictedContributionsCount
}
";

/// Which years a user has contributions in, plus the profile-level totals that
/// are not year-scoped. Stars are all-time by nature, so they are fetched once
/// here rather than per year.
pub const PROFILE_QUERY: &'static str = r#"
query Profile($login: String!) {
  user(login: $login) {
    login
    name
    createdAt
    contributionsCollection {
      contributionYears
    }
    followers {
      totalCount
    }
    repositories(
      first: 100
      ownerAffiliations: OWNER
      orderBy: { field: STARGAZERS, direction: DESC }
    ) {
      totalCount
      nodes {
        stargazers {
          totalCount
        }
      }
    }
  }
  rateLimit {
    limit
    cost
    remaining
    resetAt
  }
}
"#;

/// The opening of the batched query, up to the first year.
pub const STATS_QUERY_HEAD: &'static str = "query YearStats($login: String!) {\n  user(login: $login) {\n";

/// What follows the last year: the user block closes and the quota is asked
/// for.
pub const STATS_QUERY_TAIL: &'static str = "  }\n  rateLimit {\n    limit\n    cost\n    remaining\n    resetAt\n  }\n}\n";

/// The alias of a year's contributions, e.g. `y2024`.
pub open spec fn year_alias_text(year: i32) -> Seq<char> {
    "y"@ + signed_decimal(year as int)
}

/// The search nodes counting a user's merged PRs and closed issues in a year.
pub open spec fn verified_counts_text(login: Seq<char>, year: i32) -> Seq<char> {
    let y = signed_decimal(year as int);
    "    merged"@ + y + ": search(query: \"author:"@ + login + " is:pr is:merged merged:"@ + y
        + "-01-01.."@ + y + "-12-31\", type: ISSUE, first: 0) { issueCount }\n"@ + "closed"@ + y
        + ": search(query: \"author:"@ + login + " is:issue is:closed closed:"@ + y + "-01-01.."@
        + y + "-12-31\", type: ISSUE, first: 0) { issueCount }\n"@
}

/// Accurate per-year counts of *merged* PRs and *closed* issues.
///
/// The contribution totals count PRs and issues a user *opened*; the search
/// API gives the real figures, one aliased node per year, at no extra request.
pub fn verified_counts_fragment(login: &str, year: i32) -> (r: String)
    ensures
        r@ == verified_counts_text(login@, year),
{
    let mut out = String::from_str("    merged");
    push_signed(&mut out, year as i64);
    push_str(&mut out, ": search(query: \"author:");
    push_str(&mut out, login);
    push_str(&mut out, " is:pr is:merged merged:");
    push_signed(&mut out, year as i64);
    push_str(&mut out, "-01-01..");
    push_signed(&mut out, year as i64);
    push_str(&mut out, "-12-31\", type: ISSUE, first: 0) { issueCount }\n");
    push_str(&mut out, "closed");
    push_signed(&mut out, year as i64);
    push_str(&mut out, ": search(query: \"author:");
    push_str(&mut out, login);
    push_str(&mut out, " is:issue is:closed closed:");
    push_signed(&mut out, year as i64);
    push_str(&mut out, "-01-01..");
    push_signed(&mut out, year as i64);
    push_str(&mut out, "-12-31\", type: ISSUE, first: 0) { issueCount }\n");
    proof {
        assert(out@ =~= verified_counts_text(login@, year));
    }
    out
}

/// The alias used for a year's contributions, e.g. `y2024`.
pub fn year_alias(year: i32) -> (r: String)
    ensures
        r@ == year_alias_text(year),
{
    let mut out = String::from_str("y");
    push_signed(&mut out, year as i64);
    out
}

/// One year's aliased `contributionsCollection`, spanning the calendar year.
pub open spec fn year_block(year: i32) -> Seq<char> {
    let y = signed_decimal(year as int);
    "    "@ + year_alias_text(year) + ": contributionsCollection(from: \""@ + y
        + "-01-01T00:00:00Z\", to: \""@ + y + "-12-31T23:59:59Z\") { ...Contributions }\n"@
}

/// The blocks of every year, in order.
pub open spec fn year_blocks(years: Seq<i32>) -> Seq<char>
    decreases years.len(),
{
    if years.len() == 0 {
        Seq::empty()
    } else {
        year_blocks(years.drop_last()) + year_block(years.last())
    }
}

/// The whole batched query for `years`.
pub open spec fn stats_query_text(years: Seq<i32>) -> Seq<char> {
    STATS_QUERY_HEAD@ + year_blocks(years) + STATS_QUERY_TAIL@ + CONTRIBUTION_FRAGMENT@
}

/// One query fetching every listed year's contributions at once.
///
/// Years are interpolated rather than passed as variables because GraphQL
/// cannot parameterise a field alias; they are integers formatted here, never
/// user text.
pub fn batched_stats_query(years: &[i32]) -> (r: String)
    ensures
        r@ == stats_query_text(years@),
{
    let mut query = String::from_str(STATS_QUERY_HEAD);
    let mut i: usize = 0;
    while i < years.len()
        invariant
            i <= years@.len(),
            query@ == STATS_QUERY_HEAD@ + year_blocks(years@.subrange(0, i as int)),
        decreases years@.len() - i,
    {
        let year = years[i];
        let ghost before = query@;
        push_str(&mut query, "    ");
        let alias = year_alias(year);
        push_str(&mut query, alias.as_str());
        push_str(&mut query, ": contributionsCollection(from: \"");
        push_signed(&mut query, year as i64);
        push_str(&mut query, "-01-01T00:00:00Z\", to: \"");
        push_signed(&mut query, year as i64);
        push_str(&mut query, "-12-31T23:59:59Z\") { ...Contributions }\n");
        proof {
            let next = years@.subrange(0, i + 1);
            assert(next.drop_last() =~= years@.subrange(0, i as int));
            assert(query@ =~= before + year_block(year));
        }
        i = i + 1;
    }
    assert(years@.subrange(0, years@.len() as int) =~= years@);
    push_str(&mut query, STATS_QUERY_TAIL);
    push_str(&mut query, CONTRIBUTION_FRAGMENT);
    query
}

/// `years` cut into request-sized batches, in order: twelve years each, the
/// last one holding what is left.
pub open spec fn batched(years: Seq<i32>) -> Seq<Seq<i32>>
    decreases years.len(),
{
    if years.len() == 0 {
        Seq::empty()
    } else if years.len() <= YEARS_PER_BATCH {
        seq![years]
    } else {
        seq![years.take(YEARS_PER_BATCH as int)] + batched(years.skip(YEARS_PER_BATCH as int))
    }
}

/// The years of each batch.
pub open spec fn batch_views(b: Seq<Vec<i32>>) -> Seq<Seq<i32>> {
    b.map_values(|v: Vec<i32>| v@)
}

/// Split years into request-sized batches.
pub fn batches(years: &[i32]) -> (r: Vec<Vec<i32>>)
    ensures
        batch_views(r@) == batched(years@),
{
    let n = years.len();
    let mut out: Vec<Vec<i32>> = Vec::new();
    let mut start: usize = 0;
    assert(years@.skip(0) =~= years@);
    while start < n
        invariant
            n == years@.len(),
            start <= n,
            batch_views(out@) + batched(years@.skip(start as int)) == batched(years@),
        decreases n - start,
    {
        let ghost rest = years@.skip(start as int);
        let end: usize = if n - start <= YEARS_PER_BATCH { n } else { start + YEARS_PER_BATCH };
        let mut batch: Vec<i32> = Vec::new();
        let mut k: usize = start;
        while k < end
            invariant
                start <= k <= end <= n,
                n == years@.len(),
                batch@ == years@.subrange(start as int, k as int),
            decreases end - k,
        {
            batch.push(years[k]);
            proof {
                assert(years@.subrange(start as int, k + 1) =~= years@.subrange(start as int, k as int).push(years@[k as int]));
            }
            k = k + 1;
        }
        let ghost old_out = out@;
        out.push(batch);
        proof {
            assert(batch_views(out@) =~= batch_views(old_out).push(years@.subrange(start as int, end as int)));
            if n - start <= YEARS_PER_BATCH {
                assert(rest =~= years@.subrange(start as int, end as int));
                assert(years@.skip(end as int) =~= Seq::<i32>::empty());
                assert(batched(years@.skip(end as int)) =~= Seq::<Seq<i32>>::empty());
                assert(batched(rest) == seq![rest]);
            } else {
                assert(rest.take(YEARS_PER_BATCH as int) =~= years@.subrange(start as int, end as int));
                assert(rest.skip(YEARS_PER_BATCH as int) =~= years@.skip(end as int));
            }
            assert(batch_views(out@) + batched(years@.skip(end as int)) =~= batch_views(old_out)
                + batched(rest));
        }
        start = end;
    }
    assert(years@.skip(n as int) =~= Seq::<i32>::empty());
    assert(batch_views(out@) + Seq::<Seq<i32>>::empty() =~= batch_views(out@));
    out
}

/// Joined back together, the batches are the years, in order: no year is
/// dropped, repeated or moved.
pub proof fn law_batches_cover_every_year(years: Seq<i32>)
    ensures
        batched(years).flatten() == years,
    decreases years.len(),
{
    if years.len() == 0 {
        assert(batched(years).flatten() =~= years);
    } else if years.len() <= YEARS_PER_BATCH {
        let b = batched(years);
        assert(b.drop_first() =~= Seq::<Seq<i32>>::empty());
        assert(b.flatten() == b[0] + b.drop_first().flatten());
        assert(b.flatten() =~= years);
    } else {
        let rest = years.skip(YEARS_PER_BATCH as int);
        law_batches_cover_every_year(rest);
        let b = batched(years);
        assert(b.drop_first() =~= batched(rest));
        assert(b.flatten() == b[0] + b.drop_first().flatten());
        assert(years.take(YEARS_PER_BATCH as int) + rest =~= years);
    }
}

/// Every batch holds between one and twelve years, and there are as few
/// batches as that allows: the year count divided by twelve, rounded up.
pub proof fn law_batches_are_full_and_few(years: Seq<i32>)
    ensures
        batched(years).len() == (years.len() + 11) / 12,
        forall|i: int|
            0 <= i < batched(years).len() ==> 1 <= #[trigger] batched(years)[i].len() <= YEARS_PER_BATCH,
    decreases years.len(),
{
    if years.len() > YEARS_PER_BATCH {
        let rest = years.skip(YEARS_PER_BATCH as int);
        law_batches_are_full_and_few(rest);
        let b = batched(years);
        assert forall|i: int| 0 <= i < b.len() implies 1 <= #[trigger] b[i].len() <= YEARS_PER_BATCH by {
            if i > 0 {
                assert(b[i] == batched(rest)[i - 1]);
            }
        }
    }
}

} // verus!
