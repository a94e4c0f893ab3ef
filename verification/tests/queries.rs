use github_ranked::github::queries::{
    batched_stats_query, batches, verified_counts_fragment, year_alias, PROFILE_QUERY, YEARS_PER_BATCH,
};

#[test]
fn batched_query_aliases_every_year() {
    let query = batched_stats_query(&[2023, 2024, 2025]);

    for year in [2023, 2024, 2025] {
        assert!(query.contains(&format!("y{year}: contributionsCollection")));
        assert!(query.contains(&format!("\"{year}-01-01T00:00:00Z\"")));
        assert!(query.contains(&format!("\"{year}-12-31T23:59:59Z\"")));
    }

    // One document, one fragment, one rateLimit block.
    assert_eq!(query.matches("fragment Contributions").count(), 1);
    assert_eq!(query.matches("rateLimit").count(), 1);
    assert_eq!(query.matches("contributionsCollection").count(), 3);
}

#[test]
fn a_long_lived_account_still_fits_in_two_requests() {
    let years: Vec<i32> = (2008..=2026).collect();
    assert_eq!(years.len(), 19);

    let batch_count = batches(&years).len();
    assert_eq!(batch_count, 2, "19 years should batch into 2 requests");
}

#[test]
fn typical_account_is_a_single_batch() {
    let years: Vec<i32> = (2019..=2026).collect();
    assert_eq!(batches(&years).len(), 1);
}

#[test]
fn empty_year_list_produces_no_batches() {
    assert_eq!(batches(&[]).len(), 0);
}

#[test]
fn batches_keep_every_year_in_order() {
    let years: Vec<i32> = (1990..=2026).collect();
    let split = batches(&years);
    assert_eq!(split.len(), 4);
    assert!(split.iter().all(|b| !b.is_empty() && b.len() <= YEARS_PER_BATCH));
    let joined: Vec<i32> = split.concat();
    assert_eq!(joined, years);
}

#[test]
fn the_query_document_is_exact() {
    let query = batched_stats_query(&[2024]);
    assert!(query.starts_with(
        "query YearStats($login: String!) {\n  user(login: $login) {\n    y2024: contributionsCollection(from: \"2024-01-01T00:00:00Z\", to: \"2024-12-31T23:59:59Z\") { ...Contributions }\n  }\n  rateLimit {\n"
    ));
    assert!(query.ends_with("fragment Contributions on ContributionsCollection {\n  totalCommitContributions\n  totalPullRequestContributions\n  totalPullRequestReviewContributions\n  totalIssueContributions\n  restrictedContributionsCount\n}\n"));
}

#[test]
fn verified_counts_search_merged_and_closed() {
    let fragment = verified_counts_fragment("octocat", 2024);
    assert_eq!(
        fragment,
        "    merged2024: search(query: \"author:octocat is:pr is:merged merged:2024-01-01..2024-12-31\", type: ISSUE, first: 0) { issueCount }\nclosed2024: search(query: \"author:octocat is:issue is:closed closed:2024-01-01..2024-12-31\", type: ISSUE, first: 0) { issueCount }\n"
    );
    assert_eq!(year_alias(2024), "y2024");
    assert!(PROFILE_QUERY.contains("contributionYears"));
}
