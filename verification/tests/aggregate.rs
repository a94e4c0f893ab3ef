use github_ranked::github::aggregate::contribution_span;

#[test]
fn active_span_is_derived_from_the_years_present() {
    assert_eq!(contribution_span(&[2024, 2019, 2026], 2026), (2019, 2026, 3));
}

#[test]
fn an_account_with_no_contributions_spans_the_current_year() {
    assert_eq!(contribution_span(&[], 2026), (2026, 2026, 0));
}

#[test]
fn a_single_year_is_its_own_span() {
    assert_eq!(contribution_span(&[2012], 2026), (2012, 2012, 1));
}
