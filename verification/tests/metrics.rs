use github_ranked::metrics::Metrics;
use std::time::Duration;

fn nanos(d: Duration) -> u128 {
    d.as_nanos()
}

#[test]
fn counters_accumulate() {
    let mut metrics = Metrics::new();
    metrics.record_request();
    metrics.record_request();
    metrics.record_cache_hit();

    let output = metrics.encode(2, 7);
    assert!(output.contains("github_ranked_requests_total 2"));
    assert!(output.contains("github_ranked_cache_hits_total 1"));
    assert!(output.contains("github_ranked_cache_misses_total 0"));
}

#[test]
fn responses_are_bucketed_by_class() {
    let mut metrics = Metrics::new();
    metrics.record_response(200, nanos(Duration::from_millis(1)));
    metrics.record_response(404, nanos(Duration::from_millis(1)));
    metrics.record_response(500, nanos(Duration::from_millis(1)));
    metrics.record_response(502, nanos(Duration::from_millis(1)));

    let output = metrics.encode(1, 0);
    assert!(output.contains(r#"github_ranked_responses_total{class="2xx"} 1"#));
    assert!(output.contains(r#"github_ranked_responses_total{class="4xx"} 1"#));
    assert!(output.contains(r#"github_ranked_responses_total{class="5xx"} 2"#));
}

#[test]
fn histogram_buckets_are_cumulative() {
    let mut metrics = Metrics::new();
    // 20ms falls in the 0.05 bucket and every wider one, but not 0.01.
    metrics.record_response(200, nanos(Duration::from_millis(20)));

    let output = metrics.encode(1, 0);
    assert!(output.contains(r#"le="0.01"} 0"#));
    assert!(output.contains(r#"le="0.05"} 1"#));
    assert!(output.contains(r#"le="0.1"} 1"#));
    assert!(output.contains(r#"le="+Inf"} 1"#));
    assert!(output.contains("github_ranked_request_duration_seconds_count 1"));
}

#[test]
fn gauges_reflect_the_sampled_values() {
    let output = Metrics::new().encode(3, 42);
    assert!(output.contains("github_ranked_credentials_available 3"));
    assert!(output.contains("github_ranked_cache_entries 42"));
}

#[test]
fn exposition_format_is_well_formed() {
    let output = Metrics::new().encode(1, 1);

    let helps = output.matches("# HELP ").count();
    let types = output.matches("# TYPE ").count();
    assert_eq!(helps, types, "every metric needs both HELP and TYPE");
    assert!(helps >= 10);

    for line in output.lines().filter(|l| !l.starts_with('#')) {
        assert!(line.contains(' '), "malformed sample line: {line:?}");
    }
}

#[test]
fn a_bucket_bound_is_inclusive() {
    let mut metrics = Metrics::new();
    metrics.record_response(200, nanos(Duration::from_millis(1)));
    metrics.record_response(200, nanos(Duration::from_nanos(1_000_001)));
    let output = metrics.encode(0, 0);
    assert!(output.contains(r#"le="0.001"} 1"#));
    assert!(output.contains(r#"le="0.005"} 2"#));
}

#[test]
fn latency_sum_is_rendered_in_seconds() {
    let mut metrics = Metrics::new();
    assert!(metrics.encode(0, 0).contains("github_ranked_request_duration_seconds_sum 0\n"));
    metrics.record_response(200, nanos(Duration::from_millis(20)));
    assert!(metrics.encode(0, 0).contains("github_ranked_request_duration_seconds_sum 0.02\n"));
    metrics.record_response(200, nanos(Duration::from_micros(2_980_001)));
    assert!(metrics.encode(0, 0).contains("github_ranked_request_duration_seconds_sum 3.000001\n"));
    metrics.record_response(200, nanos(Duration::from_micros(999_999)));
    assert!(metrics.encode(0, 0).contains("github_ranked_request_duration_seconds_sum 4\n"));
}

#[test]
fn status_codes_below_200_count_as_server_errors() {
    let mut metrics = Metrics::new();
    metrics.record_response(101, 0);
    metrics.record_response(399, 0);
    let output = metrics.encode(0, 0);
    assert!(output.contains(r#"github_ranked_responses_total{class="5xx"} 1"#));
    assert!(output.contains(r#"github_ranked_responses_total{class="2xx"} 1"#));
}

#[test]
fn every_event_counter_is_exposed() {
    let mut metrics = Metrics::new();
    metrics.record_cache_miss();
    metrics.record_github_request();
    metrics.record_github_request();
    metrics.record_github_error();
    metrics.record_github_rate_limited();
    metrics.record_card_rendered();
    let output = metrics.encode(0, 0);
    assert!(output.contains("github_ranked_cache_misses_total 1\n"));
    assert!(output.contains("github_ranked_github_requests_total 2\n"));
    assert!(output.contains("github_ranked_github_errors_total 1\n"));
    assert!(output.contains("github_ranked_github_rate_limited_total 1\n"));
    assert!(output.contains("github_ranked_cards_rendered_total 1\n"));
    assert!(output.starts_with(
        "# HELP github_ranked_requests_total Total HTTP requests received.\n# TYPE github_ranked_requests_total counter\ngithub_ranked_requests_total 0\n"
    ));
}
