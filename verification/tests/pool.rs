use github_ranked::credential::{now_unix, AuthError, CredentialId, CredentialKind, RateLimitStatus};
use github_ranked::token_pool::PatProvider;

fn pool(count: usize) -> PatProvider {
    PatProvider::new((0..count).map(|i| format!("token-{i}")).collect()).unwrap()
}

fn id(index: usize) -> CredentialId {
    CredentialId { kind: CredentialKind::Pat, index }
}

fn exhaust(pool: &mut PatProvider, index: usize, reset_in: i64) {
    pool.record(id(index), RateLimitStatus { remaining: 0, reset_at: now_unix() + reset_in });
}

#[test]
fn an_empty_pool_is_a_configuration_error() {
    let error = PatProvider::new(vec![]).err().unwrap();
    assert!(matches!(error, AuthError::Misconfigured(_)));
}

#[test]
fn round_robins_across_tokens() {
    let mut pool = pool(3);

    let mut seen = Vec::new();
    for _ in 0..6 {
        seen.push(pool.credential(now_unix()).ok().unwrap().id.index);
    }

    assert_eq!(seen, vec![0, 1, 2, 0, 1, 2]);
}

#[test]
fn skips_exhausted_tokens() {
    let mut pool = pool(3);
    exhaust(&mut pool, 0, 3_600);
    exhaust(&mut pool, 2, 3_600);

    for _ in 0..5 {
        assert_eq!(pool.credential(now_unix()).ok().unwrap().id.index, 1);
    }
    assert_eq!(pool.available(now_unix()), 1);
}

#[test]
fn reports_retry_after_when_everything_is_spent() {
    let mut pool = pool(2);
    exhaust(&mut pool, 0, 300);
    exhaust(&mut pool, 1, 120);

    match pool.credential(now_unix()).err().unwrap() {
        // The soonest window, not the latest.
        AuthError::Exhausted { retry_after } => {
            let seconds = retry_after.expect("should know when to retry");
            assert!((100..=120).contains(&seconds), "got {seconds}");
        }
        other => panic!("expected exhaustion, got {other:?}"),
    }
}

#[test]
fn quota_recovers_once_the_window_passes() {
    let mut pool = pool(1);
    pool.record(id(0), RateLimitStatus { remaining: 0, reset_at: now_unix() - 1 });

    assert!(pool.credential(now_unix()).is_ok());
    assert_eq!(pool.available(now_unix()), 1);
}

#[test]
fn spending_estimates_quota_between_authoritative_answers() {
    let mut pool = pool(1);

    pool.record(id(0), RateLimitStatus { remaining: 2, reset_at: now_unix() + 3_600 });
    pool.record_spend(id(0), 1);
    pool.record_spend(id(0), 1);
    assert_eq!(pool.available(now_unix()), 0);

    // Saturating, not wrapping.
    pool.record_spend(id(0), 999);
    assert_eq!(pool.available(now_unix()), 0);
}

#[test]
fn reports_for_an_unknown_credential_are_ignored() {
    let mut pool = pool(1);

    pool.record(
        CredentialId { kind: CredentialKind::Installation, index: 0 },
        RateLimitStatus { remaining: 0, reset_at: now_unix() + 3_600 },
    );
    pool.record(id(99), RateLimitStatus { remaining: 0, reset_at: now_unix() + 3_600 });

    assert_eq!(pool.available(now_unix()), 1);
    assert!(pool.credential(now_unix()).is_ok());
}

#[test]
fn never_issues_an_exhausted_credential_on_any_small_pool() {
    for size in 1usize..6 {
        for mask in 0u32..(1 << size) {
            let mut pool = pool(size);
            let dead: Vec<usize> = (0..size).filter(|i| mask & (1 << i) != 0).collect();
            for &index in &dead {
                exhaust(&mut pool, index, 3_600);
            }
            for _ in 0..(size * 3) {
                match pool.credential(now_unix()) {
                    Ok(credential) => assert!(!dead.contains(&credential.id.index)),
                    Err(_) => assert_eq!(dead.len(), size),
                }
            }
        }
    }
}

#[test]
fn distributes_evenly_across_healthy_tokens() {
    for size in 2usize..6 {
        for rounds in [4usize, 7, 19] {
            let mut pool = pool(size);
            let mut counts = vec![0usize; size];
            for _ in 0..(size * rounds) {
                counts[pool.credential(now_unix()).ok().unwrap().id.index] += 1;
            }
            let (min, max) = (counts.iter().min().unwrap(), counts.iter().max().unwrap());
            assert!(max - min <= 1, "uneven distribution: {counts:?}");
        }
    }
}

#[test]
fn availability_agrees_with_leasing() {
    for size in 1usize..5 {
        for spend in [0u32, 1, 5_000] {
            let mut pool = pool(size);
            for index in 0..size {
                pool.record(id(index), RateLimitStatus { remaining: spend, reset_at: now_unix() + 3_600 });
            }
            let available = pool.available(now_unix());
            assert!(available <= size);
            let leased = pool.credential(now_unix()).is_ok();
            assert_eq!(leased, available > 0);
        }
    }
}

#[test]
fn production_refuses_personal_tokens() {
    let refused = PatProvider::for_environment(true, vec!["t".to_string()]);
    assert!(matches!(refused.err().unwrap(), AuthError::Misconfigured(_)));
    let allowed = PatProvider::for_environment(false, vec!["t".to_string()]);
    assert_eq!(allowed.ok().unwrap().len(), 1);
}

#[test]
fn a_leased_credential_carries_its_token() {
    let mut pool = pool(2);
    let first = pool.credential(now_unix()).ok().unwrap();
    assert_eq!(first.expose(), "token-0");
    let second = pool.credential(now_unix()).ok().unwrap();
    assert_eq!(second.expose(), "token-1");
    assert_eq!(pool.kind(), CredentialKind::Pat);
    assert!(!pool.is_empty());
}

#[test]
fn a_pool_prints_without_its_tokens() {
    let mut pool = PatProvider::new(vec!["ghp_secret_one".to_string(), "ghp_secret_two".to_string()]).unwrap();
    pool.record(id(1), RateLimitStatus { remaining: 7, reset_at: -3 });
    let rendered = pool.debug_string();
    assert!(!rendered.contains("secret"), "token leaked: {rendered}");
    assert_eq!(
        rendered,
        "PatProvider { state: [TokenState { token: \"<redacted>\", remaining: 5000, reset_at: 0 }, \
         TokenState { token: \"<redacted>\", remaining: 7, reset_at: -3 }], next: 0 }"
    );
}

#[test]
fn an_absurd_reset_is_flagged_before_leasing() {
    let mut pool = pool(1);
    pool.record(id(0), RateLimitStatus { remaining: 0, reset_at: i64::MIN });
    assert!(!pool.exhaustion_wait_fits(i64::MAX));
    assert!(pool.exhaustion_wait_fits(0));
}

#[test]
fn a_spent_token_with_no_reported_reset_counts_as_it_leases() {
    let mut pool = pool(1);
    pool.record_spend(id(0), 5_000);

    assert_eq!(pool.available(now_unix()), 1);
    assert_eq!(pool.credential(now_unix()).ok().unwrap().id.index, 0);
}
