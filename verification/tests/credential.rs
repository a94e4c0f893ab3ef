use github_ranked::credential::{now_unix, unix_seconds, AuthError, Credential, CredentialId, CredentialKind};

#[test]
fn a_credential_never_prints_its_token() {
    let credential = Credential::new(
        CredentialId { kind: CredentialKind::Pat, index: 3 },
        "ghp_supersecretvalue",
    );

    let rendered = credential.debug_string();
    assert!(!rendered.contains("supersecret"), "token leaked: {rendered}");
    assert!(rendered.contains("<redacted>"));
    // The id is safe and useful, so it is still there, spelled as a derived
    // `Debug` spells it.
    assert!(rendered.contains("Pat"), "id missing from {rendered}");
    assert!(rendered.contains('3'));
}

#[test]
fn the_token_is_still_reachable_deliberately() {
    let credential = Credential::new(
        CredentialId { kind: CredentialKind::User, index: 0 },
        "gho_value",
    );
    assert_eq!(credential.expose(), "gho_value");
}

#[test]
fn credential_ids_render_for_logs() {
    let id = CredentialId { kind: CredentialKind::Installation, index: 7 };
    assert_eq!(id.to_string(), "installation#7");
}

#[test]
fn the_clock_is_plausible() {
    // Seconds, not milliseconds.
    assert!(now_unix() > 1_700_000_000);
    assert!(now_unix() < 4_000_000_000);
}

#[test]
fn a_redacted_credential_renders_exactly() {
    let credential = Credential::new(
        CredentialId { kind: CredentialKind::Installation, index: 12 },
        "ghs_x",
    );
    assert_eq!(
        credential.debug_string(),
        "Credential { id: CredentialId { kind: Installation, index: 12 }, token: \"<redacted>\" }"
    );
}

#[test]
fn kinds_have_log_names() {
    assert_eq!(CredentialKind::Pat.as_str(), "pat");
    assert_eq!(CredentialKind::Installation.as_str(), "installation");
    assert_eq!(CredentialKind::User.as_str(), "user");
}

#[test]
fn auth_errors_read_as_messages() {
    assert_eq!(AuthError::Misconfigured("no tokens".to_string()).message(), "no tokens");
    assert_eq!(
        AuthError::Exhausted { retry_after: Some(5) }.message(),
        "all credentials are rate-limited"
    );
    assert_eq!(
        AuthError::Rejected("bad".to_string()).message(),
        "credential rejected: bad"
    );
}

#[test]
fn a_clock_reading_becomes_unix_seconds() {
    assert_eq!(unix_seconds(Some(1_700_000_123)), 1_700_000_123);
    assert_eq!(unix_seconds(Some(0)), 0);
}

#[test]
fn a_clock_before_the_epoch_reads_as_zero() {
    assert_eq!(unix_seconds(None), 0);
}
