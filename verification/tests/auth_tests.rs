use investec_buckets::auth::{
    now_unix_seconds, token_grant_decision, token_refresh_settled, token_request, TokenAction,
    TokenPhase, TokenState,
};
use investec_buckets::models::TokenResponse;

#[test]
fn token_expired_within_skew_window() {
    // Four minutes of life left: expired; six minutes: not yet.
    let now = 1_700_000_000u64;
    let four = TokenState {
        access_token: "t".to_string(),
        expires_at: now + 4 * 60,
    };
    assert!(four.is_expired_at(now));
    let six = TokenState {
        access_token: "t".to_string(),
        expires_at: now + 6 * 60,
    };
    assert!(!six.is_expired_at(now));
}

#[test]
fn token_expired_when_in_the_past() {
    let now = 1_700_000_000u64;
    let old = TokenState {
        access_token: "t".to_string(),
        expires_at: now - 10,
    };
    assert!(old.is_expired_at(now));
    let fresh = TokenState {
        access_token: "t".to_string(),
        expires_at: now + 3600,
    };
    assert!(!fresh.is_expired_at(now));
    assert!(TokenState::new().is_expired_at(now));
}

#[test]
fn grant_decision_carries_body_verbatim() {
    let err = token_grant_decision(401, "invalid_client").unwrap_err();
    assert_eq!(err.body, "invalid_client");
    assert_eq!(err.message(), "Authentication failed: invalid_client");
    assert!(token_grant_decision(200, "").is_ok());
    assert!(token_grant_decision(299, "").is_ok());
    assert!(token_grant_decision(300, "x").is_err());
    assert!(token_grant_decision(500, "x").is_err());
}

#[test]
fn refresh_is_single_flight() {
    let now = 1_700_000_000u64;
    // An expired caller starts the one refresh; every caller that then
    // observes the refreshing phase awaits it instead of starting another.
    let expired = TokenPhase::Valid(TokenState {
        access_token: "t".to_string(),
        expires_at: now,
    });
    let (phase, action) = token_request(expired, now);
    assert!(matches!(action, TokenAction::StartRefresh));
    assert!(matches!(phase, TokenPhase::Refreshing));
    let (phase, action) = token_request(phase, now);
    assert!(matches!(action, TokenAction::AwaitRefresh));
    let (_, action) = token_request(phase, now + 1);
    assert!(matches!(action, TokenAction::AwaitRefresh));
}

#[test]
fn missing_token_starts_refresh_and_fresh_token_is_used() {
    let now = 1_700_000_000u64;
    let (_, action) = token_request(TokenPhase::Missing, now);
    assert!(matches!(action, TokenAction::StartRefresh));

    let valid = TokenPhase::Valid(TokenState {
        access_token: "bearer-1".to_string(),
        expires_at: now + 3600,
    });
    let (phase, action) = token_request(valid, now);
    match action {
        TokenAction::UseToken(t) => assert_eq!(t, "bearer-1"),
        other => panic!("{:?}", other),
    }
    assert!(matches!(phase, TokenPhase::Valid(_)));
}

#[test]
fn settled_refresh_stores_grant_or_nothing() {
    let now = 1_700_000_000u64;
    let ok = token_refresh_settled(
        Ok(TokenResponse {
            access_token: "bearer-2".to_string(),
            expires_in: 1799,
        }),
        now,
    );
    match ok {
        TokenPhase::Valid(ts) => {
            assert_eq!(ts.access_token, "bearer-2");
            assert_eq!(ts.expires_at, now + 1799);
        }
        other => panic!("{:?}", other),
    }
    let failed = token_refresh_settled(
        Err(investec_buckets::auth::AuthError {
            body: "invalid_client".to_string(),
        }),
        now,
    );
    assert!(matches!(failed, TokenPhase::Missing));
}

#[test]
fn clock_reads_sanely() {
    // The wrapper reads the real clock: after 2020, before the year 20000.
    let now = now_unix_seconds();
    assert!(now > 1_577_836_800);
    assert!(now < 570_000_000_000);
}
