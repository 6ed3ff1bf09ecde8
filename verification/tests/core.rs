use gigachat::executor::{classify_status, is_success_status, RequestError};
use gigachat::token::{
    auth_exchange_outcome, auth_form_body, build_auth_request, parse_credential, AuthError,
    Credential, TokenCache, TokenDecision, TokenScope,
};
use gigachat::url::{build_url, BuildUrlError};

#[test]
fn success_statuses_are_the_two_hundreds() {
    assert!(is_success_status(200));
    assert!(is_success_status(204));
    assert!(is_success_status(299));
    assert!(!is_success_status(199));
    assert!(!is_success_status(300));
    assert!(!is_success_status(404));
    assert!(!is_success_status(500));
}

#[test]
fn bad_status_carries_status_and_body_verbatim() {
    let r = classify_status(404, "no such page".to_string());
    assert_eq!(
        r,
        Err(RequestError::BadResponse { status_code: 404, description: "no such page".to_string() })
    );
    let r = classify_status(500, "".to_string());
    assert_eq!(
        r,
        Err(RequestError::BadResponse { status_code: 500, description: "".to_string() })
    );
    assert_eq!(classify_status(201, "ignored".to_string()), Ok(()));
}

#[test]
fn credential_parses_and_normalizes_token() {
    let body = br#"{"access_token":"tok-123","expires_at":1700000000000}"#;
    let c = parse_credential(body).unwrap();
    assert_eq!(c.access_token, "Bearer tok-123".to_string());
    assert_eq!(c.expires_at_ms, 1700000000000);
}

#[test]
fn credential_rejects_malformed_bodies() {
    let bad = b"not json at all";
    match parse_credential(bad) {
        Err(AuthError::AuthResponseMalformed { raw }) => assert_eq!(raw, bad.to_vec()),
        other => panic!("expected malformed, got {:?}", other),
    }
    let wrong_shape = br#"{"access_token":42,"expires_at":"later"}"#;
    match parse_credential(wrong_shape) {
        Err(AuthError::AuthResponseMalformed { .. }) => {}
        other => panic!("expected malformed, got {:?}", other),
    }
}

#[test]
fn auth_exchange_classifies_before_parsing() {
    let body = br#"{"access_token":"t","expires_at":5}"#.to_vec();
    match auth_exchange_outcome(401, body.clone()) {
        Err(AuthError::AuthFailed { status_code, body: b }) => {
            assert_eq!(status_code, 401);
            assert_eq!(b, body);
        }
        other => panic!("expected auth failure, got {:?}", other),
    }
    let ok = auth_exchange_outcome(200, body).unwrap();
    assert_eq!(ok.access_token, "Bearer t".to_string());
    assert_eq!(ok.expires_at_ms, 5);
}

#[test]
fn auth_request_has_fresh_id_and_scope_form() {
    assert_eq!(auth_form_body(TokenScope::GigachatApiPers), "scope=GIGACHAT_API_PERS");
    assert_eq!(auth_form_body(TokenScope::GigachatApiCorp), "scope=GIGACHAT_API_CORP");
    let r = build_auth_request(TokenScope::GigachatApiPers);
    assert_eq!(r.form_body, "scope=GIGACHAT_API_PERS");
    assert_eq!(r.rq_uid.chars().count(), 36);
    let r2 = build_auth_request(TokenScope::GigachatApiPers);
    // Two exchanges never share a request identifier.
    assert_ne!(r.rq_uid, r2.rq_uid);
}

#[test]
fn scope_wire_forms_round_trip() {
    for s in [
        TokenScope::GigachatApiPers,
        TokenScope::GigachatApiB2B,
        TokenScope::GigachatApiCorp,
    ] {
        assert_eq!(TokenScope::from_str(s.as_str()), Some(s));
    }
    assert_eq!(TokenScope::from_str("GIGACHAT_API_OTHER"), None);
}

#[test]
fn cache_serves_valid_credential_without_refresh() {
    let cache = TokenCache::new(Credential {
        access_token: "Bearer a".to_string(),
        expires_at_ms: 1_000,
    });
    assert_eq!(cache.decide(999), TokenDecision::Cached("Bearer a".to_string()));
    assert_eq!(cache.decide(1_000), TokenDecision::NeedsRefresh);
    assert_eq!(cache.decide(1_001), TokenDecision::NeedsRefresh);
}

#[test]
fn burst_at_expiry_refreshes_once_and_all_see_the_new_token() {
    // N callers hit the cache the instant the credential expires; the lock
    // serializes them. The first refreshes; everyone else is served from the
    // cache.
    let now = 5_000;
    let mut cache = TokenCache::new(Credential {
        access_token: "Bearer stale".to_string(),
        expires_at_ms: 5_000,
    });
    let fresh = Credential { access_token: "Bearer fresh".to_string(), expires_at_ms: 9_000 };
    let mut network_calls = 0;
    let mut observed: Vec<String> = Vec::new();
    for _caller in 0..4 {
        match cache.decide(now) {
            TokenDecision::Cached(t) => observed.push(t),
            TokenDecision::NeedsRefresh => {
                network_calls += 1;
                let t = cache.apply_refresh(Ok(fresh.clone())).unwrap();
                observed.push(t);
            }
        }
    }
    assert_eq!(network_calls, 1);
    assert_eq!(observed, vec!["Bearer fresh".to_string(); 4]);
}

#[test]
fn failed_refresh_leaves_cached_credential_untouched() {
    let stale = Credential { access_token: "Bearer old".to_string(), expires_at_ms: 100 };
    let mut cache = TokenCache::new(stale.clone());
    let err = cache
        .apply_refresh(Err(AuthError::AuthFailed { status_code: 503, body: b"down".to_vec() }))
        .unwrap_err();
    assert_eq!(err, AuthError::AuthFailed { status_code: 503, body: b"down".to_vec() });
    // The previously cached credential is still there and still served while
    // the clock allows.
    assert_eq!(cache.decide(50), TokenDecision::Cached("Bearer old".to_string()));
}

#[test]
fn urls_assemble_verbatim() {
    let queries: Vec<(String, String)> = vec![("method".to_string(), "chat_completions".to_string())];
    let u = build_url("https://example.test/api/v1/", "batches", &queries).unwrap();
    assert_eq!(u, "https://example.test/api/v1/batches?method=chat_completions");
    let two: Vec<(String, String)> = vec![
        ("a".to_string(), "1".to_string()),
        ("b".to_string(), "2".to_string()),
    ];
    let u = build_url("https://example.test/", "x", &two).unwrap();
    assert_eq!(u, "https://example.test/x?a=1&b=2");
    let none: Vec<(String, String)> = Vec::new();
    let u = build_url("https://example.test/", "chat/completions", &none).unwrap();
    assert_eq!(u, "https://example.test/chat/completions");
}

#[test]
fn urls_reject_bad_shapes() {
    let none: Vec<(String, String)> = Vec::new();
    match build_url("", "x", &none) {
        Err(BuildUrlError { base_url, path }) => {
            assert_eq!(base_url, "");
            assert_eq!(path, "x");
        }
        other => panic!("expected error, got {:?}", other),
    }
    assert!(build_url("https://example.test", "x", &none).is_err());
    assert!(build_url("https://example.test/", "/x", &none).is_err());
    let unsafe_q: Vec<(String, String)> = vec![("k".to_string(), "a b".to_string())];
    assert!(build_url("https://example.test/", "x", &unsafe_q).is_err());
}
