use rsky_pds::auth::{
    build_access_claims, build_refresh_claims, create_access_token, create_refresh_token,
    create_tokens, decode_refresh_token, refresh_token_from_claims, AuthError, AuthScope,
    CreateTokensOpts, VerifiedClaims, ACCESS_TOKEN_LIFETIME_SECS, REFRESH_TOKEN_LIFETIME_SECS,
};
use secp256k1::{Keypair, SecretKey};

fn test_keypair() -> Keypair {
    let sk = SecretKey::from_byte_array([7u8; 32]).unwrap();
    Keypair::from_secret_key(&sk)
}

fn opts(jti: Option<&str>, expires_in: Option<u64>) -> CreateTokensOpts {
    CreateTokensOpts {
        did: "did:example:alice".to_string(),
        jwt_key: test_keypair(),
        service_did: "did:example:pds".to_string(),
        scope: None,
        jti: jti.map(|s| s.to_string()),
        expires_in,
    }
}

#[test]
fn scope_strings() {
    assert_eq!(AuthScope::Access.as_str(), "com.atproto.access");
    assert_eq!(AuthScope::Refresh.as_str(), "com.atproto.refresh");
}

#[test]
fn access_claims_use_stated_values_or_defaults() {
    let did = "did:example:alice".to_string();
    let aud = "did:example:pds".to_string();

    let c = build_access_claims(&did, &aud, None, None);
    assert_eq!(c.scope, "com.atproto.access");
    assert_eq!(c.aud, aud);
    assert_eq!(c.sub, did);
    assert!(c.jti.is_none());
    assert_eq!(c.expires_in, ACCESS_TOKEN_LIFETIME_SECS);

    let c = build_access_claims(&did, &aud, Some(AuthScope::Refresh), Some(60));
    assert_eq!(c.scope, "com.atproto.refresh");
    assert_eq!(c.expires_in, 60);
}

#[test]
fn refresh_claims_always_carry_refresh_scope() {
    let did = "did:example:alice".to_string();
    let aud = "did:example:pds".to_string();
    let c = build_refresh_claims(&did, &aud, "jti-1".to_string(), None);
    assert_eq!(c.scope, "com.atproto.refresh");
    assert_eq!(c.jti.as_deref(), Some("jti-1"));
    assert_eq!(c.expires_in, REFRESH_TOKEN_LIFETIME_SECS);
}

#[test]
fn issued_tokens_are_jwts() {
    let access = create_access_token(opts(None, None)).unwrap();
    assert_eq!(access.split('.').count(), 3);
    let refresh = create_refresh_token(opts(Some("jti-2"), None)).unwrap();
    assert_eq!(refresh.split('.').count(), 3);
    let (a, r) = create_tokens(opts(Some("jti-3"), None)).unwrap();
    assert_eq!(a.split('.').count(), 3);
    assert_eq!(r.split('.').count(), 3);
    assert_ne!(a, r);
}

#[test]
fn refresh_token_round_trip() {
    let refresh = create_refresh_token(opts(Some("jti-round"), None)).unwrap();
    let decoded = decode_refresh_token(refresh, test_keypair()).unwrap();
    assert_eq!(decoded.scope, AuthScope::Refresh);
    assert_eq!(decoded.sub, "did:example:alice");
    assert_eq!(decoded.jti, "jti-round");
    assert!(decoded.exp > 0);
}

#[test]
fn refresh_token_gets_random_jti_when_none_stated() {
    let refresh = create_refresh_token(opts(None, None)).unwrap();
    let decoded = decode_refresh_token(refresh, test_keypair()).unwrap();
    assert_eq!(decoded.jti.len(), 16);
    assert!(decoded.jti.chars().all(|c| c.is_ascii_alphanumeric()));
}

#[test]
fn access_token_is_not_a_refresh_token() {
    let access = create_access_token(opts(None, None)).unwrap();
    assert!(matches!(
        decode_refresh_token(access, test_keypair()),
        Err(AuthError::NotRefreshToken)
    ));
}

#[test]
fn tampered_token_fails_verification() {
    let refresh = create_refresh_token(opts(Some("jti-x"), None)).unwrap();
    let mut tampered = refresh.clone();
    tampered.pop();
    assert!(matches!(
        decode_refresh_token(tampered, test_keypair()),
        Err(AuthError::Verification)
    ));
}

#[test]
fn claims_reading_tells_error_kinds_apart() {
    let full = VerifiedClaims {
        scope: Some("com.atproto.refresh".to_string()),
        sub: Some("did:example:alice".to_string()),
        exp_secs: Some(123),
        jti: Some("j".to_string()),
    };
    let t = refresh_token_from_claims(full).unwrap();
    assert_eq!(t.exp, 123);

    let wrong_scope = VerifiedClaims {
        scope: Some("com.atproto.access".to_string()),
        sub: Some("s".to_string()),
        exp_secs: Some(1),
        jti: Some("j".to_string()),
    };
    assert!(matches!(
        refresh_token_from_claims(wrong_scope),
        Err(AuthError::NotRefreshToken)
    ));

    let missing_sub = VerifiedClaims {
        scope: Some("com.atproto.refresh".to_string()),
        sub: None,
        exp_secs: Some(1),
        jti: Some("j".to_string()),
    };
    assert!(matches!(
        refresh_token_from_claims(missing_sub),
        Err(AuthError::MissingClaim)
    ));

    let no_scope = VerifiedClaims {
        scope: None,
        sub: Some("s".to_string()),
        exp_secs: Some(1),
        jti: Some("j".to_string()),
    };
    assert!(matches!(
        refresh_token_from_claims(no_scope),
        Err(AuthError::NotRefreshToken)
    ));
}
