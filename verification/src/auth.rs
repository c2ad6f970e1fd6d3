//! Session-token helpers: issuing ES256K-signed, time-bounded access and
//! refresh tokens for a subject identifier, and decoding a refresh token
//! back into its claims. The claim assembly — scope and lifetime defaults,
//! audience, subject, token id — is verified here; the signature itself is
//! the signing library's work.

use jwt_simple::algorithms::{ECDSAP256kKeyPairLike, ECDSAP256kPublicKeyLike, ES256kKeyPair};
use jwt_simple::claims::Claims;
use jwt_simple::reexports::coarsetime::Duration;
use rand::distr::Alphanumeric;
use rand::distr::SampleString;
use std::collections::HashMap;
use vstd::prelude::*;
use vstd::string::StringExecFns;

verus! {

/// secp256k1 signing keypair; opaque to the library, only handed through to
/// the token signer.
#[verifier::external_type_specification]
#[verifier::external_body]
pub struct ExKeypair(secp256k1::Keypair);

/// Lifetime of an access token when the caller states none: two hours.
pub const ACCESS_TOKEN_LIFETIME_SECS: u64 = 7200;

/// Lifetime of a refresh token when the caller states none: ninety days.
pub const REFRESH_TOKEN_LIFETIME_SECS: u64 = 7776000;

/// The longest lifetime a caller may state, in seconds: ten years, generous
/// against the two-hour and ninety-day defaults. The signing library adds
/// the lifetime to the wall clock in a coarse tick format whose addition
/// overflows on lifetimes of the order of a century, so those are left out
/// up front.
pub const MAX_TOKEN_LIFETIME_SECS: u64 = 315360000;

/// How often `c` occurs in `s`.
pub open spec fn count_char(s: Seq<char>, c: char) -> int
    decreases s.len(),
{
    if s.len() == 0 {
        0
    } else {
        (if s[0] == c {
            1int
        } else {
            0int
        }) + count_char(s.drop_first(), c)
    }
}

/// The scope a session token is issued under.
#[derive(Clone, Copy, Debug, PartialEq, Eq, Structural)]
pub enum AuthScope {
    Access,
    Refresh,
}

impl AuthScope {
    /// The claim string this scope is carried as.
    pub open spec fn spec_str(self) -> Seq<char> {
        match self {
            AuthScope::Access => "com.atproto.access"@,
            AuthScope::Refresh => "com.atproto.refresh"@,
        }
    }

    /// The claim string this scope is carried as.
    pub fn as_str(&self) -> (r: &'static str)
        ensures
            r@ == self.spec_str(),
    {
        match self {
            AuthScope::Access => "com.atproto.access",
            AuthScope::Refresh => "com.atproto.refresh",
        }
    }
}

/// The two scopes are carried as distinct claim strings, so a decoded scope
/// string names at most one scope.
pub proof fn lemma_scope_strings_distinct()
    ensures
        AuthScope::Access.spec_str() != AuthScope::Refresh.spec_str(),
{
    reveal_strlit("com.atproto.access");
    reveal_strlit("com.atproto.refresh");
    assert(AuthScope::Access.spec_str().len() == 18);
    assert(AuthScope::Refresh.spec_str().len() == 19);
}

/// A failure while issuing or decoding a token.
#[derive(Clone, Copy, Debug, PartialEq, Eq, Structural)]
pub enum AuthError {
    /// The signing key was rejected or the signature could not be produced.
    Signing,
    /// The token's signature or standard time claims did not verify.
    Verification,
    /// A verified token did not carry the refresh scope.
    NotRefreshToken,
    /// A verified token was missing its subject, expiry or token id.
    MissingClaim,
}

/// What a caller asks a token to say: subject, signing key, audience, and
/// optional scope, token id and lifetime (in seconds).
pub struct CreateTokensOpts {
    pub did: String,
    pub jwt_key: secp256k1::Keypair,
    pub service_did: String,
    pub scope: Option<AuthScope>,
    pub jti: Option<String>,
    pub expires_in: Option<u64>,
}

/// A decoded access token's claims.
pub struct AuthToken {
    pub scope: AuthScope,
    pub sub: String,
    pub exp: u64,
}

/// A decoded refresh token's claims.
pub struct RefreshToken {
    pub scope: AuthScope,
    pub sub: String,
    pub exp: u64,
    pub jti: String,
}

/// The custom claim a token carries beside the standard ones: its scope.
pub struct CustomClaimObj {
    pub scope: String,
}

/// The fully-resolved claims a token is signed over.
pub struct TokenClaims {
    pub scope: String,
    pub aud: String,
    pub sub: String,
    pub jti: Option<String>,
    pub expires_in: u64,
}

/// Resolves the claims of an access token: the stated scope or the access
/// scope, the stated lifetime or two hours, no token id.
pub fn build_access_claims(
    did: &String,
    service_did: &String,
    scope: Option<AuthScope>,
    expires_in: Option<u64>,
) -> (c: TokenClaims)
    ensures
        c.scope@ == (match scope {
            Some(s) => s.spec_str(),
            None => AuthScope::Access.spec_str(),
        }),
        c.aud@ == service_did@,
        c.sub@ == did@,
        c.jti is None,
        c.expires_in == (match expires_in {
            Some(e) => e,
            None => ACCESS_TOKEN_LIFETIME_SECS,
        }),
{
    let scope = match scope {
        Some(s) => s,
        None => AuthScope::Access,
    };
    let expires_in = match expires_in {
        Some(e) => e,
        None => ACCESS_TOKEN_LIFETIME_SECS,
    };
    TokenClaims {
        scope: String::from_str(scope.as_str()),
        aud: service_did.clone(),
        sub: did.clone(),
        jti: None,
        expires_in,
    }
}

/// Resolves the claims of a refresh token: always the refresh scope, the
/// given token id, the stated lifetime or ninety days.
pub fn build_refresh_claims(
    did: &String,
    service_did: &String,
    jti: String,
    expires_in: Option<u64>,
) -> (c: TokenClaims)
    ensures
        c.scope@ == AuthScope::Refresh.spec_str(),
        c.aud@ == service_did@,
        c.sub@ == did@,
        c.jti matches Some(j) && j@ == jti@,
        c.expires_in == (match expires_in {
            Some(e) => e,
            None => REFRESH_TOKEN_LIFETIME_SECS,
        }),
{
    let expires_in = match expires_in {
        Some(e) => e,
        None => REFRESH_TOKEN_LIFETIME_SECS,
    };
    TokenClaims {
        scope: String::from_str(AuthScope::Refresh.as_str()),
        aud: service_did.clone(),
        sub: did.clone(),
        jti: Some(jti),
        expires_in,
    }
}

/// Relies on `jwt_simple::claims::Claims`, `ES256kKeyPair::from_bytes` and
/// `ECDSAP256kKeyPairLike::sign` (with `secp256k1::Keypair::secret_bytes`
/// supplying the secret key): issues an ES256K-signed token over the given
/// claims, valid from now for the stated lifetime, the scope carried as the
/// custom `scope` claim. The token is three dot-free base64url segments
/// joined by `.`; it embeds the time of issue, so nothing more is promised
/// of its text. The expiry is computed as now plus the lifetime in a coarse
/// tick format whose addition overflows on lifetimes of the order of a
/// century — the bound below keeps those out. The tick format itself runs
/// out once the wall clock nears the end of its range (around a century from
/// its epoch), a limit of the signing library that no bound on arguments can
/// express.
#[verifier::external_body]
fn sign_claims(key: &secp256k1::Keypair, claims: &TokenClaims) -> (r: Result<String, AuthError>)
    requires
        claims.expires_in <= MAX_TOKEN_LIFETIME_SECS,
    ensures
        r matches Err(e) ==> e == AuthError::Signing,
        r matches Ok(t) ==> count_char(t@, '.') == 2,
{
    let mut custom = HashMap::new();
    custom.insert("scope".to_string(), claims.scope.clone());
    let mut c = Claims::with_custom_claims(custom, Duration::from_secs(claims.expires_in))
        .with_audience(claims.aud.clone())
        .with_subject(claims.sub.clone());
    if let Some(jti) = &claims.jti {
        c = c.with_jwt_id(jti.clone());
    }
    let kp = match ES256kKeyPair::from_bytes(&key.secret_bytes()) {
        Ok(kp) => kp,
        Err(_) => return Err(AuthError::Signing),
    };
    kp.sign(c).map_err(|_| AuthError::Signing)
}

/// Relies on rand's `Alphanumeric` distribution: a fresh random string of 16
/// alphanumeric characters; nothing is promised of which ones.
#[verifier::external_body]
fn random_alphanumeric16() -> (r: String)
    ensures
        r@.len() == 16,
{
    Alphanumeric.sample_string(&mut rand::rng(), 16)
}

/// Issues an access token: the stated scope (or the access scope) for the
/// subject, audience and lifetime resolved by [`build_access_claims`],
/// signed with the caller's key. A failure can only be the signer's.
pub fn create_access_token(opts: CreateTokensOpts) -> (r: Result<String, AuthError>)
    requires
        (match opts.expires_in {
            Some(e) => e <= MAX_TOKEN_LIFETIME_SECS,
            None => true,
        }),
    ensures
        r matches Err(e) ==> e == AuthError::Signing,
        r matches Ok(t) ==> count_char(t@, '.') == 2,
{
    let claims = build_access_claims(&opts.did, &opts.service_did, opts.scope, opts.expires_in);
    sign_claims(&opts.jwt_key, &claims)
}

/// Issues a refresh token: always the refresh scope, with the stated token
/// id or a fresh random one, for the subject, audience and lifetime resolved
/// by [`build_refresh_claims`]. A failure can only be the signer's.
pub fn create_refresh_token(opts: CreateTokensOpts) -> (r: Result<String, AuthError>)
    requires
        (match opts.expires_in {
            Some(e) => e <= MAX_TOKEN_LIFETIME_SECS,
            None => true,
        }),
    ensures
        r matches Err(e) ==> e == AuthError::Signing,
        r matches Ok(t) ==> count_char(t@, '.') == 2,
{
    let jti = match opts.jti {
        Some(j) => j,
        None => random_alphanumeric16(),
    };
    let claims = build_refresh_claims(&opts.did, &opts.service_did, jti, opts.expires_in);
    sign_claims(&opts.jwt_key, &claims)
}

/// Issues the session pair: an access token and a refresh token for the same
/// subject and audience, signed with the same key. The stated scope and
/// lifetime apply to both; the stated token id, or a fresh random one, goes
/// to the refresh token.
pub fn create_tokens(opts: CreateTokensOpts) -> (r: Result<(String, String), AuthError>)
    requires
        (match opts.expires_in {
            Some(e) => e <= MAX_TOKEN_LIFETIME_SECS,
            None => true,
        }),
    ensures
        r matches Err(e) ==> e == AuthError::Signing,
        r matches Ok(p) ==> count_char(p.0@, '.') == 2 && count_char(p.1@, '.') == 2,
{
    let CreateTokensOpts { did, jwt_key, service_did, scope, jti, expires_in } = opts;
    let access_claims = build_access_claims(&did, &service_did, scope, expires_in);
    let access_jwt = match sign_claims(&jwt_key, &access_claims) {
        Ok(t) => t,
        Err(e) => {
            return Err(e);
        },
    };
    let jti = match jti {
        Some(j) => j,
        None => random_alphanumeric16(),
    };
    let refresh_claims = build_refresh_claims(&did, &service_did, jti, expires_in);
    let refresh_jwt = match sign_claims(&jwt_key, &refresh_claims) {
        Ok(t) => t,
        Err(e) => {
            return Err(e);
        },
    };
    Ok((access_jwt, refresh_jwt))
}

/// The claims a verified token carried: the custom scope claim, if any, and
/// the standard subject, expiry and token id.
pub struct VerifiedClaims {
    pub scope: Option<String>,
    pub sub: Option<String>,
    pub exp_secs: Option<u64>,
    pub jti: Option<String>,
}

/// Relies on `ES256kKeyPair::from_bytes`, `public_key` and
/// `ECDSAP256kPublicKeyLike::verify_token`: checks the token's ES256K
/// signature and standard time claims against the keypair's public key and
/// hands back the claims the token carried; nothing is promised of their
/// values.
#[verifier::external_body]
fn verify_token_claims(jwt: &String, key: &secp256k1::Keypair) -> (r: Result<
    VerifiedClaims,
    AuthError,
>)
    ensures
        r matches Err(e) ==> e == AuthError::Verification,
{
    let kp = match ES256kKeyPair::from_bytes(&key.secret_bytes()) {
        Ok(kp) => kp,
        Err(_) => return Err(AuthError::Verification),
    };
    let claims = match kp.public_key().verify_token::<HashMap<String, String>>(jwt, None) {
        Ok(c) => c,
        Err(_) => return Err(AuthError::Verification),
    };
    Ok(VerifiedClaims {
        scope: claims.custom.get("scope").cloned(),
        sub: claims.subject,
        exp_secs: claims.expires_at.map(|d| d.as_secs()),
        jti: claims.jwt_id,
    })
}

/// Reads a refresh token out of verified claims: exactly the claims that
/// carry the refresh scope and all of subject, expiry and token id become a
/// [`RefreshToken`]; a wrong or absent scope and a missing claim are told
/// apart.
pub fn refresh_token_from_claims(c: VerifiedClaims) -> (r: Result<RefreshToken, AuthError>)
    ensures
        r is Ok <==> ((c.scope matches Some(s) && s@ == AuthScope::Refresh.spec_str()) && c.sub
            is Some && c.exp_secs is Some && c.jti is Some),
        r matches Ok(t) ==> t.scope == AuthScope::Refresh && t.sub@ == c.sub->Some_0@ && t.exp
            == c.exp_secs->Some_0 && t.jti@ == c.jti->Some_0@,
        r matches Err(e) ==> (if !(c.scope matches Some(s) && s@
            == AuthScope::Refresh.spec_str()) {
            e == AuthError::NotRefreshToken
        } else {
            e == AuthError::MissingClaim
        }),
{
    let refresh = String::from_str(AuthScope::Refresh.as_str());
    let scope_matches = match &c.scope {
        Some(s) => *s == refresh,
        None => false,
    };
    if !scope_matches {
        return Err(AuthError::NotRefreshToken);
    }
    let sub = match c.sub {
        Some(s) => s,
        None => {
            return Err(AuthError::MissingClaim);
        },
    };
    let exp = match c.exp_secs {
        Some(e) => e,
        None => {
            return Err(AuthError::MissingClaim);
        },
    };
    let jti = match c.jti {
        Some(j) => j,
        None => {
            return Err(AuthError::MissingClaim);
        },
    };
    Ok(RefreshToken { scope: AuthScope::Refresh, sub, exp, jti })
}

/// Decodes a refresh token issued by [`create_refresh_token`] or
/// [`create_tokens`]: verifies the signature with the same keypair and reads
/// the claims back. Whatever the verifier returned, an `Ok` is a token with
/// the refresh scope and all of subject, expiry and token id present, and a
/// failure is one of the three decode errors.
pub fn decode_refresh_token(jwt: String, jwt_key: secp256k1::Keypair) -> (r: Result<
    RefreshToken,
    AuthError,
>)
    ensures
        r matches Ok(t) ==> t.scope == AuthScope::Refresh,
        r matches Err(e) ==> (e == AuthError::Verification || e == AuthError::NotRefreshToken || e
            == AuthError::MissingClaim),
{
    let claims = match verify_token_claims(&jwt, &jwt_key) {
        Ok(c) => c,
        Err(e) => {
            return Err(e);
        },
    };
    refresh_token_from_claims(claims)
}

} // verus!
