use vstd::prelude::*;
use crate::app_error::{AppError, StatusCode};

verus! {

/// The token that HS256 signing with `secret` makes of the claims `{exp, iat, jti}`.
pub uninterp spec fn signed_token(iat: u64, exp: u64, jti: u64, secret: Seq<char>) -> Seq<char>;

/// What HS256 verification of `token` with `secret` yields, expiry left
/// unchecked: `None` where the signature or format is bad, `exp` is
/// missing, or some claim is not an unsigned 64-bit integer; else the
/// `iat`, `exp` and `jti` claims.
pub uninterp spec fn token_claims(token: Seq<char>, secret: Seq<char>) -> Option<(Option<u64>, Option<u64>, Option<u64>)>;

#[verifier::external_type_specification]
#[verifier::external_body]
pub struct ExJwtError(jsonwebtoken::errors::Error);

/// Relies on jsonwebtoken::encode with the default HS256 header and an HMAC
/// key: it cannot fail (HMAC signing and the JSON of integer claims have no
/// error path), signing is deterministic, and jsonwebtoken::decode with the
/// same secret gives the claims back.
#[verifier::external_body]
fn jwt_encode(iat: u64, exp: u64, jti: u64, secret: &str) -> (r: Result<String, jsonwebtoken::errors::Error>)
    ensures
        r is Ok,
        r is Ok ==> r->Ok_0@ == signed_token(iat, exp, jti, secret@),
        r is Ok ==> token_claims(r->Ok_0@, secret@) == Some((Some(iat), Some(exp), Some(jti))),
{
    let claims: std::collections::BTreeMap<&str, u64> = [("exp", exp), ("iat", iat), ("jti", jti)].into_iter().collect();
    let key = jsonwebtoken::EncodingKey::from_secret(secret.as_bytes());
    jsonwebtoken::encode(&jsonwebtoken::Header::default(), &claims, &key)
}

/// Relies on jsonwebtoken::decode with HS256, the `exp` claim required and
/// its check against the system clock switched off (the library compares
/// it with a time it is given).
#[verifier::external_body]
fn jwt_decode(token: &str, secret: &str) -> (r: Result<(Option<u64>, Option<u64>, Option<u64>), jsonwebtoken::errors::Error>)
    ensures
        r is Ok <==> token_claims(token@, secret@) is Some,
        r is Ok ==> token_claims(token@, secret@) == Some(r->Ok_0),
{
    let key = jsonwebtoken::DecodingKey::from_secret(secret.as_bytes());
    let mut validation = jsonwebtoken::Validation::new(jsonwebtoken::Algorithm::HS256);
    validation.validate_exp = false;
    let data = jsonwebtoken::decode::<std::collections::BTreeMap<String, u64>>(token, &key, &validation)?;
    Ok((data.claims.get("iat").copied(), data.claims.get("exp").copied(), data.claims.get("jti").copied()))
}

/// Relies on the `Display` impl of jsonwebtoken's error, for the error message.
#[verifier::external_body]
fn jwt_error_message(e: &jsonwebtoken::errors::Error) -> (r: String) {
    e.to_string()
}

/// Relies on std::time::SystemTime::now and SystemTime::duration_since:
/// the whole seconds since the Unix epoch, or `None` where the system clock
/// reads earlier than the epoch (an error there, not a panic).
#[verifier::external_body]
fn unix_now() -> (r: Option<u64>) {
    std::time::SystemTime::now().duration_since(std::time::UNIX_EPOCH).ok().map(|d| d.as_secs())
}

/// How long a token stays valid, in seconds, unless configured otherwise.
pub const DEFAULT_TOKEN_LIFETIME_SECS: u64 = 30;

/// What token signing needs: the shared secret and the lifetime of a token.
pub struct TokenConfig {
    pub secret: String,
    pub lifetime_secs: u64,
}

impl TokenConfig {
    pub fn new(secret: String) -> (r: TokenConfig)
        ensures
            r.secret@ == secret@,
            r.lifetime_secs == DEFAULT_TOKEN_LIFETIME_SECS,
    {
        TokenConfig { secret, lifetime_secs: DEFAULT_TOKEN_LIFETIME_SECS }
    }
}

/// The moment a token issued at `iat` expires; it saturates at the largest time.
pub open spec fn expiry(iat: u64, lifetime: u64) -> u64 {
    if iat + lifetime > u64::MAX {
        u64::MAX
    } else {
        (iat + lifetime) as u64
    }
}

/// Whether decoded claims make a token live at `now`: an expiry that lies after `now`.
pub open spec fn claims_live(claims: Option<(Option<u64>, Option<u64>, Option<u64>)>, now: u64) -> bool {
    match claims {
        Some((_, Some(exp), _)) => now < exp,
        _ => false,
    }
}

/// Whether `token` verifies with the configured secret and is live at `now`.
pub open spec fn token_live(config: &TokenConfig, token: Seq<char>, now: u64) -> bool {
    claims_live(token_claims(token, config.secret@), now)
}

/// The claims that a session token carries: issue and expiry times in
/// seconds since the Unix epoch, and a serial number that tells apart
/// tokens issued in the same second.
#[derive(Debug, Clone, Copy, PartialEq, Eq, Structural)]
pub struct Claims {
    pub exp: u64,
    pub iat: u64,
    pub jti: u64,
}

impl Claims {
    /// The claims of a token with serial `jti` issued at `now` that lives `lifetime` seconds.
    pub fn issued_at(now: u64, lifetime: u64, jti: u64) -> (r: Claims)
        ensures
            r.iat == now,
            r.exp == expiry(now, lifetime),
            r.jti == jti,
    {
        Claims { exp: now.saturating_add(lifetime), iat: now, jti }
    }
}

/// The verdict on decoded claims at `now`: `Ok(true)` if live, else
/// unauthorized.
pub fn check_claims(claims: Option<(Option<u64>, Option<u64>, Option<u64>)>, now: u64) -> (r: Result<bool, AppError>)
    ensures
        claims_live(claims, now) <==> r is Ok,
        r is Ok ==> r->Ok_0,
        r is Err ==> r->Err_0.code == StatusCode::Unauthorized && r->Err_0.message@ == "Invalid token."@,
{
    match claims {
        Some((_, Some(exp), _)) => {
            if now < exp {
                return Ok(true);
            }
        },
        _ => {},
    }
    Err(AppError::new(StatusCode::Unauthorized, "Invalid token.".to_owned()))
}

/// Issues a signed token with serial `jti` at time `now`, valid for the configured lifetime.
pub fn issue_token(config: &TokenConfig, now: u64, jti: u64) -> (r: Result<String, AppError>)
    ensures
        r is Ok,
        r->Ok_0@ == signed_token(now, expiry(now, config.lifetime_secs), jti, config.secret@),
        token_claims(r->Ok_0@, config.secret@) == Some((Some(now), Some(expiry(now, config.lifetime_secs)), Some(jti))),
{
    let claims = Claims::issued_at(now, config.lifetime_secs, jti);
    match jwt_encode(claims.iat, claims.exp, claims.jti, config.secret.as_str()) {
        Ok(t) => Ok(t),
        Err(e) => Err(AppError::new(StatusCode::InternalServerError, jwt_error_message(&e))),
    }
}

/// Checks a token's signature and whether it is live at `now`; any failure is unauthorized.
pub fn validate_token_at(config: &TokenConfig, token: &str, now: u64) -> (r: Result<bool, AppError>)
    ensures
        token_live(config, token@, now) <==> r is Ok,
        r is Ok ==> r->Ok_0,
        r is Err ==> r->Err_0.code == StatusCode::Unauthorized && r->Err_0.message@ == "Invalid token."@,
{
    let claims = match jwt_decode(token, config.secret.as_str()) {
        Ok(c) => Some(c),
        Err(_) => None,
    };
    check_claims(claims, now)
}

/// The clock reading as seconds since the epoch, with times before it read as the epoch.
pub fn now_secs() -> (r: u64) {
    match unix_now() {
        Some(t) => t,
        None => 0,
    }
}

/// Issues a token with serial `jti` at the current time.
pub fn create_jwt(config: &TokenConfig, jti: u64) -> (r: Result<String, AppError>)
    ensures
        r is Ok,
        exists|now: u64| {
            &&& r->Ok_0@ == signed_token(now, expiry(now, config.lifetime_secs), jti, config.secret@)
            &&& #[trigger] token_claims(r->Ok_0@, config.secret@) == Some((Some(now), Some(expiry(now, config.lifetime_secs)), Some(jti)))
        },
{
    issue_token(config, now_secs(), jti)
}

/// Checks a token's signature and whether it is live at the current time.
pub fn is_valid(config: &TokenConfig, token: &str) -> (r: Result<bool, AppError>)
    ensures
        r is Ok ==> r->Ok_0 && exists|now: u64| token_live(config, token@, now),
        r is Err ==> r->Err_0.code == StatusCode::Unauthorized,
{
    validate_token_at(config, token, now_secs())
}

/// A token issued at `t0` is live at every moment from `t0` until its
/// lifetime has elapsed, and at no moment after.
pub proof fn lemma_token_lifetime(config: &TokenConfig, token: Seq<char>, t0: u64, jti: u64, t: u64)
    requires
        t0 + config.lifetime_secs <= u64::MAX,
        token_claims(token, config.secret@) == Some((Some(t0), Some(expiry(t0, config.lifetime_secs)), Some(jti))),
    ensures
        t0 <= t < t0 + config.lifetime_secs ==> token_live(config, token, t),
        t >= t0 + config.lifetime_secs ==> !token_live(config, token, t),
{
}

} // verus!
