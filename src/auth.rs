//! Credentials and bearer tokens: password hashing and checking, token
//! issue and verification with expiry.

use vstd::prelude::*;
use crate::config::Config;
use crate::error::AppError;
use crate::ids::{dashed, id_text, parse_id, uuid_parse_of};

verus! {

/// The signed claims of a bearer token: the user id as dashed text, and the
/// issue and expiry instants in seconds since the Unix epoch.
pub struct Claims {
    pub sub: String,
    pub exp: i64,
    pub iat: i64,
}

/// What `bcrypt::verify` answers for a password and a stored hash: whether
/// they match, or `None` when the hash is malformed.
pub uninterp spec fn password_check_of(password: Seq<char>, hash: Seq<char>) -> Option<bool>;

/// The HS256 token that `jsonwebtoken::encode` writes for the claims
/// `{sub, iat, exp}` and a secret, or `None` when encoding fails.
pub uninterp spec fn jwt_encode_of(sub: Seq<char>, iat: i64, exp: i64, secret: Seq<char>) -> Option<Seq<char>>;

/// The claims `(sub, iat, exp)` that `jsonwebtoken::decode` reads from a token
/// whose HS256 signature checks against the secret, or `None`.
pub uninterp spec fn jwt_claims_of(token: Seq<char>, secret: Seq<char>) -> Option<(Seq<char>, i64, i64)>;

/// Relies on `bcrypt::hash`: it refuses a cost outside `4..=31`, and a hash
/// it returns verifies its password (`bcrypt::verify` recomputes it with the
/// salt and cost the hash carries). The salt is random, so nothing else is
/// known of the hash.
#[verifier::external_body]
fn bcrypt_hash(password: &str, cost: u32) -> (r: Option<String>)
    ensures
        !(4 <= cost <= 31) ==> r is None,
        r matches Some(h) ==> password_check_of(password@, h@) == Some(true),
{
    bcrypt::hash(password, cost).ok()
}

/// Relies on `bcrypt::verify`: the answer depends on the password and the hash alone.
#[verifier::external_body]
fn bcrypt_verify(password: &str, hash: &str) -> (r: Option<bool>)
    ensures
        r == password_check_of(password@, hash@),
{
    bcrypt::verify(password, hash).ok()
}

/// Relies on `jsonwebtoken::encode` with the default HS256 header: the token
/// depends on the claims and the secret alone.
#[verifier::external_body]
fn jwt_encode(sub: &str, iat: i64, exp: i64, secret: &str) -> (r: Option<String>)
    ensures
        match r {
            Some(t) => jwt_encode_of(sub@, iat, exp, secret@) == Some(t@),
            None => jwt_encode_of(sub@, iat, exp, secret@) is None,
        },
{
    let mut c = serde_json::Map::new();
    c.insert("sub".to_string(), serde_json::Value::from(sub));
    c.insert("iat".to_string(), serde_json::Value::from(iat));
    c.insert("exp".to_string(), serde_json::Value::from(exp));
    let key = jsonwebtoken::EncodingKey::from_secret(secret.as_bytes());
    jsonwebtoken::encode(&jsonwebtoken::Header::default(), &c, &key).ok()
}

/// Relies on `jsonwebtoken::decode` with HS256 and expiry checking switched
/// off (expiry is decided by `claims_user`): with no clock involved, the
/// result depends on the token and the secret alone.
#[verifier::external_body]
fn jwt_decode(token: &str, secret: &str) -> (r: Option<Claims>)
    ensures
        match r {
            Some(c) => jwt_claims_of(token@, secret@) == Some((c.sub@, c.iat, c.exp)),
            None => jwt_claims_of(token@, secret@) is None,
        },
{
    let mut v = jsonwebtoken::Validation::new(jsonwebtoken::Algorithm::HS256);
    v.validate_exp = false;
    let key = jsonwebtoken::DecodingKey::from_secret(secret.as_bytes());
    let c = jsonwebtoken::decode::<serde_json::Map<String, serde_json::Value>>(token, &key, &v).ok()?.claims;
    let sub = c.get("sub")?.as_str()?.to_string();
    Some(Claims { sub, iat: c.get("iat")?.as_i64()?, exp: c.get("exp")?.as_i64()? })
}

/// A token has expired once its expiry instant is reached.
pub open spec fn token_expired(exp: i64, now: i64) -> bool {
    exp <= now
}

/// The account a token's claims authenticate at instant `now` (seconds), or
/// `Authentication` when the token is missing, expired or names no id.
pub open spec fn claims_user(claims: Option<(Seq<char>, i64, i64)>, now: i64) -> Result<u128, AppError> {
    match claims {
        None => Err(AppError::Authentication),
        Some((sub, _iat, exp)) => if token_expired(exp, now) {
            Err(AppError::Authentication)
        } else {
            match uuid_parse_of(sub) {
                Some(id) => Ok(id),
                None => Err(AppError::Authentication),
            }
        },
    }
}

/// Expiry instant of a token issued at `now` for `lifetime` seconds, if it fits.
pub open spec fn expiry_of(now: i64, lifetime: i64) -> Option<i64> {
    if i64::MIN <= now + lifetime <= i64::MAX {
        Some((now + lifetime) as i64)
    } else {
        None
    }
}

/// The account that decoded claims authenticate at instant `now`.
pub fn user_from_claims(claims: Option<Claims>, now: i64) -> (r: Result<u128, AppError>)
    ensures
        r == claims_user(
            match claims {
                Some(c) => Some((c.sub@, c.iat, c.exp)),
                None => None,
            },
            now,
        ),
{
    match claims {
        None => Err(AppError::Authentication),
        Some(c) => {
            if c.exp <= now {
                Err(AppError::Authentication)
            } else {
                match parse_id(c.sub.as_str()) {
                    Some(id) => Ok(id),
                    None => Err(AppError::Authentication),
                }
            }
        },
    }
}

/// Issues and checks credentials with the server's secret and costs.
pub struct AuthService {
    pub config: Config,
}

impl AuthService {
    pub fn new(config: Config) -> (r: Self)
        ensures
            r.config == config,
    {
        AuthService { config }
    }

    /// Hashes a password with the configured cost.
    pub fn hash_password(&self, password: &str) -> (r: Result<String, AppError>)
        ensures
            r is Err ==> r == Err::<String, AppError>(AppError::Internal),
            !(4 <= self.config.bcrypt_cost <= 31) ==> r is Err,
            r matches Ok(h) ==> password_check_of(password@, h@) == Some(true),
    {
        match bcrypt_hash(password, self.config.bcrypt_cost) {
            Some(h) => Ok(h),
            None => Err(AppError::Internal),
        }
    }

    /// Checks a password against a stored hash.
    pub fn verify_password(&self, password: &str, hash: &str) -> (r: Result<bool, AppError>)
        ensures
            r == match password_check_of(password@, hash@) {
                Some(b) => Ok::<bool, AppError>(b),
                None => Err(AppError::Internal),
            },
    {
        match bcrypt_verify(password, hash) {
            Some(b) => Ok(b),
            None => Err(AppError::Internal),
        }
    }

    /// Issues a token for `user_id` at instant `now` (seconds), valid for
    /// the configured lifetime.
    pub fn generate_token(&self, user_id: u128, now: i64) -> (r: Result<String, AppError>)
        ensures
            match expiry_of(now, self.config.jwt_expires_in) {
                None => r == Err::<String, AppError>(AppError::Internal),
                Some(exp) => match jwt_encode_of(dashed(user_id), now, exp, self.config.jwt_secret@) {
                    Some(t) => r matches Ok(s) && s@ == t,
                    None => r == Err::<String, AppError>(AppError::Internal),
                },
            },
    {
        let exp = match now.checked_add(self.config.jwt_expires_in) {
            Some(e) => e,
            None => return Err(AppError::Internal),
        };
        let sub = id_text(user_id);
        match jwt_encode(sub.as_str(), now, exp, self.config.jwt_secret.as_str()) {
            Some(t) => Ok(t),
            None => Err(AppError::Internal),
        }
    }

    /// The account a bearer token authenticates at instant `now` (seconds).
    /// It reads nothing but the token, so a refused token changes nothing.
    pub fn verify_token(&self, token: &str, now: i64) -> (r: Result<u128, AppError>)
        ensures
            r == claims_user(jwt_claims_of(token@, self.config.jwt_secret@), now),
    {
        user_from_claims(jwt_decode(token, self.config.jwt_secret.as_str()), now)
    }
}

} // verus!
