//! Token service: signed, time-boxed identity tokens.
//!
//! A token is a self-contained claim set, the subject and the expiry, signed
//! with a key that the service holds. Nothing is stored on the server: a token
//! is valid from its issuance until its expiry and cannot be revoked earlier.

use crate::error::{AppError, AuthFailure};
use jsonwebtoken::{DecodingKey, EncodingKey, Header, Validation};
use vstd::prelude::*;

verus! {

/// Seconds from the issuance of a token to its expiry: 24 hours.
pub const TOKEN_LIFETIME: i64 = 86_400;

/// The claims a token carries.
#[derive(Debug)]
pub struct Claims {
    /// The identity the token speaks for.
    pub sub: String,
    /// The last second, counted from the epoch, at which the token is valid.
    pub exp: u64,
}

/// The token that `jsonwebtoken::encode` writes for the claims `sub` and `exp`
/// under the default header and an HMAC secret, or nothing where it fails.
pub uninterp spec fn jwt_signed(subject: Seq<char>, expiry: u64, key: Seq<u8>) -> Option<
    Seq<char>,
>;

/// The subject and expiry that `jsonwebtoken::decode` reads from a token under
/// an HMAC secret, with the default validation but for the check of the expiry
/// against the clock; nothing where the token does not pass, or carries no
/// text subject or no whole-number expiry.
pub uninterp spec fn jwt_opened(token: Seq<char>, key: Seq<u8>) -> Option<(Seq<char>, u64)>;

/// Calls `chrono::Utc::now` and hands back its `timestamp`: the seconds since
/// the epoch. Nothing is claimed of the number.
#[verifier::external_body]
pub(crate) fn clock_reading() -> (seconds: i64) {
    chrono::Utc::now().timestamp()
}

/// Calls `jsonwebtoken::encode` with `Header::default()`, the two claims as a
/// JSON object and `EncodingKey::from_secret`. Trusted: the token depends on
/// the three arguments alone, and a token that comes out is one that `decode`
/// under the same secret reads the same claims from.
#[verifier::external_body]
fn sign_claims(subject: &str, expiry: u64, key: &[u8]) -> (r: Option<String>)
    ensures
        match r {
            Some(token) => jwt_signed(subject@, expiry, key@) == Some(token@) && jwt_opened(
                token@,
                key@,
            ) == Some((subject@, expiry)),
            None => jwt_signed(subject@, expiry, key@) is None,
        },
{
    let mut claims = serde_json::Map::new();
    claims.insert("sub".to_owned(), serde_json::Value::from(subject));
    claims.insert("exp".to_owned(), serde_json::Value::from(expiry));
    let payload = serde_json::Value::Object(claims);
    jsonwebtoken::encode(&Header::default(), &payload, &EncodingKey::from_secret(key)).ok()
}

/// Calls `jsonwebtoken::decode` with `DecodingKey::from_secret` and
/// `Validation::default()` with `validate_exp` switched off, and picks the two
/// claims out of the JSON object. Trusted: the claims depend on token and
/// secret alone.
#[verifier::external_body]
fn open_token(token: &str, key: &[u8]) -> (r: Option<Claims>)
    ensures
        match r {
            Some(claims) => jwt_opened(token@, key@) == Some((claims.sub@, claims.exp)),
            None => jwt_opened(token@, key@) is None,
        },
{
    let mut rules = Validation::default();
    rules.validate_exp = false;
    let secret = DecodingKey::from_secret(key);
    let data = jsonwebtoken::decode::<serde_json::Value>(token, &secret, &rules).ok()?;
    let sub = data.claims.get("sub")?.as_str()?.to_owned();
    let exp = data.claims.get("exp")?.as_u64()?;
    Some(Claims { sub, exp })
}

/// Issues and validates tokens under one signing key.
///
/// The key is given once, when the service is made, and never changes. A
/// token is checked against the key of the service that validates it, so a
/// service made with another key does not stand in for this one.
pub struct TokenService {
    key: Vec<u8>,
}

/// The expiry of a token issued at `now`, where it is a valid expiry.
pub open spec fn spec_expiry(now: i64) -> Option<u64> {
    if 0 <= now + TOKEN_LIFETIME <= i64::MAX {
        Some((now + TOKEN_LIFETIME) as u64)
    } else {
        None
    }
}

/// What the claims read from a token say at `now`: the subject while the
/// expiry has not passed, and an invalid token after it or without claims.
pub open spec fn spec_subject_if_current(claims: Option<(Seq<char>, u64)>, now: i64) -> Result<
    Seq<char>,
    AuthFailure,
> {
    match claims {
        Some((subject, expiry)) => if now <= expiry {
            Ok(subject)
        } else {
            Err(AuthFailure::InvalidToken)
        },
        None => Err(AuthFailure::InvalidToken),
    }
}

/// The expiry of a token issued at `now`: 24 hours later, where that is a
/// second of the epoch's future that the clock can show.
pub fn expiry_at(now: i64) -> (r: Option<u64>)
    ensures
        r == spec_expiry(now),
{
    if now < -TOKEN_LIFETIME || now > i64::MAX - TOKEN_LIFETIME {
        None
    } else {
        Some((now + TOKEN_LIFETIME) as u64)
    }
}

/// Decides on the claims read from a token: the subject while the expiry has
/// not passed, and an invalid token after it or where no claims were read.
pub fn subject_if_current(claims: Option<Claims>, now: i64) -> (r: Result<String, AuthFailure>)
    ensures
        match r {
            Ok(subject) => claims matches Some(c) && c.sub == subject && now <= c.exp,
            Err(e) => e == AuthFailure::InvalidToken && (claims matches Some(c) ==> now > c.exp),
        },
{
    match claims {
        Some(c) => {
            if now < 0 || now as u64 <= c.exp {
                Ok(c.sub)
            } else {
                Err(AuthFailure::InvalidToken)
            }
        },
        None => Err(AuthFailure::InvalidToken),
    }
}

impl TokenService {
    /// The signing key.
    pub closed spec fn spec_key(&self) -> Seq<u8> {
        self.key@
    }

    /// The token issued to `subject` at `now`, where one can be issued.
    pub open spec fn spec_issue_at(&self, subject: Seq<char>, now: i64) -> Option<Seq<char>> {
        match spec_expiry(now) {
            Some(expiry) => jwt_signed(subject, expiry, self.spec_key()),
            None => None,
        }
    }

    /// The subject of a token at `now`: the token must pass the signature and
    /// algorithm checks, and its expiry must not lie before `now`. Every
    /// failure is the same failure.
    pub open spec fn spec_validate_at(&self, token: Seq<char>, now: i64) -> Result<
        Seq<char>,
        AuthFailure,
    > {
        spec_subject_if_current(jwt_opened(token, self.spec_key()), now)
    }

    /// A service that signs and checks with `key`.
    pub fn new(key: Vec<u8>) -> (service: TokenService)
        ensures
            service.spec_key() == key@,
    {
        TokenService { key }
    }

    /// Issues a token for `subject` as if the clock showed `now`.
    ///
    /// The token expires 24 hours after `now`. Until then it validates to
    /// `subject` under this service; from the next second on it is invalid.
    /// A clock reading for which the expiry is not a second of the epoch's
    /// future is an internal error, as is a failure of the signer.
    pub fn issue_at(&self, subject: &str, now: i64) -> (r: Result<String, AppError>)
        ensures
            match r {
                Ok(token) => {
                    &&& self.spec_issue_at(subject@, now) == Some(token@)
                    &&& forall|at: i64|
                        #[trigger] self.spec_validate_at(token@, at) == if at <= now
                            + TOKEN_LIFETIME {
                            Ok::<Seq<char>, AuthFailure>(subject@)
                        } else {
                            Err::<Seq<char>, AuthFailure>(AuthFailure::InvalidToken)
                        }
                },
                Err(e) => e == AppError::Internal && self.spec_issue_at(subject@, now) is None,
            },
    {
        let expiry: u64 = match expiry_at(now) {
            Some(expiry) => expiry,
            None => {
                return Err(AppError::Internal);
            },
        };
        match sign_claims(subject, expiry, self.key.as_slice()) {
            Some(token) => Ok(token),
            None => Err(AppError::Internal),
        }
    }

    /// Issues a token for `subject` that expires 24 hours from now.
    ///
    /// Whatever the clock showed, the token validates to `subject` from that
    /// moment until its expiry. The answer is an internal error only where no
    /// token can be issued for the clock's reading.
    pub fn issue(&self, subject: &str) -> (r: Result<String, AppError>)
        ensures
            match r {
                Ok(token) => exists|now: i64|
                    {
                        &&& #[trigger] self.spec_issue_at(subject@, now) == Some(token@)
                        &&& self.spec_validate_at(token@, now) == Ok::<Seq<char>, AuthFailure>(
                            subject@,
                        )
                    },
                Err(e) => e == AppError::Internal && exists|now: i64|
                    (#[trigger] self.spec_issue_at(subject@, now)) is None,
            },
    {
        let now: i64 = clock_reading();
        let r = self.issue_at(subject, now);
        proof {
            match &r {
                Ok(token) => {
                    assert(self.spec_issue_at(subject@, now) == Some(token@));
                    assert(self.spec_validate_at(token@, now) == Ok::<Seq<char>, AuthFailure>(
                        subject@,
                    ));
                },
                Err(_) => {
                    assert(self.spec_issue_at(subject@, now) is None);
                },
            }
        }
        r
    }

    /// The subject of `token` as if the clock showed `now`.
    pub fn validate_at(&self, token: &str, now: i64) -> (r: Result<String, AuthFailure>)
        ensures
            match r {
                Ok(subject) => self.spec_validate_at(token@, now) == Ok::<Seq<char>, AuthFailure>(
                    subject@,
                ),
                Err(e) => self.spec_validate_at(token@, now) == Err::<Seq<char>, AuthFailure>(e),
            },
    {
        subject_if_current(open_token(token, self.key.as_slice()), now)
    }

    /// The subject of `token` now.
    ///
    /// A token that does not pass the signature and algorithm checks is
    /// invalid whatever the clock shows; one that passes is answered as
    /// [`TokenService::validate_at`] answers for the clock's reading.
    pub fn validate(&self, token: &str) -> (r: Result<String, AuthFailure>)
        ensures
            exists|now: i64|
                match r {
                    Ok(subject) => #[trigger] self.spec_validate_at(token@, now) == Ok::<
                        Seq<char>,
                        AuthFailure,
                    >(subject@),
                    Err(e) => self.spec_validate_at(token@, now) == Err::<Seq<char>, AuthFailure>(
                        e,
                    ),
                },
            r matches Err(e) ==> e == AuthFailure::InvalidToken,
            jwt_opened(token@, self.spec_key()) is None ==> r is Err,
    {
        let now: i64 = clock_reading();
        let r = self.validate_at(token, now);
        proof {
            match &r {
                Ok(subject) => {
                    assert(self.spec_validate_at(token@, now) == Ok::<Seq<char>, AuthFailure>(
                        subject@,
                    ));
                },
                Err(e) => {
                    assert(self.spec_validate_at(token@, now) == Err::<Seq<char>, AuthFailure>(
                        *e,
                    ));
                },
            }
        }
        r
    }
}

} // verus!
