//! Identity extractor: from a request's credential to the caller's identifier.
//!
//! The credential is carried in one designated header, in the literal form
//! `Bearer <token>`. Extraction reads nothing but its input and the signing
//! key of the token service.

use crate::error::{AppError, AuthFailure};
use crate::ids::{spec_hyphenated, Id};
use crate::token::{TokenService, TOKEN_LIFETIME};
use vstd::prelude::*;

verus! {

/// What the extractor reads of a request.
#[derive(Debug)]
pub struct RequestMetadata {
    /// The value of the `Authorization` header, where the request has one
    /// that is text.
    pub authorization: Option<String>,
}

/// The scheme prefix of a bearer credential, with its separating blank.
pub open spec fn bearer_prefix() -> Seq<char> {
    "Bearer "@
}

/// Calls `str::strip_prefix`. Trusted, as std documents it: where the text
/// starts with the prefix the rest is handed back, and else nothing.
#[verifier::external_body]
fn strip_prefix<'a>(text: &'a str, prefix: &str) -> (rest: Option<&'a str>)
    ensures
        match rest {
            Some(tail) => text@ == prefix@ + tail@,
            None => !prefix@.is_prefix_of(text@),
        },
{
    text.strip_prefix(prefix)
}

/// The token of a header value: what follows the scheme prefix, where the
/// value starts with it. The prefix is matched letter for letter.
pub open spec fn spec_bearer_token(authorization: Option<Seq<char>>) -> Option<Seq<char>> {
    match authorization {
        Some(value) => if bearer_prefix().is_prefix_of(value) {
            Some(value.skip(bearer_prefix().len() as int))
        } else {
            None
        },
        None => None,
    }
}

/// The caller of a request as if the clock showed `now`.
pub open spec fn spec_extract_at(
    tokens: &TokenService,
    authorization: Option<Seq<char>>,
    now: i64,
) -> Result<Id, AuthFailure> {
    match spec_bearer_token(authorization) {
        None => Err(AuthFailure::MissingOrInvalidCredential),
        Some(token) => match tokens.spec_validate_at(token, now) {
            Err(failure) => Err(failure),
            Ok(subject) => match Id::spec_parse(subject) {
                Some(id) => Ok(id),
                None => Err(AuthFailure::InvalidCredential),
            },
        },
    }
}

impl RequestMetadata {
    /// The header value as the contracts see it.
    pub open spec fn spec_authorization(&self) -> Option<Seq<char>> {
        match self.authorization {
            Some(value) => Some(value@),
            None => None,
        }
    }

    /// The token the request carries, if it carries one in the bearer form.
    pub fn bearer_token(&self) -> (r: Option<&str>)
        ensures
            match r {
                Some(token) => spec_bearer_token(self.spec_authorization()) == Some(token@),
                None => spec_bearer_token(self.spec_authorization()) is None,
            },
    {
        match &self.authorization {
            Some(value) => match strip_prefix(value.as_str(), "Bearer ") {
                Some(tail) => {
                    assert(value@.skip(bearer_prefix().len() as int) =~= tail@);
                    Some(tail)
                },
                None => None,
            },
            None => None,
        }
    }
}

/// Recovers the caller as if the clock showed `now`.
///
/// A missing header or another scheme is a missing or invalid credential; a
/// token that does not validate is an invalid token; a subject that is not an
/// identifier is an invalid credential.
pub fn extract_at(tokens: &TokenService, request: &RequestMetadata, now: i64) -> (r: Result<
    Id,
    AuthFailure,
>)
    ensures
        r == spec_extract_at(tokens, request.spec_authorization(), now),
{
    match request.bearer_token() {
        None => Err(AuthFailure::MissingOrInvalidCredential),
        Some(token) => match tokens.validate_at(token, now) {
            Err(failure) => Err(failure),
            Ok(subject) => match Id::parse(subject.as_str()) {
                Some(id) => Ok(id),
                None => Err(AuthFailure::InvalidCredential),
            },
        },
    }
}

/// Recovers the caller of a request.
///
/// Without a credential in the bearer form the answer does not depend on the
/// clock; with one, it is what [`extract_at`] gives for the clock's reading.
pub fn extract(tokens: &TokenService, request: &RequestMetadata) -> (r: Result<Id, AuthFailure>)
    ensures
        exists|now: i64| r == #[trigger] spec_extract_at(tokens, request.spec_authorization(), now),
        spec_bearer_token(request.spec_authorization()) is None ==> r == Err::<Id, AuthFailure>(
            AuthFailure::MissingOrInvalidCredential,
        ),
{
    match request.bearer_token() {
        None => {
            assert(spec_extract_at(tokens, request.spec_authorization(), 0) == Err::<
                Id,
                AuthFailure,
            >(AuthFailure::MissingOrInvalidCredential));
            Err(AuthFailure::MissingOrInvalidCredential)
        },
        Some(token) => match tokens.validate(token) {
            Err(failure) => {
                let ghost now: i64 = choose|now: i64|
                    tokens.spec_validate_at(token@, now) == Err::<Seq<char>, AuthFailure>(failure);
                assert(spec_extract_at(tokens, request.spec_authorization(), now) == Err::<
                    Id,
                    AuthFailure,
                >(failure));
                Err(failure)
            },
            Ok(subject) => {
                let ghost now: i64 = choose|now: i64|
                    tokens.spec_validate_at(token@, now) == Ok::<Seq<char>, AuthFailure>(
                        subject@,
                    );
                let r = match Id::parse(subject.as_str()) {
                    Some(id) => Ok(id),
                    None => Err(AuthFailure::InvalidCredential),
                };
                assert(r == spec_extract_at(tokens, request.spec_authorization(), now));
                r
            },
        },
    }
}

/// Recovers the caller of a request, or the authentication error to answer
/// the request with.
pub fn extract_user_id_from_headers(headers: &RequestMetadata, tokens: &TokenService) -> (r: Result<
    Id,
    AppError,
>)
    ensures
        exists|now: i64|
            match #[trigger] spec_extract_at(tokens, headers.spec_authorization(), now) {
                Ok(id) => r == Ok::<Id, AppError>(id),
                Err(failure) => r matches Err(AppError::Auth(m)) && m@ == failure.spec_message(),
            },
{
    match extract(tokens, headers) {
        Ok(id) => Ok(id),
        Err(failure) => Err(failure.to_app_error()),
    }
}

/// Whether a request that carries `token` in the bearer form is recognised as
/// `identity`'s at every second up to `expiry`, and as nobody's after it.
pub open spec fn recognised_until(
    tokens: &TokenService,
    token: Seq<char>,
    identity: Id,
    expiry: int,
) -> bool {
    forall|at: i64|
        #[trigger] spec_extract_at(tokens, Some(bearer_prefix() + token), at) == if at <= expiry {
            Ok::<Id, AuthFailure>(identity)
        } else {
            Err::<Id, AuthFailure>(AuthFailure::InvalidToken)
        }
}

/// Issues the token of an identity as if the clock showed `now`.
///
/// A request that carries the token in the bearer form is recognised as that
/// identity's until 24 hours after `now`, and as nobody's from then on.
pub fn generate_token_at(tokens: &TokenService, user_id: &Id, now: i64) -> (r: Result<
    String,
    AppError,
>)
    ensures
        match r {
            Ok(token) => {
                &&& tokens.spec_issue_at(spec_hyphenated(user_id.0), now) == Some(token@)
                &&& recognised_until(tokens, token@, *user_id, now + TOKEN_LIFETIME)
            },
            Err(e) => e == AppError::Internal && tokens.spec_issue_at(
                spec_hyphenated(user_id.0),
                now,
            ) is None,
        },
{
    let subject: String = user_id.to_text();
    let r = tokens.issue_at(subject.as_str(), now);
    proof {
        if let Ok(token) = &r {
            let header = bearer_prefix() + token@;
            assert(header.skip(bearer_prefix().len() as int) =~= token@);
            assert(bearer_prefix().is_prefix_of(header));
            assert forall|at: i64|
                #[trigger] spec_extract_at(tokens, Some(header), at) == if at <= now
                    + TOKEN_LIFETIME {
                    Ok::<Id, AuthFailure>(*user_id)
                } else {
                    Err::<Id, AuthFailure>(AuthFailure::InvalidToken)
                } by {
                let v = tokens.spec_validate_at(token@, at);
                assert(v == if at <= now + TOKEN_LIFETIME {
                    Ok::<Seq<char>, AuthFailure>(subject@)
                } else {
                    Err::<Seq<char>, AuthFailure>(AuthFailure::InvalidToken)
                });
            }
        }
    }
    r
}

/// Issues the token of an identity, valid for 24 hours from now. The answer
/// is an internal error only where no token can be issued for the clock's
/// reading.
pub fn generate_token(tokens: &TokenService, user_id: &Id) -> (r: Result<String, AppError>)
    ensures
        match r {
            Ok(token) => exists|now: i64| #[trigger]
                recognised_until(tokens, token@, *user_id, now + TOKEN_LIFETIME),
            Err(e) => e == AppError::Internal && exists|now: i64|
                (#[trigger] tokens.spec_issue_at(spec_hyphenated(user_id.0), now)) is None,
        },
{
    let now: i64 = crate::token::clock_reading();
    let r = generate_token_at(tokens, user_id, now);
    proof {
        match &r {
            Ok(token) => {
                assert(recognised_until(tokens, token@, *user_id, now + TOKEN_LIFETIME));
            },
            Err(_) => {
                assert(tokens.spec_issue_at(spec_hyphenated(user_id.0), now) is None);
            },
        }
    }
    r
}

} // verus!
