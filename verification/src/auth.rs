//! The auth guard: from the `Authorization` header of a request and the
//! current time to the caller's claims, or to the reason for turning the
//! request away. It keeps no state between requests.

use crate::json::{lift, Json, JsonNumber, JsonValue, Numeral};
use crate::text::strip_prefix;
use vstd::prelude::*;

verus! {

/// The model of a caller's claims.
pub struct ClaimsModel {
    pub subject: Seq<char>,
    pub expires_at: u64,
}

/// What a verified token says of its caller: who it is, and the second since
/// the Unix epoch up to which the token is good.
#[derive(Debug, PartialEq, Eq)]
pub struct Claims {
    pub subject: String,
    pub expires_at: u64,
}

impl View for Claims {
    type V = ClaimsModel;

    open spec fn view(&self) -> ClaimsModel {
        ClaimsModel { subject: self.subject@, expires_at: self.expires_at }
    }
}

impl Clone for Claims {
    fn clone(&self) -> (r: Claims)
        ensures
            r@ == self@,
    {
        Claims { subject: self.subject.clone(), expires_at: self.expires_at }
    }
}

/// Why the guard turns a request away.
#[derive(Clone, Copy, Debug, PartialEq, Eq, Structural)]
pub enum Rejection {
    /// The request has no `Authorization` header.
    MissingHeader,
    /// The header does not begin with `Bearer `.
    BadScheme,
    /// The token's signature or structure does not verify.
    InvalidToken,
    /// The token verifies and its time is over.
    Expired,
}

impl Rejection {
    /// The reason as the caller reads it.
    pub open spec fn reason(self) -> Seq<char> {
        match self {
            Rejection::MissingHeader => "missing header"@,
            Rejection::BadScheme => "bad scheme"@,
            Rejection::InvalidToken => "invalid token"@,
            Rejection::Expired => "expired"@,
        }
    }

    /// The reason as the caller reads it.
    pub fn message(&self) -> (r: &'static str)
        ensures
            r@ == self.reason(),
    {
        match self {
            Rejection::MissingHeader => "missing header",
            Rejection::BadScheme => "bad scheme",
            Rejection::InvalidToken => "invalid token",
            Rejection::Expired => "expired",
        }
    }
}

/// The scheme that a header must begin with, up to and with the blank.
pub open spec fn bearer_prefix() -> Seq<char> {
    "Bearer "@
}

/// The token that `header` carries: what follows the scheme, or `None` where
/// the header does not begin with the scheme.
pub open spec fn bearer_token(header: Seq<char>) -> Option<Seq<char>> {
    if bearer_prefix().is_prefix_of(header) {
        Some(header.skip(bearer_prefix().len() as int))
    } else {
        None
    }
}

/// The token that a request carries: `None` where it has no header, or one
/// without the scheme.
pub open spec fn carried_token(header: Option<Seq<char>>) -> Option<Seq<char>> {
    match header {
        Some(text) => bearer_token(text),
        None => None,
    }
}

/// The claims document of `token` where its signature verifies under
/// `secret`, and `None` where the token is malformed or its signature does
/// not verify. The time plays no part in it.
pub uninterp spec fn token_claims(token: Seq<char>, secret: Seq<char>) -> Option<Json>;

/// The claims that a claims document holds: its `sub` member, a string, and
/// its `exp` member, an integer that is not negative. `None` where either is
/// missing or of another kind.
pub open spec fn claims_of(document: Json) -> Option<ClaimsModel> {
    match (document.member("sub"@), document.member("exp"@)) {
        (Some(Json::Text(subject)), Some(Json::Number(Numeral::Natural(expires_at)))) => Some(
            ClaimsModel { subject, expires_at },
        ),
        _ => None,
    }
}

/// The claims of a request whose token verifies: `None` where the request
/// carries no token, where the token's signature does not verify, and where
/// its claims document is ill-formed.
pub open spec fn verified_claims(header: Option<Seq<char>>, secret: Seq<char>) -> Option<
    ClaimsModel,
> {
    match carried_token(header) {
        Some(token) => match token_claims(token, secret) {
            Some(document) => claims_of(document),
            None => None,
        },
        None => None,
    }
}

/// What the guard makes of a token once its signature has been checked:
/// `verified` is the claims document, or `None` where the check failed.
pub open spec fn judge(verified: Option<Json>, now: u64) -> Result<ClaimsModel, Rejection> {
    match verified {
        None => Err(Rejection::InvalidToken),
        Some(document) => match claims_of(document) {
            None => Err(Rejection::InvalidToken),
            Some(claims) => if claims.expires_at < now {
                Err(Rejection::Expired)
            } else {
                Ok(claims)
            },
        },
    }
}

/// What the guard makes of a request: the four rejections in their order,
/// and the claims where none applies.
pub open spec fn verdict(header: Option<Seq<char>>, secret: Seq<char>, now: u64) -> Result<
    ClaimsModel,
    Rejection,
> {
    match header {
        None => Err(Rejection::MissingHeader),
        Some(text) => match bearer_token(text) {
            None => Err(Rejection::BadScheme),
            Some(token) => judge(token_claims(token, secret), now),
        },
    }
}

/// The model of what the guard returns.
pub open spec fn outcome(r: Result<Claims, Rejection>) -> Result<ClaimsModel, Rejection> {
    match r {
        Ok(claims) => Ok(claims@),
        Err(rejection) => Err(rejection),
    }
}

/// The model of a header that may be absent.
pub open spec fn header_view(header: Option<&str>) -> Option<Seq<char>> {
    match header {
        Some(text) => Some(text@),
        None => None,
    }
}

/// The model of a claims document that may be absent.
pub open spec fn document_view(document: Option<JsonValue>) -> Option<Json> {
    match document {
        Some(value) => Some(value@),
        None => None,
    }
}

/// Calls `jsonwebtoken::decode` for a `serde_json::Value`, with the key
/// `jsonwebtoken::DecodingKey::from_secret` makes of the secret's bytes and
/// with `jsonwebtoken::Validation::default()` in which `validate_exp` is
/// switched off, so that the call reads no clock. The outcome then depends on
/// the token and the secret alone, and the contract names it `token_claims`:
/// `Some` of the claims, rebuilt by `lift`, where the call succeeds, `None`
/// where it reports an error.
#[verifier::external_body]
fn verify_signature(token: &str, secret: &str) -> (r: Option<JsonValue>)
    ensures
        match r {
            Some(document) => token_claims(token@, secret@) == Some(document@),
            None => token_claims(token@, secret@).is_none(),
        },
{
    let mut validation = jsonwebtoken::Validation::default();
    validation.validate_exp = false;
    let key = jsonwebtoken::DecodingKey::from_secret(secret.as_bytes());
    match jsonwebtoken::decode::<serde_json::Value>(token, &key, &validation) {
        Ok(data) => Some(lift(&data.claims)),
        Err(_) => None,
    }
}

/// Reads the claims out of a claims document.
pub fn read_claims(document: &JsonValue) -> (r: Option<Claims>)
    ensures
        match r {
            Some(claims) => claims_of(document@) == Some(claims@),
            None => claims_of(document@).is_none(),
        },
{
    let subject = match document.member("sub") {
        Some(JsonValue::Text(subject)) => subject.clone(),
        _ => {
            return None;
        },
    };
    match document.member("exp") {
        Some(JsonValue::Number(JsonNumber::Natural(expires_at))) => Some(
            Claims { subject, expires_at: *expires_at },
        ),
        _ => None,
    }
}

/// Decides on a token whose signature has been checked: `verified` is its
/// claims document, or `None` where the check failed. A missing or ill-formed
/// document is an invalid token; a well-formed one is expired exactly when
/// its time lies before `now`.
pub fn judge_token(verified: Option<JsonValue>, now: u64) -> (r: Result<Claims, Rejection>)
    ensures
        outcome(r) == judge(document_view(verified), now),
{
    match verified {
        None => Err(Rejection::InvalidToken),
        Some(document) => match read_claims(&document) {
            None => Err(Rejection::InvalidToken),
            Some(claims) => {
                if claims.expires_at < now {
                    Err(Rejection::Expired)
                } else {
                    Ok(claims)
                }
            },
        },
    }
}

/// The token that `header` carries.
pub fn token_of(header: &str) -> (r: Option<&str>)
    ensures
        match r {
            Some(token) => bearer_token(header@) == Some(token@),
            None => bearer_token(header@).is_none(),
        },
{
    strip_prefix(header, "Bearer ")
}

/// The guard. `header` is the value of the request's `Authorization` header,
/// `secret` the secret that tokens are signed with, `now` the current time in
/// seconds since the Unix epoch.
///
/// A header without the `Bearer ` scheme is turned away before any signature
/// is looked at. A token that verifies is accepted with its own claims when
/// its time is not over, and turned away as expired when it is.
pub fn authenticate(header: Option<&str>, secret: &str, now: u64) -> (r: Result<Claims, Rejection>)
    ensures
        outcome(r) == verdict(header_view(header), secret@, now),
        header is None ==> r == Err::<Claims, Rejection>(Rejection::MissingHeader),
        header matches Some(text) && bearer_token(text@) is None ==> r == Err::<Claims, Rejection>(
            Rejection::BadScheme,
        ),
        verified_claims(header_view(header), secret@) matches Some(claims) ==> (claims.expires_at
            >= now ==> outcome(r) == Ok::<ClaimsModel, Rejection>(claims)),
        verified_claims(header_view(header), secret@) matches Some(claims) ==> (claims.expires_at
            < now ==> r == Err::<Claims, Rejection>(Rejection::Expired)),
{
    match header {
        None => Err(Rejection::MissingHeader),
        Some(text) => match token_of(text) {
            None => Err(Rejection::BadScheme),
            Some(token) => judge_token(verify_signature(token, secret), now),
        },
    }
}

} // verus!
