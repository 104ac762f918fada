//! Who is signed in, and the tokens that say so.
use vstd::prelude::*;

verus! {

/// What a signed token asserts about its bearer.
#[derive(Debug, Clone, PartialEq, Eq)]
pub struct Claims {
    pub user_id: i32,
    pub username: String,
    pub name: String,
    /// Expiry, in seconds since the Unix epoch.
    pub exp: usize,
    /// Issue time, in seconds since the Unix epoch.
    pub iat: usize,
}

/// The user on whose behalf a request runs.
#[derive(Debug, Clone, PartialEq, Eq)]
pub struct CurrentUser {
    pub id: i32,
    pub username: String,
    pub name: String,
}

impl From<Claims> for CurrentUser {
    fn from(claims: Claims) -> (r: CurrentUser) {
        CurrentUser { id: claims.user_id, username: claims.username, name: claims.name }
    }
}

impl vstd::std_specs::convert::FromSpecImpl<Claims> for CurrentUser {
    open spec fn obeys_from_spec() -> bool {
        true
    }

    open spec fn from_spec(claims: Claims) -> CurrentUser {
        CurrentUser { id: claims.user_id, username: claims.username, name: claims.name }
    }
}

/// A signed token and how long it stays valid.
#[derive(Debug, Clone, PartialEq, Eq)]
pub struct TokenPair {
    pub access_token: String,
    /// Seconds until the token expires.
    pub expires_in: i64,
}

/// The lifetime in seconds of a token valid for `hours` hours, if it fits.
pub fn token_lifetime(hours: i64) -> (r: Option<i64>)
    ensures
        match r {
            Some(s) => s == hours * 3600,
            None => hours * 3600 > i64::MAX || hours * 3600 < i64::MIN,
        },
{
    hours.checked_mul(3600)
}

impl TokenPair {
    /// The pair for `token`, valid for `hours` hours; `None` when the
    /// lifetime in seconds does not fit.
    pub fn new(access_token: String, hours: i64) -> (r: Option<TokenPair>)
        ensures
            match r {
                Some(p) => p.access_token@ == access_token@ && p.expires_in == hours * 3600,
                None => hours * 3600 > i64::MAX || hours * 3600 < i64::MIN,
            },
    {
        match token_lifetime(hours) {
            Some(expires_in) => Some(TokenPair { access_token, expires_in }),
            None => None,
        }
    }
}

/// The credentials a user signs in with.
#[derive(Debug, Clone, PartialEq, Eq)]
pub struct LoginRequest {
    pub username: String,
    pub password: String,
}

/// A fresh token for a signed-in user.
#[derive(Debug, Clone, PartialEq, Eq)]
pub struct RefreshTokenResponse {
    pub token: String,
    pub expires_in: i64,
}

impl RefreshTokenResponse {
    /// The response that hands out `pair`.
    pub fn from_pair(pair: TokenPair) -> (r: RefreshTokenResponse)
        ensures
            r.token@ == pair.access_token@,
            r.expires_in == pair.expires_in,
    {
        RefreshTokenResponse { token: pair.access_token, expires_in: pair.expires_in }
    }
}

/// The answer to signing out.
#[derive(Debug, Clone, PartialEq, Eq)]
pub struct LogoutResponse {
    pub message: String,
}

/// The message sent on signing out.
pub const LOGGED_OUT: &'static str = "Successfully logged out";

impl LogoutResponse {
    /// The response to a sign-out. Tokens are not revoked: the client drops
    /// its own.
    pub fn logged_out() -> (r: LogoutResponse)
        ensures
            r.message@ == LOGGED_OUT@,
    {
        LogoutResponse { message: LOGGED_OUT.to_owned() }
    }
}

} // verus!
