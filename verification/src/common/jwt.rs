//! What the issued tokens claim, and the checks on a presented token.
use crate::common::dates::{in_chrono_range, utc_day, utc_now_timestamp};
use crate::common::errors::{AppError, rejects_unauthorized, unauthorized};
use crate::common::text::str_eq;
use vstd::prelude::*;

verus! {

/// The claims a token carries: the user, its expiry and issue times, the
/// token version (raised to log a user out everywhere), the role, and
/// whether it is an access or a refresh token.
pub struct Claims {
    pub sub: u128,
    pub exp: usize,
    pub iat: usize,
    pub token_version: i32,
    pub role: String,
    pub token_type: String,
}

impl Claims {
    pub fn is_super_admin(&self) -> (r: bool)
        ensures
            r == (self.role@ == "super_admin"@),
    {
        str_eq(self.role.as_str(), "super_admin")
    }

    pub fn is_admin(&self) -> (r: bool)
        ensures
            r == (self.role@ == "super_admin"@ || self.role@ == "admin"@),
    {
        str_eq(self.role.as_str(), "super_admin") || str_eq(self.role.as_str(), "admin")
    }
}

/// Lifetime of an access token and of a refresh token, in seconds.
pub open spec fn access_lifetime() -> int {
    86400
}

pub open spec fn refresh_lifetime() -> int {
    604800
}

/// The claims of the access and the refresh token issued at `now`.
pub open spec fn issued_claims(c: Claims, user_id: u128, token_version: i32, role: Seq<char>, now: i64, lifetime: int, token_type: Seq<char>) -> bool {
    &&& c.sub == user_id
    &&& c.exp == (now + lifetime) as usize
    &&& c.iat == now as usize
    &&& c.token_version == token_version
    &&& c.role@ == role
    &&& c.token_type@ == token_type
}

/// The claims of the token pair issued at `now`: an access token valid for
/// a day and a refresh token valid for seven.
pub fn token_claims(user_id: u128, token_version: i32, role: String, now: i64) -> (r: (Claims, Claims))
    requires
        now <= i64::MAX - 7 * 86400,
    ensures
        issued_claims(r.0, user_id, token_version, role@, now, access_lifetime(), "access"@),
        issued_claims(r.1, user_id, token_version, role@, now, refresh_lifetime(), "refresh"@),
{
    let access = Claims {
        sub: user_id,
        exp: (now + 86400) as usize,
        iat: now as usize,
        token_version,
        role: role.clone(),
        token_type: String::from_str("access"),
    };
    let refresh = Claims {
        sub: user_id,
        exp: (now + 7 * 86400) as usize,
        iat: now as usize,
        token_version,
        role,
        token_type: String::from_str("refresh"),
    };
    (access, refresh)
}

/// The claims of the token pair issued now (returned with the time used).
pub fn generate_token_claims(user_id: u128, token_version: i32, role: String) -> (r: (Claims, Claims, i64))
    ensures
        issued_claims(r.0, user_id, token_version, role@, r.2, access_lifetime(), "access"@),
        issued_claims(r.1, user_id, token_version, role@, r.2, refresh_lifetime(), "refresh"@),
{
    let now = utc_now_timestamp();
    proof {
        crate::common::dates::lemma_chrono_range_bounds(utc_day(now as int));
        assert(now <= i64::MAX - 7 * 86400) by (nonlinear_arith)
            requires
                utc_day(now as int) == (now as int) / 86400,
                utc_day(now as int) < 100_000_000,
        ;
    }
    let (a, b) = token_claims(user_id, token_version, role, now);
    (a, b, now)
}

/// The token of an `Authorization` header: what follows `Bearer `.
pub fn bearer_token(header: Option<&str>) -> (r: Result<&str, AppError>)
    ensures
        header is None ==> rejects_unauthorized(r, "Authorization header not found"@),
        header matches Some(h) ==> (!"Bearer "@.is_prefix_of(h@) ==> rejects_unauthorized(
            r,
            "Invalid token format"@,
        )),
        header matches Some(h) ==> ("Bearer "@.is_prefix_of(h@) ==> (r matches Ok(t) && t@ == h@.skip(7))),
{
    proof {
        reveal_strlit("Bearer ");
    }
    let h = match header {
        Some(h) => h,
        None => return Err(unauthorized("Authorization header not found")),
    };
    let n = h.unicode_len();
    if n < 7 {
        proof {
            assert(!"Bearer "@.is_prefix_of(h@));
        }
        return Err(unauthorized("Invalid token format"));
    }
    let head = h.substring_char(0, 7);
    if !str_eq(head, "Bearer ") {
        proof {
            if "Bearer "@.is_prefix_of(h@) {
                assert(head@ =~= "Bearer "@);
            }
        }
        return Err(unauthorized("Invalid token format"));
    }
    proof {
        assert(head@ == h@.subrange(0, 7));
        assert("Bearer "@.is_prefix_of(h@));
    }
    let token = h.substring_char(7, n);
    proof {
        assert(token@ =~= h@.skip(7));
    }
    Ok(token)
}

/// Only an access token may call the API.
pub fn check_access_claims(claims: Claims) -> (r: Result<Claims, AppError>)
    ensures
        claims.token_type@ != "access"@ ==> rejects_unauthorized(r, "Please use an access token"@),
        claims.token_type@ == "access"@ ==> r == Ok::<Claims, AppError>(claims),
{
    if !str_eq(claims.token_type.as_str(), "access") {
        return Err(unauthorized("Please use an access token"));
    }
    Ok(claims)
}

/// Both tokens of a pair are issued at the same time, for the same user,
/// version and role, and the access token expires before the refresh
/// token (for times a `usize` holds).
pub proof fn law_access_expires_first(a: Claims, r: Claims, user_id: u128, token_version: i32, role: Seq<char>, now: i64)
    requires
        issued_claims(a, user_id, token_version, role, now, access_lifetime(), "access"@),
        issued_claims(r, user_id, token_version, role, now, refresh_lifetime(), "refresh"@),
        0 <= now,
        now + refresh_lifetime() <= usize::MAX,
    ensures
        a.iat == r.iat,
        a.sub == r.sub && a.token_version == r.token_version && a.role@ == r.role@,
        a.exp < r.exp,
        r.exp - a.exp == refresh_lifetime() - access_lifetime(),
{
}

/// A header `Bearer <token>` gives back the token.
pub proof fn law_bearer_round_trip(token: Seq<char>)
    ensures
        "Bearer "@.is_prefix_of("Bearer "@ + token),
        ("Bearer "@ + token).skip(7) == token,
{
    reveal_strlit("Bearer ");
    assert(("Bearer "@ + token).skip(7) =~= token);
    assert(("Bearer "@ + token).subrange(0, 7) =~= "Bearer "@);
}

} // verus!
