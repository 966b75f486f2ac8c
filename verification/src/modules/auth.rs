//! Registration, log-in, token refresh and password changes: which account
//! and which request are accepted, and what is stored.
use crate::common::errors::{
    AppError, DbError, bad_request, conflict, forbidden, internal, rejects_bad_request, rejects_conflict,
    rejects_forbidden, rejects_internal, rejects_unauthorized, unauthorized, is_internal,
};
use crate::common::jwt::{Claims, access_lifetime, issued_claims, refresh_lifetime};
use crate::common::security::{hash_password, hashable, password_matches, verify_password};
use crate::common::text::str_eq;
use crate::common::validation::{
    FieldError, Issue, issues, issue_if, char_len, email_valid, check_trimmed_len, check_max_chars,
    check_length, check_range, check_email,
};
use vstd::prelude::*;

verus! {

/// The state of an account.
#[derive(Clone, Copy, PartialEq, Eq, Debug, Structural)]
pub enum UserStatus {
    Active,
    Inactive,
    Suspended,
    Banned,
}

/// What the services read of a stored user.
pub struct UserAccount {
    pub id: u128,
    pub password_hash: Option<String>,
    pub secret_word: Option<String>,
    pub status: UserStatus,
    pub token_version: i32,
    pub role: String,
}

/// A user to store at registration.
pub struct NewUser {
    pub email: String,
    pub password_hash: String,
    pub secret_word: Option<String>,
}

pub struct RegisterRequest {
    pub email: String,
    pub password: String,
    pub first_name: String,
    pub secret_word: String,
    pub last_name: String,
}

pub struct LoginRequest {
    pub email: String,
    pub password: String,
}

pub struct AuthResponse {
    pub access_token: String,
    pub refresh_token: String,
    pub token_type: String,
    pub expires_in: u64,
}

pub struct RegisterResponse {
    pub message: String,
}

pub struct RefreshRequest {
    pub refresh_token: String,
}

pub struct ResetPasswordRequest {
    pub email: String,
    pub secret_word: String,
    pub new_password: String,
}

pub struct ChangePasswordRequest {
    pub old_password: String,
    pub new_password: String,
}

pub struct AuthService;

/// A stored hash, or the empty text when there is none.
pub open spec fn stored_or_empty(h: Option<String>) -> Seq<char> {
    match h {
        Some(s) => s@,
        None => Seq::empty(),
    }
}

fn stored_str(h: &Option<String>) -> (r: &str)
    ensures
        r@ == stored_or_empty(*h),
{
    match h {
        Some(s) => s.as_str(),
        None => {
            proof {
                reveal_strlit("");
            }
            ""
        },
    }
}


/// What a refresh answers: `claims` are the decoded refresh token (`None`:
/// invalid or expired), `user` the account of its subject (`None`: not
/// found).
pub open spec fn refresh_answer(
    claims: Option<Claims>,
    user: Option<UserAccount>,
    r: Result<UserAccount, AppError>,
) -> bool {
    &&& claims is None ==> rejects_unauthorized(r, "Invalid or expired refresh token"@)
    &&& claims matches Some(c) ==> (c.token_type@ != "refresh"@ ==> rejects_unauthorized(
        r,
        "Please use a refresh token only"@,
    ))
    &&& claims matches Some(c) ==> (c.token_type@ == "refresh"@ ==> match user {
        None => rejects_unauthorized(r, "User not found in the system"@),
        Some(u) => match u.status {
            UserStatus::Suspended => rejects_forbidden(r, "This account has been suspended"@),
            UserStatus::Banned => rejects_forbidden(r, "This account has been permanently banned"@),
            _ => if u.token_version != c.token_version {
                rejects_unauthorized(r, "This token has been revoked"@)
            } else {
                r == Ok::<UserAccount, AppError>(u)
            },
        },
    })
}

/// A refresh token issued before a log-out is refused after it: once the
/// account's token version has been raised past the one the token was
/// issued with, refreshing it (for an account neither suspended nor
/// banned) answers "This token has been revoked" and gives no account.
pub proof fn law_refresh_revoked_after_logout(
    c: Claims,
    u: UserAccount,
    token_version: i32,
    role: Seq<char>,
    now: i64,
    r: Result<UserAccount, AppError>,
)
    requires
        issued_claims(c, u.id, token_version, role, now, refresh_lifetime(), "refresh"@),
        u.token_version == token_version + 1,
        u.status != UserStatus::Suspended,
        u.status != UserStatus::Banned,
        refresh_answer(Some(c), Some(u), r),
    ensures
        rejects_unauthorized(r, "This token has been revoked"@),
        r is Err,
{
}

impl AuthService {
    /// The user a registration stores, with the password and the secret
    /// word hashed; refused with `Conflict` when the e-mail is taken.  A
    /// failed hashing (a text of more than `0xFFFFFFFF` bytes) is an
    /// internal error.
    pub fn register(req: RegisterRequest, email_taken: Result<bool, String>) -> (r: Result<NewUser, AppError>)
        ensures
            r is Ok <==> (email_taken == Ok::<bool, String>(false) && hashable(req.password@) && hashable(
                req.secret_word@,
            )),
            email_taken == Ok::<bool, String>(false) && !hashable(req.password@) ==> rejects_internal(
                r,
                "Unable to hash the password"@,
            ),
            email_taken == Ok::<bool, String>(false) && hashable(req.password@) && !hashable(req.secret_word@)
                ==> rejects_internal(r, "Unable to hash the secret word"@),
            email_taken matches Err(m) ==> rejects_internal(r, m@),
            email_taken == Ok::<bool, String>(true) ==> rejects_conflict(r, "This email is already in use"@),
            email_taken == Ok::<bool, String>(false) ==> match r {
                Ok(u) => {
                    &&& u.email@ == req.email@
                    &&& password_matches(u.password_hash@, req.password@)
                    &&& u.secret_word matches Some(s) && password_matches(s@, req.secret_word@)
                },
                Err(e) => is_internal(e, "Unable to hash the password"@) || is_internal(
                    e,
                    "Unable to hash the secret word"@,
                ),
            },
    {
        match email_taken {
            Err(m) => return Err(AppError::InternalServerError(m)),
            Ok(true) => return Err(conflict("This email is already in use")),
            Ok(false) => {},
        }
        let hashed_password = match hash_password(req.password.as_str()) {
            Ok(h) => h,
            Err(_) => return Err(internal("Unable to hash the password")),
        };
        let hashed_secret_word = match hash_password(req.secret_word.as_str()) {
            Ok(h) => h,
            Err(_) => return Err(internal("Unable to hash the secret word")),
        };
        Ok(NewUser { email: req.email, password_hash: hashed_password, secret_word: Some(hashed_secret_word) })
    }

    /// The account a log-in is for (`user`: the account with the e-mail,
    /// if any): it must be active and the password must match.
    pub fn login(req: &LoginRequest, found: Result<Option<UserAccount>, DbError>) -> (r: Result<UserAccount, AppError>)
        ensures
            found is Err ==> rejects_internal(r, "A database error occurred"@),
            found matches Ok(None) ==> rejects_bad_request(r, "Invalid email or password"@),
            found matches Ok(Some(u)) ==> match u.status {
                UserStatus::Suspended => rejects_bad_request(r, "This account has been temporarily suspended"@),
                UserStatus::Banned => rejects_bad_request(r, "This account has been permanently banned"@),
                UserStatus::Inactive => rejects_bad_request(r, "This account has been deleted"@),
                UserStatus::Active => if password_matches(stored_or_empty(u.password_hash), req.password@) {
                    r == Ok::<UserAccount, AppError>(u)
                } else {
                    rejects_bad_request(r, "Invalid email or password"@)
                },
            },
    {
        let u = match found {
            Err(_) => return Err(internal("A database error occurred")),
            Ok(Some(u)) => u,
            Ok(None) => return Err(bad_request("Invalid email or password")),
        };
        match u.status {
            UserStatus::Suspended => return Err(bad_request("This account has been temporarily suspended")),
            UserStatus::Banned => return Err(bad_request("This account has been permanently banned")),
            UserStatus::Inactive => return Err(bad_request("This account has been deleted")),
            UserStatus::Active => {},
        }
        if !verify_password(stored_str(&u.password_hash), req.password.as_str()) {
            return Err(bad_request("Invalid email or password"));
        }
        Ok(u)
    }

    /// The answer to a log-in or a refresh: the token pair, of type
    /// `Bearer`, with `expires_in` the access token's lifetime in seconds
    /// (`access_lifetime`, the one `token_claims` gives it).
    pub fn auth_response(access_token: String, refresh_token: String) -> (r: AuthResponse)
        ensures
            r.access_token == access_token,
            r.refresh_token == refresh_token,
            r.token_type@ == "Bearer"@,
            r.expires_in == access_lifetime(),
    {
        AuthResponse { access_token, refresh_token, token_type: String::from_str("Bearer"), expires_in: 86400 }
    }

    /// The account a refresh is for.  `claims` are the decoded refresh
    /// token (`None`: invalid or expired); `user` the account of its
    /// subject (`None`: not found), looked up for refresh claims only.
    pub fn refresh(claims: Option<Claims>, user: Option<UserAccount>) -> (r: Result<UserAccount, AppError>)
        ensures
            refresh_answer(claims, user, r),
    {
        let c = match claims {
            Some(c) => c,
            None => return Err(unauthorized("Invalid or expired refresh token")),
        };
        if !str_eq(c.token_type.as_str(), "refresh") {
            return Err(unauthorized("Please use a refresh token only"));
        }
        let u = match user {
            Some(u) => u,
            None => return Err(unauthorized("User not found in the system")),
        };
        match u.status {
            UserStatus::Suspended => return Err(forbidden("This account has been suspended")),
            UserStatus::Banned => return Err(forbidden("This account has been permanently banned")),
            _ => {},
        }
        if u.token_version != c.token_version {
            return Err(unauthorized("This token has been revoked"));
        }
        Ok(u)
    }

    /// The account and the new hash a reset stores: the account with the
    /// e-mail (`None`: none) must have the given secret word.
    pub fn reset_password(req: &ResetPasswordRequest, found: Result<Option<UserAccount>, DbError>) -> (r: Result<(u128, String), AppError>)
        ensures
            found is Err ==> rejects_internal(r, "Database Error"@),
            found matches Ok(None) ==> rejects_bad_request(r, "This email was not found in the system"@),
            found matches Ok(Some(u)) ==> (!password_matches(stored_or_empty(u.secret_word), req.secret_word@)
                ==> rejects_bad_request(r, "Incorrect secret word"@)),
            found matches Ok(Some(u)) ==> (password_matches(stored_or_empty(u.secret_word), req.secret_word@)
                ==> match r {
                Ok((id, h)) => id == u.id && password_matches(h@, req.new_password@),
                Err(e) => is_internal(e, "Unable to hash the new password"@),
            }),
            found matches Ok(Some(u)) ==> (password_matches(stored_or_empty(u.secret_word), req.secret_word@)
                ==> (r is Ok <==> hashable(req.new_password@))),
    {
        let u = match found {
            Err(_) => return Err(internal("Database Error")),
            Ok(Some(u)) => u,
            Ok(None) => return Err(bad_request("This email was not found in the system")),
        };
        if !verify_password(stored_str(&u.secret_word), req.secret_word.as_str()) {
            return Err(bad_request("Incorrect secret word"));
        }
        match hash_password(req.new_password.as_str()) {
            Ok(h) => Ok((u.id, h)),
            Err(_) => Err(internal("Unable to hash the new password")),
        }
    }

    /// The new hash a password change stores: the account (`None`: not
    /// found) must have the old password, and the new one must differ.
    pub fn change_password(req: &ChangePasswordRequest, user: Option<UserAccount>) -> (r: Result<(u128, String), AppError>)
        ensures
            user is None ==> rejects_bad_request(r, "User data not found in the system"@),
            user matches Some(u) ==> (!password_matches(stored_or_empty(u.password_hash), req.old_password@)
                ==> rejects_bad_request(r, "Old password is incorrect"@)),
            user matches Some(u) ==> (password_matches(stored_or_empty(u.password_hash), req.old_password@)
                && password_matches(stored_or_empty(u.password_hash), req.new_password@) ==> rejects_bad_request(
                r,
                "The new password must not be the same as the old password"@,
            )),
            user matches Some(u) ==> (password_matches(stored_or_empty(u.password_hash), req.old_password@)
                && !password_matches(stored_or_empty(u.password_hash), req.new_password@) ==> match r {
                Ok((id, h)) => id == u.id && password_matches(h@, req.new_password@),
                Err(e) => is_internal(e, "Unable to hash the new password"@),
            }),
            user matches Some(u) ==> (password_matches(stored_or_empty(u.password_hash), req.old_password@)
                && !password_matches(stored_or_empty(u.password_hash), req.new_password@) ==> (r is Ok
                <==> hashable(req.new_password@))),
    {
        let u = match user {
            Some(u) => u,
            None => return Err(bad_request("User data not found in the system")),
        };
        let stored = stored_str(&u.password_hash);
        if !verify_password(stored, req.old_password.as_str()) {
            return Err(bad_request("Old password is incorrect"));
        }
        if verify_password(stored, req.new_password.as_str()) {
            return Err(bad_request("The new password must not be the same as the old password"));
        }
        match hash_password(req.new_password.as_str()) {
            Ok(h) => Ok((u.id, h)),
            Err(_) => Err(internal("Unable to hash the new password")),
        }
    }
}

// ===== Request rules =====

impl RegisterRequest {
    /// The broken rules: an e-mail address, a password of at least 6 characters, both names, a secret word.
    pub fn validate(&self) -> (r: Vec<FieldError>)
        ensures
            issues(r@) == issue_if(!email_valid(self.email@), "email"@, "email"@, Some("Invalid email format"@)) + issue_if(char_len(self.password@) < 6, "password"@, "length"@, Some("Password must be at least 6 characters"@)) + issue_if(char_len(self.first_name@) < 1, "first_name"@, "length"@, Some("Please enter your first name"@)) + issue_if(char_len(self.secret_word@) < 1, "secret_word"@, "length"@, Some("Please enter a secret word for password recovery"@)) + issue_if(char_len(self.last_name@) < 1, "last_name"@, "length"@, Some("Please enter your last name"@)),
    {
        let mut errors: Vec<FieldError> = Vec::new();
        proof {
            assert(issues(errors@) =~= Seq::<Issue>::empty());
        }
        check_email(&mut errors, "email", self.email.as_str(), "Invalid email format");
        check_length(&mut errors, "password", self.password.as_str(), Some(6), None, "Password must be at least 6 characters");
        check_length(&mut errors, "first_name", self.first_name.as_str(), Some(1), None, "Please enter your first name");
        check_length(&mut errors, "secret_word", self.secret_word.as_str(), Some(1), None, "Please enter a secret word for password recovery");
        check_length(&mut errors, "last_name", self.last_name.as_str(), Some(1), None, "Please enter your last name");
        errors
    }
}

impl LoginRequest {
    /// The broken rules: an e-mail address.
    pub fn validate(&self) -> (r: Vec<FieldError>)
        ensures
            issues(r@) == issue_if(!email_valid(self.email@), "email"@, "email"@, Some("Invalid email format"@)),
    {
        let mut errors: Vec<FieldError> = Vec::new();
        proof {
            assert(issues(errors@) =~= Seq::<Issue>::empty());
        }
        check_email(&mut errors, "email", self.email.as_str(), "Invalid email format");
        errors
    }
}

impl RefreshRequest {
    /// The broken rules: a refresh token.
    pub fn validate(&self) -> (r: Vec<FieldError>)
        ensures
            issues(r@) == issue_if(char_len(self.refresh_token@) < 1, "refresh_token"@, "length"@, Some("Please provide a refresh token"@)),
    {
        let mut errors: Vec<FieldError> = Vec::new();
        proof {
            assert(issues(errors@) =~= Seq::<Issue>::empty());
        }
        check_length(&mut errors, "refresh_token", self.refresh_token.as_str(), Some(1), None, "Please provide a refresh token");
        errors
    }
}

impl ResetPasswordRequest {
    /// The broken rules: an e-mail address, the secret word, a new password of at least 6 characters.
    pub fn validate(&self) -> (r: Vec<FieldError>)
        ensures
            issues(r@) == issue_if(!email_valid(self.email@), "email"@, "email"@, Some("Invalid email format"@)) + issue_if(char_len(self.secret_word@) < 1, "secret_word"@, "length"@, Some("Please enter the secret word for password recovery"@)) + issue_if(char_len(self.new_password@) < 6, "new_password"@, "length"@, Some("New password must be at least 6 characters"@)),
    {
        let mut errors: Vec<FieldError> = Vec::new();
        proof {
            assert(issues(errors@) =~= Seq::<Issue>::empty());
        }
        check_email(&mut errors, "email", self.email.as_str(), "Invalid email format");
        check_length(&mut errors, "secret_word", self.secret_word.as_str(), Some(1), None, "Please enter the secret word for password recovery");
        check_length(&mut errors, "new_password", self.new_password.as_str(), Some(6), None, "New password must be at least 6 characters");
        errors
    }
}

impl ChangePasswordRequest {
    /// The broken rules: the old password, a new password of at least 6 characters.
    pub fn validate(&self) -> (r: Vec<FieldError>)
        ensures
            issues(r@) == issue_if(char_len(self.old_password@) < 1, "old_password"@, "length"@, Some("Please enter your old password"@)) + issue_if(char_len(self.new_password@) < 6, "new_password"@, "length"@, Some("New password must be at least 6 characters"@)),
    {
        let mut errors: Vec<FieldError> = Vec::new();
        proof {
            assert(issues(errors@) =~= Seq::<Issue>::empty());
        }
        check_length(&mut errors, "old_password", self.old_password.as_str(), Some(1), None, "Please enter your old password");
        check_length(&mut errors, "new_password", self.new_password.as_str(), Some(6), None, "New password must be at least 6 characters");
        errors
    }
}

} // verus!
