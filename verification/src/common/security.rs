//! Password hashing with Argon2 (default parameters, a random salt).
use argon2::password_hash::{PasswordHasher, PasswordVerifier};
use vstd::prelude::*;
use vstd::string::StringSliceAdditionalSpecFns;

verus! {

/// `argon2::password_hash::Error`, the error of hashing.
#[verifier::external_type_specification]
#[verifier::external_body]
pub struct ExPasswordHashError(argon2::password_hash::Error);

/// `PasswordHash::new(hash)` succeeds: the text is a PHC string.
pub uninterp spec fn phc_parses(hash: Seq<char>) -> bool;

/// `Argon2::default().verify_password(password, &PasswordHash::new(hash))`
/// succeeds: hashing the password with the parameters and salt of `hash`
/// gives the output `hash` holds.
pub uninterp spec fn argon2_accepts(hash: Seq<char>, password: Seq<char>) -> bool;

/// `PasswordHash::new(hash).is_ok()`.  The parse refuses an empty text and
/// one whose first `$`-separated field is not empty, that is a text that does
/// not begin with `$`.
#[verifier::external_body]
fn parses_as_phc(hash: &str) -> (r: bool)
    ensures
        r == phc_parses(hash@),
        !(hash@.len() > 0 && hash@[0] == '$') ==> !r,
{
    argon2::password_hash::PasswordHash::new(hash).is_ok()
}

/// `Argon2::default().verify_password(password.as_bytes(), &parsed).is_ok()`
/// for the parsed form of `hash`, which parses.
#[verifier::external_body]
fn argon2_verify(hash: &str, password: &str) -> (r: bool)
    requires
        phc_parses(hash@),
    ensures
        r == argon2_accepts(hash@, password@),
{
    let parsed = argon2::password_hash::PasswordHash::new(hash).unwrap();
    argon2::Argon2::default().verify_password(password.as_bytes(), &parsed).is_ok()
}

/// `Argon2::default().hash_password(password.as_bytes(), &SaltString::generate(&mut OsRng))`
/// as a PHC string.  The salt is random, so the text is not known; what it
/// holds parses, and verifying the same password against it succeeds.  With
/// the default parameters and a generated 16-byte salt the one error left is
/// a password longer than `argon2::MAX_PWD_LEN` (`0xFFFFFFFF`) bytes.
#[verifier::external_body]
fn argon2_hash(password: &str) -> (r: Result<String, argon2::password_hash::Error>)
    ensures
        r is Ok <==> password.spec_bytes().len() <= 0xFFFF_FFFF,
        r matches Ok(h) ==> phc_parses(h@) && argon2_accepts(h@, password@),
{
    let salt = argon2::password_hash::SaltString::generate(&mut rand_core::OsRng);
    argon2::Argon2::default().hash_password(password.as_bytes(), &salt).map(|h| h.to_string())
}

/// A password that Argon2 accepts as input: at most `0xFFFFFFFF` bytes of
/// UTF-8.
pub open spec fn hashable(password: Seq<char>) -> bool {
    vstd::utf8::encode_utf8(password).len() <= 0xFFFF_FFFF
}

/// Whether `password` matches the stored `hash` (a text that is no PHC
/// string matches nothing).
pub open spec fn password_matches(hash: Seq<char>, password: Seq<char>) -> bool {
    phc_parses(hash) && argon2_accepts(hash, password)
}

/// Hashes a password for storage; it fails only for a password of more
/// than `0xFFFFFFFF` bytes.
pub fn hash_password(password: &str) -> (r: Result<String, argon2::password_hash::Error>)
    ensures
        r is Ok <==> password.spec_bytes().len() <= 0xFFFF_FFFF,
        r is Ok <==> hashable(password@),
        r matches Ok(h) ==> password_matches(h@, password@),
{
    argon2_hash(password)
}

/// Checks a password against a stored hash; a text that does not begin
/// with `$` (no PHC string) matches no password.
pub fn verify_password(hash: &str, password: &str) -> (r: bool)
    ensures
        r == password_matches(hash@, password@),
        !(hash@.len() > 0 && hash@[0] == '$') ==> !r,
{
    if !parses_as_phc(hash) {
        return false;
    }
    argon2_verify(hash, password)
}

} // verus!
