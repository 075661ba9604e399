//! Password hashing and user identifiers.

use vstd::prelude::*;
use vstd::string::StringExecFns;

verus! {

#[derive(Debug)]
pub enum AuthError {
    InvalidCredentials,
    UserAlreadyExists,
    HashError(String),
    DatabaseError(String),
}

impl AuthError {
    /// Human-readable description.
    pub fn message(&self) -> (r: String)
        ensures
            self is InvalidCredentials ==> r@ == "Invalid username or password"@,
            self is UserAlreadyExists ==> r@ == "Username already exists"@,
            self matches AuthError::HashError(m) ==> r@ == "Password hashing error: "@ + m@,
            self matches AuthError::DatabaseError(m) ==> r@ == "Database error: "@ + m@,
    {
        match self {
            AuthError::InvalidCredentials => "Invalid username or password".to_owned(),
            AuthError::UserAlreadyExists => "Username already exists".to_owned(),
            AuthError::HashError(m) => concat("Password hashing error: ", m.as_str()),
            AuthError::DatabaseError(m) => concat("Database error: ", m.as_str()),
        }
    }
}

/// The two texts joined.
fn concat(a: &str, b: &str) -> (r: String)
    ensures
        r@ == a@ + b@,
{
    a.to_owned().concat(b)
}

/// Relies on `bcrypt::hash` with `bcrypt::DEFAULT_COST` (a salt drawn from
/// the OS); the error is passed on as its text. Nothing is assumed of the
/// outcome: it depends on the OS random source.
#[verifier::external_body]
fn bcrypt_hash(password: &str) -> (r: Result<String, String>) {
    bcrypt::hash(password, bcrypt::DEFAULT_COST).map_err(|e| e.to_string())
}

/// Whether `password` matches the bcrypt `hash`; `None` when `hash` is
/// malformed. Depends on the two texts alone.
pub uninterp spec fn bcrypt_match(password: Seq<char>, hash: Seq<char>) -> Option<bool>;

/// Relies on `bcrypt::verify`: whether `password` matches `hash`, or the
/// text of the error for a malformed hash. The salt and cost come from
/// `hash`, so the outcome depends on the two arguments alone.
#[verifier::external_body]
fn bcrypt_verify(password: &str, hash: &str) -> (r: Result<bool, String>)
    ensures
        r is Ok <==> bcrypt_match(password@, hash@) is Some,
        r is Ok ==> bcrypt_match(password@, hash@) == Some(r->Ok_0),
{
    bcrypt::verify(password, hash).map_err(|e| e.to_string())
}

/// Relies on `uuid::Uuid::new_v4` and its `Display`, which writes the
/// hyphenated form of 36 characters.
#[verifier::external_body]
fn uuid_v4_string() -> (r: String)
    ensures
        r@.len() == 36,
{
    uuid::Uuid::new_v4().to_string()
}

/// A salted bcrypt hash of `password`; a hashing failure becomes `HashError`.
pub fn hash_password(password: &str) -> (r: Result<String, AuthError>)
    ensures
        r matches Err(e) ==> e is HashError,
{
    match bcrypt_hash(password) {
        Ok(h) => Ok(h),
        Err(m) => Err(AuthError::HashError(m)),
    }
}

/// Whether `password` matches `hash`; a malformed hash becomes `HashError`.
pub fn verify_password(password: &str, hash: &str) -> (r: Result<bool, AuthError>)
    ensures
        r matches Err(e) ==> e is HashError,
        r is Ok <==> bcrypt_match(password@, hash@) is Some,
        r is Ok ==> bcrypt_match(password@, hash@) == Some(r->Ok_0),
{
    verification_outcome(bcrypt_verify(password, hash))
}

/// Maps the outcome of a hash check: a failure becomes `HashError` with its
/// text.
pub fn verification_outcome(outcome: Result<bool, String>) -> (r: Result<bool, AuthError>)
    ensures
        outcome matches Ok(b) ==> r == Ok::<bool, AuthError>(b),
        outcome matches Err(m) ==> r matches Err(AuthError::HashError(m2)) && m2 == m,
{
    match outcome {
        Ok(b) => Ok(b),
        Err(m) => Err(AuthError::HashError(m)),
    }
}

/// A fresh random user id (a hyphenated UUID).
pub fn generate_user_id() -> (r: String)
    ensures
        r@.len() == 36,
{
    uuid_v4_string()
}

} // verus!
