//! Accounts: registration and login decisions, password hashing with
//! Argon2, and the errors of the identity service.
use crate::http::{CONFLICT, INTERNAL_SERVER_ERROR, NOT_FOUND, UNAUTHORIZED};
use crate::http::Fetched;
use argon2::password_hash::rand_core::OsRng;
use argon2::password_hash::{PasswordHash, PasswordHasher, PasswordVerifier, SaltString};
use argon2::Argon2;
use vstd::prelude::*;
use vstd::utf8::encode_utf8;

verus! {

/// A random salt for a new password hash.
#[verifier::external_type_specification]
#[verifier::external_body]
pub struct ExSaltString(SaltString);

/// Whether `PasswordHash::new` accepts the string as a PHC password hash.
pub uninterp spec fn phc_parses(phc: Seq<char>) -> bool;

/// Whether `Argon2::default().verify_password` accepts the password for the
/// PHC hash string (a deterministic function of the two).
pub uninterp spec fn argon2_accepts(password: Seq<char>, phc: Seq<char>) -> bool;

/// How every PHC string of the default Argon2 begins: algorithm Argon2id,
/// version 19.
pub open spec fn argon2id_prefix() -> Seq<char> {
    "$argon2id$v=19$"@
}

/// `SaltString::generate` with the operating system's random source. Nothing
/// is promised of the salt: it is random.
#[verifier::external_body]
fn random_salt() -> SaltString {
    SaltString::generate(&mut OsRng)
}

/// `Argon2::default().hash_password`, rendered as a PHC string. Believed of
/// it, from the `password-hash` documentation of `PasswordVerifier` (which
/// recomputes the hash with the parameters and salt that the string
/// records): a hash it produces parses, and verifies the password it was
/// made from. From the `argon2` source (`verify_inputs`): with the default
/// parameters the call fails only for a password over 2^32 - 1 bytes or a
/// salt outside 8 to 2^32 - 1 bytes; the only salts in this library come
/// from `random_salt`, 16 random bytes, so only the password's length is a
/// condition. The default algorithm is Argon2id, version 19, so the PHC
/// string it renders starts `$argon2id$v=19$`. The hash itself depends on
/// the random salt and is not named.
#[verifier::external_body]
fn argon2_hash(password: &str, salt: &SaltString) -> (r: Option<String>)
    ensures
        r matches Some(h) ==> phc_parses(h@) && argon2_accepts(password@, h@),
        r matches Some(h) ==> argon2id_prefix().is_prefix_of(h@),
        encode_utf8(password@).len() <= 0xFFFF_FFFF ==> r is Some,
{
    match Argon2::default().hash_password(password.as_bytes(), salt) {
        Ok(h) => Some(h.to_string()),
        Err(_) => None,
    }
}

/// `PasswordHash::new`: whether the string parses as a PHC hash.
#[verifier::external_body]
fn phc_well_formed(phc: &str) -> (b: bool)
    ensures
        b == phc_parses(phc@),
{
    PasswordHash::new(phc).is_ok()
}

/// `Argon2::default().verify_password` on the parsed PHC string: whether the
/// password matches the hash. A string that does not parse matches nothing.
#[verifier::external_body]
fn argon2_verify(password: &str, phc: &str) -> (b: bool)
    ensures
        b == argon2_accepts(password@, phc@),
        b ==> phc_parses(phc@),
{
    match PasswordHash::new(phc) {
        Ok(h) => Argon2::default().verify_password(password.as_bytes(), &h).is_ok(),
        Err(_) => false,
    }
}

/// A stored account, as far as login needs it.
#[derive(Debug)]
pub struct UserRecord {
    pub id: i32,
    pub email: String,
    pub password_hash: String,
}

/// Registration may go on only when no account has the e-mail address: 500
/// when the store failed, 409 when the address is taken.
pub fn registration_check<T>(existing: Fetched<T>) -> (r: Result<(), u16>)
    ensures
        r == match existing {
            Fetched::Failed => Err::<(), u16>(INTERNAL_SERVER_ERROR),
            Fetched::Present(_) => Err::<(), u16>(CONFLICT),
            Fetched::Absent => Ok::<(), u16>(()),
        },
{
    match existing {
        Fetched::Failed => Err(INTERNAL_SERVER_ERROR),
        Fetched::Present(_) => Err(CONFLICT),
        Fetched::Absent => Ok(()),
    }
}

/// Hashes a new password with Argon2id under a fresh random salt; 500 when
/// hashing fails, which happens only for a password over 2^32 - 1 bytes.
/// A hash it returns is an Argon2id PHC string (so it is not the password,
/// unless the password itself looks like one), parses, and accepts the
/// password.
pub fn hash_new_password(password: &str) -> (r: Result<String, u16>)
    ensures
        r matches Ok(h) ==> phc_parses(h@) && argon2_accepts(password@, h@),
        r matches Ok(h) ==> argon2id_prefix().is_prefix_of(h@),
        r matches Ok(h) ==> (!argon2id_prefix().is_prefix_of(password@) ==> h@ != password@),
        encode_utf8(password@).len() <= 0xFFFF_FFFF ==> r is Ok,
        r matches Err(s) ==> s == INTERNAL_SERVER_ERROR,
{
    let salt = random_salt();
    match argon2_hash(password, &salt) {
        Some(h) => Ok(h),
        None => Err(INTERNAL_SERVER_ERROR),
    }
}

/// The outcome of a login attempt: the account, or the status to answer
/// with: 500 when the store failed, 401 for an unknown address, 500 when
/// the stored hash does not parse, 401 for a wrong password.
pub open spec fn login_outcome(found: Fetched<UserRecord>, password: Seq<char>) -> Result<
    UserRecord,
    u16,
> {
    match found {
        Fetched::Failed => Err(INTERNAL_SERVER_ERROR),
        Fetched::Absent => Err(UNAUTHORIZED),
        Fetched::Present(u) => if !phc_parses(u.password_hash@) {
            Err(INTERNAL_SERVER_ERROR)
        } else if argon2_accepts(password, u.password_hash@) {
            Ok(u)
        } else {
            Err(UNAUTHORIZED)
        },
    }
}

/// Decides a login attempt for the account found under the given address.
pub fn login_check(found: Fetched<UserRecord>, password: &str) -> (r: Result<UserRecord, u16>)
    ensures
        r == login_outcome(found, password@),
{
    match found {
        Fetched::Failed => Err(INTERNAL_SERVER_ERROR),
        Fetched::Absent => Err(UNAUTHORIZED),
        Fetched::Present(u) => {
            if !phc_well_formed(u.password_hash.as_str()) {
                Err(INTERNAL_SERVER_ERROR)
            } else if argon2_verify(password, u.password_hash.as_str()) {
                Ok(u)
            } else {
                Err(UNAUTHORIZED)
            }
        },
    }
}

/// Login, case by case: a store failure answers 500; an unknown address
/// 401; a stored hash that does not parse 500; a password that the stored
/// hash accepts logs the account in, unchanged; any other password 401.
pub proof fn lemma_login_rule(found: Fetched<UserRecord>, password: Seq<char>)
    ensures
        found is Failed ==> login_outcome(found, password) == Err::<UserRecord, u16>(500),
        found is Absent ==> login_outcome(found, password) == Err::<UserRecord, u16>(401),
        found matches Fetched::Present(u) ==> (!phc_parses(u.password_hash@) ==> login_outcome(
            found,
            password,
        ) == Err::<UserRecord, u16>(500)),
        found matches Fetched::Present(u) ==> ((phc_parses(u.password_hash@) && argon2_accepts(
            password,
            u.password_hash@,
        )) ==> login_outcome(found, password) == Ok::<UserRecord, u16>(u)),
        found matches Fetched::Present(u) ==> ((phc_parses(u.password_hash@) && !argon2_accepts(
            password,
            u.password_hash@,
        )) ==> login_outcome(found, password) == Err::<UserRecord, u16>(401)),
{
}

/// Each identity error's status: a store failure or a failure to make a
/// token answers 500, a taken address 409, bad credentials or a bad token
/// 401, a missing account 404.
pub proof fn lemma_auth_error_statuses(e: AuthError)
    ensures
        (e is Database || e is TokenCreation) ==> auth_error_status(e) == 500,
        e is EmailAlreadyExists ==> auth_error_status(e) == 409,
        (e is InvalidCredentials || e is InvalidToken) ==> auth_error_status(e) == 401,
        e is NotFound ==> auth_error_status(e) == 404,
{
}

/// An account stored with a hash that `hash_new_password` made from a
/// password logs in with that password.
pub proof fn lemma_registered_password_logs_in(user: UserRecord, password: Seq<char>)
    requires
        phc_parses(user.password_hash@),
        argon2_accepts(password, user.password_hash@),
    ensures
        login_outcome(Fetched::Present(user), password) == Ok::<UserRecord, u16>(user),
{
}

/// A login with a password that the stored hash does not accept is refused
/// with 401, and one for an unknown address too: the two cannot be told
/// apart by the answer.
pub proof fn lemma_wrong_password_refused(user: UserRecord, password: Seq<char>)
    requires
        phc_parses(user.password_hash@),
        !argon2_accepts(password, user.password_hash@),
    ensures
        login_outcome(Fetched::Present(user), password) == Err::<UserRecord, u16>(UNAUTHORIZED),
        login_outcome(Fetched::Absent, password) == Err::<UserRecord, u16>(UNAUTHORIZED),
{
}

/// Why an identity operation failed.
#[derive(Debug)]
pub enum AuthError {
    /// The account store failed; the store's description.
    Database(String),
    EmailAlreadyExists,
    InvalidCredentials,
    InvalidToken,
    TokenCreation,
    NotFound,
}

/// The status that answers an identity error.
pub open spec fn auth_error_status(e: AuthError) -> u16 {
    match e {
        AuthError::Database(_) | AuthError::TokenCreation => INTERNAL_SERVER_ERROR,
        AuthError::EmailAlreadyExists => CONFLICT,
        AuthError::InvalidCredentials | AuthError::InvalidToken => UNAUTHORIZED,
        AuthError::NotFound => NOT_FOUND,
    }
}

/// The text of an identity error.
pub open spec fn auth_error_text(e: AuthError) -> Seq<char> {
    match e {
        AuthError::Database(d) => "Database error: "@ + d@,
        AuthError::EmailAlreadyExists => "Email already registered"@,
        AuthError::InvalidCredentials => "Invalid credentials"@,
        AuthError::InvalidToken => "Invalid token"@,
        AuthError::TokenCreation => "Token creation failed"@,
        AuthError::NotFound => "User not found"@,
    }
}

impl AuthError {
    /// The status that answers the error.
    pub fn status_code(&self) -> (s: u16)
        ensures
            s == auth_error_status(*self),
    {
        match self {
            AuthError::Database(_) | AuthError::TokenCreation => INTERNAL_SERVER_ERROR,
            AuthError::EmailAlreadyExists => CONFLICT,
            AuthError::InvalidCredentials | AuthError::InvalidToken => UNAUTHORIZED,
            AuthError::NotFound => NOT_FOUND,
        }
    }

    /// The error's text, which is also the body of the answer.
    pub fn message(&self) -> (m: String)
        ensures
            m@ == auth_error_text(*self),
    {
        match self {
            AuthError::Database(d) => {
                let mut m = String::from_str("Database error: ");
                m.append(d.as_str());
                m
            },
            AuthError::EmailAlreadyExists => String::from_str("Email already registered"),
            AuthError::InvalidCredentials => String::from_str("Invalid credentials"),
            AuthError::InvalidToken => String::from_str("Invalid token"),
            AuthError::TokenCreation => String::from_str("Token creation failed"),
            AuthError::NotFound => String::from_str("User not found"),
        }
    }
}

} // verus!
