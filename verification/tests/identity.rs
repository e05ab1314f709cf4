use eshop::http::Fetched;
use eshop::identity::{hash_new_password, login_check, registration_check, AuthError, UserRecord};

fn user(hash: &str) -> UserRecord {
    UserRecord { id: 4, email: "a@b.c".into(), password_hash: hash.into() }
}

#[test]
fn registered_password_logs_in_and_others_do_not() {
    let hash = hash_new_password("correct horse").unwrap();
    assert!(hash.starts_with("$argon2id$v=19$"));
    assert_ne!(hash, "correct horse");
    let ok = login_check(Fetched::Present(user(&hash)), "correct horse").unwrap();
    assert_eq!(ok.id, 4);
    assert_eq!(ok.email, "a@b.c");
    assert_eq!(login_check(Fetched::Present(user(&hash)), "wrong").err(), Some(401));
}

#[test]
fn login_failures() {
    assert_eq!(login_check(Fetched::Failed, "x").err(), Some(500));
    assert_eq!(login_check(Fetched::Absent, "x").err(), Some(401));
    assert_eq!(login_check(Fetched::Present(user("not a hash")), "x").err(), Some(500));
}

#[test]
fn registration_precheck() {
    assert_eq!(registration_check::<UserRecord>(Fetched::Failed), Err(500));
    assert_eq!(registration_check(Fetched::Present(user("h"))), Err(409));
    assert_eq!(registration_check::<UserRecord>(Fetched::Absent), Ok(()));
}

#[test]
fn auth_errors() {
    let cases = [
        (AuthError::Database("pool closed".into()), 500, "Database error: pool closed"),
        (AuthError::EmailAlreadyExists, 409, "Email already registered"),
        (AuthError::InvalidCredentials, 401, "Invalid credentials"),
        (AuthError::InvalidToken, 401, "Invalid token"),
        (AuthError::TokenCreation, 500, "Token creation failed"),
        (AuthError::NotFound, 404, "User not found"),
    ];
    for (e, s, m) in cases {
        assert_eq!(e.status_code(), s);
        assert_eq!(e.message(), m);
    }
}

#[test]
fn any_ordinary_password_hashes() {
    for pw in ["", "x", "pässwörd", "a very long passphrase with spaces and digits 1234567890"] {
        let h = hash_new_password(pw).unwrap();
        assert_eq!(login_check(Fetched::Present(user(&h)), pw).unwrap().id, 4);
    }
}
