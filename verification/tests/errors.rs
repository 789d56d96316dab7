use ovenmitts::errors::{OMError, PasswordHashError};

#[test]
fn status_codes() {
    assert_eq!(OMError::InvalidSession.status_code(), 401);
    assert_eq!(OMError::NotFound("bob".to_string()).status_code(), 404);
    assert_eq!(OMError::NameTaken.status_code(), 409);
    assert_eq!(OMError::NoPermission.status_code(), 403);
    assert_eq!(OMError::InvalidPassword.status_code(), 403);
    assert_eq!(OMError::InvalidUsername.status_code(), 400);
    assert_eq!(OMError::ReqwestError("x".to_string()).status_code(), 500);
    assert_eq!(OMError::SqlxError("x".to_string()).status_code(), 500);
    assert_eq!(OMError::JoinError("x".to_string()).status_code(), 500);
    assert_eq!(OMError::ArgonError("x".to_string()).status_code(), 500);
}

#[test]
fn messages() {
    assert_eq!(OMError::InvalidSession.message(), "Invalid session.");
    assert_eq!(OMError::NotFound("bob".to_string()).message(), "Username `bob` not found.");
    assert_eq!(OMError::NotFound(String::new()).message(), "Username `` not found.");
    assert_eq!(OMError::NameTaken.message(), "Username is already taken.");
    assert_eq!(OMError::NoPermission.message(), "You don't have permission to do that.");
    assert_eq!(OMError::InvalidUsername.message(), "Username contains invalid characters.");
    assert_eq!(OMError::InvalidPassword.message(), "Invalid password.");
    assert_eq!(OMError::ReqwestError("net down".to_string()).message(), "net down");
    assert_eq!(OMError::SqlxError("db down".to_string()).message(), "db down");
    assert_eq!(OMError::JoinError("task died".to_string()).message(), "task died");
    assert_eq!(OMError::ArgonError("bad salt".to_string()).message(), "bad salt");
}

#[test]
fn hashing_failures_become_errors() {
    assert!(matches!(OMError::from(PasswordHashError::Password), OMError::InvalidPassword));
    match OMError::from(PasswordHashError::Other("salt invalid".to_string())) {
        OMError::ArgonError(text) => assert_eq!(text, "salt invalid"),
        other => panic!("{:?}", other),
    }
}
