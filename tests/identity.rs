use quiz_services::error::{ErrorKind, ServiceError};
use quiz_services::identity::{Identity, IdentityAuthority, Registration};

fn registration(username: &str, password: &str, email: Option<&str>, staff: Option<bool>) -> Registration {
    Registration {
        username: username.to_string(),
        password: password.to_string(),
        email: email.map(|e| e.to_string()),
        first_name: Some("Ada".to_string()),
        last_name: Some("Lovelace".to_string()),
        is_staff: staff,
    }
}

#[test]
fn login_after_register_resolves_profile() {
    let mut auth = IdentityAuthority::new();
    assert_eq!(auth.register(registration("ada", "s3cret", Some("ada@example.org"), Some(true))), Ok(()));
    let grant = auth.authenticate("ada", "s3cret").unwrap();
    assert!(grant.is_staff);
    assert_eq!(grant.token.len(), 36);
    let who: Identity = auth.resolve(&grant.token).unwrap();
    assert_eq!(who.username, "ada");
    assert_eq!(who.email.as_deref(), Some("ada@example.org"));
    assert_eq!(who.first_name.as_deref(), Some("Ada"));
    assert_eq!(who.last_name.as_deref(), Some("Lovelace"));
    assert!(who.is_staff);
    assert!(auth.introspect(&grant.token));
}

#[test]
fn staff_flag_defaults_to_false() {
    let mut auth = IdentityAuthority::new();
    auth.register(registration("bob", "pw", None, None)).unwrap();
    let grant = auth.authenticate_with_token("bob", "pw", "tok-1".to_string()).unwrap();
    assert!(!grant.is_staff);
    assert!(!auth.resolve("tok-1").unwrap().is_staff);
}

#[test]
fn login_ignores_case_of_username_and_email() {
    let mut auth = IdentityAuthority::new();
    auth.register(registration("Carol", "pw", Some("Carol@Example.org"), None)).unwrap();
    let by_name = auth.authenticate_with_token("cAROL", "pw", "t1".to_string()).unwrap();
    assert_eq!(by_name.token, "t1");
    let by_mail = auth.authenticate_with_token("carol@example.ORG", "pw", "t2".to_string()).unwrap();
    assert_eq!(by_mail.token, "t2");
    assert_eq!(auth.resolve("t2").unwrap().username, "Carol");
}

#[test]
fn wrong_password_and_unknown_user_look_the_same() {
    let mut auth = IdentityAuthority::new();
    auth.register(registration("dave", "right", None, None)).unwrap();
    let wrong = auth.authenticate("dave", "wrong").unwrap_err();
    let unknown = auth.authenticate("nobody", "right").unwrap_err();
    assert_eq!(wrong, ServiceError::InvalidCredentials);
    assert_eq!(unknown, ServiceError::InvalidCredentials);
    assert_eq!(wrong.status(), 401);
}

#[test]
fn empty_credentials_are_rejected() {
    let mut auth = IdentityAuthority::new();
    assert_eq!(auth.register(registration("", "pw", None, None)), Err(ServiceError::MissingCredentials));
    assert_eq!(auth.register(registration("eve", "", None, None)), Err(ServiceError::MissingCredentials));
    assert_eq!(auth.authenticate("", "pw").unwrap_err(), ServiceError::MissingCredentials);
    assert_eq!(auth.authenticate("eve", "").unwrap_err(), ServiceError::MissingCredentials);
    assert_eq!(ServiceError::MissingCredentials.status(), 400);
}

#[test]
fn duplicate_username_conflicts() {
    let mut auth = IdentityAuthority::new();
    auth.register(registration("frank", "pw", None, None)).unwrap();
    let err = auth.register(registration("frank", "other", None, None)).unwrap_err();
    assert_eq!(err, ServiceError::DuplicateUsername);
    assert_eq!(err.kind(), ErrorKind::Conflict);
    assert_eq!(err.status(), 409);
}

#[test]
fn introspect_unknown_and_empty_tokens_are_invalid() {
    let mut auth = IdentityAuthority::new();
    assert!(!auth.introspect(""));
    assert!(!auth.introspect("never-issued"));
    auth.register(registration("gina", "pw", None, None)).unwrap();
    auth.authenticate_with_token("gina", "pw", "issued".to_string()).unwrap();
    assert!(!auth.introspect(""));
    assert!(!auth.introspect("never-issued"));
    assert!(auth.introspect("issued"));
    assert!(auth.resolve("never-issued").is_none());
    assert!(auth.resolve("").is_none());
}

#[test]
fn reused_or_empty_token_is_rejected() {
    let mut auth = IdentityAuthority::new();
    auth.register(registration("hal", "pw", None, None)).unwrap();
    auth.authenticate_with_token("hal", "pw", "same".to_string()).unwrap();
    let again = auth.authenticate_with_token("hal", "pw", "same".to_string()).unwrap_err();
    assert_eq!(again, ServiceError::TokenRejected);
    assert_eq!(again.status(), 500);
    let empty = auth.authenticate_with_token("hal", "pw", String::new()).unwrap_err();
    assert_eq!(empty, ServiceError::TokenRejected);
}

#[test]
fn one_account_holds_several_tokens() {
    let mut auth = IdentityAuthority::new();
    auth.register(registration("ivy", "pw", None, None)).unwrap();
    let first = auth.authenticate_with_token("ivy", "pw", "a".to_string()).unwrap();
    let second = auth.authenticate_with_token("ivy", "pw", "b".to_string()).unwrap();
    assert_eq!(auth.resolve(&first.token).unwrap().username, "ivy");
    assert_eq!(auth.resolve(&second.token).unwrap().username, "ivy");
}
