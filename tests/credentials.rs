use quiz_services::error::ServiceError;
use quiz_services::identity::{
    admit_login, check_credentials, digest_password, issue_token, IdentityAuthority, Registration,
};

#[test]
fn credential_pair_must_be_complete() {
    assert_eq!(check_credentials("", "pw"), Err(ServiceError::MissingCredentials));
    assert_eq!(check_credentials("user", ""), Err(ServiceError::MissingCredentials));
    assert_eq!(check_credentials("user", "pw"), Ok(()));
}

#[test]
fn digest_is_not_the_password_and_admits_it() {
    let digest = digest_password("hunter2").unwrap();
    assert_ne!(digest, "hunter2");
    assert_eq!(admit_login("hunter2", Some(&digest)), Ok(()));
    assert_eq!(admit_login("hunter3", Some(&digest)), Err(ServiceError::InvalidCredentials));
}

#[test]
fn missing_account_and_malformed_digest_are_refused_alike() {
    assert_eq!(admit_login("pw", None), Err(ServiceError::InvalidCredentials));
    assert_eq!(admit_login("pw", Some("not a digest")), Err(ServiceError::InvalidCredentials));
}

#[test]
fn issued_tokens_are_fresh() {
    let a = issue_token();
    let b = issue_token();
    assert_eq!(a.chars().count(), 36);
    assert_ne!(a, b);
}

#[test]
fn registering_with_a_digest_stores_the_account() {
    let reg = |name: &str, pw: &str| Registration {
        username: name.to_string(),
        password: pw.to_string(),
        email: Some("w@example.org".to_string()),
        first_name: None,
        last_name: Some("Woo".to_string()),
        is_staff: Some(true),
    };
    let mut auth = IdentityAuthority::new();
    let digest = digest_password("pw").unwrap();
    assert_eq!(digest.chars().count(), 60);
    assert_eq!(auth.register_with_digest(reg("wen", "pw"), digest.clone()), Ok(()));
    assert_eq!(auth.register_with_digest(reg("wen", "pw"), digest.clone()), Err(ServiceError::DuplicateUsername));
    assert_eq!(auth.register_with_digest(reg("", "pw"), digest.clone()), Err(ServiceError::MissingCredentials));
    let grant = auth.authenticate_with_token("W@EXAMPLE.org", "pw", "tk".to_string()).unwrap();
    assert!(grant.is_staff);
    let who = auth.resolve("tk").unwrap();
    assert_eq!(who.username, "wen");
    assert_eq!(who.last_name.as_deref(), Some("Woo"));
}
