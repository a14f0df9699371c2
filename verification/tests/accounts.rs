use orchestrator::auth::{
    authorize_account, check_credentials, check_user_removal, new_password_hash, normalize_permissions,
    validate_new_user, validate_user_update, AuthError, Credentials, PasswordHashError, UserRemovalError,
};
use orchestrator::validation::{
    validate_display_name, validate_password, validate_permissions, validate_user_handle, UserPermission,
    ValidationError,
};

#[test]
fn handles_allow_letters_digits_and_separators() {
    assert_eq!(validate_user_handle("alice.smith_2-b"), Ok(()));
    assert_eq!(validate_user_handle(""), Err(ValidationError::EmptyHandle));
    assert_eq!(validate_user_handle("bad handle"), Err(ValidationError::InvalidHandleCharacters));
    assert_eq!(validate_user_handle("émile"), Err(ValidationError::InvalidHandleCharacters));
    assert_eq!(
        ValidationError::InvalidHandleCharacters.message(),
        "user handle may only contain letters, digits, '.', '_' and '-'"
    );
}

#[test]
fn display_names_and_passwords_must_not_be_blank() {
    assert_eq!(validate_display_name("Alice"), Ok(()));
    assert_eq!(validate_display_name(" \t\n"), Err(ValidationError::EmptyDisplayName));
    assert_eq!(validate_display_name(""), Err(ValidationError::EmptyDisplayName));
    assert_eq!(validate_password(" "), Ok(()));
    assert_eq!(validate_password(""), Err(ValidationError::EmptyPassword));
    assert_eq!(validate_permissions(&[]), Err(ValidationError::NoPermissions));
    assert_eq!(validate_permissions(&[UserPermission::Read]), Ok(()));
    assert_eq!(ValidationError::EmptyPassword.message(), "password must not be empty");
}

#[test]
fn new_user_reports_the_first_broken_rule() {
    assert_eq!(validate_new_user("ok", "Name", "pw", &[UserPermission::Read]), Ok(()));
    assert_eq!(validate_new_user("", "", "", &[]), Err(ValidationError::EmptyHandle));
    assert_eq!(validate_new_user("ok", " ", "", &[]), Err(ValidationError::EmptyDisplayName));
    assert_eq!(validate_new_user("ok", "Name", "", &[]), Err(ValidationError::EmptyPassword));
    assert_eq!(validate_new_user("ok", "Name", "pw", &[]), Err(ValidationError::NoPermissions));
    assert_eq!(validate_user_update("ok", "Name", &[]), Err(ValidationError::NoPermissions));
    assert_eq!(validate_user_update("a b", "Name", &[]), Err(ValidationError::InvalidHandleCharacters));
}

#[test]
fn permissions_are_stored_sorted_without_repeats() {
    assert_eq!(
        normalize_permissions(&[UserPermission::Repo, UserPermission::Read, UserPermission::Repo]),
        vec![UserPermission::Read, UserPermission::Repo]
    );
    assert_eq!(normalize_permissions(&[]), Vec::<UserPermission>::new());
    let once = normalize_permissions(&[UserPermission::Write, UserPermission::Read]);
    assert_eq!(once, vec![UserPermission::Read, UserPermission::Write]);
    assert_eq!(normalize_permissions(&once), once);
}

#[test]
fn stored_hash_verifies_its_password() {
    let hash = new_password_hash("hunter42").unwrap();
    assert!(hash.starts_with("$argon2id$"));
    assert_ne!(hash, "hunter42");
    let record = Credentials { active: true, password_hash: hash.clone(), permitted: true };
    assert_eq!(check_credentials(Some(record), "hunter42"), Ok(()));
    let wrong = Credentials { active: true, password_hash: hash.clone(), permitted: true };
    assert_eq!(check_credentials(Some(wrong), "hunter43"), Err(AuthError::Unauthorized));
    let other = new_password_hash("hunter42").unwrap();
    assert_ne!(other, hash);
}

#[test]
fn empty_password_gets_no_hash() {
    assert_eq!(
        new_password_hash(""),
        Err(PasswordHashError::Invalid(ValidationError::EmptyPassword))
    );
}

#[test]
fn sign_in_refusals() {
    assert_eq!(check_credentials(None, "pw"), Err(AuthError::Unauthorized));
    let hash = new_password_hash("pw").unwrap();
    let inactive = Credentials { active: false, password_hash: hash.clone(), permitted: true };
    assert_eq!(check_credentials(Some(inactive), "pw"), Err(AuthError::Unauthorized));
    let unpermitted = Credentials { active: true, password_hash: hash, permitted: false };
    assert_eq!(check_credentials(Some(unpermitted), "pw"), Err(AuthError::Unauthorized));
    let broken = Credentials { active: true, password_hash: "not a hash".to_string(), permitted: true };
    assert!(matches!(check_credentials(Some(broken), "pw"), Err(AuthError::StoredHash(_))));
}

#[test]
fn authorization_needs_an_active_permitted_account() {
    assert_eq!(authorize_account(true, true, true), Ok(()));
    assert_eq!(authorize_account(false, true, true), Err(AuthError::Unauthorized));
    assert_eq!(authorize_account(true, false, true), Err(AuthError::Unauthorized));
    assert_eq!(authorize_account(true, true, false), Err(AuthError::Unauthorized));
}

#[test]
fn the_last_user_cannot_be_removed() {
    assert_eq!(check_user_removal(false, 5), Err(UserRemovalError::NotFound));
    assert_eq!(check_user_removal(true, 1), Err(UserRemovalError::LastUser));
    assert_eq!(check_user_removal(true, 0), Err(UserRemovalError::LastUser));
    assert_eq!(check_user_removal(true, 2), Ok(()));
}
