use payroll_core::auth::{
    authenticate, check_login_input, cookie_value, create_session_token, default_admin,
    default_admin_account, session_cookie_value, session_token_hash, setting_enabled, sha256_hex,
    unauthenticated_reply, AuthenticatedUser, LoginRefusal, StoredAccount, UnauthenticatedReply,
};

fn hash_of(password: &str) -> String {
    default_admin_account(None, None, Some(password.to_string())).expect("hashing works").2
}

fn user(role: &str) -> AuthenticatedUser {
    AuthenticatedUser { id: 7, username: "ana".to_string(), full_name: "Ana B".to_string(), role: role.to_string() }
}

#[test]
fn payroll_roles() {
    assert!(user("admin").can_manage_payroll());
    assert!(user("payroll").can_manage_payroll());
    assert!(!user("hr").can_manage_payroll());
    assert!(!user("").can_manage_payroll());
}

#[test]
fn settings_switch_on_with_truthy_values() {
    for v in ["1", "true", "TRUE", "yes", "YES"] {
        assert!(setting_enabled(Some(v), false));
    }
    for v in ["0", "True", "no", ""] {
        assert!(!setting_enabled(Some(v), true));
    }
    assert!(setting_enabled(None, true));
    assert!(!setting_enabled(None, false));
}

#[test]
fn cookies_are_found_by_name() {
    assert_eq!(cookie_value("a=1; pms_session=abc; b=2", "pms_session"), Some("abc".to_string()));
    assert_eq!(cookie_value("pms_session = xyz ", "pms_session"), Some("xyz".to_string()));
    assert_eq!(cookie_value("a=1; b=2", "pms_session"), None);
    assert_eq!(cookie_value("pms_session=", "pms_session"), None);
    assert_eq!(cookie_value("pms_session=; pms_session=second", "pms_session"), Some("second".to_string()));
    assert_eq!(cookie_value("", "pms_session"), None);
    assert_eq!(cookie_value("k=v=w", "k"), Some("v=w".to_string()));
}

#[test]
fn session_cookie_text() {
    assert_eq!(
        session_cookie_value("tok", 28800, false),
        "pms_session=tok; Path=/; HttpOnly; SameSite=Lax; Max-Age=28800"
    );
    assert_eq!(
        session_cookie_value("tok", 0, true),
        "pms_session=tok; Path=/; HttpOnly; SameSite=Lax; Max-Age=0; Secure"
    );
}

#[test]
fn a_written_session_cookie_is_read_back() {
    let cookie = session_cookie_value("T0ken_x", 60, true);
    assert_eq!(cookie_value(&cookie, "pms_session"), Some("T0ken_x".to_string()));
}

#[test]
fn api_paths_get_401_pages_redirect() {
    assert_eq!(unauthenticated_reply("/api/me"), UnauthenticatedReply::Unauthorized);
    assert_eq!(unauthenticated_reply("/"), UnauthenticatedReply::RedirectToLogin);
    assert_eq!(unauthenticated_reply("/apix"), UnauthenticatedReply::RedirectToLogin);
}

#[test]
fn sha256_of_known_input() {
    assert_eq!(
        sha256_hex(b"abc"),
        "ba7816bf8f01cfea414140de5dae2223b00361a396177a9cb410ff61f20015ad"
    );
    assert_eq!(
        sha256_hex(b""),
        "e3b0c44298fc1c149afbf4c8996fb92427ae41e4649b934ca495991b7852b855"
    );
    assert_eq!(session_token_hash("abc"), sha256_hex(b"abc"));
}

#[test]
fn session_tokens_are_fresh_url_safe_text() {
    let a = create_session_token();
    let b = create_session_token();
    assert_eq!(a.len(), 43);
    assert!(a.chars().all(|c| c.is_ascii_alphanumeric() || c == '-' || c == '_'));
    assert_ne!(a, b);
}

#[test]
fn the_default_admin_password_verifies() {
    let (name, full, hash) = default_admin_account(None, None, None).unwrap();
    assert_eq!((name.as_str(), full.as_str()), ("Bullly2003", "Tobi McGuire"));
    assert!(hash.starts_with("$argon2"));
    assert!(authenticate(Some(account(true, &hash)), "SpideySenes5!").is_ok());
    assert_eq!(
        authenticate(Some(account(true, &hash)), "wrong").unwrap_err(),
        LoginRefusal::InvalidCredentials
    );
    let (_, _, other) = default_admin_account(Some("root".to_string()), None, Some("x".to_string())).unwrap();
    assert_ne!(hash, other);
}

#[test]
fn login_input_is_trimmed_and_required() {
    assert_eq!(
        check_login_input("  ana ", " pw "),
        Ok(("ana".to_string(), "pw".to_string()))
    );
    assert_eq!(check_login_input("   ", "pw"), Err(LoginRefusal::MissingCredentials));
    assert_eq!(check_login_input("ana", ""), Err(LoginRefusal::MissingCredentials));
}

fn account(active: bool, hash: &str) -> StoredAccount {
    StoredAccount {
        id: 3,
        username: "ana".to_string(),
        full_name: "Ana B".to_string(),
        role: "payroll".to_string(),
        password_hash: hash.to_string(),
        is_active: active,
    }
}

#[test]
fn authentication_outcomes() {
    let hash = hash_of("pw");
    let ok = authenticate(Some(account(true, &hash)), "pw").unwrap();
    assert_eq!((ok.id, ok.username.as_str(), ok.role.as_str()), (3, "ana", "payroll"));
    assert_eq!(authenticate(None, "pw").unwrap_err(), LoginRefusal::InvalidCredentials);
    assert_eq!(authenticate(Some(account(false, &hash)), "pw").unwrap_err(), LoginRefusal::InactiveAccount);
    assert_eq!(authenticate(Some(account(true, &hash)), "nope").unwrap_err(), LoginRefusal::InvalidCredentials);
    assert_eq!(authenticate(Some(account(true, "garbage")), "pw").unwrap_err(), LoginRefusal::InvalidPasswordHash);
}

#[test]
fn login_refusal_answers() {
    assert_eq!(LoginRefusal::MissingCredentials.status_code(), 400);
    assert_eq!(LoginRefusal::InvalidCredentials.status_code(), 401);
    assert_eq!(LoginRefusal::InactiveAccount.status_code(), 403);
    assert_eq!(LoginRefusal::InvalidPasswordHash.status_code(), 500);
    assert_eq!(LoginRefusal::InvalidCredentials.message(), "Invalid credentials");
    assert_eq!(LoginRefusal::MissingCredentials.message(), "Username and password are required");
}

#[test]
fn default_admin_values() {
    assert_eq!(
        default_admin(None, None, None),
        ("Bullly2003".to_string(), "Tobi McGuire".to_string(), "SpideySenes5!".to_string())
    );
    assert_eq!(
        default_admin(Some("root".to_string()), None, Some("x".to_string())),
        ("root".to_string(), "Tobi McGuire".to_string(), "x".to_string())
    );
}
