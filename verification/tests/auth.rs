use footical::auth::{
    check_password, cookie_secret, has_valid_session, login_cookie, logout_cookie, session_token,
    session_token_in, LoginRefusal,
};

#[test]
fn passwords_are_checked() {
    assert_eq!(check_password("hunter2", Some("hunter2")), Ok(()));
    assert_eq!(check_password("hunter3", Some("hunter2")), Err(LoginRefusal::InvalidPassword));
    assert_eq!(check_password("x", None), Err(LoginRefusal::PasswordNotConfigured));
    assert_eq!(LoginRefusal::InvalidPassword.message(), "invalid password");
    assert_eq!(LoginRefusal::PasswordNotConfigured.message(), "ADMIN_PASSWORD not configured");
}

#[test]
fn the_cookie_secret_falls_back_to_the_password() {
    assert_eq!(cookie_secret(Some("s3cret"), "pw"), "s3cret");
    assert_eq!(cookie_secret(None, "pw"), "pw");
}

#[test]
fn session_tokens_are_lower_hex_and_stable() {
    let token = session_token("s3cret");
    assert!(!token.is_empty());
    assert!(token.len() <= 16);
    assert!(token.chars().all(|c| c.is_ascii_digit() || ('a'..='f').contains(&c)));
    assert_eq!(token, session_token("s3cret"));
    assert_ne!(token, session_token("other"));
}

#[test]
fn login_and_logout_cookies() {
    assert_eq!(
        login_cookie("abc123"),
        "footical_session=abc123; Path=/; HttpOnly; SameSite=Strict; Max-Age=86400"
    );
    assert_eq!(logout_cookie(), "footical_session=; Path=/; HttpOnly; SameSite=Strict; Max-Age=0");
}

#[test]
fn the_session_cookie_is_found_among_others() {
    assert_eq!(session_token_in(Some("footical_session=abc")), Some("abc".to_string()));
    assert_eq!(
        session_token_in(Some("theme=dark;  footical_session=abc ; footical_session=zzz")),
        Some("abc".to_string())
    );
    assert_eq!(session_token_in(Some("theme=dark")), None);
    assert_eq!(session_token_in(Some("")), None);
    assert_eq!(session_token_in(None), None);
}

#[test]
fn a_login_cookie_sent_back_is_accepted() {
    let token = session_token(&cookie_secret(Some("s3cret"), "pw"));
    let cookie = login_cookie(&token);
    let pair = cookie.split(';').next().unwrap();
    assert!(has_valid_session(Some(pair), Some("s3cret"), "pw"));
    assert!(has_valid_session(Some(&format!("a=b; {pair}")), Some("s3cret"), "other password"));
    assert!(!has_valid_session(Some(pair), Some("other"), "pw"));
    assert!(!has_valid_session(Some(pair), None, "pw"));
    assert!(!has_valid_session(None, Some("s3cret"), "pw"));
    let cleared = logout_cookie();
    let cleared_pair = cleared.split(';').next().unwrap();
    assert!(!has_valid_session(Some(cleared_pair), Some("s3cret"), "pw"));
}

#[test]
fn without_a_cookie_secret_the_password_makes_the_token() {
    let token = session_token("pw");
    let pair = format!("footical_session={token}");
    assert!(has_valid_session(Some(&pair), None, "pw"));
    assert!(!has_valid_session(Some(&pair), None, "other"));
    assert!(!has_valid_session(Some("footical_session=pw"), None, "pw"));
}
