use ovenmitts::session::{session_cookie, session_removal, SameSite, SESSION_TTL};

#[test]
fn session_cookie_is_protected() {
    let cookie = session_cookie("token".to_string(), 1_700_000_000);
    assert_eq!(cookie.name, "om_session");
    assert_eq!(cookie.value, "token");
    assert_eq!(cookie.path, "/");
    assert!(cookie.http_only);
    assert!(cookie.secure);
    assert_eq!(cookie.same_site, Some(SameSite::Lax));
}

#[test]
fn session_cookie_lives_fourteen_days() {
    assert_eq!(SESSION_TTL, 14 * 24 * 60 * 60);
    let cookie = session_cookie("token".to_string(), 1_700_000_000);
    assert_eq!(cookie.expires_at, Some(1_700_000_000 + 1_209_600));
    assert_eq!(session_cookie(String::new(), 0).expires_at, Some(1_209_600));
    assert_eq!(session_cookie(String::new(), u64::MAX).expires_at, Some(u64::MAX));
    assert_eq!(session_cookie(String::new(), u64::MAX - 1_209_600).expires_at, Some(u64::MAX));
    assert_eq!(session_cookie(String::new(), u64::MAX - 1_209_601).expires_at, Some(u64::MAX - 1));
}

#[test]
fn removal_cookie_is_empty() {
    let cookie = session_removal();
    assert_eq!(cookie.name, "om_session");
    assert_eq!(cookie.value, "");
    assert_eq!(cookie.path, "/");
    assert_eq!(cookie.expires_at, None);
    assert_eq!(cookie.same_site, None);
}
