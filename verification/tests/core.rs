use podsync::auth::{BasicAuth, SessionId, resolve_credentials};
use podsync::error::Error;
use podsync::path_format::{UsernameFormat, split_format_json};
use podsync::podsync::PodSync;
use podsync::pwhash::{hash_matches, pwhash};
use podsync::session_cookie::{session_cookie_header, u64_to_string};

fn store_with_bob() -> PodSync {
    let mut s = PodSync::new();
    s.add_user(String::from("bob"), "abc", 7).unwrap();
    s
}

#[test]
fn pwhash_accepts_the_stored_password() {
    let h = pwhash("abc", 42);
    assert!(hash_matches(&h, "abc"));
    assert!(!hash_matches(&h, "abd"));
    assert!(!hash_matches(&h, ""));
    assert!(!hash_matches(&h, "abcabc"));
}

#[test]
fn pwhash_differs_per_salt() {
    let a = pwhash("abc", 1);
    let b = pwhash("abc", 2);
    assert_ne!(a.digest, b.digest);
}

#[test]
fn verify_accepts_only_the_exact_pair() {
    let s = store_with_bob();
    assert!(s.verify("bob", "abc"));
    assert!(!s.verify("bob", "abd"));
    assert!(!s.verify("bob", "ab"));
    assert!(!s.verify("bo", "abc"));
    assert!(!s.verify("tim", "abc"));
    assert!(!s.verify("", ""));
}

#[test]
fn add_user_refuses_a_taken_username() {
    let mut s = store_with_bob();
    assert_eq!(s.add_user(String::from("bob"), "other", 9), Err(Error::Internal));
    assert!(s.verify("bob", "abc"));
}

#[test]
fn login_issues_a_session_bound_to_the_user() {
    let mut s = store_with_bob();
    let auth = BasicAuth::new(String::from("bob"), String::from("abc"));
    let token = s.login(&auth, None).unwrap();
    assert_eq!(token.username().as_str(), "bob");
    let again = s.authenticate(token.session_id()).unwrap();
    assert_eq!(again.username().as_str(), "bob");
}

#[test]
fn login_with_wrong_password_is_unauthorized() {
    let mut s = store_with_bob();
    let auth = BasicAuth::new(String::from("bob"), String::from("wrong"));
    assert!(matches!(s.login(&auth, None), Err(Error::Unauthorized)));
}

#[test]
fn login_session() {
    // The end-to-end flow of the HTTP test, at the library's level: the
    // status literals 200 and 401 become Ok and Err(Unauthorized).
    let mut s = store_with_bob();
    let bob_auth = BasicAuth::new(String::from("bob"), String::from("abc"));

    // logging in succeeds, and we are given a session
    let token = s.login(&bob_auth, None).unwrap();
    let sid = token.session_id();

    // we can use this to get our devices
    let cookie_token = s.authenticate(sid).unwrap();
    assert!(s.devices(&cookie_token).is_empty());

    // a login with the same auth and the cookie verifies the cookie
    let bob_auth = BasicAuth::new(String::from("bob"), String::from("abc"));
    let verified = s.login(&bob_auth, Some(sid)).unwrap();
    assert_eq!(verified.session_id().value(), sid.value());

    // a login with the wrong auth and the same cookie rejects
    let tim_auth = BasicAuth::new(String::from("tim"), String::from("123"));
    assert!(matches!(s.login(&tim_auth, Some(sid)), Err(Error::Unauthorized)));

    // logging out invalidates the session
    s.logout(verified).unwrap();
    assert!(matches!(s.authenticate(sid), Err(Error::Unauthorized)));
}

#[test]
fn stale_cookie_on_login_is_rejected() {
    let mut s = store_with_bob();
    let auth = BasicAuth::new(String::from("bob"), String::from("abc"));
    let token = s.login(&auth, None).unwrap();
    let sid = token.session_id();
    s.logout(token).unwrap();
    let auth = BasicAuth::new(String::from("bob"), String::from("abc"));
    assert!(matches!(s.login(&auth, Some(sid)), Err(Error::Unauthorized)));
}

#[test]
fn mixed_credentials_are_rejected() {
    // a valid session for user A plus valid basic-auth for user B
    let mut s = store_with_bob();
    s.add_user(String::from("tim"), "123", 8).unwrap();
    let bob = BasicAuth::new(String::from("bob"), String::from("abc"));
    let token = s.login(&bob, None).unwrap();
    let sid = token.session_id();
    let tim = BasicAuth::new(String::from("tim"), String::from("123"));
    let r = s.authorize_request(Some(sid), Some(&tim));
    assert!(matches!(r, Err(Error::Unauthorized)));
    // and neither account was silently chosen: the session still works alone
    assert_eq!(s.authorize_request(Some(sid), None).unwrap().username().as_str(), "bob");
}

#[test]
fn session_alone_equals_basic_auth() {
    let mut s = store_with_bob();
    let bob = BasicAuth::new(String::from("bob"), String::from("abc"));
    let by_basic = s.authorize_request(None, Some(&bob)).unwrap();
    let by_cookie = s.authorize_request(Some(by_basic.session_id()), None).unwrap();
    assert_eq!(by_basic.username(), by_cookie.username());
}

#[test]
fn resolve_credentials_decides_purely() {
    let ok = |u: &str| Some(Some(String::from(u)));
    assert_eq!(resolve_credentials(ok("a"), None), Ok(String::from("a")));
    assert_eq!(resolve_credentials(None, ok("b")), Ok(String::from("b")));
    assert_eq!(resolve_credentials(ok("a"), ok("a")), Ok(String::from("a")));
    assert_eq!(resolve_credentials(ok("a"), ok("b")), Err(Error::Unauthorized));
    assert_eq!(resolve_credentials(Some(None), ok("b")), Err(Error::Unauthorized));
    assert_eq!(resolve_credentials(ok("a"), Some(None)), Err(Error::Unauthorized));
    assert_eq!(resolve_credentials(None, Some(None)), Err(Error::Unauthorized));
    assert_eq!(resolve_credentials(None, None), Err(Error::Unauthorized));
}

#[test]
fn with_user_checks_the_path_username() {
    let mut s = store_with_bob();
    let bob = BasicAuth::new(String::from("bob"), String::from("abc"));
    let token = s.login(&bob, None).unwrap();
    let token = token.with_user("bob").unwrap();
    assert!(matches!(token.with_user("tim"), Err(Error::Forbidden)));
}

#[test]
fn with_path_username_checks_the_segment() {
    let bob = BasicAuth::new(String::from("bob"), String::from("abc"));
    let bob = bob.with_path_username("bob").unwrap();
    assert!(matches!(bob.with_path_username("tim"), Err(Error::Unauthorized)));
}

#[test]
fn split_format_json_splits_or_refuses() {
    assert_eq!(split_format_json("bob.json"), Ok("bob"));
    assert_eq!(split_format_json(".json"), Ok(""));
    assert_eq!(split_format_json("bob.jso"), Err(Error::BadRequest));
    assert_eq!(split_format_json("bob"), Err(Error::BadRequest));
    assert_eq!(split_format_json("bob.JSON"), Err(Error::BadRequest));
}

#[test]
fn username_format_convert() {
    assert_eq!(UsernameFormat::Name.convert("bob"), Ok("bob"));
    assert_eq!(UsernameFormat::NameJson.convert("bob.json"), Ok("bob"));
    assert_eq!(UsernameFormat::NameJson.convert("bob"), Err(Error::BadRequest));
}

#[test]
fn error_status_codes() {
    assert_eq!(Error::Unauthorized.status_code(), 401);
    assert_eq!(Error::Forbidden.status_code(), 401);
    assert_eq!(Error::NotFound.status_code(), 404);
    assert_eq!(Error::BadRequest.status_code(), 422);
    assert_eq!(Error::Conflict.status_code(), 409);
    assert_eq!(Error::Internal.status_code(), 500);
}

#[test]
fn u64_renders_in_decimal() {
    assert_eq!(u64_to_string(0).as_str(), "0");
    assert_eq!(u64_to_string(7).as_str(), "7");
    assert_eq!(u64_to_string(40_210).as_str(), "40210");
    assert_eq!(u64_to_string(u64::MAX).as_str(), "18446744073709551615");
}

#[test]
fn session_cookie_header_has_the_attributes() {
    let h = session_cookie_header(SessionId::new(12), true);
    assert_eq!(
        h.as_str(),
        "sessionid=12; HttpOnly; SameSite=Strict; Secure; Path=/api; Max-Age=1209600"
    );
    let h = session_cookie_header(SessionId::new(12), false);
    assert_eq!(
        h.as_str(),
        "sessionid=12; HttpOnly; SameSite=Strict; Path=/api; Max-Age=1209600"
    );
}

#[test]
fn session_cookie_header_parses_back() {
    let h = session_cookie_header(SessionId::new(99), true);
    let c = cookie::Cookie::parse(h).unwrap();
    assert_eq!(c.name(), "sessionid");
    assert_eq!(c.value(), "99");
    assert_eq!(c.http_only(), Some(true));
    assert_eq!(c.secure(), Some(true));
    assert_eq!(c.path(), Some("/api"));
}
