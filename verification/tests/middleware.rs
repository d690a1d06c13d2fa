use session_auth::codec::{sign_text, SigningKey};
use session_auth::config::Config;
use session_auth::filter::CheckLogin;
use session_auth::http::{Cookie, Request, Response, SetCookie, STATUS_OK};
use session_auth::middleware::{
    get_redis_key, update_max_age, AuthEvent, MarkLoginState, Remember, Started,
};
use session_auth::session::{AttrValue, AttributeBag, Session};

fn key() -> SigningKey {
    SigningKey::new((0u8..32).collect()).unwrap()
}

fn config() -> Config {
    Config {
        cookie_name: "sid".to_string(),
        default_max_age: 1800,
        remember_max_age: 2592000,
        session_ttl: 1800,
        store_address: "127.0.0.1:6379".to_string(),
        key: key(),
        protected_prefixes: vec![
            "/logout".to_string(),
            "/user".to_string(),
            "/work-record".to_string(),
        ],
    }
}

fn session_cookie(id: &str) -> Cookie {
    Cookie::new("sid", &sign_text(id, &key()))
}

fn remembering_session() -> Session {
    let mut bag = AttributeBag::new();
    bag.insert("remember", AttrValue::Bool(true));
    Session::resume("abc".to_string(), bag)
}

fn long_lived(value: &str) -> SetCookie {
    SetCookie {
        name: "sid".to_string(),
        value: value.to_string(),
        http_only: true,
        path: "/".to_string(),
        max_age: 2592000,
    }
}

#[test]
fn get_redis_key_gives_the_payload_of_a_valid_cookie() {
    let req = Request::new("/", vec![session_cookie("abc")]);
    assert_eq!(get_redis_key(&req, &config()), Some("abc".to_string()));
}

#[test]
fn get_redis_key_without_cookies_is_none() {
    assert_eq!(get_redis_key(&Request::new("/", Vec::new()), &config()), None);
}

#[test]
fn get_redis_key_ignores_other_names() {
    let mut other = session_cookie("abc");
    other.name = "sidx".to_string();
    let req = Request::new("/", vec![other, Cookie::new("theme", "dark")]);
    assert_eq!(get_redis_key(&req, &config()), None);
}

#[test]
fn get_redis_key_treats_a_tampered_cookie_as_absent() {
    let mut cookie = session_cookie("abc");
    cookie.value = cookie.value.replacen("abc", "abd", 1);
    assert_eq!(get_redis_key(&Request::new("/", vec![cookie]), &config()), None);
    let unsigned = Cookie::new("sid", "abc");
    assert_eq!(get_redis_key(&Request::new("/", vec![unsigned]), &config()), None);
}

#[test]
fn get_redis_key_takes_the_first_cookie_that_verifies() {
    let req = Request::new(
        "/",
        vec![
            Cookie::new("sid", "forged"),
            session_cookie("first"),
            session_cookie("second"),
        ],
    );
    assert_eq!(get_redis_key(&req, &config()), Some("first".to_string()));
}

#[test]
fn get_redis_key_rejects_a_cookie_signed_under_another_key() {
    let other = SigningKey::new(vec![9u8; 32]).unwrap();
    let req = Request::new("/", vec![Cookie::new("sid", &sign_text("abc", &other))]);
    assert_eq!(get_redis_key(&req, &config()), None);
}

#[test]
fn update_max_age_sets_the_cookie_again() {
    let cookie = session_cookie("abc");
    let req = Request::new("/", vec![cookie.clone()]);
    let mut res = Response::new(STATUS_OK, "ok");
    update_max_age(&req, &mut res, &config());
    assert_eq!(res.set_cookies, vec![long_lived(&cookie.value)]);
    assert_eq!(
        res.set_cookies[0].header_value(),
        format!("sid={}; HttpOnly; Path=/; Max-Age=2592000", cookie.value)
    );
    assert_eq!(res.status, 200);
    assert_eq!(res.body, "ok");
}

#[test]
fn update_max_age_without_the_cookie_changes_nothing() {
    let req = Request::new("/", vec![Cookie::new("theme", "dark")]);
    let mut res = Response::new(STATUS_OK, "ok");
    update_max_age(&req, &mut res, &config());
    assert_eq!(res, Response::new(STATUS_OK, "ok"));
}

#[test]
fn update_max_age_takes_the_last_cookie_of_the_name() {
    let req = Request::new(
        "/",
        vec![Cookie::new("sid", "one"), Cookie::new("x", "y"), Cookie::new("sid", "two")],
    );
    let mut res = Response::new(STATUS_OK, "ok");
    update_max_age(&req, &mut res, &config());
    assert_eq!(res.set_cookies, vec![long_lived("two")]);
}

#[test]
fn update_max_age_replaces_the_directive_of_the_response() {
    let req = Request::new("/", vec![Cookie::new("sid", "abc")]);
    let mut res = Response::new(STATUS_OK, "ok");
    res.put_cookie(SetCookie {
        name: "sid".to_string(),
        value: "short".to_string(),
        http_only: true,
        path: "/".to_string(),
        max_age: 1800,
    });
    res.put_cookie(SetCookie {
        name: "theme".to_string(),
        value: "dark".to_string(),
        http_only: false,
        path: "/".to_string(),
        max_age: 5,
    });
    update_max_age(&req, &mut res, &config());
    assert_eq!(res.set_cookies.len(), 2);
    assert_eq!(res.set_cookies[0].name, "theme");
    assert_eq!(res.set_cookies[1], long_lived("abc"));
}

#[test]
fn remember_start_is_done() {
    assert_eq!(Remember.start(&Request::new("/", Vec::new())), Started::Done);
}

#[test]
fn remember_extends_with_flag_and_valid_cookie() {
    let cookie = session_cookie("abc");
    let req = Request::new("/", vec![cookie.clone()]);
    let out = Remember.response(
        &req,
        &remembering_session(),
        &config(),
        Response::new(STATUS_OK, "ok"),
    );
    assert_eq!(out.set_cookies, vec![long_lived(&cookie.value)]);
    assert_eq!(out.set_cookies[0].max_age, 2592000);
    assert_ne!(out.set_cookies[0].max_age, config().default_max_age);
}

#[test]
fn remember_without_flag_changes_nothing() {
    let req = Request::new("/", vec![session_cookie("abc")]);
    let session = Session::resume("abc".to_string(), AttributeBag::new());
    let out = Remember.response(&req, &session, &config(), Response::new(STATUS_OK, "ok"));
    assert_eq!(out, Response::new(STATUS_OK, "ok"));
}

#[test]
fn remember_with_false_flag_changes_nothing() {
    let req = Request::new("/", vec![session_cookie("abc")]);
    let mut session = Session::fresh();
    session.set_bool("remember", false);
    let out = Remember.response(&req, &session, &config(), Response::new(STATUS_OK, "ok"));
    assert_eq!(out, Response::new(STATUS_OK, "ok"));
}

#[test]
fn remember_with_flag_of_another_type_changes_nothing() {
    let req = Request::new("/", vec![session_cookie("abc")]);
    let mut session = Session::fresh();
    session.set("remember", AttrValue::Text("true".to_string()));
    let out = Remember.response(&req, &session, &config(), Response::new(STATUS_OK, "ok"));
    assert_eq!(out, Response::new(STATUS_OK, "ok"));
}

#[test]
fn remember_without_cookie_changes_nothing() {
    let req = Request::new("/", Vec::new());
    let out = Remember.response(
        &req,
        &remembering_session(),
        &config(),
        Response::new(STATUS_OK, "ok"),
    );
    assert_eq!(out, Response::new(STATUS_OK, "ok"));
}

#[test]
fn remember_with_tampered_cookie_changes_nothing() {
    let req = Request::new("/", vec![Cookie::new("sid", "abc")]);
    let out = Remember.response(
        &req,
        &remembering_session(),
        &config(),
        Response::new(STATUS_OK, "ok"),
    );
    assert_eq!(out, Response::new(STATUS_OK, "ok"));
}

#[test]
fn remember_twice_is_remember_once() {
    let req = Request::new("/", vec![session_cookie("abc")]);
    let session = remembering_session();
    let once = Remember.response(&req, &session, &config(), Response::new(STATUS_OK, "ok"));
    let twice = Remember.response(&req, &session, &config(), once.clone());
    assert_eq!(once, twice);
    assert_eq!(twice.set_cookies.len(), 1);
}

#[test]
fn login_sets_flag_and_identity() {
    let mut session = Session::fresh();
    session.set_bool("remember", true);
    MarkLoginState.response(AuthEvent::Login { identity: 42 }, &mut session);
    assert_eq!(session.get_bool("logged_in"), Some(true));
    assert_eq!(session.get_int("user_id"), Some(42));
    assert_eq!(session.get_bool("remember"), Some(true));
    assert!(session.is_dirty());
    assert!(!session.is_ended());
}

#[test]
fn logout_clears_and_ends() {
    let mut session = Session::resume("abc".to_string(), AttributeBag::new());
    MarkLoginState.response(AuthEvent::Login { identity: 42 }, &mut session);
    MarkLoginState.response(AuthEvent::Logout, &mut session);
    assert_eq!(session.get_bool("logged_in"), None);
    assert_eq!(session.get_int("user_id"), None);
    assert!(session.is_ended());
    assert_eq!(session.id(), Some("abc"));
}

#[test]
fn other_requests_pass_through() {
    let mut session = Session::resume("abc".to_string(), AttributeBag::new());
    MarkLoginState.response(AuthEvent::Other, &mut session);
    assert!(!session.is_dirty());
    assert!(!session.is_ended());
    assert_eq!(session.attributes().len(), 0);
}

#[test]
fn check_login_wants_the_flag_to_be_true() {
    let mut session = Session::fresh();
    assert!(!CheckLogin.check(&session));
    session.set_bool("logged_in", false);
    assert!(!CheckLogin.check(&session));
    session.set_int("logged_in", 1);
    assert!(!CheckLogin.check(&session));
    session.set_bool("logged_in", true);
    assert!(CheckLogin.check(&session));
    assert!(session.get_bool("logged_in") == Some(true));
}

#[test]
fn protected_prefixes_protect_what_begins_with_them() {
    let c = config();
    assert!(c.is_protected("/user/update"));
    assert!(c.is_protected("/user"));
    assert!(c.is_protected("/logout"));
    assert!(c.is_protected("/work-record/get-records"));
    assert!(!c.is_protected("/login"));
    assert!(!c.is_protected("/register"));
    assert!(!c.is_protected("/use"));
    assert!(!c.is_protected(""));
    assert!(!c.is_protected("/api/user"));
}

#[test]
fn no_prefix_protects_nothing() {
    let mut c = config();
    c.protected_prefixes = Vec::new();
    assert!(!c.is_protected("/user/update"));
    c.protected_prefixes = vec!["".to_string()];
    assert!(c.is_protected("/anything"));
}

#[test]
fn remember_applies_with_flag_and_valid_cookie_only() {
    let valid = Request::new("/", vec![session_cookie("abc")]);
    let forged = Request::new("/", vec![Cookie::new("sid", "abc")]);
    let plain = Session::resume("abc".to_string(), AttributeBag::new());
    assert!(Remember.applies(&valid, &remembering_session(), &config()));
    assert!(!Remember.applies(&forged, &remembering_session(), &config()));
    assert!(!Remember.applies(&valid, &plain, &config()));
    assert!(!Remember.applies(&forged, &plain, &config()));
}
