use session_auth::error::{handle_error, not_found, store_unavailable};
use session_auth::http::{
    Cookie, Request, Response, SetCookie, STATUS_NOT_FOUND, STATUS_OK, STATUS_SERVICE_UNAVAILABLE,
    STATUS_UNAUTHORIZED,
};

fn directive(name: &str, value: &str, max_age: u32) -> SetCookie {
    SetCookie {
        name: name.to_string(),
        value: value.to_string(),
        http_only: true,
        path: "/".to_string(),
        max_age,
    }
}

#[test]
fn header_value_has_name_value_and_attributes() {
    assert_eq!(
        directive("sid", "abc", 2592000).header_value(),
        "sid=abc; HttpOnly; Path=/; Max-Age=2592000"
    );
}

#[test]
fn header_value_spells_the_lifetime_in_decimal() {
    assert_eq!(directive("sid", "abc", 0).header_value(), "sid=abc; HttpOnly; Path=/; Max-Age=0");
    assert_eq!(directive("sid", "abc", 9).header_value(), "sid=abc; HttpOnly; Path=/; Max-Age=9");
    assert_eq!(directive("sid", "abc", 10).header_value(), "sid=abc; HttpOnly; Path=/; Max-Age=10");
    assert_eq!(
        directive("sid", "abc", 1800).header_value(),
        "sid=abc; HttpOnly; Path=/; Max-Age=1800"
    );
    assert_eq!(
        directive("sid", "abc", u32::MAX).header_value(),
        "sid=abc; HttpOnly; Path=/; Max-Age=4294967295"
    );
}

#[test]
fn header_value_without_http_only() {
    let plain = SetCookie {
        name: "theme".to_string(),
        value: "dark".to_string(),
        http_only: false,
        path: "/app".to_string(),
        max_age: 60,
    };
    assert_eq!(plain.header_value(), "theme=dark; Path=/app; Max-Age=60");
}

#[test]
fn header_value_does_not_escape() {
    assert_eq!(
        directive("sid", "a b%c", 1).header_value(),
        "sid=a b%c; HttpOnly; Path=/; Max-Age=1"
    );
    assert_eq!(directive("sid", "", 1).header_value(), "sid=; HttpOnly; Path=/; Max-Age=1");
}

#[test]
fn duplicate_directive_is_equal() {
    let d = directive("sid", "abc", 5);
    assert_eq!(d.duplicate(), d);
}

#[test]
fn cookie_new_copies_name_and_value() {
    let c = Cookie::new("sid", "abc");
    assert_eq!(c.name, "sid");
    assert_eq!(c.value, "abc");
}

#[test]
fn request_new_keeps_path_and_cookies() {
    let r = Request::new("/login", vec![Cookie::new("a", "1"), Cookie::new("b", "2")]);
    assert_eq!(r.path, "/login");
    assert_eq!(r.cookies, vec![Cookie::new("a", "1"), Cookie::new("b", "2")]);
}

#[test]
fn response_new_has_no_directive() {
    let r = Response::new(STATUS_OK, "ok");
    assert_eq!(r.status, 200);
    assert_eq!(r.body, "ok");
    assert!(r.set_cookies.is_empty());
}

#[test]
fn put_cookie_appends_a_new_name() {
    let mut r = Response::new(STATUS_OK, "ok");
    r.put_cookie(directive("a", "1", 1));
    r.put_cookie(directive("b", "2", 2));
    assert_eq!(r.set_cookies, vec![directive("a", "1", 1), directive("b", "2", 2)]);
    assert_eq!(r.status, 200);
    assert_eq!(r.body, "ok");
}

#[test]
fn put_cookie_replaces_every_directive_of_the_name() {
    let mut r = Response::new(STATUS_OK, "ok");
    r.set_cookies = vec![
        directive("sid", "old", 1),
        directive("other", "x", 2),
        directive("sid", "older", 3),
    ];
    r.put_cookie(directive("sid", "new", 4));
    assert_eq!(r.set_cookies, vec![directive("other", "x", 2), directive("sid", "new", 4)]);
}

#[test]
fn put_cookie_twice_is_put_cookie_once() {
    let mut once = Response::new(STATUS_OK, "ok");
    once.set_cookies = vec![directive("sid", "old", 1), directive("other", "x", 2)];
    let mut twice = once.clone();
    once.put_cookie(directive("sid", "new", 4));
    twice.put_cookie(directive("sid", "new", 4));
    twice.put_cookie(directive("sid", "new", 4));
    assert_eq!(once, twice);
}

#[test]
fn not_found_is_fixed() {
    let r = not_found(&Request::new("/nowhere", Vec::new()));
    assert_eq!(r, Response::new(STATUS_NOT_FOUND, "not found"));
    assert_eq!(r.status, 404);
}

#[test]
fn unauthorized_is_fixed_and_differs_from_not_found() {
    let req = Request::new("/user/update", vec![Cookie::new("sid", "secret")]);
    let r = handle_error(&req);
    assert_eq!(r, Response::new(STATUS_UNAUTHORIZED, "unauthorized"));
    assert_eq!(r.status, 401);
    assert_ne!(r, not_found(&req));
    assert!(!r.body.contains("secret"));
}

#[test]
fn store_unavailable_is_fixed() {
    let r = store_unavailable(&Request::new("/login", Vec::new()));
    assert_eq!(r, Response::new(STATUS_SERVICE_UNAVAILABLE, "service unavailable"));
    assert_eq!(r.status, 503);
}
