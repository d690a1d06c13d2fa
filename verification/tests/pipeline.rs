use session_auth::codec::{sign_text, verify_text, SigningKey};
use session_auth::config::Config;
use session_auth::http::{Cookie, Request, Response, SetCookie, STATUS_OK};
use session_auth::middleware::AuthEvent;
use session_auth::pipeline::{Admission, Entry, Handled, Pipeline, Stored, SESSION_ID_LEN};
use session_auth::session::{AttrValue, AttributeBag, Session};
use session_auth::store::{Lookup, MemoryStore, StoreCommand};
use std::cell::Cell;

fn key() -> SigningKey {
    SigningKey::new((0u8..32).collect()).unwrap()
}

fn pipeline() -> Pipeline {
    let config = Config {
        cookie_name: "sid".to_string(),
        default_max_age: 1800,
        remember_max_age: 2592000,
        session_ttl: 600,
        store_address: "127.0.0.1:6379".to_string(),
        key: key(),
        protected_prefixes: vec![
            "/logout".to_string(),
            "/user".to_string(),
            "/work-record".to_string(),
        ],
    };
    let routes = vec![
        "/register".to_string(),
        "/login".to_string(),
        "/logout".to_string(),
        "/user/update".to_string(),
        "/work-record/create".to_string(),
    ];
    Pipeline::new(config, routes)
}

fn signed_cookie(id: &str) -> Cookie {
    Cookie::new("sid", &sign_text(id, &key()))
}

fn logged_in_bag(remember: bool) -> AttributeBag {
    let mut bag = AttributeBag::new();
    bag.insert("logged_in", AttrValue::Bool(true));
    bag.insert("user_id", AttrValue::Int(7));
    if remember {
        bag.insert("remember", AttrValue::Bool(true));
    }
    bag
}

fn ok() -> Response {
    Response::new(STATUS_OK, "ok")
}

fn cookie_of(response: &Response) -> Option<&SetCookie> {
    response.set_cookies.iter().rev().find(|c| c.name == "sid")
}

fn as_request_cookie(directive: &SetCookie) -> Cookie {
    Cookie::new(&directive.name, &directive.value)
}

#[test]
fn unknown_path_is_not_found() {
    let p = pipeline();
    match p.enter(&Request::new("/nowhere", vec![signed_cookie("abc")])) {
        Entry::NotFound(r) => {
            assert_eq!(r.status, 404);
            assert_eq!(r.body, "not found");
            assert!(r.set_cookies.is_empty());
        }
        other => panic!("expected not found, got {:?}", other),
    }
    assert!(!p.is_route("/nowhere"));
    assert!(!p.is_route("/user"));
    assert!(p.is_route("/user/update"));
}

#[test]
fn valid_cookie_asks_the_store() {
    match pipeline().enter(&Request::new("/login", vec![signed_cookie("abc")])) {
        Entry::Load(id) => assert_eq!(id, "abc"),
        other => panic!("expected a lookup, got {:?}", other),
    }
}

#[test]
fn missing_or_invalid_cookie_is_anonymous() {
    let p = pipeline();
    assert!(matches!(p.enter(&Request::new("/login", Vec::new())), Entry::Anonymous));
    let forged = Request::new("/login", vec![Cookie::new("sid", "abc")]);
    assert!(matches!(p.enter(&forged), Entry::Anonymous));
}

#[test]
fn unavailable_store_is_not_anonymous() {
    let p = pipeline();
    let req = Request::new("/login", vec![signed_cookie("abc")]);
    match p.screen(&req, Some("abc".to_string()), Lookup::Unavailable) {
        Admission::Unavailable(r) => {
            assert_eq!(r.status, 503);
            assert_eq!(r.body, "service unavailable");
        }
        other => panic!("expected unavailable, got {:?}", other),
    }
}

#[test]
fn protected_route_rejects_a_client_that_is_not_logged_in() {
    let p = pipeline();
    let req = Request::new("/user/update", Vec::new());
    match p.screen(&req, None, Lookup::Absent) {
        Admission::Rejected(r) => {
            assert_eq!(r.status, 401);
            assert_eq!(r.body, "unauthorized");
            assert!(r.set_cookies.is_empty());
        }
        other => panic!("expected a rejection, got {:?}", other),
    }
    let mut bag = AttributeBag::new();
    bag.insert("logged_in", AttrValue::Bool(false));
    assert!(matches!(
        p.screen(&req, Some("abc".to_string()), Lookup::Found(bag)),
        Admission::Rejected(_)
    ));
    assert!(matches!(
        p.screen(&req, Some("abc".to_string()), Lookup::Absent),
        Admission::Rejected(_)
    ));
}

#[test]
fn protected_route_admits_a_logged_in_client() {
    let p = pipeline();
    let req = Request::new("/user/update", vec![signed_cookie("abc")]);
    match p.screen(&req, Some("abc".to_string()), Lookup::Found(logged_in_bag(false))) {
        Admission::Admitted(session) => {
            assert_eq!(session.id(), Some("abc"));
            assert_eq!(session.get_int("user_id"), Some(7));
            assert!(!session.is_dirty());
        }
        other => panic!("expected admission, got {:?}", other),
    }
}

#[test]
fn public_route_admits_everyone() {
    let p = pipeline();
    let req = Request::new("/login", Vec::new());
    match p.screen(&req, None, Lookup::Absent) {
        Admission::Admitted(session) => {
            assert_eq!(session.id(), None);
            assert_eq!(session.attributes().len(), 0);
        }
        other => panic!("expected admission, got {:?}", other),
    }
}

#[test]
fn unknown_identifier_opens_an_empty_session_under_it() {
    let p = pipeline();
    let req = Request::new("/login", vec![signed_cookie("gone")]);
    match p.screen(&req, Some("gone".to_string()), Lookup::Absent) {
        Admission::Admitted(session) => {
            assert_eq!(session.id(), Some("gone"));
            assert_eq!(session.attributes().len(), 0);
            assert_eq!(session.get_bool("logged_in"), None);
        }
        other => panic!("expected admission, got {:?}", other),
    }
}

#[test]
fn new_session_gets_a_cookie_with_the_default_lifetime() {
    let p = pipeline();
    let req = Request::new("/register", Vec::new());
    let done =
        p.complete_with_id(&req, Session::fresh(), ok(), AuthEvent::Other, "fresh".to_string());
    let cookie = cookie_of(&done.response).expect("a session cookie");
    assert_eq!(cookie.max_age, 1800);
    assert!(cookie.http_only);
    assert_eq!(cookie.path, "/");
    assert_eq!(verify_text(&cookie.value, &key()), Some("fresh".to_string()));
    assert_eq!(
        cookie.header_value(),
        format!("sid={}; HttpOnly; Path=/; Max-Age=1800", sign_text("fresh", &key()))
    );
    match done.command {
        StoreCommand::Save { id, bag, ttl } => {
            assert_eq!(id, "fresh");
            assert_eq!(bag.len(), 0);
            assert_eq!(ttl, 600);
        }
        other => panic!("expected a save, got {:?}", other),
    }
}

#[test]
fn new_session_with_flag_but_no_cookie_keeps_the_default_lifetime() {
    let p = pipeline();
    let req = Request::new("/login", Vec::new());
    let mut session = Session::fresh();
    session.set_bool("remember", true);
    let login = AuthEvent::Login { identity: 7 };
    let done = p.complete_with_id(&req, session, ok(), login, "fresh".to_string());
    assert_eq!(cookie_of(&done.response).unwrap().max_age, 1800);
    match done.command {
        StoreCommand::Save { id, bag, ttl } => {
            assert_eq!(id, "fresh");
            assert_eq!(bag.get("logged_in"), Some(&AttrValue::Bool(true)));
            assert_eq!(bag.get("user_id"), Some(&AttrValue::Int(7)));
            assert_eq!(bag.get("remember"), Some(&AttrValue::Bool(true)));
            assert_eq!(ttl, 600);
        }
        other => panic!("expected a save, got {:?}", other),
    }
}

#[test]
fn session_that_was_only_read_is_touched() {
    let p = pipeline();
    let req = Request::new("/user/update", vec![signed_cookie("abc")]);
    let session = Session::resume("abc".to_string(), logged_in_bag(false));
    let done = p.complete_with_id(&req, session, ok(), AuthEvent::Other, "unused".to_string());
    assert_eq!(done.response, ok());
    match done.command {
        StoreCommand::Touch { id, ttl } => {
            assert_eq!(id, "abc");
            assert_eq!(ttl, 600);
        }
        other => panic!("expected a touch, got {:?}", other),
    }
}

#[test]
fn session_that_was_written_is_saved_under_its_identifier() {
    let p = pipeline();
    let req = Request::new("/user/update", vec![signed_cookie("abc")]);
    let mut session = Session::resume("abc".to_string(), logged_in_bag(false));
    session.set("name", AttrValue::Text("ann".to_string()));
    let done = p.complete_with_id(&req, session, ok(), AuthEvent::Other, "unused".to_string());
    assert_eq!(done.response, ok());
    match done.command {
        StoreCommand::Save { id, bag, ttl } => {
            assert_eq!(id, "abc");
            assert_eq!(bag.get("name"), Some(&AttrValue::Text("ann".to_string())));
            assert_eq!(bag.len(), 3);
            assert_eq!(ttl, 600);
        }
        other => panic!("expected a save, got {:?}", other),
    }
}

#[test]
fn remembered_session_gets_the_long_lifetime_in_cookie_and_store() {
    let p = pipeline();
    let cookie = signed_cookie("abc");
    let req = Request::new("/user/update", vec![cookie.clone()]);
    let session = Session::resume("abc".to_string(), logged_in_bag(true));
    let done = p.complete_with_id(&req, session, ok(), AuthEvent::Other, "unused".to_string());
    let set = cookie_of(&done.response).expect("a session cookie");
    assert_eq!(set.max_age, 2592000);
    assert_eq!(set.value, cookie.value);
    match done.command {
        StoreCommand::Touch { id, ttl } => {
            assert_eq!(id, "abc");
            assert_eq!(ttl, 2592000);
        }
        other => panic!("expected a touch, got {:?}", other),
    }
}

#[test]
fn logout_deletes_the_record_and_sets_no_cookie() {
    let p = pipeline();
    let req = Request::new("/logout", vec![signed_cookie("abc")]);
    let session = Session::resume("abc".to_string(), logged_in_bag(false));
    let done = p.complete_with_id(&req, session, ok(), AuthEvent::Logout, "unused".to_string());
    assert_eq!(done.response, ok());
    match done.command {
        StoreCommand::Delete { id } => assert_eq!(id, "abc"),
        other => panic!("expected a delete, got {:?}", other),
    }
}

#[test]
fn logout_without_a_session_tells_the_store_nothing() {
    let p = pipeline();
    let req = Request::new("/login", Vec::new());
    let done =
        p.complete_with_id(&req, Session::fresh(), ok(), AuthEvent::Logout, "unused".to_string());
    assert_eq!(done.response, ok());
    assert!(matches!(done.command, StoreCommand::Nothing));
}

#[test]
fn complete_draws_an_identifier_of_letters_and_digits() {
    let p = pipeline();
    let req = Request::new("/register", Vec::new());
    let first = p.complete(&req, Session::fresh(), ok(), AuthEvent::Other);
    let second = p.complete(&req, Session::fresh(), ok(), AuthEvent::Other);
    let id_of = |command: StoreCommand| match command {
        StoreCommand::Save { id, .. } => id,
        other => panic!("expected a save, got {:?}", other),
    };
    let a = id_of(first.command);
    let b = id_of(second.command);
    assert_eq!(SESSION_ID_LEN, 32);
    assert_eq!(a.chars().count(), 32);
    assert!(a.chars().all(|c| c.is_ascii_alphanumeric()));
    assert_eq!(b.chars().count(), 32);
    assert_ne!(a, b);
    assert_eq!(
        verify_text(&cookie_of(&first.response).unwrap().value, &key()),
        Some(a)
    );
}

#[test]
fn the_gate_never_runs_the_handler() {
    let p = pipeline();
    let mut store = MemoryStore::new();
    let calls = Cell::new(0u32);
    let requests = [
        Request::new("/user/update", Vec::new()),
        Request::new("/user/update", vec![signed_cookie("abc")]),
        Request::new("/logout", vec![Cookie::new("sid", "forged")]),
        Request::new("/work-record/create", vec![signed_cookie("other")]),
    ];
    let mut not_logged_in = AttributeBag::new();
    not_logged_in.insert("logged_in", AttrValue::Bool(false));
    not_logged_in.insert("remember", AttrValue::Bool(true));
    store.set("other", not_logged_in, 600, 0);
    for req in requests.iter() {
        let response = p.serve(&mut store, req, 1, |_req: &Request, mut session: Session| {
            calls.set(calls.get() + 1);
            session.set_bool("logged_in", true);
            Handled { session, response: ok(), event: AuthEvent::Login { identity: 1 } }
        });
        assert_eq!(response.status, 401);
        assert_eq!(response.body, "unauthorized");
        assert!(response.set_cookies.is_empty());
    }
    assert_eq!(calls.get(), 0);
    assert!(matches!(store.get("abc", 1), Lookup::Absent));
    match store.get("other", 1) {
        Lookup::Found(bag) => assert_eq!(bag.get("logged_in"), Some(&AttrValue::Bool(false))),
        other => panic!("expected a record, got {:?}", other),
    }
}

#[test]
fn not_found_never_runs_the_handler() {
    let p = pipeline();
    let mut store = MemoryStore::new();
    let calls = Cell::new(0u32);
    let req = Request::new("/nowhere", vec![signed_cookie("abc")]);
    let response = p.serve(&mut store, &req, 1, |_req: &Request, session: Session| {
        calls.set(calls.get() + 1);
        Handled { session, response: ok(), event: AuthEvent::Other }
    });
    assert_eq!(response.status, 404);
    assert_eq!(calls.get(), 0);
}

#[test]
fn logout_orphans_the_cookie() {
    let p = pipeline();
    let mut store = MemoryStore::new();
    store.set("abc", logged_in_bag(false), 600, 0);
    let cookie = signed_cookie("abc");
    let logout = Request::new("/logout", vec![cookie.clone()]);
    let response = p.serve(&mut store, &logout, 1, |_req: &Request, session: Session| Handled {
        session,
        response: ok(),
        event: AuthEvent::Logout,
    });
    assert_eq!(response.status, 200);
    assert!(matches!(store.get("abc", 2), Lookup::Absent));
    let seen = Cell::new(None);
    let next = Request::new("/login", vec![cookie]);
    p.serve(&mut store, &next, 2, |_req: &Request, session: Session| {
        seen.set(Some((
            session.attributes().len(),
            session.get_bool("logged_in"),
            session.get_int("user_id"),
        )));
        Handled { session, response: ok(), event: AuthEvent::Other }
    });
    assert_eq!(seen.get(), Some((0, None, None)));
}

#[test]
fn login_remember_protected_logout_protected() {
    let p = pipeline();
    let mut store = MemoryStore::new();
    let handler_calls = Cell::new(0u32);

    let first = p.serve(
        &mut store,
        &Request::new("/register", Vec::new()),
        100,
        |_req: &Request, session: Session| Handled {
            session,
            response: ok(),
            event: AuthEvent::Other,
        },
    );
    let issued = cookie_of(&first).expect("a session cookie").clone();
    assert_eq!(issued.max_age, 1800);
    let cookie = as_request_cookie(&issued);
    let id = verify_text(&cookie.value, &key()).expect("a signed identifier");

    let login = p.serve(
        &mut store,
        &Request::new("/login", vec![cookie.clone()]),
        101,
        |_req: &Request, mut session: Session| {
            session.set_bool("remember", true);
            Handled { session, response: ok(), event: AuthEvent::Login { identity: 7 } }
        },
    );
    assert_eq!(login.status, 200);
    let extended = cookie_of(&login).expect("a session cookie");
    assert_eq!(extended.max_age, 2592000);
    assert_eq!(extended.value, cookie.value);
    assert_eq!(
        extended.header_value(),
        format!("sid={}; HttpOnly; Path=/; Max-Age=2592000", cookie.value)
    );
    match store.get(&id, 102) {
        Lookup::Found(bag) => {
            assert_eq!(bag.get("logged_in"), Some(&AttrValue::Bool(true)));
            assert_eq!(bag.get("user_id"), Some(&AttrValue::Int(7)));
            assert_eq!(bag.get("remember"), Some(&AttrValue::Bool(true)));
        }
        other => panic!("expected a record, got {:?}", other),
    }
    assert!(matches!(store.get(&id, 101 + 2592000 - 1), Lookup::Found(_)));

    let protected = p.serve(
        &mut store,
        &Request::new("/user/update", vec![cookie.clone()]),
        200,
        |_req: &Request, session: Session| {
            handler_calls.set(handler_calls.get() + 1);
            assert_eq!(session.get_int("user_id"), Some(7));
            Handled {
                session,
                response: Response::new(STATUS_OK, "updated"),
                event: AuthEvent::Other,
            }
        },
    );
    assert_eq!(protected.status, 200);
    assert_eq!(protected.body, "updated");
    assert_eq!(handler_calls.get(), 1);

    let logout = p.serve(
        &mut store,
        &Request::new("/logout", vec![cookie.clone()]),
        300,
        |_req: &Request, session: Session| Handled {
            session,
            response: ok(),
            event: AuthEvent::Logout,
        },
    );
    assert_eq!(logout.status, 200);
    assert!(matches!(store.get(&id, 301), Lookup::Absent));

    let again = p.serve(
        &mut store,
        &Request::new("/user/update", vec![cookie]),
        400,
        |_req: &Request, session: Session| {
            handler_calls.set(handler_calls.get() + 1);
            Handled { session, response: ok(), event: AuthEvent::Other }
        },
    );
    assert_eq!(again.status, 401);
    assert_eq!(again.body, "unauthorized");
    assert_eq!(handler_calls.get(), 1);
}

#[test]
fn session_expires_when_it_is_not_used() {
    let p = pipeline();
    let mut store = MemoryStore::new();
    store.set("abc", logged_in_bag(false), 600, 0);
    let req = Request::new("/user/update", vec![signed_cookie("abc")]);
    let pass = |_req: &Request, session: Session| Handled {
        session,
        response: ok(),
        event: AuthEvent::Other,
    };
    assert_eq!(p.serve(&mut store, &req, 500, pass).status, 200);
    assert_eq!(p.serve(&mut store, &req, 1000, pass).status, 200);
    assert_eq!(p.serve(&mut store, &req, 1600, pass).status, 401);
}

#[test]
fn emit_sends_what_was_prepared_when_the_store_was_told() {
    let p = pipeline();
    let req = Request::new("/login", Vec::new());
    let mut prepared = Response::new(STATUS_OK, "welcome");
    prepared.put_cookie(SetCookie {
        name: "sid".to_string(),
        value: "v".to_string(),
        http_only: true,
        path: "/".to_string(),
        max_age: 1800,
    });
    assert_eq!(p.emit(&req, prepared.clone(), Stored::Done), prepared);
}

#[test]
fn emit_reports_a_store_that_could_not_be_told() {
    let p = pipeline();
    let req = Request::new("/login", Vec::new());
    let out = p.emit(&req, Response::new(STATUS_OK, "welcome"), Stored::Unavailable);
    assert_eq!(out.status, 503);
    assert_eq!(out.body, "service unavailable");
    assert!(out.set_cookies.is_empty());
}
