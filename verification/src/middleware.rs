//! The two stages that see a response on its way out: one records a login or
//! a logout in the session, the other gives the session cookie of a client
//! that asked to be remembered its longer lifetime.

use crate::codec::{verified_text, verify_text};
use crate::config::{Config, ConfigView};
use crate::http::{
    directive_for, lemma_replaced_is_found, lemma_replaced_twice, replaced, CookieView, Request,
    RequestView, Response, ResponseView, SetCookie, SetCookieView,
};
use crate::session::{bool_at, int_at, Attributes, Session, SessionView, Value};
use crate::text::str_equal;
use vstd::prelude::*;

verus! {

/// Name of the attribute that says whether the client asked to be remembered.
pub open spec fn remember_name() -> Seq<char> {
    "remember"@
}

/// Name of the attribute that says whether the client is logged in.
pub open spec fn logged_in_name() -> Seq<char> {
    "logged_in"@
}

/// Name of the attribute that holds the identity of the client that is logged in.
pub open spec fn identity_name() -> Seq<char> {
    "user_id"@
}

/// The payload of the first cookie called `name` whose value verifies under `key`.
pub open spec fn first_verified(cookies: Seq<CookieView>, name: Seq<char>, key: Seq<u8>) -> Option<
    Seq<char>,
>
    decreases cookies.len(),
{
    if cookies.len() == 0 {
        None
    } else if cookies.first().name == name && verified_text(key, cookies.first().value) is Some {
        verified_text(key, cookies.first().value)
    } else {
        first_verified(cookies.drop_first(), name, key)
    }
}

/// The last cookie called `name`.
pub open spec fn last_named(cookies: Seq<CookieView>, name: Seq<char>) -> Option<CookieView>
    decreases cookies.len(),
{
    if cookies.len() == 0 {
        None
    } else if cookies.last().name == name {
        Some(cookies.last())
    } else {
        last_named(cookies.drop_last(), name)
    }
}

/// The directive that sets `cookie` again, for scripts not to read, for every
/// path, and for `max_age` seconds.
pub open spec fn extended(cookie: CookieView, max_age: nat) -> SetCookieView {
    SetCookieView { name: cookie.name, value: cookie.value, http_only: true, path: "/"@, max_age }
}

/// The response after the session cookie that the request carries was given
/// the lifetime of a remembered session. A request without that cookie leaves
/// the response as it is.
pub open spec fn with_max_age(
    cfg: ConfigView,
    req: RequestView,
    res: ResponseView,
) -> ResponseView {
    match last_named(req.cookies, cfg.cookie_name) {
        Some(cookie) => ResponseView {
            set_cookies: replaced(res.set_cookies, extended(cookie, cfg.remember_max_age)),
            ..res
        },
        None => res,
    }
}

/// Whether the lifetime is extended: the session says that the client asked
/// to be remembered, and the request carries a session cookie that verifies.
pub open spec fn remember_applies(cfg: ConfigView, req: RequestView, attrs: Attributes) -> bool {
    bool_at(attrs, remember_name()) == Some(true) && first_verified(
        req.cookies,
        cfg.cookie_name,
        cfg.key,
    ) is Some
}

/// The response as the remember-me stage leaves it.
pub open spec fn remembered(
    cfg: ConfigView,
    req: RequestView,
    attrs: Attributes,
    res: ResponseView,
) -> ResponseView {
    if remember_applies(cfg, req, attrs) {
        with_max_age(cfg, req, res)
    } else {
        res
    }
}

/// The identifier of the session that a request belongs to: the payload of its
/// first session cookie that verifies. A request without such a cookie belongs
/// to no session yet.
pub fn get_redis_key(req: &Request, config: &Config) -> (r: Option<String>)
    ensures
        r is Some == first_verified(req@.cookies, config@.cookie_name, config@.key) is Some,
        r matches Some(id) ==> first_verified(req@.cookies, config@.cookie_name, config@.key)
            == Some(id@),
{
    let mut i: usize = 0;
    assert(req@.cookies.skip(0) =~= req@.cookies);
    while i < req.cookies.len()
        invariant
            i <= req.cookies.len(),
            first_verified(req@.cookies, config@.cookie_name, config@.key) == first_verified(
                req@.cookies.skip(i as int),
                config@.cookie_name,
                config@.key,
            ),
        decreases req.cookies.len() - i,
    {
        let cookie = &req.cookies[i];
        proof {
            assert(req@.cookies.skip(i as int).first() == cookie@);
            assert(req@.cookies.skip(i as int).drop_first() =~= req@.cookies.skip(i + 1));
        }
        if str_equal(cookie.name.as_str(), config.cookie_name.as_str()) {
            match verify_text(cookie.value.as_str(), &config.key) {
                Some(id) => {
                    return Some(id);
                },
                None => {},
            }
        }
        i += 1;
    }
    None
}

/// Sets the session cookie that the request carries again on the response,
/// with the lifetime of a remembered session. The directive takes the place
/// of any that the response holds for the cookie. Where the request carries
/// the cookie more than once, the last one is taken.
pub fn update_max_age(req: &Request, res: &mut Response, config: &Config)
    ensures
        final(res)@ == with_max_age(config@, req@, old(res)@),
{
    let mut found: Option<usize> = None;
    let mut i: usize = 0;
    while i < req.cookies.len()
        invariant
            i <= req.cookies.len(),
            found matches Some(j) ==> j < i,
            last_named(req@.cookies.take(i as int), config@.cookie_name) == (match found {
                Some(j) => Some(req@.cookies[j as int]),
                None => None,
            }),
        decreases req.cookies.len() - i,
    {
        proof {
            assert(req@.cookies.take(i + 1).drop_last() =~= req@.cookies.take(i as int));
            assert(req@.cookies.take(i + 1).last() == req.cookies[i as int]@);
        }
        if str_equal(req.cookies[i].name.as_str(), config.cookie_name.as_str()) {
            found = Some(i);
        }
        i += 1;
    }
    assert(req@.cookies.take(i as int) =~= req@.cookies);
    match found {
        Some(j) => {
            let cookie = &req.cookies[j];
            let directive = SetCookie {
                name: cookie.name.clone(),
                value: cookie.value.clone(),
                http_only: true,
                path: "/".to_owned(),
                max_age: config.remember_max_age,
            };
            res.put_cookie(directive);
        },
        None => {},
    }
}

/// What a stage answers when a request comes in.
#[derive(Debug, Clone, Copy, PartialEq, Eq, Structural)]
pub enum Started {
    /// The stage has nothing to do before the handler runs.
    Done,
}

/// The remember-me stage.
pub struct Remember;

impl Remember {
    /// Sees a request on its way in, and leaves it alone.
    pub fn start(&self, req: &Request) -> (r: Started)
        ensures
            r == Started::Done,
    {
        Started::Done
    }

    /// Whether the lifetime is to be extended: the session says that the
    /// client asked to be remembered, and the request carries a session cookie
    /// that verifies.
    pub fn applies(&self, req: &Request, session: &Session, config: &Config) -> (r: bool)
        ensures
            r == remember_applies(config@, req@, session@.attrs),
    {
        match session.get_bool("remember") {
            Some(remember) => remember && get_redis_key(req, config).is_some(),
            None => false,
        }
    }

    /// Sees a response on its way out. Where the session says that the client
    /// asked to be remembered and the request carries a session cookie that
    /// verifies, the cookie is set again with the longer lifetime. Otherwise
    /// the response goes out as it came.
    pub fn response(
        &self,
        req: &Request,
        session: &Session,
        config: &Config,
        res: Response,
    ) -> (out: Response)
        ensures
            out@ == remembered(config@, req@, session@.attrs, res@),
    {
        let mut res = res;
        if self.applies(req, session, config) {
            update_max_age(req, &mut res, config);
        }
        res
    }
}

/// What a handler reports of the request it served.
#[derive(Debug, Clone, Copy, PartialEq, Eq, Structural)]
pub enum AuthEvent {
    /// The client proved to be the user with this identity.
    Login { identity: i64 },
    /// The client logged out.
    Logout,
    /// Neither.
    Other,
}

/// The session after an event was recorded in it. A login sets the login flag
/// and the identity. A logout clears both and ends the session.
pub open spec fn marked(session: SessionView, event: AuthEvent) -> SessionView {
    match event {
        AuthEvent::Login { identity } => SessionView {
            attrs: session.attrs.insert(logged_in_name(), Value::Bool(true)).insert(
                identity_name(),
                Value::Int(identity as int),
            ),
            dirty: true,
            ..session
        },
        AuthEvent::Logout => SessionView {
            attrs: session.attrs.remove(logged_in_name()).remove(identity_name()),
            dirty: true,
            ended: true,
            ..session
        },
        AuthEvent::Other => session,
    }
}

/// The login-state stage.
pub struct MarkLoginState;

impl MarkLoginState {
    /// Sees a response on its way out, and records in the session what the
    /// handler reported.
    pub fn response(&self, event: AuthEvent, session: &mut Session)
        ensures
            final(session)@ == marked(old(session)@, event),
    {
        match event {
            AuthEvent::Login { identity } => {
                session.set_bool("logged_in", true);
                session.set_int("user_id", identity);
            },
            AuthEvent::Logout => {
                session.clear("logged_in");
                session.clear("user_id");
                session.end();
            },
            AuthEvent::Other => {},
        }
    }
}

/// A request whose session cookie verifies carries a cookie of that name.
pub proof fn lemma_verified_is_named(cookies: Seq<CookieView>, name: Seq<char>, key: Seq<u8>)
    requires
        first_verified(cookies, name, key) is Some,
    ensures
        last_named(cookies, name) matches Some(cookie) && cookie.name == name,
    decreases cookies.len(),
{
    if cookies.first().name == name && verified_text(key, cookies.first().value) is Some {
        lemma_named_stays(cookies, name, 0);
    } else {
        lemma_verified_is_named(cookies.drop_first(), name, key);
        let rest = cookies.drop_first();
        assert forall|i: int| 0 <= i < rest.len() implies rest[i] == cookies[i + 1] by {}
        lemma_last_named_found(rest, name);
        let j = choose|j: int| 0 <= j < rest.len() && rest[j].name == name;
        lemma_named_stays(cookies, name, j + 1);
    }
}

/// Where a cookie is called `name`, the last cookie of that name exists.
pub proof fn lemma_named_stays(cookies: Seq<CookieView>, name: Seq<char>, at: int)
    requires
        0 <= at < cookies.len(),
        cookies[at].name == name,
    ensures
        last_named(cookies, name) matches Some(cookie) && cookie.name == name,
    decreases cookies.len(),
{
    if cookies.last().name != name {
        lemma_named_stays(cookies.drop_last(), name, at);
    }
}

/// Where the last cookie of a name exists, some cookie has the name.
pub proof fn lemma_last_named_found(cookies: Seq<CookieView>, name: Seq<char>)
    requires
        last_named(cookies, name) is Some,
    ensures
        exists|j: int| 0 <= j < cookies.len() && cookies[j].name == name,
    decreases cookies.len(),
{
    if cookies.last().name == name {
        assert(cookies[cookies.len() - 1].name == name);
    } else {
        lemma_last_named_found(cookies.drop_last(), name);
        let rest = cookies.drop_last();
        let j = choose|j: int| 0 <= j < rest.len() && rest[j].name == name;
        assert(cookies[j].name == name);
    }
}

/// Remember extension: where the session says that the client asked to be
/// remembered and the request carries a session cookie that verifies, the
/// response sets the session cookie for the lifetime of a remembered session,
/// for scripts not to read and for every path.
pub proof fn lemma_remember_extends(
    cfg: ConfigView,
    req: RequestView,
    attrs: Attributes,
    res: ResponseView,
)
    requires
        bool_at(attrs, remember_name()) == Some(true),
        first_verified(req.cookies, cfg.cookie_name, cfg.key) is Some,
    ensures
        directive_for(remembered(cfg, req, attrs, res).set_cookies, cfg.cookie_name) matches Some(
            directive,
        ) && directive.max_age == cfg.remember_max_age && directive.http_only && directive.path
            == "/"@,
        remembered(cfg, req, attrs, res).status == res.status,
        remembered(cfg, req, attrs, res).body == res.body,
{
    lemma_verified_is_named(req.cookies, cfg.cookie_name, cfg.key);
    let cookie = last_named(req.cookies, cfg.cookie_name).unwrap();
    lemma_replaced_is_found(res.set_cookies, extended(cookie, cfg.remember_max_age));
}

/// No extension without the flag: where the session does not say that the
/// client asked to be remembered, the response goes out as it came, and the
/// lifetime that the session cookie was set with stands.
pub proof fn lemma_no_extension_without_flag(
    cfg: ConfigView,
    req: RequestView,
    attrs: Attributes,
    res: ResponseView,
)
    requires
        bool_at(attrs, remember_name()) != Some(true),
    ensures
        remembered(cfg, req, attrs, res) == res,
{
}

/// No extension without a cookie that verifies: the response goes out as it
/// came, whatever the session says.
pub proof fn lemma_no_extension_without_cookie(
    cfg: ConfigView,
    req: RequestView,
    attrs: Attributes,
    res: ResponseView,
)
    requires
        first_verified(req.cookies, cfg.cookie_name, cfg.key) is None,
    ensures
        remembered(cfg, req, attrs, res) == res,
{
}

/// The remember-me stage may run twice: the second run leaves what the first left.
pub proof fn lemma_remember_twice(
    cfg: ConfigView,
    req: RequestView,
    attrs: Attributes,
    res: ResponseView,
)
    ensures
        remembered(cfg, req, attrs, remembered(cfg, req, attrs, res)) == remembered(
            cfg,
            req,
            attrs,
            res,
        ),
{
    if remember_applies(cfg, req, attrs) {
        match last_named(req.cookies, cfg.cookie_name) {
            Some(cookie) => {
                lemma_replaced_twice(res.set_cookies, extended(cookie, cfg.remember_max_age));
            },
            None => {},
        }
    }
}

/// After a login the session says that the client is logged in, and who it is.
pub proof fn lemma_login_marks(session: SessionView, identity: i64)
    ensures
        bool_at(marked(session, AuthEvent::Login { identity }).attrs, logged_in_name()) == Some(
            true,
        ),
        int_at(marked(session, AuthEvent::Login { identity }).attrs, identity_name())
            == Some(identity as int),
        bool_at(marked(session, AuthEvent::Login { identity }).attrs, remember_name()) == bool_at(
            session.attrs,
            remember_name(),
        ),
{
    reveal_strlit("remember");
    reveal_strlit("logged_in");
    reveal_strlit("user_id");
    assert(logged_in_name() != identity_name()) by {
        assert(logged_in_name().len() != identity_name().len());
    }
    assert(remember_name() != identity_name()) by {
        assert(remember_name().len() != identity_name().len());
    }
    assert(remember_name() != logged_in_name()) by {
        assert(remember_name().len() != logged_in_name().len());
    }
}

/// After a logout the session no longer says that the client is logged in,
/// nor who it was, and it is ended.
pub proof fn lemma_logout_marks(session: SessionView)
    ensures
        bool_at(marked(session, AuthEvent::Logout).attrs, logged_in_name()) is None,
        int_at(marked(session, AuthEvent::Logout).attrs, identity_name()) is None,
        marked(session, AuthEvent::Logout).ended,
{
}

} // verus!
