//! The pipeline: the order in which a request passes the session layer.
//!
//! A request comes in and is matched against the routes. Its session cookie
//! says which session it belongs to, and the store is asked for that session.
//! A protected route is served only where the session is that of a logged-in
//! client. The handler runs. On the way out the login-state stage records what
//! the handler reported, the session cookie is set where the session is new,
//! the remember-me stage extends its lifetime, and the store is told once what
//! to keep.
//!
//! The store and the handlers are outside this library. The steps here take
//! what they answered as plain values and say what to do next.

use crate::codec::{sign_text, signed_text, MAX_PAYLOAD_LEN};
use crate::config::{protects, Config, ConfigView};
use crate::error::{
    handle_error, not_found, not_found_response, store_unavailable, unauthorized_response,
    unavailable_response,
};
use crate::filter::{logged_in, CheckLogin};
use crate::http::{
    directive_for, lemma_replaced_is_found, replaced, Request, RequestView, Response,
    ResponseView, SetCookie, SetCookieView,
};
use crate::middleware::{
    first_verified, get_redis_key, lemma_login_marks, lemma_remember_extends, marked,
    remember_applies, remember_name, remembered, AuthEvent, MarkLoginState, Remember,
};
use crate::session::{bool_at, AttributeBag, Attributes, Session, SessionView};
use crate::store::{
    answer, applied, CommandView, Lookup, LookupView, MemoryStore, Records, StoreCommand,
};
use crate::text::str_equal;
use rand::distributions::{Alphanumeric, DistString};
use vstd::prelude::*;
use vstd::utf8::{encode_utf8, is_ascii_chars, is_ascii_chars_encode_utf8};

verus! {

/// Number of characters in the identifier of a new session.
pub const SESSION_ID_LEN: usize = 32;

/// What to do with a request that came in.
#[derive(Debug)]
pub enum Entry {
    /// No route serves the path: answer with this response.
    NotFound(Response),
    /// The request belongs to the session with this identifier: ask the store for it.
    Load(String),
    /// The request belongs to no session yet.
    Anonymous,
}

/// What an entry holds.
pub enum EntryView {
    NotFound(ResponseView),
    Load(Seq<char>),
    Anonymous,
}

impl View for Entry {
    type V = EntryView;

    open spec fn view(&self) -> EntryView {
        match self {
            Entry::NotFound(response) => EntryView::NotFound(response@),
            Entry::Load(id) => EntryView::Load(id@),
            Entry::Anonymous => EntryView::Anonymous,
        }
    }
}

/// Whether a request may go on to its handler.
#[derive(Debug)]
pub enum Admission {
    /// The store could not be asked: answer with this response.
    Unavailable(Response),
    /// The route is protected and the client is not logged in: answer with
    /// this response, and do not run the handler.
    Rejected(Response),
    /// Run the handler with this session.
    Admitted(Session),
}

/// What an admission holds.
pub enum AdmissionView {
    Unavailable(ResponseView),
    Rejected(ResponseView),
    Admitted(SessionView),
}

impl View for Admission {
    type V = AdmissionView;

    open spec fn view(&self) -> AdmissionView {
        match self {
            Admission::Unavailable(response) => AdmissionView::Unavailable(response@),
            Admission::Rejected(response) => AdmissionView::Rejected(response@),
            Admission::Admitted(session) => AdmissionView::Admitted(session@),
        }
    }
}

/// A request that is done: the response to send, and what to tell the store.
#[derive(Debug)]
pub struct Completed {
    pub response: Response,
    pub command: StoreCommand,
}

/// What a completed request holds.
pub struct CompletedView {
    pub response: ResponseView,
    pub command: CommandView,
}

impl View for Completed {
    type V = CompletedView;

    open spec fn view(&self) -> CompletedView {
        CompletedView { response: self.response@, command: self.command@ }
    }
}

/// What became of the command that the store was given.
#[derive(Debug, Clone, Copy, PartialEq, Eq, Structural)]
pub enum Stored {
    /// The store carried it out.
    Done,
    /// The store could not be reached or did not answer in time.
    Unavailable,
}

/// The response that goes out once the store was told: the one that was
/// prepared, or the fixed one if the store could not be told.
pub open spec fn emitted(response: ResponseView, stored: Stored) -> ResponseView {
    match stored {
        Stored::Done => response,
        Stored::Unavailable => unavailable_response(),
    }
}

/// What a handler hands back: the session as it left it, its response, and
/// what it reports of the request.
#[derive(Debug)]
pub struct Handled {
    pub session: Session,
    pub response: Response,
    pub event: AuthEvent,
}

/// The identifier that an entry asks the store for.
pub open spec fn entry_id(entry: EntryView) -> Option<Seq<char>> {
    match entry {
        EntryView::Load(id) => Some(id),
        _ => None,
    }
}

/// What the store in memory answers for an entry: a request without a session
/// does not ask.
pub open spec fn entry_lookup(records: Records, entry: EntryView, now: nat) -> LookupView {
    match entry {
        EntryView::Load(id) => answer(records, id, now),
        _ => LookupView::Absent,
    }
}

/// What to do with a request that came in: a path that is no route is not
/// found, and otherwise the session cookie decides.
pub open spec fn entered(cfg: ConfigView, routes: Seq<Seq<char>>, req: RequestView) -> EntryView {
    if !routes.contains(req.path) {
        EntryView::NotFound(not_found_response())
    } else {
        match first_verified(req.cookies, cfg.cookie_name, cfg.key) {
            Some(id) => EntryView::Load(id),
            None => EntryView::Anonymous,
        }
    }
}

/// The session that a request works on. An identifier without a record in the
/// store gives a session without attributes, as if it were new.
pub open spec fn opened(id: Option<Seq<char>>, lookup: LookupView) -> SessionView {
    SessionView {
        id,
        attrs: match (id, lookup) {
            (Some(_), LookupView::Found(attrs)) => attrs,
            _ => Attributes::empty(),
        },
        dirty: false,
        ended: false,
    }
}

/// Whether a request may go on to its handler.
pub open spec fn admission(
    cfg: ConfigView,
    req: RequestView,
    id: Option<Seq<char>>,
    lookup: LookupView,
) -> AdmissionView {
    if lookup is Unavailable {
        AdmissionView::Unavailable(unavailable_response())
    } else if protects(cfg.protected_prefixes, req.path) && !logged_in(opened(id, lookup).attrs) {
        AdmissionView::Rejected(unauthorized_response())
    } else {
        AdmissionView::Admitted(opened(id, lookup))
    }
}

/// The directive that sets the session cookie of a new session.
pub open spec fn session_cookie(cfg: ConfigView, id: Seq<char>) -> SetCookieView {
    SetCookieView {
        name: cfg.cookie_name,
        value: signed_text(cfg.key, id),
        http_only: true,
        path: "/"@,
        max_age: cfg.default_max_age,
    }
}

/// The response after the session cookie was set where the session is new.
pub open spec fn issued(
    cfg: ConfigView,
    session: SessionView,
    res: ResponseView,
    fresh_id: Seq<char>,
) -> ResponseView {
    if session.id is None && !session.ended {
        ResponseView {
            set_cookies: replaced(res.set_cookies, session_cookie(cfg, fresh_id)),
            ..res
        }
    } else {
        res
    }
}

/// The time for which the store is to keep the session: longer where the
/// remember-me stage extends the cookie.
pub open spec fn time_to_live(cfg: ConfigView, req: RequestView, attrs: Attributes) -> nat {
    if remember_applies(cfg, req, attrs) {
        cfg.remember_max_age
    } else {
        cfg.session_ttl
    }
}

/// What the store is told when a request is done. A session that was ended is
/// deleted. One that was written is saved, a new one under the fresh
/// identifier. One that was only read is kept for longer.
pub open spec fn flushed(
    cfg: ConfigView,
    req: RequestView,
    session: SessionView,
    fresh_id: Seq<char>,
) -> CommandView {
    let ttl = time_to_live(cfg, req, session.attrs);
    match session.id {
        Some(id) => if session.ended {
            CommandView::Delete { id }
        } else if session.dirty {
            CommandView::Save { id, attrs: session.attrs, ttl }
        } else {
            CommandView::Touch { id, ttl }
        },
        None => if session.ended {
            CommandView::Nothing
        } else {
            CommandView::Save { id: fresh_id, attrs: session.attrs, ttl }
        },
    }
}

/// What the way out makes of a handler's response: the login-state stage, the
/// cookie of a new session, the remember-me stage, and the word to the store.
pub open spec fn completed(
    cfg: ConfigView,
    req: RequestView,
    session: SessionView,
    res: ResponseView,
    event: AuthEvent,
    fresh_id: Seq<char>,
) -> CompletedView {
    let session = marked(session, event);
    CompletedView {
        response: remembered(cfg, req, session.attrs, issued(cfg, session, res, fresh_id)),
        command: flushed(cfg, req, session, fresh_id),
    }
}

/// Whether a character is an ASCII letter or digit.
pub open spec fn is_alphanumeric(c: char) -> bool {
    ('0' <= c <= '9') || ('a' <= c <= 'z') || ('A' <= c <= 'Z')
}

/// Draws a random identifier with `Alphanumeric.sample_string` of the `rand`
/// crate, on the thread's generator: `len` characters, each an ASCII letter or
/// digit. Which characters come is not said: two calls differ.
#[verifier::external_body]
fn random_token(len: usize) -> (token: String)
    ensures
        token@.len() == len,
        forall|i: int| 0 <= i < token@.len() ==> is_alphanumeric(#[trigger] token@[i]),
{
    Alphanumeric.sample_string(&mut rand::thread_rng(), len)
}

/// Draws the identifier of a new session: `SESSION_ID_LEN` letters and digits,
/// which is text that can be signed.
fn fresh_session_id() -> (id: String)
    ensures
        id@.len() == SESSION_ID_LEN,
        forall|i: int| 0 <= i < id@.len() ==> is_alphanumeric(#[trigger] id@[i]),
        encode_utf8(id@).len() <= MAX_PAYLOAD_LEN,
{
    let id = random_token(SESSION_ID_LEN);
    proof {
        assert(is_ascii_chars(id@)) by {
            assert forall|i: int| 0 <= i < id@.len() implies '\0' <= #[trigger] id@[i]
                <= '\u{7f}' by {
                assert(is_alphanumeric(id@[i]));
            }
        }
        is_ascii_chars_encode_utf8(id@);
    }
    id
}

/// The session layer, built with its settings and the paths that have a handler.
pub struct Pipeline {
    pub config: Config,
    pub routes: Vec<String>,
}

impl Pipeline {
    /// The paths that have a handler.
    pub open spec fn route_views(&self) -> Seq<Seq<char>> {
        self.routes@.map_values(|r: String| r@)
    }

    /// A pipeline with these settings, in front of these routes.
    pub fn new(config: Config, routes: Vec<String>) -> (r: Pipeline)
        ensures
            r.config == config,
            r.routes == routes,
    {
        Pipeline { config, routes }
    }

    /// Whether a handler serves `path`.
    pub fn is_route(&self, path: &str) -> (r: bool)
        ensures
            r == self.route_views().contains(path@),
    {
        let mut i: usize = 0;
        while i < self.routes.len()
            invariant
                i <= self.routes.len(),
                forall|j: int| 0 <= j < i ==> self.route_views()[j] != path@,
            decreases self.routes.len() - i,
        {
            if str_equal(self.routes[i].as_str(), path) {
                assert(self.route_views()[i as int] == path@);
                return true;
            }
            i += 1;
        }
        false
    }

    /// Takes a request in: says whether a route serves it and which session it
    /// belongs to. Nothing is asked of the store yet.
    pub fn enter(&self, req: &Request) -> (entry: Entry)
        ensures
            entry@ == entered(self.config@, self.route_views(), req@),
    {
        if !self.is_route(req.path.as_str()) {
            return Entry::NotFound(not_found(req));
        }
        match get_redis_key(req, &self.config) {
            Some(id) => Entry::Load(id),
            None => Entry::Anonymous,
        }
    }

    /// Opens the session and applies the login gate. `id` is the identifier
    /// that the request's cookie gave, and `lookup` what the store answered
    /// for it; for a request without a session, `id` is `None` and `lookup`
    /// is `Absent`. A rejected request changes nothing.
    pub fn screen(&self, req: &Request, id: Option<String>, lookup: Lookup) -> (r: Admission)
        ensures
            r@ == admission(
                self.config@,
                req@,
                match id {
                    Some(id) => Some(id@),
                    None => None,
                },
                lookup@,
            ),
    {
        let session = match lookup {
            Lookup::Unavailable => {
                return Admission::Unavailable(store_unavailable(req));
            },
            Lookup::Found(bag) => match id {
                Some(id) => Session::resume(id, bag),
                None => Session::fresh(),
            },
            Lookup::Absent => match id {
                Some(id) => Session::resume(id, AttributeBag::new()),
                None => Session::fresh(),
            },
        };
        if self.config.is_protected(req.path.as_str()) && !CheckLogin.check(&session) {
            Admission::Rejected(handle_error(req))
        } else {
            Admission::Admitted(session)
        }
    }

    /// Takes a handler's response out, with `fresh_id` as the identifier of
    /// the session if it is new. The identifier is one that can be signed.
    pub fn complete_with_id(
        &self,
        req: &Request,
        session: Session,
        res: Response,
        event: AuthEvent,
        fresh_id: String,
    ) -> (done: Completed)
        requires
            encode_utf8(fresh_id@).len() <= MAX_PAYLOAD_LEN,
        ensures
            done@ == completed(self.config@, req@, session@, res@, event, fresh_id@),
    {
        let mut session = session;
        let mut res = res;
        MarkLoginState.response(event, &mut session);
        if session.id().is_none() && !session.is_ended() {
            res.put_cookie(
                SetCookie {
                    name: self.config.cookie_name.clone(),
                    value: sign_text(fresh_id.as_str(), &self.config.key),
                    http_only: true,
                    path: "/".to_owned(),
                    max_age: self.config.default_max_age,
                },
            );
        }
        let ttl = if Remember.applies(req, &session, &self.config) {
            self.config.remember_max_age
        } else {
            self.config.session_ttl
        };
        let response = Remember.response(req, &session, &self.config, res);
        let (id, bag, dirty, ended) = session.into_parts();
        let command = match id {
            Some(id) => {
                if ended {
                    StoreCommand::Delete { id }
                } else if dirty {
                    StoreCommand::Save { id, bag, ttl }
                } else {
                    StoreCommand::Touch { id, ttl }
                }
            },
            None => {
                if ended {
                    StoreCommand::Nothing
                } else {
                    StoreCommand::Save { id: fresh_id, bag, ttl }
                }
            },
        };
        Completed { response, command }
    }

    /// Decides what goes out once the store was told what to keep. A store
    /// that could not be told is not passed over: the client gets the fixed
    /// response for a store that is unavailable, not the one that was prepared.
    pub fn emit(&self, req: &Request, response: Response, stored: Stored) -> (out: Response)
        ensures
            out@ == emitted(response@, stored),
    {
        match stored {
            Stored::Done => response,
            Stored::Unavailable => store_unavailable(req),
        }
    }

    /// Serves a request against a store in memory, in the order of the
    /// pipeline. A request for a path without a route, and one that the login
    /// gate turns away, gets its fixed response: the handler does not run and
    /// the store stays as it is. Every other request runs the handler once on
    /// the session that the store gave, and the store is told once what came
    /// of it.
    pub fn serve<H: FnOnce(&Request, Session) -> Handled>(
        &self,
        store: &mut MemoryStore,
        req: &Request,
        now: u64,
        handler: H,
    ) -> (response: Response)
        requires
            forall|session: Session| call_requires(handler, (req, session)),
        ensures
            ({
                let entry = entered(self.config@, self.route_views(), req@);
                let gate = admission(
                    self.config@,
                    req@,
                    entry_id(entry),
                    entry_lookup(old(store)@, entry, now as nat),
                );
                match (entry, gate) {
                    (EntryView::NotFound(fixed), _) => response@ == fixed && final(store)@ == old(
                        store,
                    )@,
                    (_, AdmissionView::Unavailable(fixed)) => response@ == fixed && final(store)@
                        == old(store)@,
                    (_, AdmissionView::Rejected(fixed)) => response@ == fixed && final(store)@
                        == old(store)@,
                    (_, AdmissionView::Admitted(opened)) => exists|
                        session: Session,
                        handled: Handled,
                        fresh_id: Seq<char>,
                    |
                        {
                            let done = #[trigger] completed(
                                self.config@,
                                req@,
                                handled.session@,
                                handled.response@,
                                handled.event,
                                fresh_id,
                            );
                            &&& session@ == opened
                            &&& #[trigger] call_ensures(handler, (req, session), handled)
                            &&& fresh_id.len() == SESSION_ID_LEN
                            &&& forall|i: int|
                                0 <= i < fresh_id.len() ==> is_alphanumeric(#[trigger] fresh_id[i])
                            &&& response@ == done.response
                            &&& final(store)@ == applied(old(store)@, done.command, now as nat)
                        },
                }
            }),
    {
        let entry = self.enter(req);
        let (id, lookup) = match entry {
            Entry::NotFound(fixed) => {
                return fixed;
            },
            Entry::Load(id) => {
                let lookup = store.get(id.as_str(), now);
                (Some(id), lookup)
            },
            Entry::Anonymous => (None, Lookup::Absent),
        };
        match self.screen(req, id, lookup) {
            Admission::Unavailable(fixed) => fixed,
            Admission::Rejected(fixed) => fixed,
            Admission::Admitted(session) => {
                let ghost given = session;
                let handled = handler(req, session);
                let ghost outcome = handled;
                let Handled { session, response, event } = handled;
                let fresh_id = fresh_session_id();
                let ghost id_view = fresh_id@;
                let done = self.complete_with_id(req, session, response, event, fresh_id);
                let Completed { response, command } = done;
                store.apply(command, now);
                proof {
                    let spec_done = completed(
                        self.config@,
                        req@,
                        outcome.session@,
                        outcome.response@,
                        outcome.event,
                        id_view,
                    );
                    assert(call_ensures(handler, (req, given), outcome));
                    assert(response@ == spec_done.response);
                }
                response
            },
        }
    }

    /// Takes a handler's response out. The identifier of a new session is
    /// drawn at random: `SESSION_ID_LEN` letters and digits.
    pub fn complete(
        &self,
        req: &Request,
        session: Session,
        res: Response,
        event: AuthEvent,
    ) -> (done: Completed)
        ensures
            exists|fresh_id: Seq<char>|
                {
                    &&& fresh_id.len() == SESSION_ID_LEN
                    &&& forall|i: int|
                        0 <= i < fresh_id.len() ==> is_alphanumeric(#[trigger] fresh_id[i])
                    &&& #[trigger] completed(self.config@, req@, session@, res@, event, fresh_id)
                        == done@
                },
    {
        let fresh_id = fresh_session_id();
        let ghost id_view = fresh_id@;
        let done = self.complete_with_id(req, session, res, event, fresh_id);
        assert(completed(self.config@, req@, session@, res@, event, id_view) == done@);
        done
    }
}

/// Gate: a request for a protected route whose session is not that of a
/// logged-in client is rejected with the unauthorized response, whatever the
/// handler would have done, and nothing else comes of it.
pub proof fn lemma_gate_rejects(
    cfg: ConfigView,
    req: RequestView,
    id: Option<Seq<char>>,
    lookup: LookupView,
)
    requires
        protects(cfg.protected_prefixes, req.path),
        !(lookup is Unavailable),
        !logged_in(opened(id, lookup).attrs),
    ensures
        admission(cfg, req, id, lookup) == AdmissionView::Rejected(unauthorized_response()),
{
}

/// Gate: every other request that could ask the store is admitted, with the
/// session as the store gave it.
pub proof fn lemma_gate_admits(
    cfg: ConfigView,
    req: RequestView,
    id: Option<Seq<char>>,
    lookup: LookupView,
)
    requires
        !(lookup is Unavailable),
        !protects(cfg.protected_prefixes, req.path) || logged_in(opened(id, lookup).attrs),
    ensures
        admission(cfg, req, id, lookup) == AdmissionView::Admitted(opened(id, lookup)),
{
}

/// A session cookie that does not verify counts as no cookie: the request is
/// taken in like the same request without any cookie.
pub proof fn lemma_invalid_cookie_is_no_cookie(
    cfg: ConfigView,
    routes: Seq<Seq<char>>,
    req: RequestView,
)
    requires
        first_verified(req.cookies, cfg.cookie_name, cfg.key) is None,
    ensures
        entered(cfg, routes, req) == entered(
            cfg,
            routes,
            (RequestView { cookies: Seq::empty(), ..req }),
        ),
{
}

/// A store that cannot be asked is reported: the request is neither let
/// through nor treated as one without a session, whatever it asks for.
pub proof fn lemma_unavailable_is_reported(
    cfg: ConfigView,
    req: RequestView,
    id: Option<Seq<char>>,
)
    ensures
        admission(cfg, req, id, LookupView::Unavailable) == AdmissionView::Unavailable(
            unavailable_response(),
        ),
{
}

/// A request without a session, or with an identifier that the store does not
/// know, is not that of a logged-in client.
pub proof fn lemma_unknown_is_anonymous(id: Option<Seq<char>>, lookup: LookupView)
    requires
        id is None || lookup is Absent,
    ensures
        opened(id, lookup).attrs == Attributes::empty(),
        !logged_in(opened(id, lookup).attrs),
{
}

/// No extension without the flag: where the session, after the handler, does
/// not say that the client asked to be remembered, the response is the
/// handler's, with the cookie of a new session set for the default lifetime.
pub proof fn lemma_default_lifetime(
    cfg: ConfigView,
    req: RequestView,
    session: SessionView,
    res: ResponseView,
    event: AuthEvent,
    fresh_id: Seq<char>,
)
    requires
        bool_at(marked(session, event).attrs, remember_name())
            != Some(true),
    ensures
        completed(cfg, req, session, res, event, fresh_id).response == issued(
            cfg,
            marked(session, event),
            res,
            fresh_id,
        ),
        marked(session, event).id is None && !marked(session, event).ended
            ==> directive_for(
            completed(cfg, req, session, res, event, fresh_id).response.set_cookies,
            cfg.cookie_name,
        ) == Some(session_cookie(cfg, fresh_id)) && session_cookie(cfg, fresh_id).max_age
            == cfg.default_max_age,
{
    lemma_replaced_is_found(res.set_cookies, session_cookie(cfg, fresh_id));
}

/// Remember extension on the way out: where the session, after the handler,
/// says that the client asked to be remembered and the request carries a
/// session cookie that verifies, the response sets the session cookie for the
/// lifetime of a remembered session, and the store keeps the session as long.
pub proof fn lemma_remembered_lifetime(
    cfg: ConfigView,
    req: RequestView,
    session: SessionView,
    res: ResponseView,
    event: AuthEvent,
    fresh_id: Seq<char>,
)
    requires
        bool_at(marked(session, event).attrs, remember_name())
            == Some(true),
        first_verified(req.cookies, cfg.cookie_name, cfg.key) is Some,
    ensures
        directive_for(
            completed(cfg, req, session, res, event, fresh_id).response.set_cookies,
            cfg.cookie_name,
        ) matches Some(directive) && directive.max_age == cfg.remember_max_age,
        time_to_live(cfg, req, marked(session, event).attrs) == cfg.remember_max_age,
{
    let after = marked(session, event);
    lemma_remember_extends(cfg, req, after.attrs, issued(cfg, after, res, fresh_id));
}

/// Logout destroys the session: the store is told to delete the record, and
/// from then on the same identifier opens a session without attributes, which
/// is not that of a logged-in client and is turned away from protected routes.
pub proof fn lemma_logout_destroys_session(
    cfg: ConfigView,
    req: RequestView,
    session: SessionView,
    res: ResponseView,
    fresh_id: Seq<char>,
    records: Records,
    now: nat,
    next: RequestView,
    later: nat,
)
    requires
        session.id is Some,
    ensures
        completed(cfg, req, session, res, AuthEvent::Logout, fresh_id).command
            == (CommandView::Delete { id: session.id.unwrap() }),
        answer(
            applied(
                records,
                completed(cfg, req, session, res, AuthEvent::Logout, fresh_id).command,
                now,
            ),
            session.id.unwrap(),
            later,
        ) == LookupView::Absent,
        opened(session.id, LookupView::Absent).attrs == Attributes::empty(),
        protects(cfg.protected_prefixes, next.path) ==> admission(
            cfg,
            next,
            session.id,
            LookupView::Absent,
        ) == AdmissionView::Rejected(unauthorized_response()),
{
}

/// A login is kept: after a handler reported a login, the store is told to
/// save a session that says so, under the identifier that the session had or
/// the fresh one, and a request that finds that session is let through.
pub proof fn lemma_login_is_kept(
    cfg: ConfigView,
    req: RequestView,
    session: SessionView,
    res: ResponseView,
    identity: i64,
    fresh_id: Seq<char>,
    next: RequestView,
)
    requires
        !session.ended,
    ensures
        ({
            let login = AuthEvent::Login { identity };
            let kept_id = match session.id {
                Some(id) => id,
                None => fresh_id,
            };
            &&& completed(cfg, req, session, res, login, fresh_id).command matches CommandView::Save {
                id,
                attrs,
                ..
            }
            &&& id == kept_id
            &&& logged_in(attrs)
            &&& admission(cfg, next, Some(id), LookupView::Found(attrs)) == AdmissionView::Admitted(
                opened(Some(id), LookupView::Found(attrs)),
            )
        }),
{
    lemma_login_marks(session, identity);
}

} // verus!
