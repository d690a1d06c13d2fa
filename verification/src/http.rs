//! Requests and responses as the session layer sees them: a path and cookies
//! coming in, a status, a body and cookie directives going out.

use crate::text::str_equal;
use vstd::prelude::*;

verus! {

/// A cookie as a request carries it.
#[derive(Debug, Clone, PartialEq, Eq)]
pub struct Cookie {
    pub name: String,
    pub value: String,
}

/// What a request's cookie holds.
pub struct CookieView {
    pub name: Seq<char>,
    pub value: Seq<char>,
}

impl View for Cookie {
    type V = CookieView;

    open spec fn view(&self) -> CookieView {
        CookieView { name: self.name@, value: self.value@ }
    }
}

/// A cookie as a response sets it.
#[derive(Debug, Clone, PartialEq, Eq)]
pub struct SetCookie {
    pub name: String,
    pub value: String,
    pub http_only: bool,
    pub path: String,
    /// Lifetime in seconds.
    pub max_age: u32,
}

/// What a cookie directive holds.
pub struct SetCookieView {
    pub name: Seq<char>,
    pub value: Seq<char>,
    pub http_only: bool,
    pub path: Seq<char>,
    pub max_age: nat,
}

impl View for SetCookie {
    type V = SetCookieView;

    open spec fn view(&self) -> SetCookieView {
        SetCookieView {
            name: self.name@,
            value: self.value@,
            http_only: self.http_only,
            path: self.path@,
            max_age: self.max_age as nat,
        }
    }
}

/// An incoming request.
#[derive(Debug, Clone, PartialEq, Eq)]
pub struct Request {
    pub path: String,
    pub cookies: Vec<Cookie>,
}

/// What a request holds.
pub struct RequestView {
    pub path: Seq<char>,
    pub cookies: Seq<CookieView>,
}

impl View for Request {
    type V = RequestView;

    open spec fn view(&self) -> RequestView {
        RequestView { path: self.path@, cookies: self.cookies@.map_values(|c: Cookie| c@) }
    }
}

/// An outgoing response.
#[derive(Debug, Clone, PartialEq, Eq)]
pub struct Response {
    pub status: u16,
    pub body: String,
    pub set_cookies: Vec<SetCookie>,
}

/// What a response holds.
pub struct ResponseView {
    pub status: u16,
    pub body: Seq<char>,
    pub set_cookies: Seq<SetCookieView>,
}

impl View for Response {
    type V = ResponseView;

    open spec fn view(&self) -> ResponseView {
        ResponseView {
            status: self.status,
            body: self.body@,
            set_cookies: self.set_cookies@.map_values(|c: SetCookie| c@),
        }
    }
}

/// Status of a response that a handler produced without complaint.
pub const STATUS_OK: u16 = 200;

/// Status of the response to a request that the login gate turned away.
pub const STATUS_UNAUTHORIZED: u16 = 401;

/// Status of the response to a request for a path that no route serves.
pub const STATUS_NOT_FOUND: u16 = 404;

/// Status of the response to a request that could not reach the session store.
pub const STATUS_SERVICE_UNAVAILABLE: u16 = 503;

/// The decimal digit for a value below ten.
pub open spec fn digit_char(d: nat) -> char {
    ((48 + d) as u8) as char
}

/// The decimal spelling of a number, without sign or leading zeros.
pub open spec fn decimal(n: nat) -> Seq<char>
    decreases n,
{
    if n < 10 {
        seq![digit_char(n)]
    } else {
        decimal(n / 10).push(digit_char(n % 10))
    }
}

/// The value of the `Set-Cookie` header for a directive: name and value, then
/// `HttpOnly` if it is set, the path and the lifetime.
pub open spec fn header_line(c: SetCookieView) -> Seq<char> {
    c.name + seq!['='] + c.value + (if c.http_only {
        "; HttpOnly"@
    } else {
        Seq::<char>::empty()
    }) + "; Path="@ + c.path + "; Max-Age="@ + decimal(c.max_age)
}

/// The directives of `cookies` but those for `name`, in their order.
pub open spec fn without(cookies: Seq<SetCookieView>, name: Seq<char>) -> Seq<SetCookieView>
    decreases cookies.len(),
{
    if cookies.len() == 0 {
        cookies
    } else if cookies.last().name == name {
        without(cookies.drop_last(), name)
    } else {
        without(cookies.drop_last(), name).push(cookies.last())
    }
}

/// The directives of `cookies` after `directive` has taken the place of every
/// earlier one for its name.
pub open spec fn replaced(cookies: Seq<SetCookieView>, directive: SetCookieView) -> Seq<
    SetCookieView,
> {
    without(cookies, directive.name).push(directive)
}

/// The directive for `name` among `cookies`: the last one, if there is any.
pub open spec fn directive_for(cookies: Seq<SetCookieView>, name: Seq<char>) -> Option<
    SetCookieView,
>
    decreases cookies.len(),
{
    if cookies.len() == 0 {
        None
    } else if cookies.last().name == name {
        Some(cookies.last())
    } else {
        directive_for(cookies.drop_last(), name)
    }
}

/// Renders a directive with the `cookie` crate: `Cookie::new`, then
/// `set_http_only`, `set_path`, `set_max_age` and the `Display` of `Cookie`.
/// That `Display` writes name, `=` and value unescaped, then `; HttpOnly` where
/// the flag is true, `; Path=` with the path and `; Max-Age=` with the whole
/// seconds in decimal. Secure, same-site, domain and expiry stay unset and
/// are not written.
#[verifier::external_body]
fn render_directive(name: &str, value: &str, http_only: bool, path: &str, max_age: u32) -> (line:
    String)
    ensures
        line@ == header_line(
            (SetCookieView {
                name: name@,
                value: value@,
                http_only,
                path: path@,
                max_age: max_age as nat,
            }),
        ),
{
    let mut rendered = cookie::Cookie::new(name, value);
    rendered.set_http_only(http_only);
    rendered.set_path(path);
    rendered.set_max_age(cookie::time::Duration::seconds(i64::from(max_age)));
    rendered.to_string()
}

impl Cookie {
    /// A cookie with the given name and value.
    pub fn new(name: &str, value: &str) -> (r: Cookie)
        ensures
            r@ == (CookieView { name: name@, value: value@ }),
    {
        Cookie { name: name.to_owned(), value: value.to_owned() }
    }
}

impl SetCookie {
    /// A second copy of the directive.
    pub fn duplicate(&self) -> (r: SetCookie)
        ensures
            r@ == self@,
    {
        SetCookie {
            name: self.name.clone(),
            value: self.value.clone(),
            http_only: self.http_only,
            path: self.path.clone(),
            max_age: self.max_age,
        }
    }

    /// The value of the `Set-Cookie` header that carries this directive.
    pub fn header_value(&self) -> (line: String)
        ensures
            line@ == header_line(self@),
    {
        render_directive(
            self.name.as_str(),
            self.value.as_str(),
            self.http_only,
            self.path.as_str(),
            self.max_age,
        )
    }
}

impl Request {
    /// A request for `path` that carries `cookies`.
    pub fn new(path: &str, cookies: Vec<Cookie>) -> (r: Request)
        ensures
            r.path@ == path@,
            r.cookies == cookies,
    {
        Request { path: path.to_owned(), cookies }
    }
}

impl Response {
    /// A response with a status and a body, and no cookie directive.
    pub fn new(status: u16, body: &str) -> (r: Response)
        ensures
            r@ == (ResponseView { status, body: body@, set_cookies: Seq::empty() }),
    {
        let r = Response { status, body: body.to_owned(), set_cookies: Vec::new() };
        assert(r@.set_cookies =~= Seq::empty());
        r
    }

    /// Sets a cookie: the directive takes the place of every directive for the
    /// same name that the response holds, and stands last.
    pub fn put_cookie(&mut self, directive: SetCookie)
        ensures
            final(self)@.status == old(self)@.status,
            final(self)@.body == old(self)@.body,
            final(self)@.set_cookies == replaced(old(self)@.set_cookies, directive@),
    {
        let ghost before = self@.set_cookies;
        let mut kept: Vec<SetCookie> = Vec::new();
        let mut i: usize = 0;
        while i < self.set_cookies.len()
            invariant
                i <= self.set_cookies.len(),
                self@.set_cookies == before,
                self.status == old(self).status,
                self.body == old(self).body,
                kept@.map_values(|c: SetCookie| c@) == without(
                    before.take(i as int),
                    directive.name@,
                ),
            decreases self.set_cookies.len() - i,
        {
            proof {
                assert(before.take(i + 1).drop_last() =~= before.take(i as int));
                assert(before.take(i + 1).last() == self.set_cookies[i as int]@);
            }
            if !str_equal(self.set_cookies[i].name.as_str(), directive.name.as_str()) {
                kept.push(self.set_cookies[i].duplicate());
                assert(kept@.map_values(|c: SetCookie| c@) =~= without(
                    before.take(i as int),
                    directive.name@,
                ).push(self.set_cookies[i as int]@));
            }
            i += 1;
        }
        assert(before.take(i as int) =~= before);
        kept.push(directive);
        assert(kept@.map_values(|c: SetCookie| c@) =~= replaced(before, directive@));
        self.set_cookies = kept;
    }
}

/// After a directive has been put, it is the directive for its name.
pub proof fn lemma_replaced_is_found(cookies: Seq<SetCookieView>, directive: SetCookieView)
    ensures
        directive_for(replaced(cookies, directive), directive.name) == Some(directive),
{
    let after = replaced(cookies, directive);
    assert(after.last() == directive);
}

/// Nothing for `name` is left among the directives without `name`.
pub proof fn lemma_without_has_none(cookies: Seq<SetCookieView>, name: Seq<char>)
    ensures
        directive_for(without(cookies, name), name) is None,
        forall|i: int|
            0 <= i < without(cookies, name).len() ==> (#[trigger] without(cookies, name)[i]).name
                != name,
        without(without(cookies, name), name) == without(cookies, name),
    decreases cookies.len(),
{
    if cookies.len() > 0 {
        lemma_without_has_none(cookies.drop_last(), name);
        if cookies.last().name != name {
            let rest = without(cookies.drop_last(), name);
            assert(rest.push(cookies.last()).drop_last() =~= rest);
        }
    }
}

/// Putting the same directive twice leaves what putting it once leaves.
pub proof fn lemma_replaced_twice(cookies: Seq<SetCookieView>, directive: SetCookieView)
    ensures
        replaced(replaced(cookies, directive), directive) == replaced(cookies, directive),
{
    let once = replaced(cookies, directive);
    lemma_without_has_none(cookies, directive.name);
    assert(once.drop_last() =~= without(cookies, directive.name));
}

/// Putting a directive leaves the directives for other names as they were.
pub proof fn lemma_replaced_keeps_others(
    cookies: Seq<SetCookieView>,
    directive: SetCookieView,
    name: Seq<char>,
)
    requires
        name != directive.name,
    ensures
        directive_for(replaced(cookies, directive), name) == directive_for(cookies, name),
    decreases cookies.len(),
{
    let after = replaced(cookies, directive);
    assert(after.drop_last() =~= without(cookies, directive.name));
    lemma_without_keeps_others(cookies, directive.name, name);
}

/// Taking out the directives for one name leaves those for another as they were.
pub proof fn lemma_without_keeps_others(
    cookies: Seq<SetCookieView>,
    removed: Seq<char>,
    name: Seq<char>,
)
    requires
        name != removed,
    ensures
        directive_for(without(cookies, removed), name) == directive_for(cookies, name),
    decreases cookies.len(),
{
    if cookies.len() > 0 {
        lemma_without_keeps_others(cookies.drop_last(), removed, name);
        if cookies.last().name != removed {
            let rest = without(cookies.drop_last(), removed);
            assert(rest.push(cookies.last()).drop_last() =~= rest);
        }
    }
}

} // verus!
