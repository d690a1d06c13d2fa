//! The fixed responses of the session layer. None of them says anything of
//! the session, the store or the reason inside.

use crate::http::{
    Request, Response, ResponseView, STATUS_NOT_FOUND, STATUS_SERVICE_UNAVAILABLE,
    STATUS_UNAUTHORIZED,
};
use vstd::prelude::*;

verus! {

/// The response to a request for a path that no route serves.
pub open spec fn not_found_response() -> ResponseView {
    ResponseView { status: STATUS_NOT_FOUND, body: "not found"@, set_cookies: Seq::empty() }
}

/// The response to a request that the login gate turned away.
pub open spec fn unauthorized_response() -> ResponseView {
    ResponseView { status: STATUS_UNAUTHORIZED, body: "unauthorized"@, set_cookies: Seq::empty() }
}

/// The response to a request that could not reach the session store.
pub open spec fn unavailable_response() -> ResponseView {
    ResponseView {
        status: STATUS_SERVICE_UNAVAILABLE,
        body: "service unavailable"@,
        set_cookies: Seq::empty(),
    }
}

/// Answers a request for a path that no route serves.
pub fn not_found(req: &Request) -> (r: Response)
    ensures
        r@ == not_found_response(),
{
    Response::new(STATUS_NOT_FOUND, "not found")
}

/// Answers a request that the login gate turned away.
pub fn handle_error(req: &Request) -> (r: Response)
    ensures
        r@ == unauthorized_response(),
{
    Response::new(STATUS_UNAUTHORIZED, "unauthorized")
}

/// Answers a request that could not reach the session store.
pub fn store_unavailable(req: &Request) -> (r: Response)
    ensures
        r@ == unavailable_response(),
{
    Response::new(STATUS_SERVICE_UNAVAILABLE, "service unavailable")
}

/// The three fixed responses differ from one another by their status.
pub proof fn lemma_fixed_responses_differ()
    ensures
        not_found_response().status != unauthorized_response().status,
        not_found_response().status != unavailable_response().status,
        unauthorized_response().status != unavailable_response().status,
{
}

} // verus!
