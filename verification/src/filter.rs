//! The login gate: the test that a request for a protected route must pass
//! before its handler runs.

use crate::middleware::logged_in_name;
use crate::session::{bool_at, Attributes, Session};
use vstd::prelude::*;

verus! {

/// Whether a session with these attributes is that of a logged-in client.
pub open spec fn logged_in(attrs: Attributes) -> bool {
    bool_at(attrs, logged_in_name()) == Some(true)
}

/// The login gate.
pub struct CheckLogin;

impl CheckLogin {
    /// Whether the session is that of a logged-in client. The session is read
    /// and not changed.
    pub fn check(&self, session: &Session) -> (admitted: bool)
        ensures
            admitted == logged_in(session@.attrs),
    {
        match session.get_bool("logged_in") {
            Some(flag) => flag,
            None => false,
        }
    }
}

} // verus!
