//! The settings that the session layer is built with. They are made once, at
//! startup, and only read afterwards.

use crate::codec::SigningKey;
use crate::text::{bytes_start_with, is_prefix_of};
use vstd::prelude::*;
use vstd::string::*;
use vstd::utf8::*;

verus! {

/// The settings of the session layer.
pub struct Config {
    /// Name of the session cookie.
    pub cookie_name: String,
    /// Lifetime in seconds of a session cookie as it is first set.
    pub default_max_age: u32,
    /// Lifetime in seconds of the session cookie of a client that asked to be remembered.
    pub remember_max_age: u32,
    /// Time in seconds for which the store keeps a session that is not used.
    pub session_ttl: u32,
    /// Network address of the session store.
    pub store_address: String,
    /// Key under which session cookies are signed.
    pub key: SigningKey,
    /// A path that begins with one of these is served to logged-in clients only.
    pub protected_prefixes: Vec<String>,
}

/// What the settings hold.
pub struct ConfigView {
    pub cookie_name: Seq<char>,
    pub default_max_age: nat,
    pub remember_max_age: nat,
    pub session_ttl: nat,
    pub store_address: Seq<char>,
    pub key: Seq<u8>,
    pub protected_prefixes: Seq<Seq<char>>,
}

impl View for Config {
    type V = ConfigView;

    open spec fn view(&self) -> ConfigView {
        ConfigView {
            cookie_name: self.cookie_name@,
            default_max_age: self.default_max_age as nat,
            remember_max_age: self.remember_max_age as nat,
            session_ttl: self.session_ttl as nat,
            store_address: self.store_address@,
            key: self.key@,
            protected_prefixes: self.protected_prefixes@.map_values(|p: String| p@),
        }
    }
}

/// Whether `path` begins with `prefix`, both taken as UTF-8.
pub open spec fn begins_with(path: Seq<char>, prefix: Seq<char>) -> bool {
    is_prefix_of(encode_utf8(prefix), encode_utf8(path))
}

/// Whether `path` begins with one of `prefixes`.
pub open spec fn protects(prefixes: Seq<Seq<char>>, path: Seq<char>) -> bool {
    exists|i: int| 0 <= i < prefixes.len() && begins_with(path, #[trigger] prefixes[i])
}

impl Config {
    /// Whether `path` is served to logged-in clients only.
    pub fn is_protected(&self, path: &str) -> (r: bool)
        ensures
            r == protects(self@.protected_prefixes, path@),
    {
        let mut i: usize = 0;
        while i < self.protected_prefixes.len()
            invariant
                i <= self.protected_prefixes.len(),
                forall|j: int| 0 <= j < i ==> !begins_with(path@, self@.protected_prefixes[j]),
            decreases self.protected_prefixes.len() - i,
        {
            if bytes_start_with(path.as_bytes(), self.protected_prefixes[i].as_str().as_bytes()) {
                assert(begins_with(path@, self@.protected_prefixes[i as int]));
                return true;
            }
            i += 1;
        }
        false
    }
}

} // verus!
