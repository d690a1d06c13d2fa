//! Session authentication for an HTTP API: a signed session cookie, a
//! server-side session with typed attributes, a remember-me extension of the
//! cookie's lifetime, and a login gate in front of protected routes.

pub mod codec;
pub mod config;
pub mod error;
pub mod filter;
pub mod http;
pub mod middleware;
pub mod pipeline;
pub mod session;
pub mod store;
pub mod text;
pub mod text_map;
pub mod work_event;
