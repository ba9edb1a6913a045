//! Verified core of an HTTP gateway to a remote key-value store.
//!
//! The library models the request-to-command translation layer: how route
//! arguments become exactly one store command, how the store's documented
//! semantics act on a keyed state, and how each outcome is rendered as an
//! HTTP status and body. Process bootstrap, the HTTP server and the pooled
//! network client live outside the library and hand it plain values.

use vstd::prelude::*;

pub mod command;
pub mod dispatch;
pub mod json;
pub mod laws;
pub mod model;
pub mod numeric;
pub mod respond;
pub mod store;
pub mod value;

verus! {

/// An HTTP reply: a status code and a body.
pub struct Reply {
    pub status: u16,
    pub body: String,
}

/// Reply for the fixed failure-path route: always a client error,
/// whatever the store's state; no store is consulted.
pub fn except_reply() -> (r: Reply)
    ensures
        r.status == 400,
        r.body@ == "error"@,
{
    Reply { status: 400, body: String::from_str("error") }
}

/// Reply for the liveness route.
pub fn hello_reply() -> (r: Reply)
    ensures
        r.status == 200,
        r.body@ == "Hello Redis"@,
{
    Reply { status: 200, body: String::from_str("Hello Redis") }
}

} // verus!
