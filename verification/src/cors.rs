//! The cross-origin policy: every response is marked as readable from any
//! origin. The server's hook asks this module what to call itself and which
//! header to set.

use vstd::prelude::*;

verus! {

/// The moment at which a hook of the server runs.
#[derive(Clone, Copy, Debug, PartialEq, Eq, Structural)]
pub enum Kind {
    /// When a response is about to be sent.
    Response,
}

/// What a hook tells the server about itself.
#[derive(Clone, Copy, Debug)]
pub struct Info {
    pub name: &'static str,
    pub kind: Kind,
}

/// One header of a response.
#[derive(Clone, Copy, Debug)]
pub struct Header {
    pub name: &'static str,
    pub value: &'static str,
}

/// Marks responses as readable from any origin.
#[derive(Clone, Copy, Debug)]
pub struct CORS;

impl CORS {
    /// The name under which the hook is listed, and when it runs: on every
    /// response.
    pub fn info(&self) -> (info: Info)
        ensures
            info.name@ == "Add CORS headers to responses"@,
            info.kind == Kind::Response,
    {
        Info { name: "Add CORS headers to responses", kind: Kind::Response }
    }

    /// The header to set on a response: every origin is allowed.
    pub fn on_response(&self) -> (header: Header)
        ensures
            header.name@ == "Access-Control-Allow-Origin"@,
            header.value@ == "*"@,
    {
        Header { name: "Access-Control-Allow-Origin", value: "*" }
    }
}

} // verus!
