//! The request handler: what the server answers to one request, and what the
//! request leaves behind in the shared state.

use crate::cache::{stored, MAX_LRU_CAPACITY};
use crate::registry::issued;
use crate::server_state::ServerState;
use std::sync::Arc;
use vstd::prelude::*;
use vstd::string::StrSliceExecFns;
use vstd::string::StringSliceAdditionalSpecFns;

verus! {

/// Status of the answer to a request that was served.
pub const STATUS_OK: u16 = 200;

/// Status of the answer to a request that nothing serves.
pub const STATUS_NOT_FOUND: u16 = 404;

/// What the handler reads of a request.
#[derive(Clone, Debug, PartialEq, Eq)]
pub enum Request {
    /// A GET request, with the value of its `user-agent` header.
    Get { user_agent: String },
    /// A request with any other method.
    Other,
}

/// The answer to a request: a status code and the body.
#[derive(Clone, Debug, PartialEq, Eq)]
pub struct Response {
    pub status: u16,
    pub body: String,
}

/// The key under which a GET request caches its greeting.
pub open spec fn greeting_key() -> Seq<char> {
    "Hello wolrd"@
}

/// The bytes that a GET request caches.
pub open spec fn greeting_bytes() -> Seq<u8> {
    "Hello world".spec_bytes()
}

/// Serves one request at time `now`.
///
/// A GET request registers its user agent as a token, caches the greeting,
/// and is answered with status 200. Any other request is answered with
/// status 404 and leaves the state as it was.
pub fn serve(req: &Request, state: &mut ServerState, now: u64) -> (response: Response)
    requires
        old(state).wf(),
    ensures
        final(state).wf(),
        final(state).running() == old(state).running(),
        match *req {
            Request::Get { user_agent } => {
                &&& response.status == STATUS_OK
                &&& response.body@ == "Hi world!"@
                &&& final(state).tokens() == issued(old(state).tokens(), user_agent@, now)
                &&& final(state).cache() == stored(
                    old(state).cache(),
                    MAX_LRU_CAPACITY as nat,
                    greeting_key(),
                    greeting_bytes(),
                )
            },
            Request::Other => {
                &&& response.status == STATUS_NOT_FOUND
                &&& response.body@ == "Not Found"@
                &&& *final(state) == *old(state)
            },
        },
{
    match req {
        Request::Get { user_agent } => {
            state.add_state(user_agent.as_str(), now);
            state.put_in_cache("Hello wolrd", Arc::new("Hello world".as_bytes_vec()));
            Response { status: STATUS_OK, body: "Hi world!".to_owned() }
        },
        Request::Other => Response { status: STATUS_NOT_FOUND, body: "Not Found".to_owned() },
    }
}

} // verus!
