//! The verified decisions of the upstream RPC conversation.
//!
//! Sending bytes over HTTP is the application's business; what the library
//! states is how each reply is classified — which HTTP statuses pass the
//! caller's credentials through, which become a gateway failure, and when
//! the reply's own result word fails a request that HTTP called successful —
//! and how the anti-CSRF session id is renewed and a conflicted request
//! retried.

use vstd::prelude::*;

use crate::transmission::types::Response;

verus! {

/// The HTTP status the server answers with when the upstream rejected the
/// user's credentials.
pub const STATUS_UNAUTHORIZED: u16 = 401;

/// The HTTP status the server answers with when the upstream refused the
/// connection's origin.
pub const STATUS_FORBIDDEN: u16 = 403;

/// The HTTP status the server answers with for every other upstream
/// failure: the upstream is a gateway the server cannot answer for.
pub const STATUS_BAD_GATEWAY: u16 = 502;

/// The credentials a session's RPC client presents to the upstream.
#[derive(Clone, Debug)]
pub struct TransmissionAuth {
    pub username: String,
    pub password: String,
}

/// Classifies the HTTP status of an upstream reply.  Unauthorized and
/// forbidden pass through so the caller can tell bad credentials from a
/// blocked origin; any other non-success status is a gateway failure; a
/// success status lets the reply's body speak.
pub fn classify_http_status(status: u16) -> (r: Result<(), u16>)
    ensures
        status == STATUS_UNAUTHORIZED ==> r == Err::<(), u16>(STATUS_UNAUTHORIZED),
        status == STATUS_FORBIDDEN ==> r == Err::<(), u16>(STATUS_FORBIDDEN),
        (!(200 <= status < 300) && status != STATUS_UNAUTHORIZED && status != STATUS_FORBIDDEN)
            ==> r == Err::<(), u16>(STATUS_BAD_GATEWAY),
        200 <= status < 300 ==> r is Ok,
{
    if status == STATUS_UNAUTHORIZED {
        // could be wrong username/password
        Err(STATUS_UNAUTHORIZED)
    } else if status == STATUS_FORBIDDEN {
        // could be connecting from a non-whitelisted IP
        Err(STATUS_FORBIDDEN)
    } else if !(200 <= status && status < 300) {
        Err(STATUS_BAD_GATEWAY)
    } else {
        Ok(())
    }
}

/// Judges the decoded reply body.  The upstream uses success HTTP statuses
/// for unsuccessful requests, so the result word decides: a body that did
/// not decode (`None`) and a result word other than `success` are gateway
/// failures; otherwise the reply is handed through whole.
pub fn check_response<T>(resp: Option<Response<T>>) -> (r: Result<Response<T>, u16>)
    ensures
        match resp {
            None => r == Err::<Response<T>, u16>(STATUS_BAD_GATEWAY),
            Some(v) => {
                if v.result@ == "success"@ {
                    &&& r matches Ok(o)
                    &&& o == v
                } else {
                    r == Err::<Response<T>, u16>(STATUS_BAD_GATEWAY)
                }
            },
        },
{
    match resp {
        None => Err(STATUS_BAD_GATEWAY),
        Some(v) => {
            if v.is_success() {
                Ok(v)
            } else {
                Err(STATUS_BAD_GATEWAY)
            }
        },
    }
}

/// What to do with the session id an upstream reply carried: the id to
/// store, if it changed, and whether to retry the request.
///
/// The upstream's anti-CSRF discipline: every reply may carry the current
/// session id in a header; a changed id is remembered, and a reply whose
/// status reports a conflict is retried once with the fresh id.
pub fn csrf_decision(old_id: &String, new_id: Option<String>, conflict: bool) -> (r: (
    Option<String>,
    bool,
))
    ensures
        new_id is None ==> r.0 is None && r.1 == false,
        new_id matches Some(n) ==> {
            &&& (n@ != old_id@ ==> {
                &&& r.0 matches Some(u)
                &&& u@ == n@
            })
            &&& (n@ == old_id@ ==> r.0 is None)
            &&& r.1 == conflict
        },
{
    match new_id {
        None => (None, false),
        Some(n) => {
            if n.eq(old_id) {
                (None, conflict)
            } else {
                (Some(n), conflict)
            }
        },
    }
}

} // verus!
