//! The request-forwarding pipeline: picking the outbound target,
//! classifying HTTP status codes, and mapping the outcome of the
//! outbound exchange into the response relayed to the caller.

use vstd::prelude::*;

verus! {

/// True of the status codes an HTTP exchange counts as success.
pub open spec fn spec_is_success(status: u16) -> bool {
    200 <= status < 300
}

/// True of the redirection status codes.
pub open spec fn spec_is_redirection(status: u16) -> bool {
    300 <= status < 400
}

/// True of the server-error status codes.
pub open spec fn spec_is_server_error(status: u16) -> bool {
    500 <= status < 600
}

/// Whether a status code is a success (2xx).
pub fn is_success_status(status: u16) -> (r: bool)
    ensures
        r == spec_is_success(status),
{
    200 <= status && status < 300
}

/// Whether a status code is a redirection (3xx).
pub fn is_redirection_status(status: u16) -> (r: bool)
    ensures
        r == spec_is_redirection(status),
{
    300 <= status && status < 400
}

/// Whether a status code is a server error (5xx).
pub fn is_server_error_status(status: u16) -> (r: bool)
    ensures
        r == spec_is_server_error(status),
{
    500 <= status && status < 600
}

/// The target of an outbound forward: the chosen backend's address
/// followed by the original path and query, unchanged.
pub fn build_target_uri(server: &str, original_uri: &str) -> (r: String)
    ensures
        r@ == server@ + original_uri@,
{
    let mut s = server.to_owned();
    s.append(original_uri);
    s
}

/// How the outbound exchange for one inbound request went, as the
/// caller of the library observed it.
pub enum ForwardOutcome {
    /// The inbound body could not be buffered.
    BufferFailed,
    /// The outbound dispatch failed: connect, timeout or DNS.
    DispatchFailed,
    /// The backend answered with a status code; its body arrived
    /// whole (`Some`) or could not be read (`None`).
    Delivered { status: u16, body: Option<String> },
}

/// The response relayed to the caller: a status code and a body.
#[derive(Debug)]
pub struct ProxyResponse {
    pub status: u16,
    pub body: String,
}

/// Maps the outcome of the outbound exchange to the caller's
/// response: a buffering failure turns into `400`, a dispatch failure
/// into `502`, and a delivered backend answer is relayed verbatim,
/// with the backend's status code preserved and an empty body when
/// the body could not be read.
pub fn relay_response(outcome: ForwardOutcome) -> (r: Result<ProxyResponse, u16>)
    ensures
        outcome is BufferFailed ==> r == Err::<ProxyResponse, u16>(400u16),
        outcome is DispatchFailed ==> r == Err::<ProxyResponse, u16>(502u16),
        outcome matches ForwardOutcome::Delivered { status, body } ==> {
            &&& r matches Ok(p)
            &&& p.status == status
            &&& p.body@ == (match body {
                Some(b) => b@,
                None => Seq::<char>::empty(),
            })
        },
{
    match outcome {
        ForwardOutcome::BufferFailed => Err(400),
        ForwardOutcome::DispatchFailed => Err(502),
        ForwardOutcome::Delivered { status, body } => {
            let text = match body {
                Some(b) => b,
                None => String::new(),
            };
            Ok(ProxyResponse { status, body: text })
        },
    }
}

/// Whether the hit on a backend must also be reported to the stats
/// recorder as an error: exactly when the backend's answer was not a
/// success.
pub fn should_record_error(status: u16) -> (r: bool)
    ensures
        r == !spec_is_success(status),
{
    !is_success_status(status)
}

} // verus!
