//! The webhook handler: the one externally reachable operation.  It is
//! given a decoded event (the transport rejects bodies that fail to
//! decode before the handler runs), emits one log line, and acknowledges
//! with status 201 and no body payload.

use crate::types::sp_decode;
use crate::types::sp_render;
use crate::types::DecodeError;
use crate::types::WebhookCallback;
use vstd::prelude::*;

verus! {

/// Handle one decoded event: the 201 acknowledgment status and the single
/// log line, which is the event's rendering.
pub fn post_webhook(event: &WebhookCallback) -> (r: (u16, String))
    ensures
        r.0 == 201,
        r.1@ == sp_render(event@),
{
    (201, event.render())
}

/// Handle one raw request body end to end: decode it, and on success hand
/// back the handler's acknowledgment status with its one log line.  A body
/// that fails to decode is rejected with its decode error before the
/// handler runs, and no log line exists for it.
pub fn handle_request(body: &str) -> (r: Result<(u16, String), DecodeError>)
    ensures
        match (r, sp_decode(body@)) {
            (Ok(resp), Ok(v)) => resp.0 == 201 && resp.1@ == sp_render(v),
            (Err(e), Err(f)) => e == f,
            _ => false,
        },
{
    match WebhookCallback::decode(body) {
        Ok(ev) => Ok(post_webhook(&ev)),
        Err(e) => Err(e),
    }
}

} // verus!
