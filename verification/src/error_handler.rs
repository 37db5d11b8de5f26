//! The uniform failure surface: every error becomes a 500 response whose
//! body is the message behind an `Error: ` prefix.

use vstd::prelude::*;
use crate::task_controller::{HttpReply, Payload};

verus! {

/// Wraps any failure message into the uniform error response.
pub fn handle_error(message: String) -> (r: HttpReply)
    ensures
        r.status == 500,
        r.payload matches Payload::Message(m) && m@ == "Error: "@ + message@,
{
    let mut body = String::from_str("Error: ");
    body.append(message.as_str());
    HttpReply { status: 500, payload: Payload::Message(body) }
}

} // verus!
