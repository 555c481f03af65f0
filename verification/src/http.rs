//! What an HTTP exchange with a provider gave, in plain values, and how
//! its status is read.

use vstd::prelude::*;

verus! {

/// What an HTTP exchange gave.
#[derive(Debug, Clone)]
pub enum HttpReply {
    /// The request could not be sent; the text describes why.
    SendFailed(String),
    /// The reply's body could not be read; the text describes why.
    ReadFailed(String),
    /// A reply: its status code, the status as text (code and reason), and
    /// its body.
    Received { status: u16, status_text: String, body: String },
}

/// Whether a status code means success.
pub open spec fn is_success_status(status: u16) -> bool {
    200 <= status <= 299
}

/// Whether a failed status may go away on a retry: a server error, or too
/// many requests.
pub open spec fn is_retryable_status(status: u16) -> bool {
    (500 <= status <= 599) || status == 429
}

} // verus!
