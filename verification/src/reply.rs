//! HTTP answers as plain values: a status code and what the body carries.

use crate::database::Request;
use vstd::prelude::*;

verus! {

/// 200 OK.
pub const STATUS_OK: u16 = 200;

/// 201 Created.
pub const STATUS_CREATED: u16 = 201;

/// 401 Unauthorized.
pub const STATUS_UNAUTHORIZED: u16 = 401;

/// 404 Not Found.
pub const STATUS_NOT_FOUND: u16 = 404;

/// 500 Internal Server Error.
pub const STATUS_INTERNAL_SERVER_ERROR: u16 = 500;

/// What the body of an answer carries.
pub enum ReplyBody {
    /// No body.
    Empty,
    /// The text itself, sent as it is.
    Text(String),
    /// A message, sent as a JSON string.
    JsonMessage(String),
    /// A record, sent as a JSON object.
    JsonRecord(Request),
}

/// An HTTP answer.
pub struct Reply {
    pub status: u16,
    pub body: ReplyBody,
}

/// The answer carries a JSON message with the given text.
pub open spec fn has_json_message(reply: Reply, message: Seq<char>) -> bool {
    reply.body matches ReplyBody::JsonMessage(m) && m@ == message
}

/// The answer carries the given text as its body.
pub open spec fn has_text(reply: Reply, text: Seq<char>) -> bool {
    reply.body matches ReplyBody::Text(t) && t@ == text
}

} // verus!
