//! The integration client that exercises the running server: the addresses it
//! calls and the checks it makes on what comes back.

use crate::text::{contains_text, contains_text_spec};
use vstd::prelude::*;
use vstd::string::StringExecFns;

verus! {

/// The address of a path on the server: `http://`, the server's
/// `address:port`, then the path.
pub fn endpoint_url(server_addr_port: &str, path: &str) -> (url: String)
    ensures
        url@ == "http://"@ + server_addr_port@ + path@,
{
    let mut url = String::from_str("http://");
    url.append(server_addr_port);
    url.append(path);
    url
}

/// Whether an answer passes a check: the status is the expected one and, when
/// a fragment is given, the body contains it.
pub fn reply_as_expected(status: u16, body: &str, expected_status: u16, fragment: Option<&str>) -> (ok: bool)
    ensures
        ok == (status == expected_status && match fragment {
            Some(f) => contains_text_spec(body@, f@),
            None => true,
        }),
{
    if status != expected_status {
        return false;
    }
    match fragment {
        Some(f) => contains_text(body, f),
        None => true,
    }
}

} // verus!
