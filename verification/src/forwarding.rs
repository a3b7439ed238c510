//! The front server's `/run` endpoint, which hands the request on to the
//! number service and relays what comes back.

use crate::reply::{has_text, Reply, ReplyBody, STATUS_INTERNAL_SERVER_ERROR, STATUS_OK};
use crate::text::{first_index_from, is_first_from};
use vstd::prelude::*;
use vstd::string::{StrSliceExecFns, StringExecFns};

verus! {

/// What came of asking the number service.
pub enum ServiceOutcome {
    /// The request could not be sent.
    Unreachable,
    /// The service answered with a status other than success.
    ErrorStatus,
    /// The service answered with success but its body could not be read.
    UnreadableBody,
    /// The service answered with success and this body.
    Body(String),
}

/// The answer of `/run` for what came of asking the number service: its body
/// with 200, or 500 with a message naming the failure.
pub fn run_reply(outcome: ServiceOutcome) -> (reply: Reply)
    ensures
        match outcome {
            ServiceOutcome::Body(b) => reply.status == STATUS_OK && reply.body == ReplyBody::Text(b),
            ServiceOutcome::UnreadableBody => reply.status == STATUS_INTERNAL_SERVER_ERROR
                && has_text(reply, "Failed to read response body"@),
            ServiceOutcome::ErrorStatus => reply.status == STATUS_INTERNAL_SERVER_ERROR
                && has_text(reply, "Service responded with an error"@),
            ServiceOutcome::Unreachable => reply.status == STATUS_INTERNAL_SERVER_ERROR
                && has_text(reply, "Error forwarding the request"@),
        },
{
    match outcome {
        ServiceOutcome::Body(body) => Reply { status: STATUS_OK, body: ReplyBody::Text(body) },
        ServiceOutcome::UnreadableBody => Reply {
            status: STATUS_INTERNAL_SERVER_ERROR,
            body: ReplyBody::Text(String::from_str("Failed to read response body")),
        },
        ServiceOutcome::ErrorStatus => Reply {
            status: STATUS_INTERNAL_SERVER_ERROR,
            body: ReplyBody::Text(String::from_str("Service responded with an error")),
        },
        ServiceOutcome::Unreachable => Reply {
            status: STATUS_INTERNAL_SERVER_ERROR,
            body: ReplyBody::Text(String::from_str("Error forwarding the request")),
        },
    }
}

/// The answer of the plain forwarding server's `/run`: 200 once the request
/// reached the service, 500 when it could not be sent.
pub fn forward_ack_reply(delivered: bool) -> (reply: Reply)
    ensures
        delivered ==> reply.status == STATUS_OK && has_text(
            reply,
            "Request forwarded to the service"@,
        ),
        !delivered ==> reply.status == STATUS_INTERNAL_SERVER_ERROR && has_text(
            reply,
            "Error forwarding the request"@,
        ),
{
    if delivered {
        Reply {
            status: STATUS_OK,
            body: ReplyBody::Text(String::from_str("Request forwarded to the service")),
        }
    } else {
        Reply {
            status: STATUS_INTERNAL_SERVER_ERROR,
            body: ReplyBody::Text(String::from_str("Error forwarding the request")),
        }
    }
}

/// The second `:`-separated field of the text (what lies between its first and
/// its second `:`, or after the first when there is no second), if it has a `:`.
pub open spec fn second_field(text: Seq<char>) -> Option<Seq<char>> {
    if text.contains(':') {
        let first = choose|i: int| is_first_from(text, ':', 0, i);
        let rest = text.skip(first + 1);
        let end = choose|j: int| is_first_from(rest, ':', 0, j);
        Some(rest.take(end))
    } else {
        None
    }
}

/// The port that an `address:port` setting names, with 5500 when it names none.
pub open spec fn service_port(addr_port: Seq<char>) -> Seq<char> {
    match second_field(addr_port) {
        Some(port) => port,
        None => "5500"@,
    }
}

proof fn lemma_first_from_unique(text: Seq<char>, c: char, from: int, i: int, k: int)
    requires
        is_first_from(text, c, from, i),
        is_first_from(text, c, from, k),
    ensures
        i == k,
{
}

/// The address of the number service inside the network: `http://service:`
/// and the port that the `address:port` setting names (5500 when it names none).
pub fn service_url(service_addr_port: &str) -> (url: String)
    ensures
        url@ == "http://service:"@ + service_port(service_addr_port@),
{
    let n = service_addr_port.unicode_len();
    let first = first_index_from(service_addr_port, ':', 0);
    let mut url = String::from_str("http://service:");
    if first == n {
        assert(!service_addr_port@.contains(':'));
        url.append("5500");
        return url;
    }
    let end = first_index_from(service_addr_port, ':', first + 1);
    url.append(service_addr_port.substring_char(first + 1, end));
    proof {
        let text = service_addr_port@;
        assert(text.contains(':')) by {
            assert(text[first as int] == ':');
        }
        let chosen = choose|i: int| is_first_from(text, ':', 0, i);
        lemma_first_from_unique(text, ':', 0, chosen, first as int);
        let rest = text.skip(first + 1);
        assert(is_first_from(rest, ':', 0, end - first - 1));
        let e = choose|j: int| is_first_from(rest, ':', 0, j);
        lemma_first_from_unique(rest, ':', 0, e, end - first - 1);
        assert(rest.take(end - first - 1) =~= text.subrange(first + 1, end as int));
    }
    url
}

/// Where the plain forwarding server sends its request: the number service
/// inside the network, on its default port 5500.
pub fn forward_target_url() -> (url: String)
    ensures
        url@ == "http://service:5500"@,
{
    String::from_str("http://service:5500")
}

/// The port is the whole second `:`-separated field of the setting, however
/// long: for a setting made of a host without `:`, a `:`, a port without `:`,
/// and then nothing or a further `:`-field, the port named is exactly that
/// port; a setting without any `:` names 5500.
pub proof fn port_is_the_whole_second_field(host: Seq<char>, port: Seq<char>, tail: Seq<char>)
    requires
        !host.contains(':'),
        !port.contains(':'),
        tail.len() == 0 || tail[0] == ':',
    ensures
        service_port(host + seq![':'] + port + tail) == port,
        !host.contains(':') ==> service_port(host) == "5500"@,
{
    let text = host + seq![':'] + port + tail;
    let h = host.len() as int;
    assert(text[h] == ':');
    assert(text.contains(':'));
    assert forall|j: int| 0 <= j < h implies text[j] != ':' by {
        assert(text[j] == host[j]);
        if host[j] == ':' {
            assert(host.contains(':'));
        }
    }
    assert(is_first_from(text, ':', 0, h));
    let first = choose|i: int| is_first_from(text, ':', 0, i);
    lemma_first_from_unique(text, ':', 0, first, h);
    let rest = text.skip(h + 1);
    assert(rest =~= port + tail);
    let p = port.len() as int;
    assert forall|j: int| 0 <= j < p implies rest[j] != ':' by {
        assert(rest[j] == port[j]);
        if port[j] == ':' {
            assert(port.contains(':'));
        }
    }
    assert(is_first_from(rest, ':', 0, p));
    let end = choose|j: int| is_first_from(rest, ':', 0, j);
    lemma_first_from_unique(rest, ':', 0, end, p);
    assert(rest.take(p) =~= port);
}

} // verus!
