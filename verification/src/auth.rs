//! Basic authentication in front of the record endpoints: the header is read,
//! the credentials it carries are checked against the database, and the
//! request is let through only when that check says yes.

use crate::credentials::{credentials_of, parse_credentials, Credentials};
use crate::reply::{Reply, ReplyBody, STATUS_UNAUTHORIZED};
use std::sync::Arc;
use vstd::prelude::*;
use vstd::string::StrSliceExecFns;

verus! {

/// The scheme prefix of a basic authentication header.
pub open spec fn basic_prefix() -> Seq<char> {
    seq!['B', 'a', 's', 'i', 'c', ' ']
}

/// The encoded credentials of an authorization header: what follows `Basic `,
/// when the header starts so.
pub open spec fn basic_token(header: Seq<char>) -> Option<Seq<char>> {
    if header.len() >= 6 && header.take(6) == basic_prefix() {
        Some(header.skip(6))
    } else {
        None
    }
}

/// The credentials to check for a request: those carried by its authorization
/// header, when it has one that is basic and carries a name and a password.
pub open spec fn credentials_to_check(header: Option<Seq<char>>) -> Option<(Seq<char>, Seq<char>)> {
    match header {
        Some(h) => match basic_token(h) {
            Some(token) => credentials_of(token),
            None => None,
        },
        None => None,
    }
}

/// The text of an optional header.
pub open spec fn header_text(header: Option<&str>) -> Option<Seq<char>> {
    match header {
        Some(h) => Some(h@),
        None => None,
    }
}

/// What the guard does with a request.
#[derive(Debug, Clone, Copy, PartialEq, Eq, Structural)]
pub enum AccessDecision {
    /// Hand the request on to the endpoint.
    Forward,
    /// Answer 401 Unauthorized.
    Unauthorized,
}

/// What the guard does once the database answered whether the credentials are
/// known (`Some(found)`), or failed to answer (`None`).
pub open spec fn decision_for(lookup: Option<bool>) -> AccessDecision {
    if lookup == Some(true) {
        AccessDecision::Forward
    } else {
        AccessDecision::Unauthorized
    }
}

/// What the guard does for a request with the given authorization header, when
/// a database asked about credentials would answer `lookup`.
pub open spec fn access_outcome(header: Option<Seq<char>>, lookup: Option<bool>) -> AccessDecision {
    match credentials_to_check(header) {
        Some(_) => decision_for(lookup),
        None => AccessDecision::Unauthorized,
    }
}

/// The first step of the guard.
pub enum AuthStep {
    /// Ask the database whether these credentials are known.
    Check(Credentials),
    /// Answer 401 without asking.
    Reject,
}

/// The encoded credentials of an authorization header: what follows `Basic `.
pub fn strip_basic_prefix(header: &str) -> (token: Option<&str>)
    ensures
        match basic_token(header@) {
            Some(t) => token matches Some(s) && s@ == t,
            None => token is None,
        },
        token matches Some(s) ==> header@ == seq!['B', 'a', 's', 'i', 'c', ' '] + s@,
{
    let n = header.unicode_len();
    if n < 6 {
        return None;
    }
    if header.get_char(0) == 'B' && header.get_char(1) == 'a' && header.get_char(2) == 's'
        && header.get_char(3) == 'i' && header.get_char(4) == 'c' && header.get_char(5) == ' ' {
        assert(header@.take(6) =~= basic_prefix());
        Some(header.substring_char(6, n))
    } else {
        assert(header@.take(6)[0] == header@[0]);
        assert(header@.take(6)[5] == header@[5]);
        assert(header@.take(6) != basic_prefix()) by {
            if header@.take(6) == basic_prefix() {
                assert(header@.take(6)[1] == header@[1]);
                assert(header@.take(6)[2] == header@[2]);
                assert(header@.take(6)[3] == header@[3]);
                assert(header@.take(6)[4] == header@[4]);
            }
        }
        None
    }
}

/// The first step of the guard for a request with the given authorization
/// header (`None` when it has none, or one that is not visible ASCII).
pub fn begin_authentication(header: Option<&str>) -> (step: AuthStep)
    ensures
        match credentials_to_check(header_text(header)) {
            Some((user, pass)) => step matches AuthStep::Check(c) && c.username@ == user
                && c.password@ == pass,
            None => step is Reject,
        },
{
    match header {
        Some(h) => match strip_basic_prefix(h) {
            Some(token) => {
                let found = parse_credentials(token);
                match found {
                    Some(c) => AuthStep::Check(c),
                    None => AuthStep::Reject,
                }
            },
            None => AuthStep::Reject,
        },
        None => AuthStep::Reject,
    }
}

/// Whether a login succeeds once the database answered whether the
/// credentials are known (`Some(found)`), or failed to answer (`None`).
pub fn login_succeeds(lookup: Option<bool>) -> (ok: bool)
    ensures
        ok == (lookup == Some(true)),
{
    match lookup {
        Some(found) => found,
        None => false,
    }
}

/// The second step of the guard, once the database answered.
pub fn finish_authentication(lookup: Option<bool>) -> (decision: AccessDecision)
    ensures
        decision == decision_for(lookup),
{
    if login_succeeds(lookup) {
        AccessDecision::Forward
    } else {
        AccessDecision::Unauthorized
    }
}

/// The answer to a request the guard turns away: 401 with no body.
pub fn unauthorized_reply() -> (reply: Reply)
    ensures
        reply.status == STATUS_UNAUTHORIZED,
        reply.body is Empty,
{
    Reply { status: STATUS_UNAUTHORIZED, body: ReplyBody::Empty }
}

/// A request without credentials that are basic, readable and known is turned
/// away: whatever the database would answer, it is forwarded only when it
/// carries a name and a password and the database says they are known.
pub proof fn only_known_credentials_pass(header: Option<Seq<char>>, lookup: Option<bool>)
    ensures
        access_outcome(header, lookup) == AccessDecision::Forward <==> (credentials_to_check(
            header,
        ) is Some && lookup == Some(true)),
        header is None ==> access_outcome(header, lookup) == AccessDecision::Unauthorized,
{
}

/// The authentication layer placed in front of the record endpoints.
pub struct BasicAuth;

/// The layer wrapped around one endpoint service.
pub struct BasicAuthMiddleware<S> {
    service: Arc<S>,
}

impl<S> BasicAuthMiddleware<S> {
    /// The endpoint service the layer guards.
    pub closed spec fn guarded(&self) -> S {
        *self.service
    }

    /// The layer around an endpoint service that is already shared.
    pub fn from_shared(service: Arc<S>) -> (middleware: Self)
        ensures
            middleware.guarded() == *service,
    {
        BasicAuthMiddleware { service }
    }

    /// The shared handle of the guarded endpoint service.
    pub fn service(&self) -> (service: &Arc<S>)
        ensures
            **service == self.guarded(),
    {
        &self.service
    }
}

impl BasicAuth {
    /// Wraps the layer around an endpoint service.
    pub fn new_transform<S>(&self, service: S) -> (middleware: BasicAuthMiddleware<S>)
        ensures
            middleware.guarded() == service,
    {
        BasicAuthMiddleware { service: Arc::new(service) }
    }
}

/// The token of a basic header is everything after `Basic `, however long:
/// a header made of `Basic ` and any text yields exactly that text, and a
/// header that yields a token is `Basic ` followed by it.
pub proof fn basic_token_is_the_whole_rest(header: Seq<char>, rest: Seq<char>)
    ensures
        header == seq!['B', 'a', 's', 'i', 'c', ' '] + rest ==> basic_token(header) == Some(rest),
        basic_token(header) matches Some(t) ==> header == seq!['B', 'a', 's', 'i', 'c', ' '] + t,
        basic_token(header) is None <==> !(header.len() >= 6 && header.take(6) == seq![
            'B',
            'a',
            's',
            'i',
            'c',
            ' ',
        ]),
{
    let prefix = seq!['B', 'a', 's', 'i', 'c', ' '];
    if header == prefix + rest {
        assert(header.take(6) =~= prefix);
        assert(header.skip(6) =~= rest);
    }
    if header.len() >= 6 && header.take(6) == prefix {
        assert(header =~= prefix + header.skip(6));
    }
}

} // verus!
