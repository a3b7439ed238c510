use adinmo::auth::{
    begin_authentication, finish_authentication, login_succeeds, strip_basic_prefix,
    unauthorized_reply, AuthStep, BasicAuth, AccessDecision,
};
use adinmo::credentials::{credentials_from_decoded, parse_credentials, split_at_sole_colon};
use adinmo::reply::ReplyBody;

#[test]
fn credentials_are_read_from_url_safe_base64() {
    let c = parse_credentials("aHR0cGJpbi11c2VyOmFhYmI=").unwrap();
    assert_eq!(c.username, "httpbin-user");
    assert_eq!(c.password, "aabb");
    let c = parse_credentials("dXM_cjpwPnNzfg==").unwrap();
    assert_eq!(c.username, "us?r");
    assert_eq!(c.password, "p>ss~");
}

#[test]
fn credentials_need_exactly_one_colon() {
    assert!(parse_credentials("YWxpY2U=").is_none());
    assert!(parse_credentials("YTpiOmM=").is_none());
    let c = parse_credentials("Og==").unwrap();
    assert_eq!(c.username, "");
    assert_eq!(c.password, "");
}

#[test]
fn undecodable_credentials_are_empty() {
    assert!(parse_credentials("not base64!").is_none());
    assert!(parse_credentials("dXM/cjpwPnNzfg==").is_none());
    assert!(parse_credentials("").is_none());
    assert!(parse_credentials("_zr-").is_none());
    assert!(credentials_from_decoded(&[0xff, b':', 0xfe]).is_none());
}

#[test]
fn decoded_bytes_are_split_as_text() {
    let c = credentials_from_decoded("zoë:pässwörd".as_bytes()).unwrap();
    assert_eq!(c.username, "zoë");
    assert_eq!(c.password, "pässwörd");
    let c = split_at_sole_colon("name:").unwrap();
    assert_eq!(c.username, "name");
    assert_eq!(c.password, "");
    assert!(split_at_sole_colon("a::b").is_none());
}

#[test]
fn only_basic_headers_carry_a_token() {
    assert_eq!(strip_basic_prefix("Basic abc"), Some("abc"));
    assert_eq!(strip_basic_prefix("Basic "), Some(""));
    assert_eq!(strip_basic_prefix("Bearer abc"), None);
    assert_eq!(strip_basic_prefix("basic abc"), None);
    assert_eq!(strip_basic_prefix("Basic"), None);
}

#[test]
fn guard_checks_credentials_of_basic_headers() {
    match begin_authentication(Some("Basic aHR0cGJpbi11c2VyOmFhYmI=")) {
        AuthStep::Check(c) => {
            assert_eq!(c.username, "httpbin-user");
            assert_eq!(c.password, "aabb");
        }
        AuthStep::Reject => panic!("credentials were not read"),
    }
    assert!(matches!(begin_authentication(None), AuthStep::Reject));
    assert!(matches!(begin_authentication(Some("Bearer aHR0cGJpbi11c2VyOmFhYmI=")), AuthStep::Reject));
    assert!(matches!(begin_authentication(Some("Basic YWxpY2U=")), AuthStep::Reject));
}

#[test]
fn decision_forwards_only_known_credentials() {
    assert_eq!(finish_authentication(Some(true)), AccessDecision::Forward);
    assert_eq!(finish_authentication(Some(false)), AccessDecision::Unauthorized);
    assert_eq!(finish_authentication(None), AccessDecision::Unauthorized);
    assert!(login_succeeds(Some(true)));
    assert!(!login_succeeds(Some(false)));
    assert!(!login_succeeds(None));
}

#[test]
fn refused_requests_get_401() {
    let reply = unauthorized_reply();
    assert_eq!(reply.status, 401);
    assert!(matches!(reply.body, ReplyBody::Empty));
}

#[test]
fn the_layer_keeps_the_service() {
    let middleware = BasicAuth.new_transform(41u32);
    assert_eq!(**middleware.service(), 41);
}
