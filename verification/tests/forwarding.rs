use adinmo::client::{endpoint_url, reply_as_expected};
use adinmo::forwarding::{forward_ack_reply, run_reply, service_url, ServiceOutcome};
use adinmo::reply::{Reply, ReplyBody};
use adinmo::text::contains_text;

fn text(reply: &Reply) -> &str {
    match &reply.body {
        ReplyBody::Text(t) => t.as_str(),
        _ => panic!("not text"),
    }
}

#[test]
fn run_relays_the_service_body() {
    let ok = run_reply(ServiceOutcome::Body("[1,2]".to_string()));
    assert_eq!(ok.status, 200);
    assert_eq!(text(&ok), "[1,2]");
}

#[test]
fn run_names_each_failure() {
    let r = run_reply(ServiceOutcome::UnreadableBody);
    assert_eq!(r.status, 500);
    assert_eq!(text(&r), "Failed to read response body");
    let r = run_reply(ServiceOutcome::ErrorStatus);
    assert_eq!(r.status, 500);
    assert_eq!(text(&r), "Service responded with an error");
    let r = run_reply(ServiceOutcome::Unreachable);
    assert_eq!(r.status, 500);
    assert_eq!(text(&r), "Error forwarding the request");
}

#[test]
fn plain_forwarding_acknowledges() {
    let r = forward_ack_reply(true);
    assert_eq!(r.status, 200);
    assert_eq!(text(&r), "Request forwarded to the service");
    let r = forward_ack_reply(false);
    assert_eq!(r.status, 500);
    assert_eq!(text(&r), "Error forwarding the request");
}

#[test]
fn service_url_takes_the_port_field() {
    assert_eq!(service_url("0.0.0.0:5500"), "http://service:5500");
    assert_eq!(service_url("0.0.0.0:6000"), "http://service:6000");
    assert_eq!(service_url("localhost"), "http://service:5500");
    assert_eq!(service_url("a:1:2"), "http://service:1");
    assert_eq!(service_url("host:"), "http://service:");
}

#[test]
fn client_addresses() {
    assert_eq!(endpoint_url("server:3300", "/run"), "http://server:3300/run");
    assert_eq!(endpoint_url("server:3300", "/api/read/5"), "http://server:3300/api/read/5");
}

#[test]
fn client_checks() {
    assert!(reply_as_expected(200, "[1,3]", 200, Some("[")));
    assert!(!reply_as_expected(200, "1,3", 200, Some("[")));
    assert!(!reply_as_expected(500, "[1,3]", 200, Some("[")));
    assert!(reply_as_expected(200, "{\"id\":5,\"generated_value\":1}", 200, Some("\"id\":5")));
    assert!(reply_as_expected(401, "", 401, None));
}

#[test]
fn substring_search() {
    assert!(contains_text("\"Request created\"", "Request created"));
    assert!(contains_text("abc", ""));
    assert!(contains_text("abc", "abc"));
    assert!(!contains_text("ab", "abc"));
    assert!(!contains_text("aab", "abb"));
    assert!(contains_text("zoë!", "ë!"));
}

#[test]
fn plain_forwarding_targets_the_service_port() {
    assert_eq!(adinmo::forwarding::forward_target_url(), "http://service:5500");
}
