use quiz_services::identity::Identity;
use quiz_services::remote::{identity_from_reply, needs_remote_lookup, resolve_url, Reply, ReplyBody};
use quiz_services::text::{is_blank, normalize_option};

fn record() -> Identity {
    Identity {
        username: "zed".to_string(),
        email: Some("z@example.org".to_string()),
        first_name: None,
        last_name: None,
        is_staff: false,
    }
}

#[test]
fn options_are_trimmed_and_upper_cased() {
    assert_eq!(normalize_option("  b\n"), "B");
    assert_eq!(normalize_option("c"), "C");
    assert_eq!(normalize_option(""), "");
}

#[test]
fn blank_means_only_whitespace() {
    assert!(is_blank(""));
    assert!(is_blank(" \t "));
    assert!(!is_blank(" x "));
}

#[test]
fn empty_token_skips_the_network() {
    assert!(!needs_remote_lookup(""));
    assert!(needs_remote_lookup("abc"));
}

#[test]
fn resolve_address_is_built_from_base() {
    assert_eq!(resolve_url("http://127.0.0.1:8003"), "http://127.0.0.1:8003/api/auth/me");
}

#[test]
fn replies_fail_closed() {
    assert!(identity_from_reply(Reply::TransportFailure).is_none());
    assert!(identity_from_reply(Reply::Response { status: 401, body: ReplyBody::Record(record()) }).is_none());
    assert!(identity_from_reply(Reply::Response { status: 200, body: ReplyBody::ErrorObject }).is_none());
    assert!(identity_from_reply(Reply::Response { status: 200, body: ReplyBody::Malformed }).is_none());
    let id = identity_from_reply(Reply::Response { status: 200, body: ReplyBody::Record(record()) }).unwrap();
    assert_eq!(id.username, "zed");
}

#[test]
fn unicode_white_space_is_trimmed() {
    assert_eq!(normalize_option("\u{3000}b\u{a0}"), "B");
    assert!(is_blank("\u{2028}\u{85}"));
    assert!(!is_blank("\u{200b}"));
}
