use dsh_pet::config::{commit_endpoint, events_url, is_valid_endpoint, normalized_endpoint, trim_str, ENDPOINT_DEFAULT};

#[test]
fn normalized_endpoint_trims_trailing_slash() {
    assert_eq!(normalized_endpoint("http://127.0.0.1:3080/"), "http://127.0.0.1:3080");
}

#[test]
fn normalized_endpoint_trims_whitespace() {
    assert_eq!(normalized_endpoint("  http://localhost:3080  "), "http://localhost:3080");
}

#[test]
fn default_endpoint_value() {
    assert_eq!(ENDPOINT_DEFAULT, "http://127.0.0.1:3080");
    assert!(is_valid_endpoint(ENDPOINT_DEFAULT));
}

#[test]
fn normalized_endpoint_strips_every_trailing_slash_only_after_trim() {
    assert_eq!(normalized_endpoint("http://h:1///"), "http://h:1");
    assert_eq!(normalized_endpoint("a/ /"), "a/ ");
    assert_eq!(normalized_endpoint("\t\n"), "");
}

#[test]
fn trim_uses_unicode_whitespace() {
    assert_eq!(trim_str("\u{3000} x y \u{a0}"), "x y");
}

#[test]
fn valid_endpoints_need_a_scheme() {
    assert!(is_valid_endpoint("  https://dsh.example  "));
    assert!(!is_valid_endpoint("localhost:3080"));
    assert!(!is_valid_endpoint("ftp://x"));
    assert!(!is_valid_endpoint("   "));
    assert!(!is_valid_endpoint("http:/x"));
}

#[test]
fn commit_switches_only_to_a_new_valid_address() {
    assert_eq!(
        commit_endpoint(" http://10.0.0.2:3080/ ", "http://127.0.0.1:3080"),
        Some("http://10.0.0.2:3080".to_string())
    );
    assert_eq!(commit_endpoint("http://127.0.0.1:3080/", "http://127.0.0.1:3080"), None);
    assert_eq!(commit_endpoint("not a url", "http://127.0.0.1:3080"), None);
}

#[test]
fn event_urls() {
    assert_eq!(events_url("http://h:1", "mux"), "http://h:1/api/events.mux");
    assert_eq!(events_url("http://h:1", "host"), "http://h:1/api/events.host");
}
