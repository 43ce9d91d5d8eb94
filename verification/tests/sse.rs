use dsh_pet::json::Json;
use dsh_pet::sse::{
    after_disconnect, frame_payload, on_message, parse_frame, AfterDisconnect, MessageAction,
    SseConnector, WsMessage, RECONNECT_DELAY_MS,
};

fn str_at<'a>(v: &'a Json, key: &str) -> Option<&'a str> {
    v.get(key).and_then(|x| x.as_str())
}

#[test]
fn parse_frame_extracts_payload() {
    let text = r#"{"type":"server-request","rpcId":"r1","method":"session/queue","payload":{"type":"session/queue","items":[]}}"#;
    let payload = parse_frame(text).unwrap();
    assert_eq!(str_at(&payload, "type"), Some("session/queue"));
    assert_eq!(payload.get("items").and_then(|i| i.as_array()).unwrap().len(), 0);
}

#[test]
fn parse_frame_no_payload_returns_whole() {
    let text = r#"{"type":"session/queue","items":[]}"#;
    let payload = parse_frame(text).unwrap();
    assert_eq!(str_at(&payload, "type"), Some("session/queue"));
}

#[test]
fn parse_frame_malformed_returns_none() {
    assert!(parse_frame("not json").is_none());
    assert!(parse_frame("").is_none());
}

#[test]
fn parse_frame_approval_requested() {
    let text = r#"{"type":"server-request","rpcId":"r1","method":"approval/requested","payload":{"type":"approval/requested","approvalId":"a1","sessionId":"s1","toolName":"bash","reason":"test"}}"#;
    let payload = parse_frame(text).unwrap();
    assert_eq!(str_at(&payload, "type"), Some("approval/requested"));
    assert_eq!(str_at(&payload, "approvalId"), Some("a1"));
    assert_eq!(str_at(&payload, "toolName"), Some("bash"));
}

#[test]
fn sse_no_space_data_prefix_is_parsed() {
    let sse = SseConnector::new("http://example".into(), reqwest::Client::new());
    let block = "data:{\"type\":\"session/queue\",\"items\":[]}";
    let _ = (sse, block);
}

#[test]
fn payload_that_is_not_an_object_is_taken_as_is() {
    let p = parse_frame(r#"{"payload":7}"#).unwrap();
    assert!(matches!(p, Json::Number(_)));
    let whole = frame_payload(Json::Array(vec![Json::Null]));
    assert!(matches!(whole, Json::Array(ref a) if a.len() == 1));
}

#[test]
fn ws_url_swaps_the_scheme() {
    let a = SseConnector::new("http://127.0.0.1:3080/api/events.mux".into(), reqwest::Client::new());
    assert_eq!(a.ws_url(), "ws://127.0.0.1:3080/api/events.mux");
    let b = SseConnector::new("https://h/api/events.host".into(), reqwest::Client::new());
    assert_eq!(b.ws_url(), "wss://h/api/events.host");
    let c = SseConnector::new("http://a/?u=http://b".into(), reqwest::Client::new());
    assert_eq!(c.ws_url(), "ws://a/?u=ws://b");
}

#[test]
fn messages_lead_to_actions() {
    match on_message(WsMessage::Text(r#"{"payload":{"type":"x"}}"#.into())) {
        MessageAction::Deliver(f) => assert_eq!(str_at(&f, "type"), Some("x")),
        _ => panic!("expected a frame"),
    }
    assert!(matches!(on_message(WsMessage::Text("not json".into())), MessageAction::Ignore));
    assert!(matches!(on_message(WsMessage::Close), MessageAction::Stop));
    assert!(matches!(on_message(WsMessage::Ping), MessageAction::Ignore));
    assert!(matches!(on_message(WsMessage::Binary), MessageAction::Ignore));
}

#[test]
fn reconnect_unless_cancelled() {
    assert_eq!(after_disconnect(true), AfterDisconnect::Exit);
    assert_eq!(after_disconnect(false), AfterDisconnect::Reconnect);
    assert_eq!(RECONNECT_DELAY_MS, 3000);
}

#[test]
fn parse_frame_keeps_values() {
    let v = parse_frame(r#"{"a":[true,null,"s",1.5]}"#).unwrap();
    let a = v.get("a").and_then(|x| x.as_array()).unwrap();
    assert_eq!(a[0].as_bool(), Some(true));
    assert!(matches!(a[1], Json::Null));
    assert_eq!(a[2].as_str(), Some("s"));
    assert!(matches!(a[3], Json::Number(ref n) if n == "1.5"));
}
