use dsh_pet::json::Json;
use dsh_pet::sse::parse_frame;
use dsh_pet::rpc::{new_rpc_id, rpc_items, rpc_request_id, session_list_request, session_list_url};
use dsh_pet::types::{now_ms, now_ms_of, RpcError, RpcResponse, RpcResult};

#[test]
fn request_id_format() {
    assert_eq!(rpc_request_id(1_700_000_000_123, 0xbeef), "pet-1700000000123-beef");
    assert_eq!(rpc_request_id(0, 0), "pet-0-0");
    assert_eq!(rpc_request_id(u64::MAX, u32::MAX), "pet-18446744073709551615-ffffffff");
    assert!(new_rpc_id().starts_with("pet-"));
}

#[test]
fn session_list_url_and_body() {
    assert_eq!(session_list_url("http://h:1"), "http://h:1/api/session.list");
    let body = session_list_request("pet-1-a".into());
    assert_eq!(body.get("type").and_then(|v| v.as_str()), Some("client-request"));
    assert_eq!(body.get("rpcId").and_then(|v| v.as_str()), Some("pet-1-a"));
    assert_eq!(body.get("method").and_then(|v| v.as_str()), Some("session.list"));
    assert!(matches!(body.get("payload"), Some(Json::Object(f)) if f.is_empty()));
}

#[test]
fn failed_call_gives_its_error() {
    let r = rpc_items(RpcResponse {
        result: RpcResult {
            ok: false,
            value: None,
            error: Some(RpcError { message: "busy".into() }),
        },
    });
    assert!(matches!(r, Err(ref e) if e == "busy"));
    let r2 = rpc_items(RpcResponse { result: RpcResult { ok: false, value: None, error: None } });
    assert!(matches!(r2, Err(ref e) if e == "rpc error"));
}

#[test]
fn items_are_taken_from_the_value() {
    let value = parse_frame(r#"{"items":[{"sessionId":"s1"},{"sessionId":"s2"}]}"#).unwrap();
    let r = rpc_items(RpcResponse { result: RpcResult { ok: true, value: Some(value), error: None } });
    assert_eq!(r.map(|v| v.len()), Ok(2));
    let none = rpc_items(RpcResponse { result: RpcResult { ok: true, value: None, error: None } });
    assert_eq!(none.map(|v| v.len()), Ok(0));
    let odd = parse_frame(r#"{"items":{}}"#).unwrap();
    let r3 = rpc_items(RpcResponse { result: RpcResult { ok: true, value: Some(odd), error: None } });
    assert_eq!(r3.map(|v| v.len()), Ok(0));
}

#[test]
fn now_ms_of_takes_elapsed_milliseconds() {
    assert_eq!(now_ms_of(Some(1_700_000_000_123)), 1_700_000_000_123);
    assert_eq!(now_ms_of(Some(0)), 0);
}

#[test]
fn now_ms_of_clock_before_epoch_is_zero() {
    assert_eq!(now_ms_of(None), 0);
}

#[test]
fn now_ms_of_cuts_to_64_bits() {
    let big: u128 = (1u128 << 64) + 5;
    assert_eq!(now_ms_of(Some(big)), 5);
}

#[test]
fn now_ms_is_after_2020() {
    assert!(now_ms() > 1_577_836_800_000);
}
