use giskard::current_time::{respond, respond_at, ClockReply};
use giskard::frames::response_frame;
use giskard::json::Json;
use giskard::protocol::{RequestBody, RpcId, ServerRequest};

fn request(params: Option<&str>) -> ServerRequest {
    ServerRequest {
        method: "currentTime/read".into(),
        body: RequestBody::Unmodelled(params.map(|text| Json::read(text.as_bytes()).unwrap())),
    }
}

#[test]
fn clock_request_preserves_string_and_numeric_ids_and_returns_unix_seconds() {
    for (id, written) in [(RpcId::Text("clock-1".into()), "\"clock-1\""), (RpcId::Integer(17), "17")] {
        let before = chrono::Utc::now().timestamp();
        let value = match respond(&request(Some(r#"{"threadId":"native-child"}"#))) {
            Some(ClockReply::Result(value)) => value,
            other => panic!("expected the time, got {other:?}"),
        };
        let after = chrono::Utc::now().timestamp();
        let told = match &value {
            Json::Object(entries) => {
                assert_eq!(entries.len(), 1);
                match &entries[0] {
                    (key, Json::Signed(seconds)) if key == "currentTimeAt" => *seconds,
                    other => panic!("unexpected member {other:?}"),
                }
            }
            other => panic!("expected an object, got {other:?}"),
        };
        assert!(before <= told && told <= after);
        let frame = response_frame(&id, value).unwrap();
        assert_eq!(frame.line, format!(r#"{{"id":{written},"result":{{"currentTimeAt":{told}}}}}"#));
    }
}

#[test]
fn answers_about_the_time_carry_the_ids_they_answer() {
    for (id, line) in [
        (RpcId::Text("clock-1".into()), r#"{"id":"clock-1","result":{"currentTimeAt":1700000000}}"#),
        (RpcId::Integer(17), r#"{"id":17,"result":{"currentTimeAt":1700000000}}"#),
    ] {
        match respond_at(&request(Some(r#"{"threadId":"native-child"}"#)), 1_700_000_000) {
            Some(ClockReply::Result(value)) => assert_eq!(response_frame(&id, value).unwrap().line, line),
            other => panic!("expected the time, got {other:?}"),
        }
    }
}

#[test]
fn clock_request_rejects_malformed_params_without_success() {
    for params in [None, Some("{}"), Some(r#"{"threadId":42}"#), Some(r#"{"threadId":" "}"#)] {
        match respond(&request(params)) {
            Some(ClockReply::Error { code, message }) => {
                assert_eq!(code, -32602);
                assert_eq!(message, "currentTime/read requires a non-empty threadId");
            }
            other => panic!("expected an error, got {other:?}"),
        }
    }
}

#[test]
fn clock_request_leaves_other_server_requests_for_normal_routing() {
    let other = ServerRequest { method: "other/request".into(), body: RequestBody::Unmodelled(None) };
    assert!(respond(&other).is_none());
    let typed = ServerRequest { method: "currentTime/read".into(), body: RequestBody::Modelled(None) };
    assert!(respond(&typed).is_none());
}

#[test]
fn the_time_is_told_as_given() {
    match respond_at(&request(Some(r#"{"threadId":"t"}"#)), -5) {
        Some(ClockReply::Result(value)) => assert_eq!(value.to_text(), r#"{"currentTimeAt":-5}"#),
        other => panic!("unexpected {other:?}"),
    }
}
