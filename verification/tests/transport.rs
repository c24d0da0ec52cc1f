use giskard::correlation::{
    after_queueing, after_sending, after_service_answer, begin_request, finish_request, transport_closed, write_step,
    Registration, RequestPhase, Waiters,
};
use giskard::error::HarnessError;
use giskard::frames::{
    decode_report_text, error_frame, notification_frame, read_step, request_frame, response_frame, route_notification,
    route_request, serialize_line, service_frame, single_line, unreadable_line, InboxItem, ReadEvent, ReadStep,
    CODEX_MAX_FRAME_BYTES,
};
use giskard::inbox::{
    CodexStreamError, Intake, IntakeStep, RequestStep, StreamFault, CODEX_INBOX_RETAIN_LIMIT,
};
use giskard::json::Json;
use giskard::native_services::{conclude, NativeServiceProviders, ProviderRun};
use giskard::protocol::{RequestBody, RpcId, ServerMessage};
use giskard::stderr::{log_entry, strip_ansi, Level};

const PREVIEW: usize = 512;

fn frame(line: &str) -> ReadStep {
    read_step(ReadEvent::Frame(format!("{line}\n").into_bytes()), PREVIEW)
}

fn item(line: &str) -> InboxItem {
    match frame(line) {
        ReadStep::Append(item) => item,
        other => panic!("expected an item, got {other:?}"),
    }
}

fn j(text: &str) -> Json {
    Json::read(text.as_bytes()).unwrap()
}

fn method_of(message: &ServerMessage) -> &str {
    match message {
        ServerMessage::Notification { method, .. } => method,
        ServerMessage::Request { request, .. } => &request.method,
    }
}

fn surfaced(step: IntakeStep) -> Result<Option<ServerMessage>, CodexStreamError> {
    match step {
        IntakeStep::Surface(result) => result,
        other => panic!("expected something for the session, got {other:?}"),
    }
}

#[test]
fn stderr_ansi_stripping_preserves_unicode() {
    assert_eq!(strip_ansi("\u{1b}[32mréussi\u{1b}[0m"), "réussi");
}

#[test]
fn stderr_lines_are_cleaned_and_graded() {
    let entry = |line: &str| {
        let (level, text) = log_entry(line);
        (format!("{level:?}"), text)
    };
    assert_eq!(entry("\u{1b}[31m ERROR \u{1b}[0mx\r\n"), (format!("{:?}", Level::Error), " ERROR x".to_string()));
    assert_eq!(entry("a WARN b ERROR\n").0, format!("{:?}", Level::Warn));
    assert_eq!(entry("a DEBUG b").0, format!("{:?}", Level::Debug));
    assert_eq!(entry("plain\n\n"), (format!("{:?}", Level::Trace), "plain".to_string()));
    assert_eq!(strip_ansi("\u{1b}plain [0m"), "\u{1b}plain [0m");
    assert_eq!(strip_ansi("\u{1b}[1;2"), "");
}

#[test]
fn mcp_elicitation_preserves_current_envelope_and_schema() {
    let params = r#"{"mode":"openai/form","threadId":"native-child","turnId":null,"serverName":"survey","message":"Configure","futureField":{"retained":true},"requestedSchema":{"type":"object","properties":{"count":{"type":"integer","minimum":2}},"required":["count"]}}"#;
    let line = format!(r#"{{"id":"form-1","method":"mcpServer/elicitation/request","params":{params}}}"#);
    match item(&line) {
        InboxItem::Message(ServerMessage::Request { id, request }) => {
            assert_eq!(id, RpcId::Text("form-1".into()));
            assert_eq!(request.method, "mcpServer/elicitation/request");
            match request.body {
                RequestBody::Unmodelled(Some(actual)) => assert_eq!(actual.to_text(), j(params).to_text()),
                other => panic!("parameters must be kept as received, got {other:?}"),
            }
        }
        other => panic!("expected a request, got {other:?}"),
    }
}

#[test]
fn requests_are_typed_as_far_as_they_are_read() {
    match item(r#"{"id":5,"method":"item/tool/call","params":{"tool":"run","arguments":{"a":1.5},"threadId":"t","turnId":"u","callId":"c"}}"#) {
        InboxItem::Message(ServerMessage::Request { id, request }) => {
            assert_eq!(id, RpcId::Integer(5));
            match request.body {
                RequestBody::ToolCall(call) => {
                    assert_eq!(call.namespace, None);
                    assert_eq!((call.tool.as_str(), call.call_id.as_str()), ("run", "c"));
                    assert_eq!(call.arguments.to_text(), r#"{"a":1.5}"#);
                }
                other => panic!("expected a tool call, got {other:?}"),
            }
        }
        other => panic!("expected a request, got {other:?}"),
    }
    match item(r#"{"id":6,"method":"account/chatgptAuthTokens/refresh","params":{"reason":"unauthorized","previousAccountId":"a"}}"#) {
        InboxItem::Message(ServerMessage::Request { request, .. }) => match request.body {
            RequestBody::AuthRefresh(params) => {
                assert_eq!(params.text_at("reason"), Some("unauthorized"));
                assert_eq!(params.text_at("previousAccountId"), Some("a"));
            }
            other => panic!("expected a refresh, got {other:?}"),
        },
        other => panic!("expected a request, got {other:?}"),
    }
    match item(r#"{"id":7,"method":"attestation/generate","params":{}}"#) {
        InboxItem::Message(ServerMessage::Request { request, .. }) => {
            assert!(matches!(request.body, RequestBody::Modelled(_)));
            assert_eq!(request.method, "attestation/generate");
        }
        other => panic!("expected a request, got {other:?}"),
    }
}

#[test]
fn an_oversized_frame_is_fatal() {
    let mut bytes = vec![b'x'; CODEX_MAX_FRAME_BYTES];
    bytes.push(b'\n');
    match read_step(ReadEvent::Frame(bytes), PREVIEW) {
        ReadStep::Stop { item: InboxItem::Fatal(message), reason } => {
            assert_eq!(message, format!("Codex stdout frame exceeded {CODEX_MAX_FRAME_BYTES} bytes"));
            assert_eq!(reason, "Codex stream produced an oversized frame");
        }
        other => panic!("expected the end of the stream, got {other:?}"),
    }
}

#[test]
fn a_frame_at_the_limit_is_accepted() {
    let mut bytes = vec![b'x'; CODEX_MAX_FRAME_BYTES - 1];
    bytes.push(b'\n');
    match read_step(ReadEvent::Frame(bytes), PREVIEW) {
        ReadStep::Append(InboxItem::NonJson { raw_bytes, .. }) => assert_eq!(raw_bytes, CODEX_MAX_FRAME_BYTES - 1),
        other => panic!("expected an accepted non-JSON frame, got {other:?}"),
    }
}

#[test]
fn non_json_is_recoverable_and_valid_message_precedes_fatal_garbage() {
    let raw_non_json = format!("{}é", "x".repeat(PREVIEW - 1));
    assert!(matches!(frame("   "), ReadStep::Skip));
    match item(&raw_non_json) {
        InboxItem::NonJson { raw_preview, raw_bytes, .. } => {
            assert_eq!(raw_preview.len(), PREVIEW - 1);
            assert_eq!(raw_bytes, raw_non_json.len());
        }
        other => panic!("expected recoverable non-JSON line, got {other:?}"),
    }
    assert!(matches!(item(r#"{"method":"unknown/valid"}"#), InboxItem::Message(_)));
    match frame(r#"{"method":"turn/completed""#) {
        ReadStep::Stop { item: InboxItem::Fatal(message), reason } => {
            assert!(message.starts_with("Codex JSON-RPC deserialization error for method unknown: "));
            assert!(message.ends_with(r#"(raw_bytes: 26, raw_preview: "{\"method\":\"turn/completed\"")"#), "{message}");
            assert_eq!(reason, "Codex stream contained malformed JSON-RPC");
        }
        other => panic!("expected the end of the stream, got {other:?}"),
    }
}

#[test]
fn parseable_invalid_envelope_and_typed_decode_error_are_fatal() {
    assert!(matches!(
        frame(r#"{"unexpected":true}"#),
        ReadStep::Stop { item: InboxItem::Fatal(_), .. }
    ));
    match frame(r#"{"method":"turn/completed","params":{"unexpected":true}}"#) {
        ReadStep::Stop { item: InboxItem::Fatal(message), reason } => {
            assert!(message.starts_with("Codex JSON-RPC deserialization error for method turn/completed: "));
            assert_eq!(reason, "Codex notification decode failed");
        }
        other => panic!("expected the end of the stream, got {other:?}"),
    }
}

#[test]
fn bytes_that_are_no_text_do_not_end_the_stream() {
    match read_step(ReadEvent::Frame(vec![b'a', 0xff, b'b', b'\r', b'\n']), PREVIEW) {
        ReadStep::Append(InboxItem::NonJson { raw_preview, raw_bytes, .. }) => {
            assert_eq!(raw_preview, "a\u{fffd}b");
            assert_eq!(raw_bytes, 5);
        }
        other => panic!("expected a stray line, got {other:?}"),
    }
}

#[test]
fn the_end_of_the_output_and_read_failures_stop_the_reader() {
    match read_step(ReadEvent::Eof, PREVIEW) {
        ReadStep::Stop { item: InboxItem::Eof, reason } => assert_eq!(reason, "Codex stream closed"),
        other => panic!("unexpected {other:?}"),
    }
    match read_step(ReadEvent::Failed("broken".into()), PREVIEW) {
        ReadStep::Stop { item: InboxItem::Fatal(message), reason } => {
            assert_eq!(message, "failed to read Codex stdout: broken");
            assert_eq!(reason, "Codex stream read failed");
        }
        other => panic!("unexpected {other:?}"),
    }
}

#[test]
fn answers_resolve_their_request() {
    match frame(r#"{"id":1,"result":{"ok":true}}"#) {
        ReadStep::Resolve { id, result } => {
            assert_eq!(id, RpcId::Integer(1));
            assert_eq!(result.unwrap().to_text(), r#"{"ok":true}"#);
        }
        other => panic!("unexpected {other:?}"),
    }
    match frame(r#"{"id":"a","error":{"code":-32000,"message":"rejected"}}"#) {
        ReadStep::Resolve { id, result } => {
            assert_eq!(id, RpcId::Text("a".into()));
            assert_eq!(
                result.unwrap_err(),
                HarnessError::Transport("JSON-RPC error (-32000): rejected".into())
            );
        }
        other => panic!("unexpected {other:?}"),
    }
}

#[test]
fn decoding_results_are_routed() {
    assert!(matches!(
        route_notification("line", "m".into(), None, None, PREVIEW),
        ReadStep::Append(InboxItem::Message(ServerMessage::Notification { .. }))
    ));
    match route_notification("\"", "m".into(), None, Some("bad".into()), PREVIEW) {
        ReadStep::Stop { item: InboxItem::Fatal(message), .. } => assert_eq!(
            message,
            r#"Codex JSON-RPC deserialization error for method m: bad (raw_bytes: 1, raw_preview: "\"")"#
        ),
        other => panic!("unexpected {other:?}"),
    }
    match route_request("line", RpcId::Integer(1), "m", Err("bad".into()), 2) {
        ReadStep::Stop { item: InboxItem::Fatal(message), reason } => {
            assert_eq!(
                message,
                r#"Codex JSON-RPC deserialization error for method m: bad (raw_bytes: 4, raw_preview: "li")"#
            );
            assert_eq!(reason, "Codex request decode failed");
        }
        other => panic!("unexpected {other:?}"),
    }
    assert!(matches!(
        unreadable_line(" x", "bad".into(), PREVIEW),
        ReadStep::Append(InboxItem::NonJson { .. })
    ));
    assert!(matches!(unreadable_line("\u{a0}{", "bad".into(), PREVIEW), ReadStep::Stop { .. }));
    assert_eq!(
        decode_report_text("m", "e", 7, "'p'"),
        "Codex JSON-RPC deserialization error for method m: e (raw_bytes: 7, raw_preview: 'p')"
    );
}

#[test]
fn initialize_gets_id_one_and_initialized_has_no_id() {
    let mut waiters: Waiters<u8> = Waiters::new();
    let (registration, request) = begin_request(&mut waiters, 0, "initialize", Json::object(), true).unwrap();
    assert_eq!(registration.id, RpcId::Integer(1));
    assert_eq!(request.line, r#"{"id":1,"method":"initialize","params":{}}"#);
    assert_eq!(request.description, "request initialize id 1");
    let notification = notification_frame("initialized").unwrap();
    assert_eq!(notification.line, r#"{"method":"initialized"}"#);
    assert_eq!(notification.description, "notification initialized");
}

#[test]
fn frames_stay_on_one_line() {
    let id = RpcId::Text("a\nb".into());
    let request = request_frame(&id, "m", Json::text("x\r\n")).unwrap();
    assert_eq!(request.line, r#"{"id":"a\nb","method":"m","params":"x\r\n"}"#);
    assert_eq!(
        response_frame(&RpcId::Integer(-3), Json::Null).unwrap().line,
        r#"{"id":-3,"result":null}"#
    );
    assert_eq!(response_frame(&RpcId::Integer(-3), Json::Null).unwrap().description, "response id -3");
    let error = error_frame(&id, -32602, "no").unwrap();
    assert_eq!(error.line, r#"{"error":{"code":-32602,"message":"no"},"id":"a\nb"}"#);
    assert_eq!(error.description, "error response id a\nb");
    assert_eq!(
        service_frame(&RpcId::Integer(1), Err("down")).unwrap().line,
        r#"{"error":{"code":-32000,"message":"down"},"id":1}"#
    );
    let served = service_frame(&RpcId::Integer(1), Ok(Json::Bool(true))).unwrap();
    assert_eq!(served.line, r#"{"id":1,"result":true}"#);
    assert_eq!(served.description, "native service response id 1");
    assert_eq!(serialize_line(&j(r#"{"b":[1, 2],"a":null}"#)).unwrap(), r#"{"a":null,"b":[1,2]}"#);
    assert_eq!(
        single_line("a\rb".into()),
        Err(HarnessError::Protocol("raw app-server frame contains an embedded line break".into()))
    );
    assert_eq!(single_line("ab".into()), Ok("ab".into()));
}

#[test]
fn responses_are_correlated_and_notifications_keep_their_order() {
    let mut waiters: Waiters<&str> = Waiters::new();
    let (first, _) = begin_request(&mut waiters, "first", "request/first", Json::object(), true).unwrap();
    let (second, _) = begin_request(&mut waiters, "second", "request/second", Json::object(), true).unwrap();
    let mut intake = Intake::new();
    let mut answered = vec![];
    for line in [
        r#"{"method":"unknown/one"}"#.to_string(),
        format!(r#"{{"id":{},"result":"second"}}"#, second.id.to_text()),
        r#"{"method":"unknown/two"}"#.to_string(),
        format!(r#"{{"id":{},"result":"first"}}"#, first.id.to_text()),
    ] {
        match frame(&line) {
            ReadStep::Append(item) => assert!(matches!(intake.during_request(Ok(item)), RequestStep::Wait)),
            ReadStep::Resolve { id, result } => answered.push((waiters.take(&id).unwrap(), result.unwrap().to_text())),
            other => panic!("unexpected {other:?}"),
        }
    }
    assert_eq!(answered, vec![("second", "\"second\"".to_string()), ("first", "\"first\"".to_string())]);
    for expected in ["unknown/one", "unknown/two"] {
        let message = surfaced(intake.next()).unwrap().unwrap();
        assert_eq!(method_of(&message), expected);
    }
    assert!(matches!(intake.next(), IntakeStep::Receive));
}

#[test]
fn notifications_during_a_request_are_delivered_after_it() {
    let mut waiters: Waiters<u8> = Waiters::new();
    let (mut registration, request) =
        begin_request(&mut waiters, 1, "test/request", j(r#"{"value":1}"#), true).unwrap();
    assert_eq!(request.line, r#"{"id":1,"method":"test/request","params":{"value":1}}"#);
    let mut intake = Intake::new();
    for line in [
        r#"{"method":"unknown/one","params":{"n":1}}"#,
        r#"{"method":"unknown/two","params":{"n":2}}"#,
    ] {
        assert!(matches!(intake.during_request(Ok(item(line))), RequestStep::Wait));
    }
    let answer = match frame(r#"{"id":1,"result":{"ok":true}}"#) {
        ReadStep::Resolve { id, result } => {
            assert_eq!(waiters.take(&id), Some(1));
            result
        }
        other => panic!("unexpected {other:?}"),
    };
    let response = finish_request(&mut registration, &mut waiters, Some(answer)).unwrap();
    assert_eq!(response.to_text(), r#"{"ok":true}"#);
    assert!(!registration.armed);
    for expected in ["unknown/one", "unknown/two"] {
        assert_eq!(method_of(&surfaced(intake.next()).unwrap().unwrap()), expected);
    }
}

#[test]
fn a_late_response_for_a_timed_out_request_is_dropped() {
    let mut waiters: Waiters<&str> = Waiters::new();
    let (first, _) = begin_request(&mut waiters, "first", "first", Json::object(), true).unwrap();
    assert_eq!(first.id, RpcId::Integer(1));
    assert_eq!(first.release(&mut waiters, RequestPhase::Written), Some(RequestPhase::Written));
    assert_eq!(waiters.take(&RpcId::Integer(1)), None);
    let (second, _) = begin_request(&mut waiters, "second", "second", Json::object(), true).unwrap();
    assert_eq!(second.id, RpcId::Integer(2));
    assert_eq!(waiters.take(&RpcId::Integer(1)), None);
    assert_eq!(waiters.take(&RpcId::Integer(2)), Some("second"));
    assert_eq!(waiters.take(&RpcId::Integer(2)), None);
}

#[test]
fn timeout_records_written_and_not_queued_states() {
    let mut waiters: Waiters<u8> = Waiters::new();
    let (written, _) = begin_request(&mut waiters, 0, "written", Json::object(), true).unwrap();
    let after = write_step(Some(RequestPhase::Created), Ok(()));
    assert_eq!(after.phase, Some(RequestPhase::Written));
    let phase = after.phase.unwrap().queued();
    assert_eq!(phase, RequestPhase::Written, "a finished write is not forgotten");
    assert_eq!(written.release(&mut waiters, phase), Some(RequestPhase::Written));
    let (unqueued, _) = begin_request(&mut waiters, 0, "not-queued", Json::object(), true).unwrap();
    assert_eq!(unqueued.release(&mut waiters, RequestPhase::Created), Some(RequestPhase::Created));
    assert_eq!(RequestPhase::Created.queued(), RequestPhase::Queued);
    assert_eq!(RequestPhase::Created.abandoned_note(), "Codex request timed out before it was queued");
    assert_eq!(
        RequestPhase::Queued.abandoned_note(),
        "Codex request timed out after it was queued but before it was written"
    );
    assert_eq!(RequestPhase::Written.abandoned_note(), "Codex request timed out after it was written");
}

#[test]
fn a_request_without_a_writer_waits_for_nothing() {
    let mut waiters: Waiters<u8> = Waiters::new();
    assert_eq!(
        begin_request(&mut waiters, 0, "m", Json::object(), false).unwrap_err(),
        transport_closed()
    );
    assert!(waiters.take_all().is_empty());
    let (mut registration, _) = begin_request(&mut waiters, 0, "m", Json::object(), true).unwrap();
    assert_eq!(registration.id, RpcId::Integer(2));
    assert_eq!(after_queueing(&mut registration, &mut waiters, false), Err(transport_closed()));
    assert!(waiters.take_all().is_empty());
    let (mut registration, _) = begin_request(&mut waiters, 0, "m", Json::object(), true).unwrap();
    assert_eq!(after_queueing(&mut registration, &mut waiters, true), Ok(()));
    assert_eq!(finish_request(&mut registration, &mut waiters, None).unwrap_err(), transport_closed());
    assert_eq!(transport_closed(), HarnessError::Transport("Codex transport closed".into()));
}

#[test]
fn shutdown_fails_pending_waiters_and_closes_the_inbox() {
    let mut waiters: Waiters<&str> = Waiters::new();
    let (mut kept, _) = begin_request(&mut waiters, "a", "m", Json::object(), true).unwrap();
    begin_request(&mut waiters, "b", "m", Json::object(), true).unwrap();
    let (pending, error) = waiters.fail_all("Codex transport shut down");
    assert_eq!(error, HarnessError::Transport("Codex transport shut down".into()));
    let mut handles: Vec<&str> = pending.into_iter().map(|(_, handle)| handle).collect();
    handles.sort();
    assert_eq!(handles, vec!["a", "b"]);
    assert!(waiters.take_all().is_empty());
    kept.disarm();
    assert_eq!(kept.release(&mut waiters, RequestPhase::Queued), None);
    let mut intake = Intake::new();
    assert!(matches!(intake.next(), IntakeStep::Receive));
    assert!(matches!(surfaced(intake.received(Err(StreamFault::Closed))), Ok(None)));
}

#[test]
fn a_failed_write_fails_everyone() {
    let step = write_step(Some(RequestPhase::Queued), Err("broken pipe".into()));
    assert_eq!(step.phase, Some(RequestPhase::Queued));
    assert_eq!(step.written, Err(HarnessError::Transport("broken pipe".into())));
    assert_eq!(step.stop.as_deref(), Some("broken pipe"));
    let step = write_step(None, Ok(()));
    assert_eq!((step.phase, step.written, step.stop), (None, Ok(()), None));
}

#[test]
fn eof_drains_the_inbox_then_reports_none() {
    let mut intake = Intake::new();
    assert!(matches!(intake.during_request(Ok(item(r#"{"method":"unknown/one"}"#))), RequestStep::Wait));
    assert!(matches!(intake.during_request(Ok(item(r#"{"method":"unknown/two"}"#))), RequestStep::Wait));
    assert!(matches!(intake.during_request(Ok(InboxItem::Eof)), RequestStep::Wait));
    assert!(surfaced(intake.next()).unwrap().is_some());
    assert!(surfaced(intake.next()).unwrap().is_some());
    assert!(surfaced(intake.next()).unwrap().is_none());
}

#[test]
fn inbox_overflow_is_fatal_with_a_count() {
    let mut intake = Intake::new();
    match surfaced(intake.received(Err(StreamFault::Gap { dropped: 3 }))) {
        Err(CodexStreamError::Fatal(HarnessError::Transport(message))) => {
            assert_eq!(message, "Codex inbox overflowed; 3 frames dropped");
        }
        other => panic!("expected fatal overflow, got {other:?}"),
    }
    match intake.during_request(Err(StreamFault::Gap { dropped: 3 })) {
        RequestStep::Fail(error) => assert_eq!(
            error,
            HarnessError::Transport("Codex service inbox failed: Gap { dropped: 3 }".into())
        ),
        other => panic!("unexpected {other:?}"),
    }
    match intake.during_request(Err(StreamFault::Closed)) {
        RequestStep::Fail(error) => {
            assert_eq!(error, HarnessError::Transport("Codex service inbox failed: Closed".into()))
        }
        other => panic!("unexpected {other:?}"),
    }
}

#[test]
fn deferred_inbox_overflow_remains_fatal_after_rpc_returns() {
    let mut intake = Intake::new();
    for _ in 0..CODEX_INBOX_RETAIN_LIMIT {
        assert!(matches!(intake.during_request(Ok(InboxItem::Eof)), RequestStep::Wait));
    }
    match intake.during_request(Ok(item(r#"{"method":"unknown/overflow"}"#))) {
        RequestStep::Fail(HarnessError::Transport(message)) => assert!(message.contains("overflowed")),
        other => panic!("unexpected {other:?}"),
    }
    for _ in 0..2 {
        assert!(matches!(surfaced(intake.next()), Err(CodexStreamError::Fatal(_))));
    }
}

#[test]
fn native_service_can_unblock_client_rpc_and_preserves_other_frames() {
    let providers = NativeServiceProviders {
        attestation_command: vec!["/bin/sh".into()],
        ..Default::default()
    };
    let mut waiters: Waiters<u8> = Waiters::new();
    let (mut registration, _) = begin_request(&mut waiters, 0, "test/request", Json::object(), true).unwrap();
    let mut intake = Intake::new();
    assert!(matches!(intake.during_request(Ok(item(r#"{"method":"unknown/one"}"#))), RequestStep::Wait));
    let service = item(r#"{"id":"service-1","method":"attestation/generate","params":{}}"#);
    let (id, request) = match intake.during_request(Ok(service)) {
        RequestStep::Start { id, request } => (id, request),
        other => panic!("expected a service, got {other:?}"),
    };
    let (kind, _) = providers.plan(&request).unwrap();
    let run = ProviderRun::Printed { bytes: br#"{"token":"stub-attestation"}"#.to_vec(), success: Some(true) };
    let answer = service_frame(&id, conclude(&kind, &run)).unwrap();
    assert_eq!(answer.line, r#"{"id":"service-1","result":{"token":"stub-attestation"}}"#);
    intake.served(after_service_answer(Some(Ok(())))).unwrap();
    assert!(matches!(intake.during_request(Ok(item(r#"{"method":"unknown/two"}"#))), RequestStep::Wait));
    match frame(r#"{"id":1,"result":{"ok":true}}"#) {
        ReadStep::Resolve { id, result } => {
            assert_eq!(waiters.take(&id), Some(0));
            let response = finish_request(&mut registration, &mut waiters, Some(result)).unwrap();
            assert_eq!(response.to_text(), r#"{"ok":true}"#);
        }
        other => panic!("unexpected {other:?}"),
    }
    for expected in ["unknown/one", "unknown/two"] {
        assert_eq!(method_of(&surfaced(intake.next()).unwrap().unwrap()), expected);
    }
}

#[test]
fn unconfigured_services_receive_errors_without_browser_actions() {
    let providers = NativeServiceProviders::default();
    let mut intake = Intake::new();
    for (id, method, params) in [
        ("7", "attestation/generate", "{}"),
        ("\"auth\"", "account/chatgptAuthTokens/refresh", r#"{"reason":"unauthorized"}"#),
    ] {
        let line = format!(r#"{{"id":{id},"method":"{method}","params":{params}}}"#);
        match intake.received(Ok(item(&line))) {
            IntakeStep::Start { id: native, request } => {
                let fault = providers.plan(&request).unwrap_err();
                assert!(fault.contains("configure a trusted host provider"));
                assert_eq!(
                    service_frame(&native, Err(fault)).unwrap().line,
                    format!(r#"{{"error":{{"code":-32000,"message":"{fault}"}},"id":{id}}}"#)
                );
                intake.served(Ok(())).unwrap();
            }
            other => panic!("expected a service, got {other:?}"),
        }
    }
    let message = surfaced(intake.received(Ok(item(r#"{"method":"unknown/done"}"#)))).unwrap();
    assert!(matches!(message, Some(ServerMessage::Notification { .. })));
}

#[test]
fn sent_frames_end_with_what_the_writer_told() {
    assert_eq!(after_sending(true, Some(Ok(()))), Ok(()));
    let broken = || HarnessError::Transport("broken".into());
    assert_eq!(after_sending(true, Some(Err(broken()))), Err(broken()));
    assert_eq!(after_sending(true, None), Err(transport_closed()));
    assert_eq!(after_sending(false, None), Err(transport_closed()));
    assert_eq!(after_service_answer(Some(Err(broken()))), Err(broken()));
    assert_eq!(
        after_service_answer(None),
        Err(HarnessError::Timeout("native service response write timed out".into()))
    );
}

#[test]
fn identities_count_up_and_are_not_reused() {
    let mut waiters: Waiters<usize> = Waiters::new();
    let ids: Vec<RpcId> = (0..100).map(|n| waiters.register(n)).collect();
    for (n, id) in ids.iter().enumerate() {
        assert_eq!(id, &RpcId::Integer(n as i64 + 1));
        assert_eq!(waiters.take(id), Some(n));
    }
}

#[test]
fn service_requests_are_served_and_never_surface() {
    let mut intake = Intake::new();
    let service = r#"{"id":"service-1","method":"attestation/generate","params":{}}"#;
    assert!(matches!(intake.during_request(Ok(item(r#"{"method":"unknown/one"}"#))), RequestStep::Wait));
    match intake.during_request(Ok(item(service))) {
        RequestStep::Start { id, request } => {
            assert_eq!(id, RpcId::Text("service-1".into()));
            assert_eq!(request.method, "attestation/generate");
        }
        other => panic!("unexpected {other:?}"),
    }
    assert_eq!(intake.before_request(), Ok(true));
    assert!(matches!(intake.next(), IntakeStep::Serve));
    assert_eq!(intake.served(Ok(())), Ok(()));
    assert_eq!(intake.before_request(), Ok(false));
    assert!(matches!(intake.during_request(Ok(item(r#"{"method":"unknown/two"}"#))), RequestStep::Wait));
    for expected in ["unknown/one", "unknown/two"] {
        assert_eq!(method_of(&surfaced(intake.next()).unwrap().unwrap()), expected);
    }
    assert!(matches!(intake.next(), IntakeStep::Receive));
    assert!(matches!(intake.received(Ok(item(service))), IntakeStep::Start { .. }));
    assert!(matches!(intake.next(), IntakeStep::Serve), "the same service goes on");
}

#[test]
fn service_response_write_timeout_poison_connection_and_bounds_owner_wait() {
    let mut intake = Intake::new();
    let service = r#"{"id":"blocked-writer","method":"attestation/generate","params":{}}"#;
    assert!(matches!(intake.received(Ok(item(service))), IntakeStep::Start { .. }));
    let late = || HarnessError::Timeout("native service response write timed out".into());
    assert_eq!(intake.served(Err(late())), Err(late()));
    assert!(matches!(
        surfaced(intake.next()),
        Err(CodexStreamError::Fatal(HarnessError::Timeout(_)))
    ));
    assert_eq!(intake.before_request(), Err(late()));
}

#[test]
fn identities_read_alike_in_text_and_frames() {
    assert_eq!(RpcId::Integer(i64::MIN).to_text(), i64::MIN.to_string());
    assert_eq!(RpcId::Integer(i64::MIN).to_json().to_text(), i64::MIN.to_string());
    assert_eq!(RpcId::Text("7".into()).to_json().to_text(), "\"7\"");
    assert!(!RpcId::Text("7".into()).matches(&RpcId::Integer(7)));
    assert!(RpcId::Integer(7).matches(&RpcId::Integer(7)));
    let mut registration = Registration { id: RpcId::Integer(1), armed: true };
    registration.disarm();
    assert!(!registration.armed);
}
