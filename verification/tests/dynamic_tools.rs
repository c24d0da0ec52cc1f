use giskard::dynamic_tools::{
    check_tool, default_timeout, valid_name, DynamicToolConfig, DynamicToolNamespaceConfig, Registry, MAX_BYTES,
    MAX_CONCURRENT,
};
use giskard::error::{HarnessError, ThreadId, TurnId};
use giskard::json::Json;
use giskard::protocol::DynamicToolCallParams;
use giskard::tool_calls::{failure_notice, Calls, Repeat, TaskOutcome};
use giskard::tool_runs::{bounded_input, bounded_output, ended, settle, tool_input, ContentItem, Decoded, Output, ToolRun};

fn j(text: &str) -> Json {
    Json::read(text.as_bytes()).unwrap()
}

fn namespace(script: &str) -> DynamicToolNamespaceConfig {
    DynamicToolNamespaceConfig {
        name: "local_tools".into(),
        description: "Installed tools".into(),
        tools: vec![DynamicToolConfig {
            name: "echo".into(),
            description: "Echo".into(),
            input_schema: j(r#"{"type":"object","properties":{"text":{"type":"string"}},"required":["text"],"additionalProperties":false}"#),
            command: "/bin/sh".into(),
            cwd: "/".into(),
            args: vec!["-c".into(), script.into()],
            timeout_ms: 1000,
        }],
    }
}

fn params() -> DynamicToolCallParams {
    DynamicToolCallParams {
        namespace: Some("local_tools".into()),
        tool: "echo".into(),
        arguments: j(r#"{"text":"test"}"#),
        thread_id: "native-child".into(),
        turn_id: "turn".into(),
        call_id: "call".into(),
    }
}

fn registry() -> Registry {
    Registry::from_config(vec![namespace("")]).unwrap()
}

#[test]
fn registration_uses_native_namespace_schema_without_exposing_executables() {
    let registry = Registry::from_config(vec![namespace("exit 1")]).unwrap();
    let spec = &registry.specs()[0];
    assert_eq!(spec.text_at("type"), Some("namespace"));
    let tool = match spec.get("tools").unwrap() {
        Json::Array(tools) => &tools[0],
        other => panic!("expected an array, got {other:?}"),
    };
    assert_eq!(tool.text_at("type"), Some("function"));
    assert_eq!(tool.at("inputSchema").text_at("type"), Some("object"));
    assert!(!spec.to_text().contains("/bin/sh"));
}

#[test]
fn config_rejects_ambiguity_relative_commands_invalid_schemas_and_timeouts() {
    assert!(Registry::from_config(vec![namespace(""), namespace("")]).is_err());
    let mut ns = namespace("");
    let copy = ns.tools[0].clone();
    ns.tools.push(copy);
    assert_eq!(
        Registry::from_config(vec![ns]).unwrap_err(),
        "duplicate dynamic tool name in namespace"
    );
    for which in 0..4 {
        let mut ns = namespace("");
        match which {
            0 => ns.tools[0].command = "relative".into(),
            1 => ns.tools[0].timeout_ms = 0,
            2 => ns.tools[0].input_schema = j(r#"{"type":"invalid"}"#),
            _ => ns.name = "a.b".into(),
        }
        assert!(Registry::from_config(vec![ns]).is_err());
    }
}

#[test]
fn configuration_faults_have_their_words() {
    let mut ns = namespace("");
    ns.tools[0].timeout_ms = 3_600_001;
    assert_eq!(
        Registry::from_config(vec![ns]).unwrap_err(),
        "invalid dynamic tool echo: require identifier name, absolute command/cwd, timeout_ms 1..3600000"
    );
    let mut ns = namespace("");
    ns.tools[0].timeout_ms = 3_600_000;
    assert!(Registry::from_config(vec![ns]).is_ok());
    let mut ns = namespace("");
    ns.tools[0].input_schema = j(r#"{"type":"invalid"}"#);
    assert!(Registry::from_config(vec![ns]).unwrap_err().starts_with("invalid inputSchema for echo: "));
    let mut ns = namespace("");
    ns.tools.clear();
    assert_eq!(
        Registry::from_config(vec![ns]).unwrap_err(),
        "dynamic tool namespaces must have unique identifier names and at least one tool"
    );
    let mut second = namespace("");
    second.name = "other_tools".into();
    let both = Registry::from_config(vec![namespace(""), second]).unwrap();
    assert_eq!(both.specs().len(), 2, "one name may stand in two namespaces");
    assert_eq!(
        check_tool(&registry(), "local_tools", &namespace("").tools[0], Err("why".into())),
        Err("invalid inputSchema for echo: why".into())
    );
    assert_eq!(default_timeout(), 30_000);
}

#[test]
fn an_unsuccessful_exit_counts_before_what_was_printed() {
    let done = || Decoded::Typed { success: true, content_items: vec![] };
    let words = |run| settle(run).diagnostic;
    assert_eq!(
        words(ended(false, "exit status: 7".into(), 12, done())).unwrap(),
        "client tool executor exited with exit status: 7 (12 stderr bytes)"
    );
    assert!(settle(ended(true, "exit status: 0".into(), 0, done())).success);
    assert_eq!(
        words(ended(true, "exit status: 0".into(), 0, Decoded::Fault { line: 1, column: 2 })).unwrap(),
        "executor must return one typed contentItems/success JSON object (invalid output at line 1, column 2)"
    );
}

#[test]
fn names_are_identifiers() {
    for good in ["a", "_", "A9_", &"x".repeat(64)] {
        assert!(valid_name(good), "{good}");
    }
    for bad in ["", "9a", "a.b", "é", "a b", &"x".repeat(65)] {
        assert!(!valid_name(bad), "{bad}");
    }
}

#[test]
fn calls_require_allowlist_exact_namespace_scope_and_valid_input() {
    let registry = registry();
    assert_eq!(registry.executor(&params()).unwrap().command, "/bin/sh");
    for which in 0..5 {
        let mut p = params();
        match which {
            0 => p.namespace = None,
            1 => p.tool = "other".into(),
            2 => p.arguments = j(r#"{"text":3}"#),
            3 => p.thread_id = String::new(),
            _ => p.arguments = j(r#"{"text":"ok","extra":true}"#),
        }
        assert!(registry.executor(&p).is_err());
    }
    assert!(Registry::default().executor(&params()).is_err());
}

#[test]
fn refused_calls_have_their_words() {
    let registry = registry();
    let mut p = params();
    p.namespace = None;
    assert_eq!(registry.executor(&p).unwrap_err(), "No configured client executor for .echo");
    p.call_id = " ".into();
    assert_eq!(
        registry.executor(&p).unwrap_err(),
        "dynamic tool call requires threadId, turnId and callId"
    );
    let mut p = params();
    p.arguments = j(r#"{"text":3}"#);
    assert_eq!(
        registry.executor(&p).unwrap_err(),
        "dynamic tool arguments do not match inputSchema at /text"
    );
    assert_eq!(
        registry.executor_with(&params(), Err("/x".into())).unwrap_err(),
        "dynamic tool arguments do not match inputSchema at /x"
    );
    assert_eq!(registry.executor_with(&params(), Ok(())).unwrap().name, "echo");
}

#[test]
fn a_tool_reads_one_line() {
    assert_eq!(
        tool_input(&params()).unwrap(),
        "{\"arguments\":{\"text\":\"test\"},\"callId\":\"call\",\"namespace\":\"local_tools\",\"threadId\":\"native-child\",\"tool\":\"echo\",\"turnId\":\"turn\"}\n"
    );
    let mut p = params();
    p.namespace = None;
    p.arguments = Json::text(&"x".repeat(MAX_BYTES));
    assert_eq!(tool_input(&p), Err("dynamic tool input exceeds 1 MiB"));
    assert!(bounded_input("é".repeat(MAX_BYTES / 2)).is_ok());
    assert!(bounded_input("é".repeat(MAX_BYTES / 2 + 1)).is_err());
}

#[test]
fn process_failure_and_malformed_output_never_synthesize_success() {
    for (run, words) in [
        (
            ToolRun::Exited { status: "exit status: 7".into(), stderr_bytes: 12 },
            "client tool executor exited with exit status: 7 (12 stderr bytes)",
        ),
        (
            ToolRun::Malformed { line: 1, column: 2 },
            "executor must return one typed contentItems/success JSON object (invalid output at line 1, column 2)",
        ),
        (ToolRun::SpawnFailed("e".into()), "spawning configured client executor: e"),
        (ToolRun::NoStdin, "executor stdin unavailable"),
        (ToolRun::NoStdout, "executor stdout unavailable"),
        (ToolRun::NoStderr, "executor stderr unavailable"),
        (ToolRun::WriteFailed("e".into()), "writing executor input: e"),
        (ToolRun::CloseFailed("e".into()), "closing executor input: e"),
        (ToolRun::ReadFailed("e".into()), "reading executor output: e"),
        (ToolRun::WaitFailed("e".into()), "waiting for executor: e"),
        (ToolRun::TooMuchOutput, "executor output exceeds 1 MiB"),
        (ToolRun::TimedOut { ms: 30 }, "client tool executor timed out after 30 ms"),
        (ToolRun::Unsendable("dynamic tool input exceeds 1 MiB".into()), "dynamic tool input exceeds 1 MiB"),
    ] {
        let output = settle(run);
        assert!(!output.success);
        assert_eq!(output.diagnostic.as_deref(), Some(words));
        assert_eq!(
            output.value().to_text(),
            format!(r#"{{"contentItems":[{{"text":"{words}","type":"inputText"}}],"success":false}}"#)
        );
    }
}

#[test]
fn process_receives_native_json_stdin_and_returns_typed_text_image_audio() {
    let output = settle(ToolRun::Done {
        success: true,
        content_items: vec![
            ContentItem::Text { text: "ok".into() },
            ContentItem::Image { image_url: "data:image/png;base64,aA==".into() },
            ContentItem::Audio { audio_url: "data:audio/wav;base64,aA==".into() },
        ],
    });
    assert!(output.success);
    assert_eq!(output.diagnostic, None);
    assert_eq!(
        output.value().to_text(),
        r#"{"contentItems":[{"text":"ok","type":"inputText"},{"imageUrl":"data:image/png;base64,aA==","type":"inputImage"},{"audioUrl":"data:audio/wav;base64,aA==","type":"inputAudio"}],"success":true}"#
    );
}

#[test]
fn timeout_bounds_process_and_output_pipe_lifetime() {
    let output = settle(ToolRun::TimedOut { ms: 30 });
    assert!(!output.success);
    assert!(output.value().to_text().contains("timed out"));
}

#[test]
fn output_limit_bounds_unterminated_or_infinite_streams() {
    assert_eq!(bounded_output(vec![0; MAX_BYTES + 1]), Err("executor output exceeds 1 MiB"));
    assert_eq!(bounded_output(vec![0; MAX_BYTES]).unwrap().len(), MAX_BYTES);
}

const THREAD: ThreadId = ThreadId(1);
const OTHER: ThreadId = ThreadId(2);

fn runnable() -> Result<DynamicToolConfig, String> {
    Ok(namespace("").tools.remove(0))
}

fn done(text: &str) -> Output {
    settle(ToolRun::Done {
        success: true,
        content_items: vec![ContentItem::Text { text: text.into() }],
    })
}

#[test]
fn configured_call_discovers_child_and_routes_exact_native_id_without_browser_action() {
    let mut calls = Calls::new();
    let registry = registry();
    assert!(calls.begin("17".into(), THREAD, None, 1, &registry, &params()).is_ok());
    assert_eq!(calls.running_ids(), vec!["17".to_string()]);
    let delivery = calls
        .finish(TaskOutcome::Completed { id: "17".into(), output: done("done") })
        .unwrap();
    assert_eq!((delivery.id.as_str(), delivery.thread), ("17", THREAD));
    assert!(delivery.notice.is_none());
    assert_eq!(
        calls.cached("17").unwrap().to_text(),
        r#"{"contentItems":[{"text":"done","type":"inputText"}],"success":true}"#
    );
    calls.confirm("17", true);
    assert!(!calls.owns("17"));
    assert!(calls.running_ids().is_empty());
}

#[test]
fn unknown_tool_is_explicit_failure_without_executing_or_pending_manual_success() {
    let mut calls = Calls::new();
    let mut p = params();
    p.tool = "other".into();
    let delivery = calls.begin("unknown".into(), THREAD, None, 1, &registry(), &p).unwrap_err();
    assert_eq!(
        delivery.notice,
        Some(HarnessError::Protocol(
            "Client tool request unknown failed: No configured client executor for local_tools.other".into()
        ))
    );
    let value = calls.cached("unknown").unwrap().to_text();
    assert!(value.contains("No configured client executor") && value.contains("\"success\":false"));
    assert!(calls.running_ids().is_empty());
    calls.confirm("unknown", true);
    assert!(!calls.owns("unknown"));
}

#[test]
fn duplicate_requests_do_not_spawn_second_execution_and_cancellation_is_scoped() {
    let mut calls = Calls::new();
    assert_eq!(calls.repeated("a", true), Repeat::Fresh);
    calls.begin_with("a".into(), THREAD, None, 1, runnable()).unwrap();
    assert_eq!(calls.repeated("a", true), Repeat::Ignore);
    assert_eq!(calls.repeated("a", false), Repeat::Fresh);
    calls.begin_with("b".into(), OTHER, None, 2, runnable()).unwrap();
    let cancelled = calls.cancel(THREAD, None, "test interruption");
    assert_eq!(cancelled.len(), 1);
    assert_eq!((cancelled[0].task, cancelled[0].delivery.id.as_str()), (1, "a"));
    assert_eq!(calls.running_ids(), vec!["b".to_string()]);
    assert!(calls.cached("a").unwrap().to_text().contains("client tool cancelled: test interruption"));
    assert!(calls
        .finish(TaskOutcome::Completed { id: "a".into(), output: done("late") })
        .is_none());
}

#[test]
fn running_executor_does_not_block_clock_and_failure_to_write_never_reexecutes() {
    let mut calls = Calls::new();
    calls.begin_with("tool".into(), THREAD, None, 1, runnable()).unwrap();
    calls.finish(TaskOutcome::Completed { id: "tool".into(), output: done("x") }).unwrap();
    let cached = calls.cached("tool").unwrap().to_text();
    calls.confirm("tool", false);
    assert!(calls.owns("tool"));
    assert_eq!(calls.repeated("tool", true), Repeat::Resend);
    assert_eq!(calls.cached("tool").unwrap().to_text(), cached);
    assert_eq!(calls.undelivered_ids(), vec!["tool".to_string()]);
    calls.confirm("tool", true);
    assert!(!calls.owns("tool"));
    assert!(calls.cached("tool").is_none());
}

#[test]
fn concurrency_limit_returns_failure_without_extra_process_and_turn_end_cancels() {
    let mut calls = Calls::new();
    let turn = Some(TurnId(5));
    for id in 0..MAX_CONCURRENT {
        assert!(calls.has_room());
        calls.begin_with(id.to_string(), THREAD, turn, id as u64, runnable()).unwrap();
    }
    assert!(!calls.has_room());
    let refused = calls.begin("16".into(), THREAD, turn, 99, &registry(), &params()).unwrap_err();
    assert!(refused.notice.unwrap().describe().contains("capacity limit"));
    assert!(calls.cancel(THREAD, Some(TurnId(6)), "other turn").is_empty());
    let cancelled = calls.cancel(THREAD, turn, "turn ended");
    assert_eq!(cancelled.len(), 16);
    let mut ids: Vec<&str> = cancelled.iter().map(|call| call.delivery.id.as_str()).collect();
    ids.sort();
    ids.dedup();
    assert_eq!(ids.len(), 16);
    assert!(calls.running_ids().is_empty());
    assert_eq!(calls.undelivered_ids().len(), 17);
}

#[test]
fn shutdown_aborts_every_executor_without_writing_after_connection_end() {
    let mut calls = Calls::new();
    calls.begin_with("a".into(), THREAD, None, 7, runnable()).unwrap();
    calls.begin_with("b".into(), OTHER, None, 8, runnable()).unwrap();
    calls.begin_with("c".into(), OTHER, None, 9, Err("no".into())).unwrap_err();
    let mut tasks = calls.abort_all();
    tasks.sort();
    assert_eq!(tasks, vec![7, 8]);
    assert!(calls.running_ids().is_empty() && calls.undelivered_ids().is_empty());
    assert!(calls
        .finish(TaskOutcome::Completed { id: "a".into(), output: done("late") })
        .is_none());
    assert!(calls.finish(TaskOutcome::Cancelled).is_none());
}

#[test]
fn cancelled_undelivered_result_survives_interrupt_rejection_until_connection_cleanup() {
    let mut calls = Calls::new();
    calls.begin_with("a".into(), THREAD, None, 1, runnable()).unwrap();
    assert_eq!(calls.cancel(THREAD, None, "thread interrupted").len(), 1);
    calls.confirm("a", false);
    assert!(calls.owns("a"));
    assert!(calls.cached("a").unwrap().to_text().contains("\"success\":false"));
    assert_eq!(calls.undelivered_ids(), vec!["a".to_string()]);
    assert_eq!(calls.repeated("a", true), Repeat::Resend);
    assert!(calls.running_ids().is_empty());
    assert!(calls.abort_all().is_empty());
    assert!(!calls.owns("a"));
}

#[test]
fn undelivered_results_retain_executor_capacity_without_replacing_cached_outputs() {
    let mut calls = Calls::new();
    for id in 0..MAX_CONCURRENT {
        calls.begin_with(id.to_string(), THREAD, None, id as u64, runnable()).unwrap();
        calls
            .finish(TaskOutcome::Completed { id: id.to_string(), output: done("retained result") })
            .unwrap();
        calls.confirm(&id.to_string(), false);
    }
    assert!(calls.running_ids().is_empty());
    assert_eq!(calls.undelivered_ids().len(), MAX_CONCURRENT);
    let original = calls.cached("0").unwrap().to_text();
    calls.begin("overloaded".into(), THREAD, None, 99, &registry(), &params()).unwrap_err();
    assert!(calls.running_ids().is_empty());
    assert!(calls.cached("overloaded").unwrap().to_text().contains("capacity limit"));
    assert_eq!(calls.cached("0").unwrap().to_text(), original);
    calls.cancel(THREAD, None, "interrupted");
    assert_eq!(calls.cached("0").unwrap().to_text(), original);
    calls.abort_all();
    assert!(calls.undelivered_ids().is_empty());
}

#[test]
fn a_crashed_worker_still_gets_its_call_answered() {
    let mut calls = Calls::new();
    calls.begin_with("a".into(), THREAD, None, 1, runnable()).unwrap();
    calls.begin_with("b".into(), THREAD, None, 2, runnable()).unwrap();
    assert!(calls.finish(TaskOutcome::Crashed { task: 3 }).is_none());
    let delivery = calls.finish(TaskOutcome::Crashed { task: 2 }).unwrap();
    assert_eq!(delivery.id, "b");
    assert_eq!(
        delivery.notice,
        Some(HarnessError::Protocol(
            "Client tool request b failed: client tool process task failed".into()
        ))
    );
    assert_eq!(calls.running_ids(), vec!["a".to_string()]);
    let unsuccessful = settle(ToolRun::Done { success: false, content_items: vec![] });
    assert_eq!(
        failure_notice("x", &unsuccessful),
        Some(HarnessError::Protocol(
            "Client tool request x failed: executor reported an unsuccessful result; see the tool output".into()
        ))
    );
}
