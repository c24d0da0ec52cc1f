use giskard::error::{HarnessError, ThreadId};
use giskard::goal_commands::{begin, settings_params, step, text_input, GoalAction, GoalStage, LaunchSettings};
use giskard::goals_queue::{GoalStatus, GoalsQueueCommand, GoalsQueueSnapshot};
use giskard::json::Json;
use giskard::model::ModelRef;
use giskard::native_goals::{decode_goal, decode_queue, native_status, read_status};
use giskard::session::ThreadHandle;

fn j(text: &str) -> Json {
    Json::read(text.as_bytes()).unwrap()
}

fn thread() -> ThreadHandle {
    ThreadHandle {
        thread: ThreadId(1),
        harness_thread_id: "ours".into(),
        workspace_root: "/work".into(),
    }
}

fn settings(model: bool) -> LaunchSettings {
    LaunchSettings {
        model: if model {
            Some(ModelRef {
                provider: "openai".into(),
                model: "m".into(),
                reasoning_effort: None,
                service_tier: None,
            })
        } else {
            None
        },
        effort: Json::Null,
        approval_policy: Json::text("on-request"),
        permissions: Json::text("workspace"),
        collaboration_mode: Json::text("default"),
    }
}

const GOAL: &str = r#"{"goal":{"threadId":"ours","objective":"test","status":"active","tokensUsed":1,"timeUsedSeconds":2,"createdAt":3,"updatedAt":4}}"#;
const QUEUE: &str = r#"{"data":[{"id":"q","clientUserMessageId":"c","input":[{"type":"text","text":"hello"}]}],"nextCursor":"next"}"#;

#[test]
fn queue_keeps_non_text_input_visible() {
    let (entries, cursor) = decode_queue(&j(r#"{"data":[{"id":"q", "clientUserMessageId":"c", "input":[{"type":"text","text":"hello"},{"type":"localAudio","path":"a"}]}], "nextCursor":"next"}"#)).unwrap();
    assert_eq!(entries[0].text, "hello");
    assert!(entries[0].has_other_input);
    assert_eq!(cursor.as_deref(), Some("next"));
}

#[test]
fn malformed_queue_is_an_error() {
    assert!(decode_queue(&j(r#"{"data":[{"id":"q"}]}"#)).is_err());
}

#[test]
fn rejects_foreign_goal() {
    assert!(decode_goal(&j(r#"{"goal":{"threadId":"other","objective":"test","status":"active","tokensUsed":0,"timeUsedSeconds":0,"createdAt":0,"updatedAt":0}}"#), "ours").is_err());
}

#[test]
fn no_goal_is_valid() {
    assert!(decode_goal(&j(r#"{"goal":null}"#), "ours").unwrap().is_none());
}

#[test]
fn a_goal_is_read_field_by_field() {
    let goal = decode_goal(&j(GOAL), "ours").unwrap().unwrap();
    assert_eq!(goal.objective, "test");
    assert_eq!(goal.status, GoalStatus::Active);
    assert_eq!(goal.token_budget, None);
    assert_eq!(
        (goal.tokens_used, goal.time_used_seconds, goal.created_at, goal.updated_at),
        (1, 2, 3, 4)
    );
    let array = decode_goal(&j(r#"[["ours","test","complete",5,1,2,3,-4]]"#), "ours").unwrap().unwrap();
    assert_eq!((array.token_budget, array.updated_at, array.status), (Some(5), -4, GoalStatus::Complete));
    assert!(decode_goal(&j("{}"), "ours").unwrap().is_none());
    for text in [
        "[]",
        "7",
        r#"{"goal":{}}"#,
        r#"{"goal":{"threadId":"ours","objective":"test","status":"active","tokensUsed":1.5,"timeUsedSeconds":2,"createdAt":3,"updatedAt":4}}"#,
        r#"{"goal":{"threadId":"ours","objective":"test","status":"active","tokensUsed":9223372036854775808,"timeUsedSeconds":2,"createdAt":3,"updatedAt":4}}"#,
    ] {
        assert_eq!(
            decode_goal(&j(text), "ours"),
            Err(HarnessError::Protocol("Invalid goal response: unexpected shape".into()))
        );
    }
    assert_eq!(
        decode_goal(&j(&GOAL.replace("active", "sleeping")), "ours"),
        Err(HarnessError::Protocol("Unknown goal status: sleeping".into()))
    );
}

#[test]
fn queued_texts_are_joined_line_by_line() {
    let (entries, cursor) = decode_queue(&j(r#"{"data":[{"id":"q","clientUserMessageId":"c","input":[{"type":"text","text":"a"},7,{"type":"text"},{"type":"text","text":"b"}]},{"id":"r","clientUserMessageId":"d","input":[]}]}"#)).unwrap();
    assert_eq!(entries[0].text, "a\nb");
    assert!(entries[0].has_other_input);
    assert_eq!(entries[1].text, "");
    assert!(!entries[1].has_other_input);
    assert_eq!(cursor, None);
}

#[test]
fn statuses_read_back() {
    for status in [
        GoalStatus::Active,
        GoalStatus::Paused,
        GoalStatus::Blocked,
        GoalStatus::UsageLimited,
        GoalStatus::BudgetLimited,
        GoalStatus::Complete,
    ] {
        assert_eq!(read_status(native_status(status)), Some(status));
    }
    assert_eq!(read_status("Active"), None);
}

fn calls(command: GoalsQueueCommand, settings: Option<&LaunchSettings>) -> (Vec<(String, String)>, Result<GoalsQueueSnapshot, HarnessError>) {
    run(command, settings, |_| None)
}

/// Runs a command; `fail` tells which call fails.
fn run(
    command: GoalsQueueCommand,
    settings: Option<&LaunchSettings>,
    fail: impl Fn(&str) -> Option<HarnessError>,
) -> (Vec<(String, String)>, Result<GoalsQueueSnapshot, HarnessError>) {
    let mut seen = vec![];
    let (mut stage, mut action): (Option<GoalStage>, GoalAction) = begin(&thread(), command, settings);
    loop {
        match action {
            GoalAction::Finish(result) => return (seen, result),
            GoalAction::Call { method, params } => {
                seen.push((method.to_string(), params.to_text()));
                let reply = match fail(method) {
                    Some(error) => Err(error),
                    None => Ok(match method {
                        "thread/goal/get" => j(GOAL),
                        "thread/queue/list" => j(QUEUE),
                        _ => j("{}"),
                    }),
                };
                let next = step(&thread(), stage.unwrap(), reply);
                stage = next.0;
                action = next.1;
            }
        }
    }
}

fn methods(seen: &[(String, String)]) -> Vec<&str> {
    seen.iter().map(|c| c.0.as_str()).collect()
}

#[test]
fn work_captures_settings_then_changes_then_reads_back() {
    let s = settings(true);
    let add = GoalsQueueCommand::Add { text: "go".into(), client_message_id: "c".into() };
    let (seen, result) = calls(add, Some(&s));
    assert_eq!(
        methods(&seen),
        vec!["thread/settings/update", "thread/queue/add", "thread/goal/get", "thread/queue/list"]
    );
    assert_eq!(
        seen[0].1,
        j(r#"{"approvalPolicy":"on-request","collaborationMode":{"mode":"default","settings":{"developer_instructions":null,"model":"m","reasoning_effort":null}},"cwd":"/work","effort":null,"model":"m","permissions":"workspace","serviceTier":null,"threadId":"ours"}"#).to_text()
    );
    assert_eq!(
        seen[1].1,
        j(r#"{"clientUserMessageId":"c","input":[{"text":"go","text_elements":[],"type":"text"}],"threadId":"ours"}"#).to_text()
    );
    assert_eq!(seen[3].1, r#"{"cursor":null,"threadId":"ours"}"#);
    let snapshot = result.unwrap();
    assert_eq!(snapshot.next_cursor.as_deref(), Some("next"));
    assert_eq!(snapshot.queue[0].id, "q");
    assert_eq!(snapshot.goal.unwrap().objective, "test");
}

#[test]
fn failed_settings_prevent_launch() {
    let s = settings(true);
    let start = GoalsQueueCommand::Start { id: None };
    let (seen, result) = run(start, Some(&s), |method| {
        if method == "thread/settings/update" {
            Some(HarnessError::Transport("no".into()))
        } else {
            None
        }
    });
    assert_eq!(methods(&seen), vec!["thread/settings/update"]);
    assert_eq!(result, Err(HarnessError::Transport("no".into())));
    let (seen, result) = calls(GoalsQueueCommand::Start { id: None }, None);
    assert!(seen.is_empty());
    assert_eq!(
        result,
        Err(HarnessError::Protocol(
            "Launch settings are required before changing native goal or queue work".into()
        ))
    );
    let (seen, result) = calls(GoalsQueueCommand::Start { id: None }, Some(&settings(false)));
    assert!(seen.is_empty());
    assert_eq!(
        result,
        Err(HarnessError::Protocol("Launch settings must name a model".into()))
    );
}

#[test]
fn status_and_budget_edits_omit_the_objective() {
    let s = settings(true);
    let edit = GoalsQueueCommand::SetGoal {
        objective: None,
        status: Some(GoalStatus::UsageLimited),
        token_budget: Some(5),
    };
    let (seen, _) = calls(edit, Some(&s));
    assert_eq!(seen[1].0, "thread/goal/set");
    assert_eq!(seen[1].1, r#"{"status":"usageLimited","threadId":"ours","tokenBudget":5}"#);
}

#[test]
fn every_command_has_its_call() {
    let s = settings(true);
    let first = |command: GoalsQueueCommand| {
        let (seen, _) = calls(command, Some(&s));
        seen.into_iter().find(|c| c.0 != "thread/settings/update").unwrap()
    };
    let call = |method: &str, params: &str| (method.to_string(), params.to_string());
    assert_eq!(first(GoalsQueueCommand::ClearGoal), call("thread/goal/clear", r#"{"threadId":"ours"}"#));
    assert_eq!(
        first(GoalsQueueCommand::Update { id: "q".into(), text: "t".into() }),
        call(
            "thread/queue/update",
            r#"{"input":[{"text":"t","text_elements":[],"type":"text"}],"queuedSubmissionId":"q","threadId":"ours"}"#
        )
    );
    assert_eq!(
        first(GoalsQueueCommand::Delete { id: "q".into() }),
        call("thread/queue/delete", r#"{"queuedSubmissionId":"q","threadId":"ours"}"#)
    );
    assert_eq!(
        first(GoalsQueueCommand::Reorder { ids: vec!["b".into(), "a".into()] }),
        call("thread/queue/reorder", r#"{"queuedSubmissionIds":["b","a"],"threadId":"ours"}"#)
    );
    assert_eq!(
        first(GoalsQueueCommand::Start { id: None }),
        call("thread/queue/start", r#"{"queuedSubmissionId":null,"threadId":"ours"}"#)
    );
}

#[test]
fn reading_only_looks() {
    let (seen, result) = calls(GoalsQueueCommand::Read { cursor: Some("c".into()) }, None);
    assert_eq!(methods(&seen), vec!["thread/goal/get", "thread/queue/list"]);
    assert_eq!(seen[1].1, r#"{"cursor":"c","threadId":"ours"}"#);
    assert!(result.is_ok());
    let (_, result) = run(GoalsQueueCommand::Read { cursor: None }, None, |method| {
        if method == "thread/queue/list" {
            Some(HarnessError::Transport("down".into()))
        } else {
            None
        }
    });
    assert_eq!(result, Err(HarnessError::Transport("down".into())));
}

#[test]
fn an_accepted_change_is_reported_as_accepted() {
    let (_, result) = run(GoalsQueueCommand::ClearGoal, None, |method| {
        if method == "thread/goal/get" {
            Some(HarnessError::Transport("down".into()))
        } else {
            None
        }
    });
    assert_eq!(
        result,
        Err(HarnessError::Protocol(
            "Change accepted, but refreshing goal/queue state failed: down. Refresh before retrying the change.".into()
        ))
    );
    let (_, refused) = calls(GoalsQueueCommand::Delete { id: " ".into() }, None);
    assert_eq!(refused, Err(HarnessError::Protocol("Queue ID must not be empty".into())));
}

#[test]
fn settings_name_the_tier_even_when_it_is_cleared() {
    let mut s = settings(true);
    assert!(settings_params(&thread(), &s).unwrap().get("serviceTier").unwrap().is_null());
    s.model.as_mut().unwrap().service_tier = Some("fast".into());
    assert_eq!(settings_params(&thread(), &s).unwrap().text_at("serviceTier"), Some("fast"));
    assert_eq!(text_input("a\"b").to_text(), r#"[{"text":"a\"b","text_elements":[],"type":"text"}]"#);
}
