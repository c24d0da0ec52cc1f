use giskard::context_policy::{choose_efforts, config};
use giskard::context_reload::{
    begin, ContextAction, ContextEvent, ContextReload, Pace, ProviderReply, Reply, ThreadFacts,
};
use giskard::error::{HarnessError, ThreadId};
use giskard::json::Json;
use giskard::model::{Effort, ModelRef};
use giskard::session::ThreadHandle;

fn j(text: &str) -> Json {
    Json::read(text.as_bytes()).unwrap()
}

struct Native {
    calls: Vec<(String, Json)>,
    effort: String,
    context: Option<u64>,
    ignored: bool,
    active: bool,
    goal: bool,
    queued: bool,
    single_effort: bool,
    fail_resume: bool,
    /// The window that is noted as applied.
    applied: Option<u32>,
    /// Reads that still show the effort before the last change.
    slow: usize,
    shown: String,
    late: bool,
    fail_recovery: bool,
}

impl Native {
    fn new() -> Native {
        Native {
            calls: vec![],
            effort: "high".into(),
            context: None,
            ignored: false,
            active: false,
            goal: false,
            queued: false,
            single_effort: false,
            fail_resume: false,
            applied: None,
            slow: 0,
            shown: "high".into(),
            late: false,
            fail_recovery: false,
        }
    }

    fn request(&mut self, method: &str, params: Json) -> Reply {
        let config = params.get("config").cloned();
        let effort = params.text_at("effort").map(String::from);
        self.calls.push((method.to_owned(), params));
        Reply::Answered(match method {
            "thread/read" => {
                if self.slow > 0 {
                    self.slow -= 1;
                } else {
                    self.shown = self.effort.clone();
                }
                j(&format!(
                    r#"{{"thread":{{"id":"native","modelProvider":"openai","reasoningEffort":"{}","status":{{"type":"{}"}}}}}}"#,
                    self.shown,
                    if self.active { "active" } else { "idle" }
                ))
            }
            "thread/goal/get" => {
                if self.goal {
                    j(r#"{"goal":{"threadId":"native","status":"active"}}"#)
                } else {
                    j(r#"{"goal":null}"#)
                }
            }
            "thread/queue/list" => {
                if self.queued {
                    j(r#"{"data":[{"id":"queued"}],"nextCursor":null}"#)
                } else {
                    j(r#"{"data":[],"nextCursor":null}"#)
                }
            }
            "model/list" => {
                if self.single_effort {
                    j(r#"{"data":[{"id":"astra","model":"gpt-6-astra","defaultReasoningEffort":"high","supportedReasoningEfforts":[{"reasoningEffort":"high"}]}],"nextCursor":null}"#)
                } else {
                    j(r#"{"data":[{"id":"astra","model":"gpt-6-astra","defaultReasoningEffort":"high","supportedReasoningEfforts":[{"reasoningEffort":"high"},{"reasoningEffort":"low"}]}],"nextCursor":null}"#)
                }
            }
            "thread/settings/update" => {
                self.effort = effort.unwrap();
                j("{}")
            }
            "thread/unsubscribe" => j(r#"{"status":"unsubscribed"}"#),
            "thread/resume" => {
                if let Some(config) = config {
                    if self.fail_resume {
                        self.fail_resume = false;
                        return Reply::Failed(HarnessError::Transport("resume failed".into()));
                    }
                    if !self.ignored {
                        self.effort = config.text_at("model_reasoning_effort").unwrap().into();
                        self.context = match config.at("model_context_window") {
                            Json::Unsigned(n) => Some(*n),
                            _ => None,
                        };
                    }
                } else if self.fail_recovery {
                    return Reply::TimedOut;
                }
                j(&format!(
                    r#"{{"thread":{{"id":"native"}},"model":"gpt-6-astra","modelProvider":"openai","reasoningEffort":"{}"}}"#,
                    self.effort
                ))
            }
            _ => panic!("unexpected method: {method}"),
        })
    }

    fn methods(&self) -> Vec<&str> {
        self.calls.iter().map(|c| c.0.as_str()).collect()
    }
}

fn thread() -> ThreadHandle {
    ThreadHandle {
        thread: ThreadId(9),
        harness_thread_id: "native".into(),
        workspace_root: "/workspace".into(),
    }
}

fn model(effort: Option<&str>) -> ModelRef {
    ModelRef {
        provider: "openai".into(),
        model: "gpt-6-astra".into(),
        reasoning_effort: effort.map(Effort::new),
        service_tier: None,
    }
}

fn facts(native: &Native) -> ThreadFacts {
    ThreadFacts { routed: true, applied: native.applied, turn_active: false }
}

fn ensure(native: &mut Native, effort: Option<&str>) -> Result<(), HarnessError> {
    let (reload, action) = begin(&thread(), Some(272_000), Some(&model(effort)), facts(native));
    drive(native, reload, action)
}

fn drive(native: &mut Native, reload: Option<ContextReload>, action: ContextAction) -> Result<(), HarnessError> {
    let mut reload = reload;
    let mut action = action;
    loop {
        let event = match action {
            ContextAction::Finish(result) => return result,
            ContextAction::Call { method, params, .. } => {
                let reply = native.request(method, params);
                ContextEvent::Replied { reply, late: native.late }
            }
            ContextAction::FindProvider => {
                native.calls.push(("config/read".into(), Json::Null));
                ContextEvent::Provider(ProviderReply::Found("openai".into()))
            }
            ContextAction::NoteWindow(window) => {
                native.applied = window;
                ContextEvent::Noted(Ok(()))
            }
        };
        let (next, next_action) = reload.unwrap().step(event);
        reload = Some(next);
        action = next_action;
    }
}

#[test]
fn context_configuration_is_total_and_positive() {
    assert!(config(0).is_err());
    assert_eq!(
        config(272000).unwrap().to_text(),
        j(r#"{"model_context_window":272000,"model_auto_compact_token_limit":272000,"model_auto_compact_token_limit_scope":"total"}"#).to_text()
    );
}

#[test]
fn verified_reload_preserves_identity_and_confirms_marker_before_unsubscribe() {
    let mut native = Native::new();
    ensure(&mut native, Some("high")).unwrap();
    assert_eq!(native.context, Some(272000));
    assert_eq!(native.effort, "high");
    assert_eq!(native.applied, Some(272000));
    assert_eq!(
        native.methods(),
        vec![
            "thread/read",
            "thread/goal/get",
            "thread/queue/list",
            "config/read",
            "model/list",
            "thread/settings/update",
            "thread/read",
            "thread/unsubscribe",
            "thread/resume"
        ]
    );
    let last = native.calls.last().unwrap().1.get("config").unwrap();
    assert_eq!(last.text_at("model_reasoning_effort"), Some("high"));
    assert_eq!(last.text_at("model_auto_compact_token_limit_scope"), Some("total"));
    let count = native.calls.len();
    ensure(&mut native, Some("high")).unwrap();
    assert_eq!(native.calls.len(), count, "verified unchanged cap needs no reload");
}

#[test]
fn successful_ignored_resume_is_failure_and_recovers_subscription_and_effort() {
    let mut native = Native::new();
    native.ignored = true;
    let error = ensure(&mut native, Some("high")).unwrap_err();
    assert!(error.describe().contains("ignored context overrides"));
    assert_eq!(native.effort, "high");
    assert_eq!(native.applied, None);
    let suffix: Vec<&str> = native.calls.iter().rev().take(3).map(|c| c.0.as_str()).collect();
    assert_eq!(suffix, vec!["thread/read", "thread/settings/update", "thread/resume"]);
}

#[test]
fn failed_resume_recovers_without_false_confirmation() {
    let mut native = Native::new();
    native.fail_resume = true;
    assert_eq!(
        ensure(&mut native, Some("high")),
        Err(HarnessError::Transport("resume failed".into()))
    );
    assert_eq!(native.effort, "high");
    assert_eq!(native.applied, None);
}

#[test]
fn running_native_work_is_refused_before_mutation() {
    let mut native = Native::new();
    native.active = true;
    assert!(matches!(ensure(&mut native, Some("high")), Err(HarnessError::ThreadBusy { .. })));
    assert_eq!(native.calls.len(), 1);
}

#[test]
fn autonomous_goal_or_queued_input_prevents_reload() {
    for (goal, queued) in [(true, false), (false, true)] {
        let mut native = Native::new();
        native.goal = goal;
        native.queued = queued;
        assert!(ensure(&mut native, Some("high"))
            .unwrap_err()
            .describe()
            .contains("Pause the native goal"));
        assert!(native.calls.iter().all(|c| c.0 != "thread/settings/update"));
    }
}

#[test]
fn missing_alternate_effort_is_explicit_and_nonmutating() {
    let mut native = Native::new();
    native.single_effort = true;
    assert!(ensure(&mut native, Some("high"))
        .unwrap_err()
        .describe()
        .contains("no alternate reasoning effort"));
    assert!(native.calls.iter().all(|c| c.0 != "thread/settings/update"));
}

#[test]
fn model_default_effort_is_resolved_from_catalog() {
    let mut native = Native::new();
    ensure(&mut native, None).unwrap();
    assert_eq!(native.effort, "high");
}

#[test]
fn a_slow_marker_is_polled_until_it_shows() {
    let mut native = Native::new();
    native.slow = 3;
    ensure(&mut native, Some("high")).unwrap();
    assert_eq!(native.methods().iter().filter(|m| **m == "thread/read").count(), 4);
}

#[test]
fn an_unconfirmed_marker_is_undone() {
    let mut native = Native::new();
    native.slow = 2;
    native.late = true;
    assert_eq!(
        ensure(&mut native, Some("high")),
        Err(HarnessError::Timeout(
            "Native reasoning setting was not confirmed before context reconfiguration".into()
        ))
    );
    assert!(!native.methods().contains(&"thread/unsubscribe"));
    assert_eq!(native.effort, "high");
    assert_eq!(native.applied, None);
}

#[test]
fn a_failed_recovery_reports_both_failures() {
    let mut native = Native::new();
    native.fail_resume = true;
    native.fail_recovery = true;
    assert_eq!(
        ensure(&mut native, Some("high")),
        Err(HarnessError::Protocol(
            "Context change failed: resume failed. Restoring the native session also failed: Context configuration thread/resume timed out; delivery is uncertain. Reopen this session before starting more work.".into()
        ))
    );
}

#[test]
fn changes_are_settled_without_calls_where_nothing_may_be_done() {
    let ok = ThreadFacts { routed: true, applied: None, turn_active: false };
    let m = model(None);
    let finish = |window: Option<u32>, model: Option<&ModelRef>, facts: ThreadFacts| {
        match begin(&thread(), window, model, facts) {
            (None, ContextAction::Finish(result)) => Some(result),
            _ => None,
        }
    };
    assert_eq!(finish(None, Some(&m), ok), Some(Ok(())));
    assert_eq!(
        finish(Some(0), Some(&m), ok),
        Some(Err(HarnessError::Protocol("Context window must be positive".into())))
    );
    assert_eq!(
        finish(Some(1), Some(&m), ThreadFacts { routed: false, ..ok }),
        Some(Err(HarnessError::Protocol(
            "Reopen the changed native thread binding before configuring context".into()
        )))
    );
    assert_eq!(finish(Some(1), None, ThreadFacts { applied: Some(1), ..ok }), Some(Ok(())));
    assert_eq!(
        finish(Some(1), Some(&m), ThreadFacts { turn_active: true, ..ok }),
        Some(Err(HarnessError::ThreadBusy { thread: ThreadId(9) }))
    );
    assert_eq!(
        finish(Some(1), None, ok),
        Some(Err(HarnessError::Protocol("Context configuration requires a selected model".into())))
    );
    assert_eq!(finish(Some(1), Some(&m), ok), None);
}

/// Runs a change up to the model catalog and answers with `pages`.
fn browse(pages: &[&str]) -> (ContextAction, usize) {
    let mut native = Native::new();
    let (reload, mut action) = begin(&thread(), Some(1000), Some(&model(Some("high"))), facts(&native));
    let mut reload = reload.unwrap();
    let mut page = 0;
    loop {
        let event = match action {
            ContextAction::Call { method: "model/list", .. } if page < pages.len() => {
                page += 1;
                ContextEvent::Replied { reply: Reply::Answered(j(pages[page - 1])), late: false }
            }
            ContextAction::Call { method, params, .. } => ContextEvent::Replied {
                reply: native.request(method, params),
                late: false,
            },
            ContextAction::FindProvider => ContextEvent::Provider(ProviderReply::Found("openai".into())),
            done => return (done, page),
        };
        let (next, next_action) = reload.step(event);
        reload = next;
        action = next_action;
        if page == pages.len() && !matches!(action, ContextAction::Call { method: "model/list", .. }) && page > 0 {
            return (action, page);
        }
    }
}

fn failure(action: ContextAction) -> String {
    match action {
        ContextAction::Finish(Err(error)) => error.describe(),
        other => panic!("expected a failure, got {other:?}"),
    }
}

#[test]
fn the_catalog_is_read_page_by_page() {
    let entry = r#"{"id":"gpt-6-astra","supportedReasoningEfforts":[{"reasoningEffort":"low"},{"reasoningEffort":"high"}]}"#;
    let last = format!(r#"{{"data":[{entry}]}}"#);
    let (action, pages) = browse(&[r#"{"data":[{"id":"other"}],"nextCursor":"b"}"#, &last]);
    assert!(matches!(action, ContextAction::NoteWindow(None)));
    assert_eq!(pages, 2);
    let (action, _) = browse(&[r#"{"data":[],"nextCursor":"b"}"#, r#"{"data":[],"nextCursor":"b"}"#]);
    assert_eq!(failure(action), "Native model catalog repeated a cursor");
    let (action, _) = browse(&[r#"{"data":[],"nextCursor":null}"#]);
    assert_eq!(
        failure(action),
        "Selected model is absent from the native catalog; cannot verify context configuration"
    );
    let (action, _) = browse(&[r#"{"data":{}}"#]);
    assert_eq!(failure(action), "Native model catalog is missing entries");
}

#[test]
fn efforts_come_from_the_catalog_entry() {
    let entry = j(r#"{"defaultReasoningEffort":"medium","supportedReasoningEfforts":[{"reasoningEffort":"medium"},{"reasoningEffort":"low"}]}"#);
    let efforts = choose_efforts(&entry, None).unwrap();
    assert_eq!((efforts.desired.as_str(), efforts.marker.as_str()), ("medium", "low"));
    assert_ne!(efforts.desired, efforts.marker);
    let efforts = choose_efforts(&entry, Some("low")).unwrap();
    assert_eq!((efforts.desired.as_str(), efforts.marker.as_str()), ("low", "medium"));
    let words = |entry: &str, selected: Option<&str>| choose_efforts(&j(entry), selected).unwrap_err().describe();
    assert_eq!(
        words("{}", None),
        "Native catalog has no default reasoning effort for context reconfiguration"
    );
    assert_eq!(
        words("{}", Some("low")),
        "Native model does not advertise reasoning settings for verified context reconfiguration"
    );
    assert_eq!(
        words(r#"{"supportedReasoningEfforts":[]}"#, Some("low")),
        "Selected reasoning effort is not advertised by the native model"
    );
}

#[test]
fn a_foreign_provider_or_thread_is_refused() {
    let native = Native::new();
    let (reload, action) = begin(&thread(), Some(1000), Some(&model(None)), facts(&native));
    assert!(matches!(
        action,
        ContextAction::Call { method: "thread/read", pace: Pace::Once, .. }
    ));
    let reload = reload.unwrap();
    let answer = |text: &str| ContextEvent::Replied { reply: Reply::Answered(j(text)), late: false };
    let again = || begin(&thread(), Some(1000), Some(&model(None)), facts(&Native::new())).0.unwrap();
    assert_eq!(
        failure(reload.step(answer(r#"{"thread":{"id":"other"}}"#)).1),
        "Context configuration returned a different native thread"
    );
    assert_eq!(
        failure(
            again()
                .step(answer(r#"{"thread":{"id":"native","status":{"type":"idle"},"canAcceptDirectInput":false}}"#))
                .1
        ),
        "Provider-owned child sessions cannot change context through public resume"
    );
    assert_eq!(
        failure(
            again()
                .step(answer(r#"{"thread":{"id":"native","status":{"type":"idle"},"modelProvider":"other"}}"#))
                .1
        ),
        "Context configuration cannot change the native provider"
    );
    assert_eq!(
        failure(again().step(ContextEvent::Replied { reply: Reply::TimedOut, late: false }).1),
        "Context configuration thread/read timed out; delivery is uncertain"
    );
}
