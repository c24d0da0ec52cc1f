use giskard::context_window::{
    apply_update, check_update, finish_update, known_model, launch_window, project_settings, same_model, ThreadRecord, Update,
};
use giskard::error::ApiError;
use giskard::goal_admission::{judge, Binding, CommandFacts, StoredThread};
use giskard::goals_queue::GoalsQueueCommand;
use giskard::model::{Effort, ModelDescriptor, ModelRef};

fn model(provider: &str, id: &str) -> ModelRef {
    ModelRef { provider: provider.into(), model: id.into(), reasoning_effort: None, service_tier: None }
}

fn astra() -> ModelRef {
    model("openai", "gpt-6-astra")
}

fn record() -> ThreadRecord {
    ThreadRecord {
        current_model: Some(astra()),
        context_window_override: None,
        context_window: 258_400,
        recorded_capacity: None,
        primary: true,
        archived: false,
    }
}

fn descriptor(maximum: Option<u32>) -> ModelDescriptor {
    let mut d = ModelDescriptor::conservative("openai", "gpt-6-astra");
    d.context_window = maximum.unwrap_or(1_000_000);
    d.advertised_context_window = maximum;
    d
}

fn update(window: Option<u32>) -> Update {
    Update { model: astra(), context_window: window }
}

#[test]
fn a_preference_is_shown_with_its_bounds() {
    let settings = project_settings(&record(), astra(), &descriptor(Some(800_000)), true);
    assert_eq!(settings.advertised_maximum, Some(800_000));
    assert_eq!(settings.default_window, 272_000);
    assert_eq!(settings.selected_window, 272_000);
    assert_eq!(settings.override_window, None);
    assert_eq!(settings.non_premium_window, Some(272_000));
    assert_eq!(settings.effective_window, 258_400);
    assert!(settings.can_configure);
    let mut archived = record();
    archived.archived = true;
    assert!(!project_settings(&archived, astra(), &descriptor(None), true).can_configure);
    let mut child = record();
    child.primary = false;
    assert!(!project_settings(&child, astra(), &descriptor(None), true).can_configure);
    assert!(!project_settings(&record(), astra(), &descriptor(None), false).can_configure);
    assert_eq!(
        project_settings(&record(), astra(), &descriptor(Some(0)), true).advertised_maximum,
        None
    );
}

#[test]
fn turns_are_launched_with_a_window_only_where_the_capacity_is_known() {
    assert_eq!(launch_window(&record(), &descriptor(None)), None);
    assert_eq!(launch_window(&record(), &descriptor(Some(0))), None);
    assert_eq!(launch_window(&record(), &descriptor(Some(128_000))), Some(128_000));
    assert_eq!(launch_window(&record(), &descriptor(Some(800_000))), Some(272_000));
    let mut chosen = record();
    chosen.context_window_override = Some(512_000);
    assert_eq!(launch_window(&chosen, &descriptor(None)), None);
    assert_eq!(launch_window(&chosen, &descriptor(Some(800_000))), Some(512_000));
    assert_eq!(launch_window(&chosen, &descriptor(Some(400_000))), Some(400_000));
    chosen.recorded_capacity = Some(300_000);
    assert_eq!(launch_window(&chosen, &descriptor(None)), Some(300_000));
}

#[test]
fn limits_are_taken_within_the_advertised_range() {
    let check = |window: Option<u32>| check_update(&record(), &astra(), &descriptor(Some(800_000)), true, &update(window));
    assert_eq!(check(Some(512_000)), Ok(()));
    assert_eq!(check(Some(272_000)), Ok(()));
    assert_eq!(check(Some(800_000)), Ok(()));
    assert_eq!(check(None), Ok(()));
    for invalid in [0, 271_999, 800_001] {
        assert_eq!(
            check(Some(invalid)),
            Err(ApiError::BadRequest(
                "Context limit must be between 272000 and 800000 tokens".into()
            ))
        );
    }
}

#[test]
fn the_lower_of_catalog_and_record_bounds_a_session() {
    let mut first = record();
    first.recorded_capacity = Some(800_000);
    let catalog = descriptor(Some(1_000_000));
    let settings = project_settings(&first, astra(), &catalog, true);
    assert_eq!(settings.advertised_maximum, Some(800_000));
    assert_eq!(settings.default_window, 272_000);
    assert_eq!(settings.override_window, None);
    assert_eq!(check_update(&first, &astra(), &catalog, true, &update(Some(512_000))), Ok(()));
    assert!(!apply_update(&mut first, &update(Some(512_000))));
    assert_eq!(project_settings(&first, astra(), &catalog, true).selected_window, 512_000);
    assert_eq!(project_settings(&record(), astra(), &catalog, true).selected_window, 272_000);
    for invalid in [0, 271_999, 800_001] {
        assert_eq!(
            check_update(&first, &astra(), &catalog, true, &update(Some(invalid))),
            Err(ApiError::BadRequest("Context limit must be between 272000 and 800000 tokens".into()))
        );
        assert_eq!(first.context_window_override, Some(512_000));
    }
    let mut second = record();
    second.recorded_capacity = Some(2_000_000);
    assert_eq!(project_settings(&second, astra(), &catalog, true).advertised_maximum, Some(1_000_000));
}

#[test]
fn a_smaller_gauge_does_not_erase_a_recorded_capacity() {
    let mut thread = record();
    thread.recorded_capacity = Some(828_400);
    thread.context_window = 258_400;
    let unknown = descriptor(None);
    let settings = project_settings(&thread, astra(), &unknown, true);
    assert_eq!(settings.advertised_maximum, Some(828_400));
    assert_eq!(settings.default_window, 272_000);
    assert_eq!(settings.effective_window, 258_400);
    assert_eq!(check_update(&thread, &astra(), &unknown, true, &update(Some(512_000))), Ok(()));
    assert_eq!(project_settings(&record(), astra(), &unknown, true).advertised_maximum, None);
}

#[test]
fn a_selection_is_clamped_when_the_maximum_shrinks() {
    let mut thread = record();
    thread.context_window_override = Some(512_000);
    let selected = |maximum| project_settings(&thread, astra(), &descriptor(maximum), true).selected_window;
    assert_eq!(selected(Some(800_000)), 512_000);
    assert_eq!(selected(Some(400_000)), 400_000);
    assert_eq!(project_settings(&record(), astra(), &descriptor(Some(128_000)), true).selected_window, 128_000);
}

#[test]
fn unknown_maxima_cannot_be_overridden() {
    let unknown = descriptor(None);
    assert_eq!(
        check_update(&record(), &astra(), &unknown, true, &update(Some(512_000))),
        Err(ApiError::BadRequest("The model has not advertised its maximum context window".into()))
    );
    assert_eq!(check_update(&record(), &astra(), &unknown, true, &update(None)), Ok(()));
    assert_eq!(
        check_update(&record(), &astra(), &descriptor(Some(128_000)), true, &update(Some(512_000))),
        Err(ApiError::BadRequest("Context limit must be between 128000 and 128000 tokens".into()))
    );
}

#[test]
fn changes_need_a_writable_thread_and_the_same_model() {
    let mut archived = record();
    archived.archived = true;
    let words = "Context settings require a writable, unarchived thread and a supporting harness";
    let d = descriptor(Some(800_000));
    assert_eq!(
        check_update(&archived, &astra(), &d, true, &update(None)),
        Err(ApiError::Conflict(words.into()))
    );
    assert_eq!(
        check_update(&record(), &astra(), &d, false, &update(None)),
        Err(ApiError::Conflict(words.into()))
    );
    let foreign = Update { model: model("different", "gpt-6-astra"), context_window: Some(512_000) };
    assert_eq!(
        check_update(&record(), &astra(), &d, true, &foreign),
        Err(ApiError::Conflict("The selected model changed; reopen Context and try again".into()))
    );
}

#[test]
fn a_stored_thread_takes_a_change_only_while_it_is_current() {
    let mut current = record();
    assert!(!apply_update(&mut current, &update(Some(512_000))));
    assert_eq!(current.context_window_override, Some(512_000));
    current.current_model.as_mut().unwrap().reasoning_effort = Some(Effort::new("high"));
    assert!(!apply_update(&mut current, &update(None)));
    assert_eq!(current.context_window_override, None);
    for which in 0..4 {
        let mut stale = record();
        match which {
            0 => stale.archived = true,
            1 => stale.primary = false,
            2 => stale.current_model = None,
            _ => stale.current_model = Some(model("openai", "other")),
        }
        assert!(apply_update(&mut stale, &update(Some(512_000))));
        assert_eq!(stale.context_window_override, None);
    }
    assert_eq!(
        finish_update(Some(record()), true).unwrap_err(),
        ApiError::Conflict("The thread changed; reopen Context and try again".into())
    );
    assert_eq!(finish_update(None, true).unwrap_err(), ApiError::NotFound);
    assert!(finish_update(Some(record()), false).is_ok());
}

#[test]
fn a_preference_needs_a_known_model() {
    assert_eq!(known_model(true, Some(&record())), Ok(astra()));
    assert_eq!(known_model(false, Some(&record())), Err(ApiError::NotFound));
    assert_eq!(known_model(true, None), Err(ApiError::NotFound));
    let mut unknown = record();
    unknown.current_model = None;
    assert_eq!(
        known_model(true, Some(&unknown)),
        Err(ApiError::Conflict("Select a model before configuring its context limit".into()))
    );
    let mut tiered = astra();
    tiered.service_tier = Some("fast".into());
    assert!(same_model(&astra(), &tiered));
    assert!(!same_model(&astra(), &model("openai", "gpt-6-astra-x")));
}

fn facts() -> CommandFacts {
    CommandFacts {
        project_found: true,
        thread: Some(StoredThread {
            archived: false,
            model: Some(astra()),
            mode: Some("build".into()),
            permission_preset: "ask_first".into(),
        }),
        write_fault: None,
        turn_active: false,
        binding: Some(Binding { native_provider: Some("openai".into()), same_project: true }),
    }
}

fn start() -> GoalsQueueCommand {
    GoalsQueueCommand::Start { id: None }
}

fn conflict(command: GoalsQueueCommand, change: impl Fn(&mut CommandFacts)) -> String {
    let mut f = facts();
    change(&mut f);
    match judge(&command, f) {
        Err(ApiError::Conflict(message)) => message,
        other => panic!("expected a conflict, got {other:?}"),
    }
}

#[test]
fn commands_run_on_the_loaded_thread() {
    let admission = judge(&start(), facts()).unwrap();
    let settings = admission.settings.unwrap();
    assert_eq!(settings.model, astra());
    assert_eq!(settings.mode, "build");
    assert_eq!(settings.permission_preset, "ask_first");
    assert!(admission.bound);
    let admission = judge(&GoalsQueueCommand::ClearGoal, facts()).unwrap();
    assert!(admission.settings.is_none());
}

#[test]
fn each_obstacle_has_its_words() {
    let clear = || GoalsQueueCommand::ClearGoal;
    assert_eq!(
        conflict(clear(), |f| f.thread.as_mut().unwrap().archived = true),
        "Unarchive the thread before changing its goal or queue"
    );
    assert_eq!(
        conflict(clear(), |f| f.write_fault = Some(ApiError::Conflict("read-only".into()))),
        "read-only"
    );
    assert_eq!(
        conflict(start(), |f| f.turn_active = true),
        "Wait for the active turn to finish before starting queued input"
    );
    assert_eq!(
        conflict(start(), |f| f.thread.as_mut().unwrap().model = None),
        "Select a model before starting native work"
    );
    assert_eq!(
        conflict(start(), |f| f.thread.as_mut().unwrap().mode = None),
        "Select a collaboration mode before starting native work"
    );
    assert_eq!(
        conflict(start(), |f| f.binding = None),
        "Reopen the thread to verify its native provider before starting work"
    );
    assert_eq!(
        conflict(start(), |f| f.binding.as_mut().unwrap().native_provider = Some("other".into())),
        "Selected provider differs from the loaded native thread; create or reopen a thread on that provider"
    );
    assert_eq!(
        conflict(clear(), |f| f.binding.as_mut().unwrap().same_project = false),
        "Thread binding belongs to a different project"
    );
    assert_eq!(
        conflict(clear(), |f| f.binding = None),
        "Open the thread before changing its goal or queue"
    );
    let mut missing = facts();
    missing.thread = None;
    assert_eq!(judge(&clear(), missing).unwrap_err(), ApiError::NotFound);
    assert_eq!(
        judge(&GoalsQueueCommand::Delete { id: "".into() }, facts()).unwrap_err(),
        ApiError::BadRequest("Queue ID must not be empty".into())
    );
}

#[test]
fn reading_needs_neither_a_loaded_nor_a_writable_thread() {
    let mut f = facts();
    f.binding = None;
    f.turn_active = true;
    f.write_fault = Some(ApiError::NotFound);
    f.thread = Some(StoredThread { archived: true, model: None, mode: None, permission_preset: "ask_first".into() });
    let admission = judge(&GoalsQueueCommand::Read { cursor: None }, f).unwrap();
    assert!(!admission.bound);
    assert!(admission.settings.is_none());
}
