use giskard::goals_queue::{Goal, GoalStatus, GoalsQueueCommand, GoalsQueueSnapshot};
use giskard::queue_state::{apply, apply_at};

fn add(text: &str, client: &str) -> GoalsQueueCommand {
    GoalsQueueCommand::Add {
        text: text.into(),
        client_message_id: client.into(),
    }
}

fn set_goal(objective: Option<&str>, status: Option<GoalStatus>, budget: Option<i64>) -> GoalsQueueCommand {
    GoalsQueueCommand::SetGoal {
        objective: objective.map(String::from),
        status,
        token_budget: budget,
    }
}

fn state_id(s: &GoalsQueueSnapshot, index: usize) -> String {
    s.queue[index].id.clone()
}

#[test]
fn rejects_invalid_mutations() {
    assert!(GoalsQueueCommand::SetGoal {
        objective: Some(" ".into()),
        status: None,
        token_budget: None
    }
    .validate()
    .is_err());
    assert!(GoalsQueueCommand::SetGoal {
        objective: None,
        status: None,
        token_budget: Some(-1)
    }
    .validate()
    .is_err());
    assert!(GoalsQueueCommand::Reorder {
        ids: vec!["a".into(), "a".into()]
    }
    .validate()
    .is_err());
    assert!(GoalsQueueCommand::Add {
        text: "x".into(),
        client_message_id: "".into()
    }
    .validate()
    .is_err());
}

#[test]
fn each_refusal_has_its_words() {
    let cases = vec![
        (set_goal(Some("\u{3000}"), None, None), "Goal objective must contain 1–4000 characters"),
        (set_goal(Some(&"é".repeat(4001)), None, None), "Goal objective must contain 1–4000 characters"),
        (set_goal(None, None, Some(0)), "Token budget must be positive"),
        (add(" ", "a"), "Queued text and client message ID are required"),
        (
            GoalsQueueCommand::Update { id: "".into(), text: "x".into() },
            "Queue ID and text are required",
        ),
        (GoalsQueueCommand::Delete { id: "\t".into() }, "Queue ID must not be empty"),
        (GoalsQueueCommand::Start { id: Some("".into()) }, "Queue ID must not be empty"),
        (
            GoalsQueueCommand::Reorder { ids: vec!["a".into(), " ".into()] },
            "Queue order must contain unique nonempty IDs",
        ),
    ];
    for (command, words) in cases {
        assert_eq!(command.validate(), Err(words.to_string()));
    }
    assert_eq!(set_goal(Some(&"é".repeat(4000)), None, Some(1)).validate(), Ok(()));
    assert_eq!(GoalsQueueCommand::ClearGoal.validate(), Ok(()));
    assert_eq!(GoalsQueueCommand::Start { id: None }.validate(), Ok(()));
    assert_eq!(GoalsQueueCommand::Reorder { ids: vec![] }.validate(), Ok(()));
}

#[test]
fn only_some_commands_launch_work() {
    assert!(add("x", "a").requires_settings());
    assert!(set_goal(None, None, None).requires_settings());
    assert!(GoalsQueueCommand::Start { id: None }.requires_settings());
    assert!(!GoalsQueueCommand::ClearGoal.requires_settings());
    assert!(!GoalsQueueCommand::Delete { id: "a".into() }.requires_settings());
    assert!(GoalsQueueCommand::Read { cursor: None }.is_read());
    assert!(!GoalsQueueCommand::ClearGoal.is_read());
}

#[test]
fn ordering_is_exact_and_failure_preserves_queue() {
    let mut state = GoalsQueueSnapshot::default();
    apply(&mut state, add("one", "a"), "first".into()).unwrap();
    apply(&mut state, add("two", "b"), "second".into()).unwrap();
    let before = state.clone();
    assert!(apply(
        &mut state,
        GoalsQueueCommand::Reorder {
            ids: vec![state_id(&before, 0)]
        },
        "unused".into()
    )
    .is_err());
    assert_eq!(state, before);
    apply(
        &mut state,
        GoalsQueueCommand::Reorder {
            ids: vec![state_id(&before, 1), state_id(&before, 0)],
        },
        "unused".into(),
    )
    .unwrap();
    assert_eq!(
        apply(&mut state, GoalsQueueCommand::Start { id: None }, "unused".into())
            .unwrap()
            .as_deref(),
        Some("two")
    );
    assert_eq!(state.queue.len(), 1);
}

#[test]
fn reordering_loses_nothing() {
    let mut state = GoalsQueueSnapshot::default();
    for (text, id) in [("one", "1"), ("two", "2"), ("three", "3")] {
        apply_at(&mut state, add(text, text), 0, id.into()).unwrap();
    }
    apply_at(
        &mut state,
        GoalsQueueCommand::Reorder { ids: vec!["3".into(), "1".into(), "2".into()] },
        0,
        "unused".into(),
    )
    .unwrap();
    let order: Vec<&str> = state.queue.iter().map(|q| q.text.as_str()).collect();
    assert_eq!(order, vec!["three", "one", "two"]);
}

#[test]
fn an_edit_of_the_status_keeps_the_account() {
    let mut state = GoalsQueueSnapshot {
        goal: Some(Goal {
            objective: "ship".into(),
            status: GoalStatus::Active,
            token_budget: Some(10),
            tokens_used: 7,
            time_used_seconds: 8,
            created_at: 1,
            updated_at: 2,
        }),
        queue: vec![],
        next_cursor: None,
    };
    apply_at(&mut state, set_goal(None, Some(GoalStatus::Paused), None), 99, "unused".into()).unwrap();
    let goal = state.goal.unwrap();
    assert_eq!(goal.objective, "ship");
    assert_eq!(goal.status, GoalStatus::Paused);
    assert_eq!((goal.tokens_used, goal.time_used_seconds, goal.created_at), (7, 8, 1));
    assert_eq!(goal.updated_at, 99);
}

#[test]
fn queued_input_starts_first_in_first_out() {
    let mut state = GoalsQueueSnapshot::default();
    apply_at(&mut state, add("one", "a"), 0, "1".into()).unwrap();
    apply_at(&mut state, add("two", "b"), 0, "2".into()).unwrap();
    let start = || GoalsQueueCommand::Start { id: None };
    assert_eq!(apply_at(&mut state, start(), 0, "x".into()).unwrap().as_deref(), Some("one"));
    assert_eq!(apply_at(&mut state, start(), 0, "x".into()).unwrap().as_deref(), Some("two"));
    assert!(apply_at(&mut state, start(), 0, "x".into()).is_err());
}
