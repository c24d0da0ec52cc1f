//! Carrying a goal or queue command out on the app-server, one answer at a time: capture the launch
//! settings where work may start, make the change, then read the state back.

use vstd::prelude::*;
use vstd::string::*;
use crate::error::{described, outcome, HarnessError, HarnessErrorView};
use crate::goals_queue::{
    command_fault, goal_view, launches_work, texts, CommandView, Goal, GoalStatus, GoalView, GoalsQueueCommand,
    GoalsQueueSnapshot, SnapshotView,
};
use crate::json::{array_view, at, lemma_array_view, member, opt_text, Json, JsonView};
use crate::model::{ModelRef, ModelRefView};
use crate::native_goals::{decode_goal, decode_queue, decoded_goal, decoded_queue, native_status, status_word};
use crate::session::{ThreadHandle, ThreadView};
use crate::text::blank;

verus! {

/// The settings that work is launched with, the mapped ones as the app-server writes them.
#[derive(Debug)]
pub struct LaunchSettings {
    pub model: Option<ModelRef>,
    /// The mapped effort, or `null`.
    pub effort: Json,
    pub approval_policy: Json,
    pub permissions: Json,
    pub collaboration_mode: Json,
}

pub struct LaunchSettingsView {
    pub model: Option<ModelRefView>,
    pub effort: JsonView,
    pub approval_policy: JsonView,
    pub permissions: JsonView,
    pub collaboration_mode: JsonView,
}

impl View for LaunchSettings {
    type V = LaunchSettingsView;

    open spec fn view(&self) -> LaunchSettingsView {
        LaunchSettingsView {
            model: match self.model {
                Some(model) => Some(model@),
                None => None,
            },
            effort: self.effort@,
            approval_policy: self.approval_policy@,
            permissions: self.permissions@,
            collaboration_mode: self.collaboration_mode@,
        }
    }
}

/// Optional text, with `null` for none.
pub open spec fn nullable(text: Option<Seq<char>>) -> JsonView {
    match text {
        Some(t) => JsonView::Text(t),
        None => JsonView::Null,
    }
}

fn nullable_text(text: &Option<String>) -> (r: Json)
    ensures
        r@ == nullable(opt_text(*text)),
{
    match text {
        Some(t) => Json::Text(t.clone()),
        None => Json::Null,
    }
}

/// The launch settings of a model. The tier is always named: `null` clears one captured before.
pub open spec fn launch_params(thread: ThreadView, model: ModelRefView, settings: LaunchSettingsView) -> Map<
    Seq<char>,
    JsonView,
> {
    map![
        "cwd"@ => JsonView::Text(thread.workspace_root),
        "model"@ => JsonView::Text(model.model),
        "effort"@ => settings.effort,
        "serviceTier"@ => nullable(model.service_tier),
        "approvalPolicy"@ => settings.approval_policy,
        "permissions"@ => settings.permissions,
        "collaborationMode"@ => JsonView::Object(map![
            "mode"@ => settings.collaboration_mode,
            "settings"@ => JsonView::Object(map![
                "model"@ => JsonView::Text(model.model),
                "reasoning_effort"@ => settings.effort,
                "developer_instructions"@ => JsonView::Null,
            ]),
        ]),
    ]
}

/// The launch settings; they must name a model.
pub fn settings_params(thread: &ThreadHandle, settings: &LaunchSettings) -> (r: Result<Json, HarnessError>)
    ensures
        match settings@.model {
            Some(model) => r matches Ok(params) && params@ == JsonView::Object(launch_params(thread@, model, settings@)),
            None => r matches Err(error) && error@ == HarnessErrorView::Protocol("Launch settings must name a model"@),
        },
{
    let model = match &settings.model {
        Some(model) => model,
        None => {
            return Err(HarnessError::protocol("Launch settings must name a model"));
        },
    };
    let inner = Json::object().with("model", Json::text(model.model.as_str())).with(
        "reasoning_effort",
        settings.effort.clone(),
    ).with("developer_instructions", Json::Null);
    let mode = Json::object().with("mode", settings.collaboration_mode.clone()).with("settings", inner);
    let params = Json::object().with("cwd", Json::text(thread.workspace_root.as_str())).with(
        "model",
        Json::text(model.model.as_str()),
    ).with("effort", settings.effort.clone()).with("serviceTier", nullable_text(&model.service_tier)).with(
        "approvalPolicy",
        settings.approval_policy.clone(),
    ).with("permissions", settings.permissions.clone()).with("collaborationMode", mode);
    assert(params@ =~= JsonView::Object(launch_params(thread@, model@, settings@)));
    Ok(params)
}

/// A text as input.
pub open spec fn text_items(text: Seq<char>) -> JsonView {
    JsonView::Array(
        seq![
            JsonView::Object(
                map![
                    "type"@ => JsonView::Text("text"@),
                    "text"@ => JsonView::Text(text),
                    "text_elements"@ => JsonView::Array(Seq::empty()),
                ],
            ),
        ],
    )
}

pub fn text_input(text: &str) -> (r: Json)
    ensures
        r@ == text_items(text@),
{
    let none: Vec<Json> = Vec::new();
    let item = Json::object().with("type", Json::text("text")).with("text", Json::text(text)).with(
        "text_elements",
        Json::Array(none),
    );
    let ghost view = item@;
    let mut items: Vec<Json> = Vec::new();
    items.push(item);
    proof {
        lemma_array_view(none@);
        lemma_array_view(items@);
        assert(array_view(none@) =~= Seq::empty());
        assert(array_view(items@) =~= seq![view]);
    }
    Json::Array(items)
}

/// A goal's fields that are to change; the others are not named.
pub open spec fn goal_params(
    objective: Option<Seq<char>>,
    status: Option<GoalStatus>,
    token_budget: Option<i64>,
) -> Map<Seq<char>, JsonView> {
    let a = match objective {
        Some(t) => Map::<Seq<char>, JsonView>::empty().insert("objective"@, JsonView::Text(t)),
        None => Map::empty(),
    };
    let b = match status {
        Some(s) => a.insert("status"@, JsonView::Text(status_word(s))),
        None => a,
    };
    match token_budget {
        Some(n) => b.insert("tokenBudget"@, JsonView::Integer(n as int)),
        None => b,
    }
}

/// The call that carries a command out; a read has none.
pub open spec fn mutation(command: CommandView) -> Option<(Seq<char>, Map<Seq<char>, JsonView>)> {
    match command {
        CommandView::Read { .. } => None,
        CommandView::SetGoal { objective, status, token_budget } => Some(
            ("thread/goal/set"@, goal_params(objective, status, token_budget)),
        ),
        CommandView::ClearGoal => Some(("thread/goal/clear"@, Map::empty())),
        CommandView::Add { text, client_message_id } => Some(
            ("thread/queue/add"@, map!["input"@ => text_items(text), "clientUserMessageId"@ => JsonView::Text(client_message_id)]),
        ),
        CommandView::Update { id, text } => Some(
            ("thread/queue/update"@, map!["input"@ => text_items(text), "queuedSubmissionId"@ => JsonView::Text(id)]),
        ),
        CommandView::Delete { id } => Some(("thread/queue/delete"@, map!["queuedSubmissionId"@ => JsonView::Text(id)])),
        CommandView::Reorder { ids } => Some(
            (
                "thread/queue/reorder"@,
                map!["queuedSubmissionIds"@ => JsonView::Array(Seq::new(ids.len(), |i: int| JsonView::Text(ids[i])))],
            ),
        ),
        CommandView::Start { id } => Some(("thread/queue/start"@, map!["queuedSubmissionId"@ => nullable(id)])),
    }
}

/// What is to be done next.
#[derive(Debug)]
pub enum GoalAction {
    Call { method: &'static str, params: Json },
    Finish(Result<GoalsQueueSnapshot, HarnessError>),
}

pub enum GoalActionView {
    Call { method: Seq<char>, params: JsonView },
    Finish(Result<SnapshotView, HarnessErrorView>),
}

impl View for GoalAction {
    type V = GoalActionView;

    open spec fn view(&self) -> GoalActionView {
        match self {
            GoalAction::Call { method, params } => GoalActionView::Call { method: method@, params: params@ },
            GoalAction::Finish(Ok(snapshot)) => GoalActionView::Finish(Ok(snapshot@)),
            GoalAction::Finish(Err(error)) => GoalActionView::Finish(Err(error@)),
        }
    }
}

/// How far a command has come; each stage waits for the answer to one call.
#[derive(Debug)]
pub enum GoalStage {
    /// The launch settings are being captured.
    Launching { command: GoalsQueueCommand },
    Mutating,
    ReadingGoal { cursor: Option<String>, mutated: bool },
    ReadingQueue { goal: Option<Goal>, mutated: bool },
}

#[allow(inconsistent_fields)]
pub enum GoalStageView {
    Launching { command: CommandView },
    Mutating,
    ReadingGoal { cursor: Option<Seq<char>>, mutated: bool },
    ReadingQueue { goal: Option<GoalView>, mutated: bool },
}

impl View for GoalStage {
    type V = GoalStageView;

    open spec fn view(&self) -> GoalStageView {
        match self {
            GoalStage::Launching { command } => GoalStageView::Launching { command: command@ },
            GoalStage::Mutating => GoalStageView::Mutating,
            GoalStage::ReadingGoal { cursor, mutated } => GoalStageView::ReadingGoal {
                cursor: opt_text(*cursor),
                mutated: *mutated,
            },
            GoalStage::ReadingQueue { goal, mutated } => GoalStageView::ReadingQueue {
                goal: goal_view(*goal),
                mutated: *mutated,
            },
        }
    }
}

/// A stage to go on from, or none once the command is finished.
pub open spec fn stage_view(stage: Option<GoalStage>) -> Option<GoalStageView> {
    match stage {
        Some(stage) => Some(stage@),
        None => None,
    }
}

/// A call about the thread.
pub open spec fn thread_call(thread: ThreadView, method: Seq<char>, params: Map<Seq<char>, JsonView>) -> GoalActionView {
    GoalActionView::Call {
        method,
        params: JsonView::Object(params.insert("threadId"@, JsonView::Text(thread.harness_thread_id))),
    }
}

pub open spec fn finish(error: HarnessErrorView) -> (Option<GoalStageView>, GoalActionView) {
    (None, GoalActionView::Finish(Err(error)))
}

/// A failure while the state is read back. After a change it says that the change itself was accepted.
pub open spec fn refresh_failed(mutated: bool, error: HarnessErrorView) -> (Option<GoalStageView>, GoalActionView) {
    finish(
        if mutated {
            HarnessErrorView::Protocol(
                "Change accepted, but refreshing goal/queue state failed: "@ + described(error)
                    + ". Refresh before retrying the change."@,
            )
        } else {
            error
        },
    )
}

pub open spec fn read_goal(thread: ThreadView, cursor: Option<Seq<char>>, mutated: bool) -> (Option<GoalStageView>, GoalActionView) {
    (Some(GoalStageView::ReadingGoal { cursor, mutated }), thread_call(thread, "thread/goal/get"@, Map::empty()))
}

/// The change itself, or the read where there is none.
pub open spec fn carry_out(thread: ThreadView, command: CommandView) -> (Option<GoalStageView>, GoalActionView) {
    match mutation(command) {
        Some((method, params)) => (Some(GoalStageView::Mutating), thread_call(thread, method, params)),
        None => read_goal(
            thread,
            match command {
                CommandView::Read { cursor } => cursor,
                _ => None,
            },
            false,
        ),
    }
}

/// How a command starts.
pub open spec fn start(thread: ThreadView, command: CommandView, settings: Option<LaunchSettingsView>) -> (
    Option<GoalStageView>,
    GoalActionView,
) {
    match command_fault(command) {
        Some(fault) => finish(HarnessErrorView::Protocol(fault)),
        None => if !launches_work(command) {
            carry_out(thread, command)
        } else {
            match settings {
                None => finish(
                    HarnessErrorView::Protocol("Launch settings are required before changing native goal or queue work"@),
                ),
                Some(settings) => match settings.model {
                    None => finish(HarnessErrorView::Protocol("Launch settings must name a model"@)),
                    Some(model) => (
                        Some(GoalStageView::Launching { command }),
                        thread_call(thread, "thread/settings/update"@, launch_params(thread, model, settings)),
                    ),
                },
            }
        },
    }
}

/// What follows an answer.
pub open spec fn follow(thread: ThreadView, stage: GoalStageView, reply: Result<JsonView, HarnessErrorView>) -> (
    Option<GoalStageView>,
    GoalActionView,
) {
    match stage {
        GoalStageView::Launching { command } => match reply {
            Err(error) => finish(error),
            Ok(_) => carry_out(thread, command),
        },
        GoalStageView::Mutating => match reply {
            Err(error) => finish(error),
            Ok(_) => read_goal(thread, None, true),
        },
        GoalStageView::ReadingGoal { cursor, mutated } => match reply {
            Err(error) => refresh_failed(mutated, error),
            Ok(value) => match decoded_goal(value, thread.harness_thread_id) {
                Err(error) => refresh_failed(mutated, error),
                Ok(goal) => (
                    Some(GoalStageView::ReadingQueue { goal, mutated }),
                    thread_call(thread, "thread/queue/list"@, map!["cursor"@ => nullable(cursor)]),
                ),
            },
        },
        GoalStageView::ReadingQueue { goal, mutated } => match reply {
            Err(error) => refresh_failed(mutated, error),
            Ok(value) => match decoded_queue(value) {
                None => refresh_failed(
                    mutated,
                    HarnessErrorView::Protocol("Invalid queue response: unexpected shape"@),
                ),
                Some((queue, next_cursor)) => (
                    None,
                    GoalActionView::Finish(Ok(SnapshotView { goal, queue, next_cursor })),
                ),
            },
        },
    }
}

fn call_thread(thread: &ThreadHandle, method: &'static str, params: Json) -> (r: GoalAction)
    requires
        params@ is Object,
    ensures
        r@ == thread_call(thread@, method@, params@->Object_0),
{
    GoalAction::Call { method, params: params.with("threadId", Json::text(thread.harness_thread_id.as_str())) }
}

fn end(error: HarnessError) -> (r: (Option<GoalStage>, GoalAction))
    ensures
        (stage_view(r.0), r.1@) == finish(error@),
{
    (None, GoalAction::Finish(Err(error)))
}

fn end_refresh(mutated: bool, error: HarnessError) -> (r: (Option<GoalStage>, GoalAction))
    ensures
        (stage_view(r.0), r.1@) == refresh_failed(mutated, error@),
{
    if !mutated {
        return end(error);
    }
    let mut message = "Change accepted, but refreshing goal/queue state failed: ".to_owned();
    message.append(error.describe().as_str());
    message.append(". Refresh before retrying the change.");
    end(HarnessError::Protocol(message))
}

fn ids_array(ids: &Vec<String>) -> (r: Json)
    ensures
        r@ == JsonView::Array(Seq::new(texts(ids@).len(), |i: int| JsonView::Text(texts(ids@)[i]))),
{
    let mut items: Vec<Json> = Vec::new();
    let mut i: usize = 0;
    while i < ids.len()
        invariant
            i <= ids@.len(),
            items@.len() == i,
            forall|k: int| 0 <= k < i ==> (#[trigger] items@[k])@ == JsonView::Text(ids@[k]@),
        decreases ids@.len() - i,
    {
        items.push(Json::Text(ids[i].clone()));
        i += 1;
    }
    proof {
        lemma_array_view(items@);
        assert(array_view(items@) =~= Seq::new(texts(ids@).len(), |i: int| JsonView::Text(texts(ids@)[i]))) by {
            assert forall|k: int| 0 <= k < items@.len() implies array_view(items@)[k] == JsonView::Text(ids@[k]@) by {
                assert(items@[k]@ == JsonView::Text(ids@[k]@));
            }
        }
    }
    Json::Array(items)
}

fn perform(thread: &ThreadHandle, command: &GoalsQueueCommand) -> (r: (Option<GoalStage>, GoalAction))
    ensures
        (stage_view(r.0), r.1@) == carry_out(thread@, command@),
{
    let (method, params) = match command {
        GoalsQueueCommand::Read { cursor } => {
            let cursor = match cursor {
                Some(t) => Some(t.clone()),
                None => None,
            };
            return (
                Some(GoalStage::ReadingGoal { cursor, mutated: false }),
                call_thread(thread, "thread/goal/get", Json::object()),
            );
        },
        GoalsQueueCommand::SetGoal { objective, status, token_budget } => {
            let params = Json::object();
            let params = match objective {
                Some(t) => params.with("objective", Json::Text(t.clone())),
                None => params,
            };
            let params = match status {
                Some(s) => params.with("status", Json::text(native_status(*s))),
                None => params,
            };
            let params = match token_budget {
                Some(n) => params.with("tokenBudget", Json::Signed(*n)),
                None => params,
            };
            ("thread/goal/set", params)
        },
        GoalsQueueCommand::ClearGoal => ("thread/goal/clear", Json::object()),
        GoalsQueueCommand::Add { text, client_message_id } => (
            "thread/queue/add",
            Json::object().with("input", text_input(text.as_str())).with(
                "clientUserMessageId",
                Json::Text(client_message_id.clone()),
            ),
        ),
        GoalsQueueCommand::Update { id, text } => (
            "thread/queue/update",
            Json::object().with("input", text_input(text.as_str())).with("queuedSubmissionId", Json::Text(id.clone())),
        ),
        GoalsQueueCommand::Delete { id } => (
            "thread/queue/delete",
            Json::object().with("queuedSubmissionId", Json::Text(id.clone())),
        ),
        GoalsQueueCommand::Reorder { ids } => (
            "thread/queue/reorder",
            Json::object().with("queuedSubmissionIds", ids_array(ids)),
        ),
        GoalsQueueCommand::Start { id } => (
            "thread/queue/start",
            Json::object().with("queuedSubmissionId", nullable_text(id)),
        ),
    };
    assert(mutation(command@) matches Some((m, p)) && m == method@ && p =~= params@->Object_0);
    (Some(GoalStage::Mutating), call_thread(thread, method, params))
}

/// Starts a command. A command that could never be carried out and work without settings are refused
/// before anything is called.
pub fn begin(thread: &ThreadHandle, command: GoalsQueueCommand, settings: Option<&LaunchSettings>) -> (r: (
    Option<GoalStage>,
    GoalAction,
))
    ensures
        (stage_view(r.0), r.1@) == start(
            thread@,
            command@,
            match settings {
                Some(settings) => Some(settings@),
                None => None,
            },
        ),
{
    if let Err(fault) = command.validate() {
        return end(HarnessError::Protocol(fault));
    }
    if !command.requires_settings() {
        return perform(thread, &command);
    }
    match settings {
        None => end(
            HarnessError::protocol("Launch settings are required before changing native goal or queue work"),
        ),
        Some(settings) => match settings_params(thread, settings) {
            Err(error) => end(error),
            Ok(params) => (
                Some(GoalStage::Launching { command }),
                call_thread(thread, "thread/settings/update", params),
            ),
        },
    }
}

/// Goes on with the answer to the last call.
pub fn step(thread: &ThreadHandle, stage: GoalStage, reply: Result<Json, HarnessError>) -> (r: (Option<GoalStage>, GoalAction))
    ensures
        (stage_view(r.0), r.1@) == follow(thread@, stage@, outcome(reply)),
{
    match stage {
        GoalStage::Launching { command } => match reply {
            Err(error) => end(error),
            Ok(_) => perform(thread, &command),
        },
        GoalStage::Mutating => match reply {
            Err(error) => end(error),
            Ok(_) => (
                Some(GoalStage::ReadingGoal { cursor: None, mutated: true }),
                call_thread(thread, "thread/goal/get", Json::object()),
            ),
        },
        GoalStage::ReadingGoal { cursor, mutated } => match reply {
            Err(error) => end_refresh(mutated, error),
            Ok(value) => match decode_goal(&value, thread.harness_thread_id.as_str()) {
                Err(error) => end_refresh(mutated, error),
                Ok(goal) => {
                    let params = Json::object().with("cursor", nullable_text(&cursor));
                    (Some(GoalStage::ReadingQueue { goal, mutated }), call_thread(thread, "thread/queue/list", params))
                },
            },
        },
        GoalStage::ReadingQueue { goal, mutated } => match reply {
            Err(error) => end_refresh(mutated, error),
            Ok(value) => match decode_queue(&value) {
                Err(error) => end_refresh(mutated, error),
                Ok((queue, next_cursor)) => (
                    None,
                    GoalAction::Finish(Ok(GoalsQueueSnapshot { goal, queue, next_cursor })),
                ),
            },
        },
    }
}

/// Work never starts on settings that were not captured: a command that may start work first sends the
/// settings, and where that fails nothing else is called.
pub proof fn law_failed_settings_prevent_launch(
    thread: ThreadView,
    command: CommandView,
    settings: Option<LaunchSettingsView>,
    error: HarnessErrorView,
)
    requires
        launches_work(command),
    ensures
        start(thread, command, settings).1 matches GoalActionView::Call { method, .. } ==> method
            == "thread/settings/update"@ && start(thread, command, settings).0 == Some(GoalStageView::Launching { command }),
        follow(thread, GoalStageView::Launching { command }, Err(error)) == finish(error),
{
}

/// A change is made once: after its call, whatever comes back, the command only reads or ends.
pub proof fn law_changes_are_made_once(
    thread: ThreadView,
    stage: GoalStageView,
    reply: Result<JsonView, HarnessErrorView>,
)
    requires
        !(stage is Launching),
    ensures
        follow(thread, stage, reply).0 matches Some(next) ==> next is ReadingGoal || next is ReadingQueue,
        follow(thread, stage, reply).1 matches GoalActionView::Call { method, .. } ==> method == "thread/goal/get"@ || method
            == "thread/queue/list"@,
{
}

/// Reading changes nothing: the only calls a read makes are the two that look.
pub proof fn law_reading_changes_nothing(
    thread: ThreadView,
    cursor: Option<Seq<char>>,
    settings: Option<LaunchSettingsView>,
    first: Result<JsonView, HarnessErrorView>,
    second: Result<JsonView, HarnessErrorView>,
)
    ensures
        start(thread, CommandView::Read { cursor }, settings) == read_goal(thread, cursor, false),
        ({
            let after = follow(thread, GoalStageView::ReadingGoal { cursor, mutated: false }, first);
            &&& after.1 matches GoalActionView::Call { method, .. } ==> method == "thread/queue/list"@
            &&& after.0 matches Some(stage) ==> follow(thread, stage, second).1 is Finish
        }),
{
}

/// A goal's objective, status and budget are each named in a change exactly where the command names
/// them: an edit of one never rewrites the others.
pub proof fn law_edits_name_only_what_changes(
    thread: ThreadView,
    objective: Option<Seq<char>>,
    status: Option<GoalStatus>,
    token_budget: Option<i64>,
)
    ensures
        thread_call(thread, "thread/goal/set"@, goal_params(objective, status, token_budget)) matches GoalActionView::Call {
            params,
            ..
        } && {
            &&& member(params, "objective"@) is Some <==> objective is Some
            &&& member(params, "status"@) is Some <==> status is Some
            &&& member(params, "tokenBudget"@) is Some <==> token_budget is Some
            &&& objective matches Some(t) ==> member(params, "objective"@) == Some(JsonView::Text(t))
        },
{
    reveal_strlit("objective");
    reveal_strlit("status");
    reveal_strlit("tokenBudget");
    reveal_strlit("threadId");
    assert("objective"@[0] == 'o' && "status"@[0] == 's' && "tokenBudget"@[1] == 'o' && "threadId"@[1] == 'h'
        && "tokenBudget"@[0] == 't' && "threadId"@[0] == 't');
}

/// A change that was accepted is never reported as refused: whatever fails afterwards, the report says
/// that the change was accepted.
pub proof fn law_accepted_changes_are_reported(
    thread: ThreadView,
    cursor: Option<Seq<char>>,
    goal: Option<GoalView>,
    reply: Result<JsonView, HarnessErrorView>,
)
    ensures
        follow(thread, GoalStageView::ReadingGoal { cursor, mutated: true }, reply).1 matches GoalActionView::Finish(Err(e))
            ==> (exists|error: HarnessErrorView| #[trigger] refresh_failed(true, error) == finish(e)),
        follow(thread, GoalStageView::ReadingQueue { goal, mutated: true }, reply).1 matches GoalActionView::Finish(Err(e))
            ==> (exists|error: HarnessErrorView| #[trigger] refresh_failed(true, error) == finish(e)),
{
}

/// The names of parameters are told apart.
proof fn lemma_command_names()
    ensures
        "threadId"@ != "objective"@,
        "threadId"@ != "status"@,
        "threadId"@ != "tokenBudget"@,
        "objective"@ != "status"@,
        "objective"@ != "tokenBudget"@,
        "status"@ != "tokenBudget"@,
        "threadId"@ != "input"@,
        "threadId"@ != "clientUserMessageId"@,
        "input"@ != "clientUserMessageId"@,
        "threadId"@ != "queuedSubmissionId"@,
        "input"@ != "queuedSubmissionId"@,
        "threadId"@ != "queuedSubmissionIds"@,
        "type"@ != "text"@,
        "type"@ != "text_elements"@,
        "text"@ != "text_elements"@,
        "threadId"@ != "cursor"@,
        "threadId"@ != "cwd"@,
        "threadId"@ != "model"@,
        "threadId"@ != "effort"@,
        "threadId"@ != "serviceTier"@,
        "threadId"@ != "approvalPolicy"@,
        "threadId"@ != "permissions"@,
        "threadId"@ != "collaborationMode"@,
        "cwd"@ != "model"@,
        "cwd"@ != "effort"@,
        "cwd"@ != "serviceTier"@,
        "cwd"@ != "approvalPolicy"@,
        "cwd"@ != "permissions"@,
        "cwd"@ != "collaborationMode"@,
        "model"@ != "effort"@,
        "model"@ != "serviceTier"@,
        "model"@ != "approvalPolicy"@,
        "model"@ != "permissions"@,
        "model"@ != "collaborationMode"@,
        "effort"@ != "serviceTier"@,
        "effort"@ != "approvalPolicy"@,
        "effort"@ != "permissions"@,
        "effort"@ != "collaborationMode"@,
        "serviceTier"@ != "approvalPolicy"@,
        "serviceTier"@ != "permissions"@,
        "serviceTier"@ != "collaborationMode"@,
        "approvalPolicy"@ != "permissions"@,
        "approvalPolicy"@ != "collaborationMode"@,
        "permissions"@ != "collaborationMode"@,
        "mode"@ != "settings"@,
        "model"@ != "reasoning_effort"@,
        "model"@ != "developer_instructions"@,
        "reasoning_effort"@ != "developer_instructions"@,
        "effort"@ != "text"@,
{
    reveal_strlit("threadId");
    reveal_strlit("objective");
    reveal_strlit("status");
    reveal_strlit("tokenBudget");
    reveal_strlit("input");
    reveal_strlit("clientUserMessageId");
    reveal_strlit("queuedSubmissionId");
    reveal_strlit("queuedSubmissionIds");
    reveal_strlit("type");
    reveal_strlit("text");
    reveal_strlit("text_elements");
    reveal_strlit("cursor");
    reveal_strlit("cwd");
    reveal_strlit("model");
    reveal_strlit("effort");
    reveal_strlit("serviceTier");
    reveal_strlit("approvalPolicy");
    reveal_strlit("permissions");
    reveal_strlit("collaborationMode");
    reveal_strlit("mode");
    reveal_strlit("settings");
    reveal_strlit("reasoning_effort");
    reveal_strlit("developer_instructions");
    assert("threadId"@.len() != "objective"@.len());
    assert("threadId"@.len() != "status"@.len());
    assert("threadId"@.len() != "tokenBudget"@.len());
    assert("objective"@.len() != "status"@.len());
    assert("objective"@.len() != "tokenBudget"@.len());
    assert("status"@.len() != "tokenBudget"@.len());
    assert("threadId"@.len() != "input"@.len());
    assert("threadId"@.len() != "clientUserMessageId"@.len());
    assert("input"@.len() != "clientUserMessageId"@.len());
    assert("threadId"@.len() != "queuedSubmissionId"@.len());
    assert("input"@.len() != "queuedSubmissionId"@.len());
    assert("threadId"@.len() != "queuedSubmissionIds"@.len());
    assert("type"@[1] != "text"@[1]);
    assert("type"@.len() != "text_elements"@.len());
    assert("text"@.len() != "text_elements"@.len());
    assert("threadId"@.len() != "cursor"@.len());
    assert("threadId"@.len() != "cwd"@.len());
    assert("threadId"@.len() != "model"@.len());
    assert("threadId"@.len() != "effort"@.len());
    assert("threadId"@.len() != "serviceTier"@.len());
    assert("threadId"@.len() != "approvalPolicy"@.len());
    assert("threadId"@.len() != "permissions"@.len());
    assert("threadId"@.len() != "collaborationMode"@.len());
    assert("cwd"@.len() != "model"@.len());
    assert("cwd"@.len() != "effort"@.len());
    assert("cwd"@.len() != "serviceTier"@.len());
    assert("cwd"@.len() != "approvalPolicy"@.len());
    assert("cwd"@.len() != "permissions"@.len());
    assert("cwd"@.len() != "collaborationMode"@.len());
    assert("model"@.len() != "effort"@.len());
    assert("model"@.len() != "serviceTier"@.len());
    assert("model"@.len() != "approvalPolicy"@.len());
    assert("model"@.len() != "permissions"@.len());
    assert("model"@.len() != "collaborationMode"@.len());
    assert("effort"@.len() != "serviceTier"@.len());
    assert("effort"@.len() != "approvalPolicy"@.len());
    assert("effort"@.len() != "permissions"@.len());
    assert("effort"@.len() != "collaborationMode"@.len());
    assert("serviceTier"@.len() != "approvalPolicy"@.len());
    assert("serviceTier"@[0] != "permissions"@[0]);
    assert("serviceTier"@.len() != "collaborationMode"@.len());
    assert("approvalPolicy"@.len() != "permissions"@.len());
    assert("approvalPolicy"@.len() != "collaborationMode"@.len());
    assert("permissions"@.len() != "collaborationMode"@.len());
    assert("mode"@.len() != "settings"@.len());
    assert("model"@.len() != "reasoning_effort"@.len());
    assert("model"@.len() != "developer_instructions"@.len());
    assert("reasoning_effort"@.len() != "developer_instructions"@.len());
    assert("effort"@.len() != "text"@.len());
}

/// The call that carries a valid command out: the first one, or the one after the launch settings were taken.
pub open spec fn change_call(thread: ThreadView, command: CommandView, taken: JsonView) -> GoalActionView {
    match command {
        CommandView::SetGoal { .. } => follow(thread, GoalStageView::Launching { command }, Ok(taken)).1,
        CommandView::Add { .. } => follow(thread, GoalStageView::Launching { command }, Ok(taken)).1,
        CommandView::Start { .. } => follow(thread, GoalStageView::Launching { command }, Ok(taken)).1,
        _ => start(thread, command, None).1,
    }
}

/// Every call about a thread names the thread, whatever it is for.
pub proof fn law_calls_name_their_thread(
    thread: ThreadView,
    command: CommandView,
    settings: Option<LaunchSettingsView>,
    stage: GoalStageView,
    reply: Result<JsonView, HarnessErrorView>,
)
    ensures
        start(thread, command, settings).1 matches GoalActionView::Call { params, .. } ==> member(params, "threadId"@) == Some(
            JsonView::Text(thread.harness_thread_id),
        ),
        follow(thread, stage, reply).1 matches GoalActionView::Call { params, .. } ==> member(params, "threadId"@) == Some(
            JsonView::Text(thread.harness_thread_id),
        ),
{
}

/// A start names the entry that was picked, and names none exactly where none was: then the app-server takes
/// the first. An edit and a deletion name their entry too.
pub proof fn law_entries_are_called_by_their_id(
    thread: ThreadView,
    id: Seq<char>,
    picked: Option<Seq<char>>,
    text: Seq<char>,
    taken: JsonView,
)
    requires
        !blank(id),
        !blank(text),
    ensures
        change_call(thread, CommandView::Start { id: picked }, taken) matches GoalActionView::Call { method, params } && {
            &&& method == "thread/queue/start"@
            &&& picked matches Some(t) ==> member(params, "queuedSubmissionId"@) == Some(JsonView::Text(t))
            &&& picked is None ==> member(params, "queuedSubmissionId"@) == Some(JsonView::Null)
        },
        change_call(thread, CommandView::Delete { id }, taken) matches GoalActionView::Call { method, params } && method
            == "thread/queue/delete"@ && member(params, "queuedSubmissionId"@) == Some(JsonView::Text(id)),
        change_call(thread, CommandView::Update { id, text }, taken) matches GoalActionView::Call { method, params } && method
            == "thread/queue/update"@ && member(params, "queuedSubmissionId"@) == Some(JsonView::Text(id)) && holds_text(
            at(params, "input"@),
            text,
        ),
        change_call(thread, CommandView::Add { text, client_message_id: id }, taken) matches GoalActionView::Call {
            method,
            params,
        } && method == "thread/queue/add"@ && member(params, "clientUserMessageId"@) == Some(JsonView::Text(id)) && holds_text(
            at(params, "input"@),
            text,
        ),
{
    lemma_command_names();
}

/// An input that is this text and nothing else.
pub open spec fn holds_text(input: JsonView, text: Seq<char>) -> bool {
    input matches JsonView::Array(items) && items.len() == 1 && at(items[0], "type"@) == JsonView::Text("text"@) && at(
        items[0],
        "text"@,
    ) == JsonView::Text(text) && at(items[0], "text_elements"@) == JsonView::Array(Seq::empty())
}

/// An order is sent as it was given, every id in its place.
pub proof fn law_orders_are_sent_in_order(thread: ThreadView, ids: Seq<Seq<char>>, taken: JsonView)
    requires
        command_fault(CommandView::Reorder { ids }) is None,
    ensures
        change_call(thread, CommandView::Reorder { ids }, taken) matches GoalActionView::Call { method, params } && method
            == "thread/queue/reorder"@ && (at(params, "queuedSubmissionIds"@) matches JsonView::Array(sent) && sent.len()
            == ids.len() && forall|i: int| 0 <= i < ids.len() ==> #[trigger] sent[i] == JsonView::Text(ids[i])),
{
    lemma_command_names();
}

/// A goal is set to exactly what the command names, and cleared by name of the thread alone.
pub proof fn law_goals_are_sent_as_given(
    thread: ThreadView,
    objective: Option<Seq<char>>,
    status: Option<GoalStatus>,
    token_budget: Option<i64>,
    taken: JsonView,
)
    ensures
        change_call(thread, CommandView::SetGoal { objective, status, token_budget }, taken) matches GoalActionView::Call {
            method,
            params,
        } && {
            &&& method == "thread/goal/set"@
            &&& member(params, "objective"@) == (match objective {
                Some(t) => Some(JsonView::Text(t)),
                None => None,
            })
            &&& member(params, "status"@) == (match status {
                Some(s) => Some(JsonView::Text(status_word(s))),
                None => None,
            })
            &&& member(params, "tokenBudget"@) == (match token_budget {
                Some(n) => Some(JsonView::Integer(n as int)),
                None => None,
            })
        },
        change_call(thread, CommandView::ClearGoal, taken) matches GoalActionView::Call { method, .. } && method
            == "thread/goal/clear"@,
{
    lemma_command_names();
}

/// Work is launched with the settings that were handed over: the model and its tier, the effort, both policies
/// and the mode, in the thread's own directory. A tier is named even where there is none, which clears it.
pub proof fn law_launch_settings_are_sent_as_given(
    thread: ThreadView,
    command: CommandView,
    settings: LaunchSettingsView,
    model: ModelRefView,
)
    requires
        command is SetGoal || command is Add || command is Start,
        command_fault(command) is None,
        settings.model == Some(model),
    ensures
        start(thread, command, Some(settings)).0 == Some(GoalStageView::Launching { command }),
        start(thread, command, Some(settings)).1 matches GoalActionView::Call { method, params } && {
            let mode = at(params, "collaborationMode"@);
            &&& method == "thread/settings/update"@
            &&& member(params, "cwd"@) == Some(JsonView::Text(thread.workspace_root))
            &&& member(params, "model"@) == Some(JsonView::Text(model.model))
            &&& member(params, "effort"@) == Some(settings.effort)
            &&& member(params, "serviceTier"@) == Some(
                match model.service_tier {
                    Some(tier) => JsonView::Text(tier),
                    None => JsonView::Null,
                },
            )
            &&& member(params, "approvalPolicy"@) == Some(settings.approval_policy)
            &&& member(params, "permissions"@) == Some(settings.permissions)
            &&& member(mode, "mode"@) == Some(settings.collaboration_mode)
            &&& member(at(mode, "settings"@), "model"@) == Some(JsonView::Text(model.model))
            &&& member(at(mode, "settings"@), "reasoning_effort"@) == Some(settings.effort)
            &&& member(at(mode, "settings"@), "developer_instructions"@) == Some(JsonView::Null)
        },
        start(thread, command, None).1 matches GoalActionView::Finish(result) && result is Err,
        start(thread, command, Some(LaunchSettingsView { model: None, ..settings })).1 matches GoalActionView::Finish(result)
            && result is Err,
{
    lemma_command_names();
}

/// Commands that start nothing are carried out at once, whatever settings are at hand, and a command that could
/// never be carried out calls nothing.
pub proof fn law_other_commands_need_no_settings(
    thread: ThreadView,
    command: CommandView,
    settings: Option<LaunchSettingsView>,
)
    ensures
        command is Update || command is Delete || command is Reorder || command is ClearGoal || command is Read ==> start(
            thread,
            command,
            settings,
        ) == start(thread, command, None),
        command is Update || command is Delete || command is Reorder || command is ClearGoal ==> command_fault(command) is None
            ==> start(thread, command, settings).0 == Some(GoalStageView::Mutating),
        command_fault(command) matches Some(fault) ==> start(thread, command, settings) == (
            None::<GoalStageView>,
            GoalActionView::Finish(Err::<SnapshotView, HarnessErrorView>(HarnessErrorView::Protocol(fault))),
        ),
{
}

/// What a command ends with is what was read: first the goal, then the queue from where the reader stood, and
/// from the start after a change; the goal and the entries are those of the two answers.
pub proof fn law_commands_end_with_what_was_read(
    thread: ThreadView,
    cursor: Option<Seq<char>>,
    changed: JsonView,
    goal: JsonView,
    queue: JsonView,
    mutated: bool,
    settings: Option<LaunchSettingsView>,
)
    ensures
        ({
            let first = start(thread, CommandView::Read { cursor }, settings);
            let after = follow(thread, GoalStageView::Mutating, Ok(changed));
            let second = follow(thread, GoalStageView::ReadingGoal { cursor, mutated }, Ok(goal));
            &&& first.0 == Some(GoalStageView::ReadingGoal { cursor, mutated: false })
            &&& after.0 == Some(GoalStageView::ReadingGoal { cursor: None, mutated: true })
            &&& first.1 matches GoalActionView::Call { method, .. } && method == "thread/goal/get"@
            &&& after.1 matches GoalActionView::Call { method, .. } && method == "thread/goal/get"@
            &&& match decoded_goal(goal, thread.harness_thread_id) {
                Ok(own) => {
                    &&& second.0 == Some(GoalStageView::ReadingQueue { goal: own, mutated })
                    &&& second.1 matches GoalActionView::Call { method, params } && method == "thread/queue/list"@ && member(
                        params,
                        "cursor"@,
                    ) == Some(
                        match cursor {
                            Some(t) => JsonView::Text(t),
                            None => JsonView::Null,
                        },
                    )
                    &&& decoded_queue(queue) matches Some(read) ==> follow(
                        thread,
                        GoalStageView::ReadingQueue { goal: own, mutated },
                        Ok(queue),
                    ) == (
                        None::<GoalStageView>,
                        GoalActionView::Finish(
                            Ok::<SnapshotView, HarnessErrorView>(
                                SnapshotView { goal: own, queue: read.0, next_cursor: read.1 },
                            ),
                        ),
                    )
                },
                Err(error) => second.0 is None && (second.1 matches GoalActionView::Finish(result) && (result matches Err(told)
                    && (!mutated ==> told == error))),
            }
        }),
        decoded_queue(queue) is None ==> forall|own: Option<GoalView>| #[trigger]
            follow(thread, GoalStageView::ReadingQueue { goal: own, mutated }, Ok(queue)).1 matches GoalActionView::Finish(
                result,
            ) && result is Err,
{
    lemma_command_names();
}

/// A failure of a call is told as it came until the change is made; after that it is told together with the
/// news that the change was accepted.
pub proof fn law_failures_are_told(thread: ThreadView, command: CommandView, cursor: Option<Seq<char>>, error: HarnessErrorView)
    ensures
        forall|stage: GoalStageView|
            stage == (GoalStageView::Launching { command }) || stage is Mutating || stage == (GoalStageView::ReadingGoal {
                cursor,
                mutated: false,
            }) ==> #[trigger] follow(thread, stage, Err(error)) == (
                None::<GoalStageView>,
                GoalActionView::Finish(Err::<SnapshotView, HarnessErrorView>(error)),
            ),
        follow(thread, GoalStageView::ReadingGoal { cursor, mutated: true }, Err(error)).1 matches GoalActionView::Finish(
            result,
        ) && (result matches Err(told) && (told matches HarnessErrorView::Protocol(text) && exists|
            before: Seq<char>,
            after: Seq<char>,
        | before.len() > 0 && text == #[trigger] (before + described(error) + after))),
{
    reveal_strlit("Change accepted, but refreshing goal/queue state failed: ");
    assert("Change accepted, but refreshing goal/queue state failed: "@ + described(error)
        + ". Refresh before retrying the change."@ == "Change accepted, but refreshing goal/queue state failed: "@ + described(
        error,
    ) + ". Refresh before retrying the change."@);
}

} // verus!
