//! The sequence that applies a context limit to a loaded thread, one answer at a time. The caller
//! performs each action and brings back what came of it.

use vstd::prelude::*;
use vstd::string::*;
use crate::context_policy::{
    choose_efforts, config, entry_efforts, find_entry, first_entry, law_entries_are_found_by_name, names, protocol_fault,
    window_settings, Efforts, EffortsView,
};
use crate::error::{described, outcome, HarnessError, HarnessErrorView};
use crate::goals_queue::texts;
use crate::json::{at, lemma_array_view, member, opt_json, print, printed, text_at, Json, JsonView};
use crate::model::{ModelRef, ModelRefView};
use crate::session::{ThreadHandle, ThreadView};
use crate::text::same;

verus! {

/// What came of a call.
#[derive(Debug)]
pub enum Reply {
    Answered(Json),
    Failed(HarnessError),
    TimedOut,
}

pub enum ReplyView {
    Answered(JsonView),
    Failed(HarnessErrorView),
    TimedOut,
}

impl View for Reply {
    type V = ReplyView;

    open spec fn view(&self) -> ReplyView {
        match self {
            Reply::Answered(value) => ReplyView::Answered(value@),
            Reply::Failed(error) => ReplyView::Failed(error@),
            Reply::TimedOut => ReplyView::TimedOut,
        }
    }
}

/// What came of the search for the provider that the model catalog belongs to.
#[derive(Debug)]
pub enum ProviderReply {
    Found(String),
    Failed(HarnessError),
    TimedOut,
}

pub enum ProviderReplyView {
    Found(Seq<char>),
    Failed(HarnessErrorView),
    TimedOut,
}

impl View for ProviderReply {
    type V = ProviderReplyView;

    open spec fn view(&self) -> ProviderReplyView {
        match self {
            ProviderReply::Found(provider) => ProviderReplyView::Found(provider@),
            ProviderReply::Failed(error) => ProviderReplyView::Failed(error@),
            ProviderReply::TimedOut => ProviderReplyView::TimedOut,
        }
    }
}

/// What came of an action.
#[derive(Debug)]
pub enum ContextEvent {
    /// For a call; `late` once the time for confirming an effort is over.
    Replied { reply: Reply, late: bool },
    /// For a provider search.
    Provider(ProviderReply),
    /// For a window that was to be noted.
    Noted(Result<(), HarnessError>),
}

pub enum ContextEventView {
    Replied { reply: ReplyView, late: bool },
    Provider(ProviderReplyView),
    Noted(Result<(), HarnessErrorView>),
}

impl View for ContextEvent {
    type V = ContextEventView;

    open spec fn view(&self) -> ContextEventView {
        match self {
            ContextEvent::Replied { reply, late } => ContextEventView::Replied { reply: reply@, late: *late },
            ContextEvent::Provider(reply) => ContextEventView::Provider(reply@),
            ContextEvent::Noted(result) => ContextEventView::Noted(outcome(*result)),
        }
    }
}

/// When a call is made.
#[derive(Debug, Clone, Copy, PartialEq, Eq, Structural)]
pub enum Pace {
    /// At once.
    Once,
    /// At once; the time for confirming an effort starts now.
    Starting,
    /// After a short pause.
    Polling,
}

/// What is to be done next.
#[derive(Debug)]
pub enum ContextAction {
    Call { method: &'static str, params: Json, pace: Pace },
    FindProvider,
    /// Note the window that is known to be applied.
    NoteWindow(Option<u32>),
    Finish(Result<(), HarnessError>),
}

pub enum ContextActionView {
    Call { method: Seq<char>, params: JsonView, pace: Pace },
    FindProvider,
    NoteWindow(Option<u32>),
    Finish(Result<(), HarnessErrorView>),
}

impl View for ContextAction {
    type V = ContextActionView;

    open spec fn view(&self) -> ContextActionView {
        match self {
            ContextAction::Call { method, params, pace } => ContextActionView::Call {
                method: method@,
                params: params@,
                pace: *pace,
            },
            ContextAction::FindProvider => ContextActionView::FindProvider,
            ContextAction::NoteWindow(window) => ContextActionView::NoteWindow(*window),
            ContextAction::Finish(result) => ContextActionView::Finish(outcome(*result)),
        }
    }
}

/// How far a change has come; each stage waits for the outcome of one action.
#[derive(Debug)]
pub enum Stage {
    Inspecting,
    ReadingGoal,
    ReadingQueue { goal: Json },
    FindingProvider,
    /// Reading the model catalog; `seen` holds the cursors that were followed.
    Browsing { seen: Vec<String> },
    /// Forgetting the window that was applied so far.
    Clearing { efforts: Efforts },
    Marking { efforts: Efforts },
    AwaitingMarker { efforts: Efforts },
    Unsubscribing { efforts: Efforts },
    Resuming { efforts: Efforts },
    /// Undoing a change that failed for `error`: subscribe again, then bring the effort back.
    Restoring { efforts: Efforts, error: HarnessError },
    RestoringEffort { efforts: Efforts, error: HarnessError },
    AwaitingEffort { efforts: Efforts, error: HarnessError },
    /// Noting the window that the resumed thread shows.
    Confirming,
    Finished,
}

#[allow(inconsistent_fields)]
pub enum StageView {
    Inspecting,
    ReadingGoal,
    ReadingQueue { goal: JsonView },
    FindingProvider,
    Browsing { seen: Seq<Seq<char>> },
    Clearing { efforts: EffortsView },
    Marking { efforts: EffortsView },
    AwaitingMarker { efforts: EffortsView },
    Unsubscribing { efforts: EffortsView },
    Resuming { efforts: EffortsView },
    Restoring { efforts: EffortsView, error: HarnessErrorView },
    RestoringEffort { efforts: EffortsView, error: HarnessErrorView },
    AwaitingEffort { efforts: EffortsView, error: HarnessErrorView },
    Confirming,
    Finished,
}

impl View for Stage {
    type V = StageView;

    open spec fn view(&self) -> StageView {
        match self {
            Stage::Inspecting => StageView::Inspecting,
            Stage::ReadingGoal => StageView::ReadingGoal,
            Stage::ReadingQueue { goal } => StageView::ReadingQueue { goal: goal@ },
            Stage::FindingProvider => StageView::FindingProvider,
            Stage::Browsing { seen } => StageView::Browsing { seen: texts(seen@) },
            Stage::Clearing { efforts } => StageView::Clearing { efforts: efforts@ },
            Stage::Marking { efforts } => StageView::Marking { efforts: efforts@ },
            Stage::AwaitingMarker { efforts } => StageView::AwaitingMarker { efforts: efforts@ },
            Stage::Unsubscribing { efforts } => StageView::Unsubscribing { efforts: efforts@ },
            Stage::Resuming { efforts } => StageView::Resuming { efforts: efforts@ },
            Stage::Restoring { efforts, error } => StageView::Restoring { efforts: efforts@, error: error@ },
            Stage::RestoringEffort { efforts, error } => StageView::RestoringEffort { efforts: efforts@, error: error@ },
            Stage::AwaitingEffort { efforts, error } => StageView::AwaitingEffort { efforts: efforts@, error: error@ },
            Stage::Confirming => StageView::Confirming,
            Stage::Finished => StageView::Finished,
        }
    }
}

/// A change under way.
#[derive(Debug)]
pub struct ContextReload {
    pub thread: ThreadHandle,
    pub model: ModelRef,
    pub window: u32,
    pub stage: Stage,
}

/// What a change is about; it stays as it is throughout.
pub struct ChangeView {
    pub thread: ThreadView,
    pub model: ModelRefView,
    pub window: u32,
}

impl ContextReload {
    pub open spec fn change(&self) -> ChangeView {
        ChangeView { thread: self.thread@, model: self.model@, window: self.window }
    }
}

pub open spec fn read_params(id: Seq<char>) -> JsonView {
    JsonView::Object(map!["includeTurns"@ => JsonView::Bool(false), "threadId"@ => JsonView::Text(id)])
}

pub open spec fn thread_params(id: Seq<char>) -> JsonView {
    JsonView::Object(map!["threadId"@ => JsonView::Text(id)])
}

pub open spec fn queue_params(id: Seq<char>) -> JsonView {
    JsonView::Object(map!["limit"@ => JsonView::Integer(1), "threadId"@ => JsonView::Text(id)])
}

pub open spec fn catalog_params(cursor: JsonView) -> JsonView {
    JsonView::Object(map!["cursor"@ => cursor, "includeHidden"@ => JsonView::Bool(true)])
}

pub open spec fn effort_params(change: ChangeView, effort: Seq<char>) -> JsonView {
    JsonView::Object(
        map![
            "model"@ => JsonView::Text(change.model.model),
            "effort"@ => JsonView::Text(effort),
            "threadId"@ => JsonView::Text(change.thread.harness_thread_id),
        ],
    )
}

/// The settings of a resume: the window and the effort that is wanted in the end.
pub open spec fn resume_settings(window: u32, desired: Seq<char>) -> JsonView {
    JsonView::Object(window_settings(window)->Object_0.insert("model_reasoning_effort"@, JsonView::Text(desired)))
}

pub open spec fn resume_params(change: ChangeView, settings: Option<JsonView>) -> JsonView {
    let base = map![
        "model"@ => JsonView::Text(change.model.model),
        "modelProvider"@ => JsonView::Text(change.model.provider),
        "cwd"@ => JsonView::Text(change.thread.workspace_root),
        "excludeTurns"@ => JsonView::Bool(true),
    ];
    let configured = match settings {
        Some(value) => base.insert("config"@, value),
        None => base,
    };
    JsonView::Object(configured.insert("threadId"@, JsonView::Text(change.thread.harness_thread_id)))
}

pub open spec fn call(method: Seq<char>, params: JsonView, pace: Pace) -> ContextActionView {
    ContextActionView::Call { method, params, pace }
}

pub open spec fn late_call(method: Seq<char>) -> HarnessErrorView {
    HarnessErrorView::Timeout("Context configuration "@ + method + " timed out; delivery is uncertain"@)
}

/// The answer to a call, or why there is none.
pub open spec fn answer(method: Seq<char>, reply: ReplyView) -> Result<JsonView, HarnessErrorView> {
    match reply {
        ReplyView::Answered(value) => Ok(value),
        ReplyView::Failed(error) => Err(error),
        ReplyView::TimedOut => Err(late_call(method)),
    }
}

/// An answer about the thread that was asked about.
pub open spec fn own_answer(change: ChangeView, method: Seq<char>, reply: ReplyView) -> Result<JsonView, HarnessErrorView> {
    match answer(method, reply) {
        Err(error) => Err(error),
        Ok(value) => if text_at(at(value, "thread"@), "id"@) != Some(change.thread.harness_thread_id) {
            Err(protocol_fault("Context configuration returned a different native thread"@))
        } else {
            Ok(value)
        },
    }
}

/// A read that shows the thread idle.
pub open spec fn idle_read(change: ChangeView, reply: ReplyView) -> Result<JsonView, HarnessErrorView> {
    match own_answer(change, "thread/read"@, reply) {
        Err(error) => Err(error),
        Ok(value) => if text_at(at(at(value, "thread"@), "status"@), "type"@) != Some("idle"@) {
            Err(HarnessErrorView::ThreadBusy(change.thread.thread))
        } else {
            Ok(value)
        },
    }
}

/// Why a thread that was read must not be changed.
pub open spec fn thread_fault(change: ChangeView, read: JsonView) -> Option<Seq<char>> {
    if at(at(read, "thread"@), "canAcceptDirectInput"@) == JsonView::Bool(false) {
        Some("Provider-owned child sessions cannot change context through public resume"@)
    } else if text_at(at(read, "thread"@), "modelProvider"@) != Some(change.model.provider) {
        Some("Context configuration cannot change the native provider"@)
    } else {
        None
    }
}

/// Why work of the thread's own stands in the way.
pub open spec fn work_fault(change: ChangeView, goal: JsonView, queue: JsonView) -> Option<Seq<char>> {
    if member(goal, "goal"@) is None || (at(goal, "goal"@) !is Null && text_at(at(goal, "goal"@), "threadId"@) != Some(
        change.thread.harness_thread_id,
    )) {
        Some("Native goal state could not be verified for context configuration"@)
    } else if text_at(at(goal, "goal"@), "status"@) == Some("active"@) || !(at(queue, "data"@) matches JsonView::Array(
        waiting,
    ) && waiting.len() == 0) || at(queue, "nextCursor"@) !is Null {
        Some("Pause the native goal and empty the native queue before applying a changed context limit"@)
    } else {
        None
    }
}

/// Whether a resumed thread shows what was asked for.
pub open spec fn took_hold(change: ChangeView, efforts: EffortsView, result: JsonView) -> bool {
    &&& text_at(result, "reasoningEffort"@) == Some(efforts.desired)
    &&& text_at(result, "model"@) == Some(change.model.model)
    &&& text_at(result, "modelProvider"@) == Some(change.model.provider)
}

/// Whether a read shows the effort.
pub open spec fn shows_effort(read: JsonView, effort: Seq<char>) -> bool {
    text_at(at(read, "thread"@), "reasoningEffort"@) == Some(effort)
}

pub open spec fn unconfirmed() -> HarnessErrorView {
    HarnessErrorView::Timeout("Native reasoning setting was not confirmed before context reconfiguration"@)
}

pub open spec fn fail(error: HarnessErrorView) -> (StageView, ContextActionView) {
    (StageView::Finished, ContextActionView::Finish(Err(error)))
}

/// A change that began and failed: subscribe again without the new settings.
pub open spec fn undo(change: ChangeView, efforts: EffortsView, error: HarnessErrorView) -> (StageView, ContextActionView) {
    (
        StageView::Restoring { efforts, error },
        call("thread/resume"@, resume_params(change, None), Pace::Once),
    )
}

/// A change that failed and could not be undone.
pub open spec fn broken(error: HarnessErrorView, recovery: HarnessErrorView) -> HarnessErrorView {
    HarnessErrorView::Protocol(
        "Context change failed: "@ + described(error) + ". Restoring the native session also failed: "@ + described(recovery)
            + ". Reopen this session before starting more work."@,
    )
}

pub open spec fn read_action(change: ChangeView, pace: Pace) -> ContextActionView {
    call("thread/read"@, read_params(change.thread.harness_thread_id), pace)
}

/// What follows a page of the model catalog.
pub open spec fn page_step(change: ChangeView, seen: Seq<Seq<char>>, page: JsonView) -> (StageView, ContextActionView) {
    match at(page, "data"@) {
        JsonView::Array(entries) => match first_entry(entries, change.model.model) {
            Some(entry) => match entry_efforts(entry, change.model.reasoning_effort) {
                Err(error) => fail(error),
                Ok(efforts) => (StageView::Clearing { efforts }, ContextActionView::NoteWindow(None)),
            },
            None => {
                let cursor = at(page, "nextCursor"@);
                if cursor is Null {
                    fail(
                        protocol_fault(
                            "Selected model is absent from the native catalog; cannot verify context configuration"@,
                        ),
                    )
                } else if seen.contains(printed(cursor)) {
                    fail(protocol_fault("Native model catalog repeated a cursor"@))
                } else {
                    (
                        StageView::Browsing { seen: seen.push(printed(cursor)) },
                        call("model/list"@, catalog_params(cursor), Pace::Once),
                    )
                }
            },
        },
        _ => fail(protocol_fault("Native model catalog is missing entries"@)),
    }
}

/// What follows the reply to a call. A stage that waits for something else stays as it is; `fits` tells
/// them apart.
pub open spec fn replied_step(change: ChangeView, stage: StageView, reply: ReplyView, late: bool) -> (
    StageView,
    ContextActionView,
) {
    let id = change.thread.harness_thread_id;
    match stage {
        StageView::Inspecting => match idle_read(change, reply) {
            Err(error) => fail(error),
            Ok(read) => match thread_fault(change, read) {
                Some(message) => fail(protocol_fault(message)),
                None => (StageView::ReadingGoal, call("thread/goal/get"@, thread_params(id), Pace::Once)),
            },
        },
        StageView::ReadingGoal => match answer("thread/goal/get"@, reply) {
            Err(error) => fail(error),
            Ok(goal) => (
                StageView::ReadingQueue { goal },
                call("thread/queue/list"@, queue_params(id), Pace::Once),
            ),
        },
        StageView::ReadingQueue { goal } => match answer("thread/queue/list"@, reply) {
            Err(error) => fail(error),
            Ok(queue) => match work_fault(change, goal, queue) {
                Some(message) => fail(protocol_fault(message)),
                None => (StageView::FindingProvider, ContextActionView::FindProvider),
            },
        },
        StageView::Browsing { seen } => match answer("model/list"@, reply) {
            Err(error) => fail(error),
            Ok(page) => page_step(change, seen, page),
        },
        StageView::Marking { efforts } => match answer("thread/settings/update"@, reply) {
            Err(error) => undo(change, efforts, error),
            Ok(_) => (StageView::AwaitingMarker { efforts }, read_action(change, Pace::Starting)),
        },
        StageView::AwaitingMarker { efforts } => match idle_read(change, reply) {
            Err(error) => undo(change, efforts, error),
            Ok(read) => if shows_effort(read, efforts.marker) {
                (
                    StageView::Unsubscribing { efforts },
                    call("thread/unsubscribe"@, thread_params(id), Pace::Once),
                )
            } else if late {
                undo(change, efforts, unconfirmed())
            } else {
                (StageView::AwaitingMarker { efforts }, read_action(change, Pace::Polling))
            },
        },
        StageView::Unsubscribing { efforts } => match answer("thread/unsubscribe"@, reply) {
            Err(error) => undo(change, efforts, error),
            Ok(_) => (
                StageView::Resuming { efforts },
                call(
                    "thread/resume"@,
                    resume_params(change, Some(resume_settings(change.window, efforts.desired))),
                    Pace::Once,
                ),
            ),
        },
        StageView::Resuming { efforts } => match own_answer(change, "thread/resume"@, reply) {
            Err(error) => undo(change, efforts, error),
            Ok(result) => if took_hold(change, efforts, result) {
                (StageView::Confirming, ContextActionView::NoteWindow(Some(change.window)))
            } else {
                undo(
                    change,
                    efforts,
                    protocol_fault(
                        "Codex ignored context overrides for the loaded thread; the context change was not applied"@,
                    ),
                )
            },
        },
        StageView::Restoring { efforts, error } => match own_answer(change, "thread/resume"@, reply) {
            Err(recovery) => fail(broken(error, recovery)),
            Ok(_) => (
                StageView::RestoringEffort { efforts, error },
                call("thread/settings/update"@, effort_params(change, efforts.desired), Pace::Once),
            ),
        },
        StageView::RestoringEffort { efforts, error } => match answer("thread/settings/update"@, reply) {
            Err(recovery) => fail(broken(error, recovery)),
            Ok(_) => (StageView::AwaitingEffort { efforts, error }, read_action(change, Pace::Starting)),
        },
        StageView::AwaitingEffort { efforts, error } => match idle_read(change, reply) {
            Err(recovery) => fail(broken(error, recovery)),
            Ok(read) => if shows_effort(read, efforts.desired) {
                fail(error)
            } else if late {
                fail(broken(error, unconfirmed()))
            } else {
                (StageView::AwaitingEffort { efforts, error }, read_action(change, Pace::Polling))
            },
        },
        other => (other, ContextActionView::FindProvider),
    }
}

/// What follows the search for the catalog's provider.
pub open spec fn provider_step(change: ChangeView, reply: ProviderReplyView) -> (StageView, ContextActionView) {
    match reply {
        ProviderReplyView::Failed(error) => fail(error),
        ProviderReplyView::TimedOut => fail(
            HarnessErrorView::Timeout("Native model catalog provider lookup timed out"@),
        ),
        ProviderReplyView::Found(provider) => if provider != change.model.provider {
            fail(
                protocol_fault(
                    "The native model catalog belongs to another provider; cannot attest reasoning settings for context reconfiguration"@,
                ),
            )
        } else {
            (
                StageView::Browsing { seen: Seq::empty() },
                call("model/list"@, catalog_params(JsonView::Null), Pace::Once),
            )
        },
    }
}

/// What follows once a window was noted, or could not be.
pub open spec fn noted_step(change: ChangeView, stage: StageView, result: Result<(), HarnessErrorView>) -> (
    StageView,
    ContextActionView,
) {
    match result {
        Err(error) => fail(error),
        Ok(()) => match stage {
            StageView::Clearing { efforts } => (
                StageView::Marking { efforts },
                call("thread/settings/update"@, effort_params(change, efforts.marker), Pace::Once),
            ),
            _ => (StageView::Finished, ContextActionView::Finish(Ok(()))),
        },
    }
}

/// The event a stage waits for.
pub open spec fn fits(stage: StageView, event: ContextEventView) -> bool {
    match stage {
        StageView::Clearing { .. } => event is Noted,
        StageView::Confirming => event is Noted,
        StageView::FindingProvider => event is Provider,
        StageView::Finished => false,
        _ => event is Replied,
    }
}

/// What follows an event.
pub open spec fn next(change: ChangeView, stage: StageView, event: ContextEventView) -> (StageView, ContextActionView) {
    match event {
        ContextEventView::Replied { reply, late } => replied_step(change, stage, reply, late),
        ContextEventView::Provider(reply) => provider_step(change, reply),
        ContextEventView::Noted(result) => noted_step(change, stage, result),
    }
}

fn answered(method: &str, reply: Reply) -> (r: Result<Json, HarnessError>)
    ensures
        outcome(r) == answer(method@, reply@),
{
    match reply {
        Reply::Answered(value) => Ok(value),
        Reply::Failed(error) => Err(error),
        Reply::TimedOut => {
            let mut message = "Context configuration ".to_owned();
            message.append(method);
            message.append(" timed out; delivery is uncertain");
            Err(HarnessError::Timeout(message))
        },
    }
}

fn own_answered(thread: &ThreadHandle, method: &str, reply: Reply, Ghost(change): Ghost<ChangeView>) -> (r: Result<
    Json,
    HarnessError,
>)
    requires
        change.thread == thread@,
    ensures
        outcome(r) == own_answer(change, method@, reply@),
{
    match answered(method, reply) {
        Err(error) => Err(error),
        Ok(value) => {
            if !value.at("thread").at("id").is_text(thread.harness_thread_id.as_str()) {
                return Err(HarnessError::protocol("Context configuration returned a different native thread"));
            }
            Ok(value)
        },
    }
}

fn read_idle(thread: &ThreadHandle, reply: Reply, Ghost(change): Ghost<ChangeView>) -> (r: Result<Json, HarnessError>)
    requires
        change.thread == thread@,
    ensures
        outcome(r) == idle_read(change, reply@),
{
    match own_answered(thread, "thread/read", reply, Ghost(change)) {
        Err(error) => Err(error),
        Ok(value) => {
            if !value.at("thread").at("status").at("type").is_text("idle") {
                return Err(HarnessError::ThreadBusy { thread: thread.thread });
            }
            Ok(value)
        },
    }
}

fn work_waits(queue: &Json) -> (r: bool)
    ensures
        r == !(at(queue@, "data"@) matches JsonView::Array(waiting) && waiting.len() == 0),
{
    match queue.at("data") {
        Json::Array(items) => {
            proof {
                lemma_array_view(items@);
            }
            items.len() != 0
        },
        _ => true,
    }
}

fn cursor_seen(seen: &Vec<String>, cursor: &str) -> (r: bool)
    ensures
        r == texts(seen@).contains(cursor@),
{
    let mut i: usize = 0;
    while i < seen.len()
        invariant
            i <= seen@.len(),
            forall|k: int| 0 <= k < i ==> (#[trigger] seen@[k])@ != cursor@,
        decreases seen@.len() - i,
    {
        if same(seen[i].as_str(), cursor) {
            assert(texts(seen@)[i as int] == cursor@);
            return true;
        }
        i += 1;
    }
    assert forall|k: int| 0 <= k < texts(seen@).len() implies texts(seen@)[k] != cursor@ by {
        assert(seen@[k]@ != cursor@);
    }
    false
}

fn stop(error: HarnessError) -> (r: (Stage, ContextAction))
    ensures
        (r.0@, r.1@) == fail(error@),
{
    (Stage::Finished, ContextAction::Finish(Err(error)))
}

fn read_call(thread: &ThreadHandle, pace: Pace, Ghost(change): Ghost<ChangeView>) -> (r: ContextAction)
    requires
        change.thread == thread@,
    ensures
        r@ == read_action(change, pace),
{
    let params = Json::object().with("includeTurns", Json::Bool(false)).with(
        "threadId",
        Json::text(thread.harness_thread_id.as_str()),
    );
    assert(params@ =~= read_params(thread@.harness_thread_id));
    ContextAction::Call { method: "thread/read", params, pace }
}

fn thread_call(thread: &ThreadHandle, method: &'static str) -> (r: ContextAction)
    ensures
        r@ == call(method@, thread_params(thread@.harness_thread_id), Pace::Once),
{
    let params = Json::object().with("threadId", Json::text(thread.harness_thread_id.as_str()));
    assert(params@ =~= thread_params(thread@.harness_thread_id));
    ContextAction::Call { method, params, pace: Pace::Once }
}

fn catalog_call(cursor: Json) -> (r: ContextAction)
    ensures
        r@ == call("model/list"@, catalog_params(cursor@), Pace::Once),
{
    let ghost given = cursor@;
    let params = Json::object().with("cursor", cursor).with("includeHidden", Json::Bool(true));
    assert(params@ =~= catalog_params(given));
    ContextAction::Call { method: "model/list", params, pace: Pace::Once }
}

fn effort_call(thread: &ThreadHandle, model: &ModelRef, effort: &str, Ghost(change): Ghost<ChangeView>) -> (r: ContextAction)
    requires
        change.thread == thread@,
        change.model == model@,
    ensures
        r@ == call("thread/settings/update"@, effort_params(change, effort@), Pace::Once),
{
    let params = Json::object().with("model", Json::text(model.model.as_str())).with("effort", Json::text(effort)).with(
        "threadId",
        Json::text(thread.harness_thread_id.as_str()),
    );
    assert(params@ =~= effort_params(change, effort@));
    ContextAction::Call { method: "thread/settings/update", params, pace: Pace::Once }
}

fn resume_call(thread: &ThreadHandle, model: &ModelRef, settings: Option<Json>, Ghost(change): Ghost<ChangeView>) -> (r:
    ContextAction)
    requires
        change.thread == thread@,
        change.model == model@,
    ensures
        r@ == call("thread/resume"@, resume_params(change, opt_json(settings)), Pace::Once),
{
    let base = Json::object().with("model", Json::text(model.model.as_str())).with(
        "modelProvider",
        Json::text(model.provider.as_str()),
    ).with("cwd", Json::text(thread.workspace_root.as_str())).with("excludeTurns", Json::Bool(true));
    let ghost given = opt_json(settings);
    let configured = match settings {
        Some(value) => base.with("config", value),
        None => base,
    };
    let params = configured.with("threadId", Json::text(thread.harness_thread_id.as_str()));
    assert(params@ =~= resume_params(change, given));
    ContextAction::Call { method: "thread/resume", params, pace: Pace::Once }
}

fn undo_change(
    thread: &ThreadHandle,
    model: &ModelRef,
    efforts: Efforts,
    error: HarnessError,
    Ghost(change): Ghost<ChangeView>,
) -> (r: (Stage, ContextAction))
    requires
        change.thread == thread@,
        change.model == model@,
    ensures
        (r.0@, r.1@) == undo(change, efforts@, error@),
{
    (Stage::Restoring { efforts, error }, resume_call(thread, model, None, Ghost(change)))
}

fn stop_broken(error: HarnessError, recovery: HarnessError) -> (r: (Stage, ContextAction))
    ensures
        (r.0@, r.1@) == fail(broken(error@, recovery@)),
{
    let mut message = "Context change failed: ".to_owned();
    message.append(error.describe().as_str());
    message.append(". Restoring the native session also failed: ");
    message.append(recovery.describe().as_str());
    message.append(". Reopen this session before starting more work.");
    stop(HarnessError::Protocol(message))
}

fn page_arrived(model: &ModelRef, seen: Vec<String>, page: &Json, Ghost(change): Ghost<ChangeView>) -> (r: (
    Stage,
    ContextAction,
))
    requires
        change.model == model@,
    ensures
        (r.0@, r.1@) == page_step(change, texts(seen@), page@),
{
    let entries = match page.at("data") {
        Json::Array(entries) => entries,
        _ => {
            return stop(HarnessError::protocol("Native model catalog is missing entries"));
        },
    };
    if let Some(entry) = find_entry(entries, model.model.as_str()) {
        let selected = match &model.reasoning_effort {
            Some(effort) => Some(effort.as_str()),
            None => None,
        };
        return match choose_efforts(entry, selected) {
            Err(error) => stop(error),
            Ok(efforts) => (Stage::Clearing { efforts }, ContextAction::NoteWindow(None)),
        };
    }
    let cursor = page.at("nextCursor");
    if cursor.is_null() {
        return stop(
            HarnessError::protocol("Selected model is absent from the native catalog; cannot verify context configuration"),
        );
    }
    let text = print(cursor);
    if cursor_seen(&seen, text.as_str()) {
        return stop(HarnessError::protocol("Native model catalog repeated a cursor"));
    }
    let mut followed = seen;
    let ghost before = texts(followed@);
    let ghost added = text@;
    followed.push(text);
    assert(texts(followed@) =~= before.push(added));
    (Stage::Browsing { seen: followed }, catalog_call(cursor.clone()))
}

fn effort_shown(read: &Json, effort: &str) -> (r: bool)
    ensures
        r == shows_effort(read@, effort@),
{
    read.at("thread").at("reasoningEffort").is_text(effort)
}

fn reply_arrived(
    thread: &ThreadHandle,
    model: &ModelRef,
    window: u32,
    stage: Stage,
    reply: Reply,
    late: bool,
    Ghost(change): Ghost<ChangeView>,
) -> (r: (Stage, ContextAction))
    requires
        change.thread == thread@,
        change.model == model@,
        change.window == window,
        window > 0,
        fits(stage@, ContextEventView::Replied { reply: reply@, late }),
    ensures
        (r.0@, r.1@) == replied_step(change, stage@, reply@, late),
{
    match stage {
        Stage::Inspecting => match read_idle(thread, reply, Ghost(change)) {
            Err(error) => stop(error),
            Ok(read) => {
                if matches!(read.at("thread").at("canAcceptDirectInput"), Json::Bool(false)) {
                    return stop(
                        HarnessError::protocol(
                            "Provider-owned child sessions cannot change context through public resume",
                        ),
                    );
                }
                if !read.at("thread").at("modelProvider").is_text(model.provider.as_str()) {
                    return stop(HarnessError::protocol("Context configuration cannot change the native provider"));
                }
                (Stage::ReadingGoal, thread_call(thread, "thread/goal/get"))
            },
        },
        Stage::ReadingGoal => match answered("thread/goal/get", reply) {
            Err(error) => stop(error),
            Ok(goal) => {
                let params = Json::object().with("limit", Json::Unsigned(1)).with(
                    "threadId",
                    Json::text(thread.harness_thread_id.as_str()),
                );
                assert(params@ =~= queue_params(thread@.harness_thread_id));
                (
                    Stage::ReadingQueue { goal },
                    ContextAction::Call { method: "thread/queue/list", params, pace: Pace::Once },
                )
            },
        },
        Stage::ReadingQueue { goal } => match answered("thread/queue/list", reply) {
            Err(error) => stop(error),
            Ok(queue) => {
                let own = goal.at("goal");
                if goal.get("goal").is_none() || (!own.is_null() && !own.at("threadId").is_text(
                    thread.harness_thread_id.as_str(),
                )) {
                    return stop(
                        HarnessError::protocol("Native goal state could not be verified for context configuration"),
                    );
                }
                if own.at("status").is_text("active") || work_waits(&queue) || !queue.at("nextCursor").is_null() {
                    return stop(
                        HarnessError::protocol(
                            "Pause the native goal and empty the native queue before applying a changed context limit",
                        ),
                    );
                }
                (Stage::FindingProvider, ContextAction::FindProvider)
            },
        },
        Stage::Browsing { seen } => match answered("model/list", reply) {
            Err(error) => stop(error),
            Ok(page) => page_arrived(model, seen, &page, Ghost(change)),
        },
        Stage::Marking { efforts } => match answered("thread/settings/update", reply) {
            Err(error) => undo_change(thread, model, efforts, error, Ghost(change)),
            Ok(_) => (Stage::AwaitingMarker { efforts }, read_call(thread, Pace::Starting, Ghost(change))),
        },
        Stage::AwaitingMarker { efforts } => match read_idle(thread, reply, Ghost(change)) {
            Err(error) => undo_change(thread, model, efforts, error, Ghost(change)),
            Ok(read) => {
                if effort_shown(&read, efforts.marker.as_str()) {
                    return (Stage::Unsubscribing { efforts }, thread_call(thread, "thread/unsubscribe"));
                }
                if late {
                    let error = HarnessError::timeout(
                        "Native reasoning setting was not confirmed before context reconfiguration",
                    );
                    return undo_change(thread, model, efforts, error, Ghost(change));
                }
                (Stage::AwaitingMarker { efforts }, read_call(thread, Pace::Polling, Ghost(change)))
            },
        },
        Stage::Unsubscribing { efforts } => match answered("thread/unsubscribe", reply) {
            Err(error) => undo_change(thread, model, efforts, error, Ghost(change)),
            Ok(_) => match config(window) {
                Err(error) => stop(error),
                Ok(settings) => {
                    let settings = settings.with("model_reasoning_effort", Json::text(efforts.desired.as_str()));
                    assert(settings@ == resume_settings(window, efforts@.desired));
                    let action = resume_call(thread, model, Some(settings), Ghost(change));
                    (Stage::Resuming { efforts }, action)
                },
            },
        },
        Stage::Resuming { efforts } => match own_answered(thread, "thread/resume", reply, Ghost(change)) {
            Err(error) => undo_change(thread, model, efforts, error, Ghost(change)),
            Ok(result) => {
                if result.at("reasoningEffort").is_text(efforts.desired.as_str()) && result.at("model").is_text(
                    model.model.as_str(),
                ) && result.at("modelProvider").is_text(model.provider.as_str()) {
                    return (Stage::Confirming, ContextAction::NoteWindow(Some(window)));
                }
                let error = HarnessError::protocol(
                    "Codex ignored context overrides for the loaded thread; the context change was not applied",
                );
                undo_change(thread, model, efforts, error, Ghost(change))
            },
        },
        Stage::Restoring { efforts, error } => match own_answered(thread, "thread/resume", reply, Ghost(change)) {
            Err(recovery) => stop_broken(error, recovery),
            Ok(_) => {
                let action = effort_call(thread, model, efforts.desired.as_str(), Ghost(change));
                (Stage::RestoringEffort { efforts, error }, action)
            },
        },
        Stage::RestoringEffort { efforts, error } => match answered("thread/settings/update", reply) {
            Err(recovery) => stop_broken(error, recovery),
            Ok(_) => (Stage::AwaitingEffort { efforts, error }, read_call(thread, Pace::Starting, Ghost(change))),
        },
        Stage::AwaitingEffort { efforts, error } => match read_idle(thread, reply, Ghost(change)) {
            Err(recovery) => stop_broken(error, recovery),
            Ok(read) => {
                if effort_shown(&read, efforts.desired.as_str()) {
                    return stop(error);
                }
                if late {
                    let recovery = HarnessError::timeout(
                        "Native reasoning setting was not confirmed before context reconfiguration",
                    );
                    return stop_broken(error, recovery);
                }
                (Stage::AwaitingEffort { efforts, error }, read_call(thread, Pace::Polling, Ghost(change)))
            },
        },
        other => (other, ContextAction::FindProvider),
    }
}

impl ContextReload {
    /// Goes on with what came of the last action.
    pub fn step(self, event: ContextEvent) -> (r: (ContextReload, ContextAction))
        requires
            self.window > 0,
            fits(self.stage@, event@),
        ensures
            r.0.change() == self.change(),
            (r.0.stage@, r.1@) == next(self.change(), self.stage@, event@),
    {
        let ghost change = self.change();
        let ContextReload { thread, model, window, stage } = self;
        let (stage, action) = match event {
            ContextEvent::Replied { reply, late } => reply_arrived(
                &thread,
                &model,
                window,
                stage,
                reply,
                late,
                Ghost(change),
            ),
            ContextEvent::Provider(ProviderReply::Failed(error)) => stop(error),
            ContextEvent::Provider(ProviderReply::TimedOut) => stop(
                HarnessError::timeout("Native model catalog provider lookup timed out"),
            ),
            ContextEvent::Provider(ProviderReply::Found(provider)) => {
                if same(provider.as_str(), model.provider.as_str()) {
                    let seen: Vec<String> = Vec::new();
                    assert(texts(seen@) =~= Seq::<Seq<char>>::empty());
                    (Stage::Browsing { seen }, catalog_call(Json::Null))
                } else {
                    stop(
                        HarnessError::protocol(
                            "The native model catalog belongs to another provider; cannot attest reasoning settings for context reconfiguration",
                        ),
                    )
                }
            },
            ContextEvent::Noted(Err(error)) => stop(error),
            ContextEvent::Noted(Ok(())) => match stage {
                Stage::Clearing { efforts } => {
                    let action = effort_call(&thread, &model, efforts.marker.as_str(), Ghost(change));
                    (Stage::Marking { efforts }, action)
                },
                _ => (Stage::Finished, ContextAction::Finish(Ok(()))),
            },
        };
        (ContextReload { thread, model, window, stage }, action)
    }
}

/// What is known of a thread before anything is asked.
#[derive(Debug, Clone, Copy)]
pub struct ThreadFacts {
    /// The app-server's thread still belongs to this session.
    pub routed: bool,
    /// The window that was confirmed last.
    pub applied: Option<u32>,
    pub turn_active: bool,
}

/// Whether anything has to be done, and if not, how it ends.
pub open spec fn settled_at_once(
    thread: ThreadView,
    window: Option<u32>,
    model: Option<ModelRefView>,
    facts: ThreadFacts,
) -> Option<Result<(), HarnessErrorView>> {
    match window {
        None => Some(Ok(())),
        Some(window) => if window == 0 {
            Some(Err(protocol_fault("Context window must be positive"@)))
        } else if !facts.routed {
            Some(Err(protocol_fault("Reopen the changed native thread binding before configuring context"@)))
        } else if facts.applied == Some(window) {
            Some(Ok(()))
        } else if facts.turn_active {
            Some(Err(HarnessErrorView::ThreadBusy(thread.thread)))
        } else if model is None {
            Some(Err(protocol_fault("Context configuration requires a selected model"@)))
        } else {
            None
        },
    }
}

/// Starts applying `window`, unless nothing has to be done or nothing may be done.
pub fn begin(thread: &ThreadHandle, window: Option<u32>, model: Option<&ModelRef>, facts: ThreadFacts) -> (r: (
    Option<ContextReload>,
    ContextAction,
))
    ensures
        match settled_at_once(
            thread@,
            window,
            match model {
                Some(model) => Some(model@),
                None => None,
            },
            facts,
        ) {
            Some(result) => r.0 is None && r.1@ == ContextActionView::Finish(result),
            None => {
                &&& r.0 matches Some(reload) && reload.window > 0 && reload.stage@ is Inspecting && reload.change() == (
                ChangeView { thread: thread@, model: model->0@, window: window->0 })
                &&& r.1@ == call("thread/read"@, read_params(thread@.harness_thread_id), Pace::Once)
            },
        },
{
    let window: u32 = match window {
        Some(window) => window,
        None => {
            return (None, ContextAction::Finish(Ok(())));
        },
    };
    if let Err(error) = config(window) {
        return (None, ContextAction::Finish(Err(error)));
    }
    if !facts.routed {
        return (
            None,
            ContextAction::Finish(
                Err(HarnessError::protocol("Reopen the changed native thread binding before configuring context")),
            ),
        );
    }
    if facts.applied == Some(window) {
        return (None, ContextAction::Finish(Ok(())));
    }
    if facts.turn_active {
        return (None, ContextAction::Finish(Err(HarnessError::ThreadBusy { thread: thread.thread })));
    }
    match model {
        None => (
            None,
            ContextAction::Finish(Err(HarnessError::protocol("Context configuration requires a selected model"))),
        ),
        Some(model) => {
            let ghost change = ChangeView { thread: thread@, model: model@, window };
            let action = read_call(thread, Pace::Once, Ghost(change));
            let reload = ContextReload { thread: thread.clone(), model: model.clone(), window, stage: Stage::Inspecting };
            (Some(reload), action)
        },
    }
}

/// Where a change stands after `events`.
pub open spec fn stage_after(change: ChangeView, events: Seq<ContextEventView>) -> StageView
    decreases events.len(),
{
    if events.len() == 0 {
        StageView::Inspecting
    } else {
        next(change, stage_after(change, events.drop_last()), events.last()).0
    }
}

/// What the last of `events` led to; a change starts by reading the thread.
pub open spec fn action_after(change: ChangeView, events: Seq<ContextEventView>) -> ContextActionView {
    if events.len() == 0 {
        read_action(change, Pace::Once)
    } else {
        next(change, stage_after(change, events.drop_last()), events.last()).1
    }
}

/// Every event is the one its stage waits for.
pub open spec fn orderly(change: ChangeView, events: Seq<ContextEventView>) -> bool
    decreases events.len(),
{
    events.len() == 0 || (orderly(change, events.drop_last()) && fits(
        stage_after(change, events.drop_last()),
        events.last(),
    ))
}

/// Actions that change the thread, or what is known of it.
pub open spec fn changes_something(action: ContextActionView) -> bool {
    match action {
        ContextActionView::NoteWindow(_) => true,
        ContextActionView::Call { method, .. } => method == "thread/settings/update"@ || method == "thread/unsubscribe"@
            || method == "thread/resume"@,
        _ => false,
    }
}

/// The answer in an event, where there is one.
pub open spec fn answer_in(event: ContextEventView) -> JsonView {
    match event {
        ContextEventView::Replied { reply: ReplyView::Answered(value), .. } => value,
        _ => JsonView::Null,
    }
}

/// The events show an idle thread of the right provider that takes input, no goal at work, nothing
/// queued, and a catalog that belongs to the model's provider.
pub open spec fn shown_ready(change: ChangeView, events: Seq<ContextEventView>) -> bool {
    &&& events.len() >= 4
    &&& events[0] matches ContextEventView::Replied { reply, .. } && (idle_read(change, reply) matches Ok(read)
        && thread_fault(change, read) is None)
    &&& work_fault(change, answer_in(events[1]), answer_in(events[2])) is None
    &&& events[3] == ContextEventView::Provider(ProviderReplyView::Found(change.model.provider))
}

/// What each stage says about the events that led to it.
pub open spec fn evidence(change: ChangeView, events: Seq<ContextEventView>, stage: StageView) -> bool {
    let n = events.len();
    let inspected = n >= 1 && (events[0] matches ContextEventView::Replied { reply, .. } && (idle_read(change, reply)
        matches Ok(read) && thread_fault(change, read) is None));
    match stage {
        StageView::Inspecting => n == 0,
        StageView::ReadingGoal => n == 1 && inspected,
        StageView::ReadingQueue { goal } => n == 2 && inspected && answer_in(events[1]) == goal,
        StageView::FindingProvider => n == 3 && inspected && work_fault(change, answer_in(events[1]), answer_in(events[2]))
            is None,
        StageView::Finished => true,
        StageView::Unsubscribing { efforts } => shown_ready(change, events) && n >= 5 && (events.last()
            matches ContextEventView::Replied { reply, .. } && (idle_read(change, reply) matches Ok(read) && shows_effort(
            read,
            efforts.marker,
        ))),
        StageView::Confirming => shown_ready(change, events) && n >= 5 && (events.last()
            matches ContextEventView::Replied { reply, .. } && (own_answer(change, "thread/resume"@, reply)
            matches Ok(result) && exists|efforts: EffortsView| #[trigger] took_hold(change, efforts, result))),
        _ => shown_ready(change, events),
    }
}

proof fn lemma_evidence(change: ChangeView, events: Seq<ContextEventView>)
    requires
        orderly(change, events),
    ensures
        evidence(change, events, stage_after(change, events)),
    decreases events.len(),
{
    if events.len() > 0 {
        let front = events.drop_last();
        lemma_evidence(change, front);
        let before = stage_after(change, front);
        let after = stage_after(change, events);
        assert(events.last() == events[events.len() - 1]);
        assert(forall|i: int| 0 <= i < front.len() ==> front[i] == events[i]);
        if shown_ready(change, front) {
            assert(shown_ready(change, events));
        }
        if let StageView::Resuming { efforts } = before {
            if let ContextEventView::Replied { reply, .. } = events.last() {
                if let Ok(result) = own_answer(change, "thread/resume"@, reply) {
                    if took_hold(change, efforts, result) {
                        assert(exists|e: EffortsView| #[trigger] took_hold(change, e, result));
                    }
                }
            }
        }
    }
}

/// Nothing is changed before the thread was shown ready: the first action that changes anything comes
/// only after the thread was read idle, its goal and queue were found at rest, and the catalog was
/// found to belong to the model's provider.
pub proof fn law_nothing_changes_before_checks(change: ChangeView, events: Seq<ContextEventView>)
    requires
        orderly(change, events),
    ensures
        changes_something(action_after(change, events)) ==> shown_ready(change, events),
{
    lemma_method_names();
    lemma_evidence(change, events);
    if events.len() > 0 {
        let front = events.drop_last();
        lemma_evidence(change, front);
        assert(forall|i: int| 0 <= i < front.len() ==> front[i] == events[i]);
        if shown_ready(change, front) {
            assert(shown_ready(change, events));
        }
    }
}

/// The calls that only look are none of those that change something.
proof fn lemma_method_names()
    ensures
        "thread/read"@ != "thread/settings/update"@ && "thread/read"@ != "thread/unsubscribe"@ && "thread/read"@
            != "thread/resume"@,
        "thread/goal/get"@ != "thread/settings/update"@ && "thread/goal/get"@ != "thread/unsubscribe"@
            && "thread/goal/get"@ != "thread/resume"@,
        "thread/queue/list"@ != "thread/settings/update"@ && "thread/queue/list"@ != "thread/unsubscribe"@
            && "thread/queue/list"@ != "thread/resume"@,
        "model/list"@ != "thread/settings/update"@ && "model/list"@ != "thread/unsubscribe"@ && "model/list"@
            != "thread/resume"@,
{
    reveal_strlit("thread/read");
    reveal_strlit("thread/goal/get");
    reveal_strlit("thread/queue/list");
    reveal_strlit("model/list");
    reveal_strlit("thread/settings/update");
    reveal_strlit("thread/unsubscribe");
    reveal_strlit("thread/resume");
    assert("thread/read"@[7] == 'r' && "thread/resume"@[8] == 'e');
    assert("thread/read"@.len() == 11 && "thread/resume"@.len() == 13 && "thread/settings/update"@.len() == 22
        && "thread/unsubscribe"@.len() == 18 && "thread/goal/get"@.len() == 15 && "thread/queue/list"@.len() == 17
        && "model/list"@.len() == 10);
}

/// A thread is let go only once a read showed the marker: right before, the thread was read idle with
/// the marker as its effort.
pub proof fn law_marker_is_confirmed_before_letting_go(change: ChangeView, events: Seq<ContextEventView>)
    requires
        orderly(change, events),
        stage_after(change, events) is Unsubscribing,
    ensures
        action_after(change, events) == call("thread/unsubscribe"@, thread_params(change.thread.harness_thread_id), Pace::Once),
        events.last() matches ContextEventView::Replied { reply, .. } && (idle_read(change, reply) matches Ok(read)
            && shows_effort(read, stage_after(change, events)->Unsubscribing_efforts.marker)),
{
    lemma_evidence(change, events);
}

/// A change ends well only after the resumed thread itself showed the effort, model and provider that
/// were asked for, and the window was noted after that.
pub proof fn law_success_is_shown_by_the_thread(change: ChangeView, events: Seq<ContextEventView>)
    requires
        orderly(change, events),
        action_after(change, events) == ContextActionView::Finish(Ok(())),
    ensures
        events.len() >= 2,
        events.last() matches ContextEventView::Noted(result) && result is Ok,
        events[events.len() - 2] matches ContextEventView::Replied { reply, .. } && (own_answer(
            change,
            "thread/resume"@,
            reply,
        ) matches Ok(result) && exists|efforts: EffortsView| #[trigger] took_hold(change, efforts, result)),
        action_after(change, events.drop_last()) == ContextActionView::NoteWindow(Some(change.window)),
{
    let front = events.drop_last();
    lemma_evidence(change, front);
    lemma_noting(change, front);
}

/// What is noted in each stage that notes a window.
proof fn lemma_noting(change: ChangeView, events: Seq<ContextEventView>)
    requires
        orderly(change, events),
    ensures
        stage_after(change, events) is Confirming ==> action_after(change, events) == ContextActionView::NoteWindow(
            Some(change.window),
        ),
        stage_after(change, events) is Clearing ==> action_after(change, events) == ContextActionView::NoteWindow(None),
{
}

/// The applied window is forgotten before the thread is touched: whatever is called after the checks
/// comes after the window was noted as unknown.
pub proof fn law_window_is_forgotten_first(change: ChangeView, events: Seq<ContextEventView>)
    requires
        orderly(change, events),
        stage_after(change, events) is Marking,
    ensures
        events.len() >= 1,
        events.last() matches ContextEventView::Noted(result) && result is Ok,
        action_after(change, events.drop_last()) == ContextActionView::NoteWindow(None),
{
    lemma_noting(change, events.drop_last());
}

/// Once a change has begun, every failure is followed by an attempt to undo it, and an undone change
/// still reports the failure it was undone for.
pub proof fn law_failures_are_undone(change: ChangeView, stage: StageView, event: ContextEventView)
    requires
        fits(stage, event),
        stage is Marking || stage is AwaitingMarker || stage is Unsubscribing || stage is Resuming,
    ensures
        !(next(change, stage, event).1 is Finish),
        next(change, stage, event).0 is Restoring ==> next(change, stage, event).1 == call(
            "thread/resume"@,
            resume_params(change, None),
            Pace::Once,
        ),
{
}

/// Undoing keeps the failure: while a change is undone, the failure it is undone for stays, and the
/// end is that failure, alone or together with why undoing failed too.
pub proof fn law_undoing_keeps_the_failure(change: ChangeView, stage: StageView, event: ContextEventView, error: HarnessErrorView)
    requires
        fits(stage, event),
        (stage matches StageView::Restoring { error: e, .. } && e == error) || (stage matches StageView::RestoringEffort {
            error: e,
            ..
        } && e == error) || (stage matches StageView::AwaitingEffort { error: e, .. } && e == error),
    ensures
        match next(change, stage, event).0 {
            StageView::RestoringEffort { error: e, .. } => e == error,
            StageView::AwaitingEffort { error: e, .. } => e == error,
            StageView::Finished => next(change, stage, event).1 == ContextActionView::Finish(Err(error)) || exists|
                recovery: HarnessErrorView,
            | next(change, stage, event).1 == ContextActionView::Finish(Err(#[trigger] broken(error, recovery))),
            _ => false,
        },
{
    let after = next(change, stage, event);
    if after.0 is Finished && after.1 != ContextActionView::Finish(Err(error)) {
        if let ContextEventView::Replied { reply, late } = event {
            match stage {
                StageView::Restoring { .. } => {
                    assert(after.1 == ContextActionView::Finish(
                        Err(broken(error, own_answer(change, "thread/resume"@, reply)->Err_0)),
                    ));
                },
                StageView::RestoringEffort { .. } => {
                    assert(after.1 == ContextActionView::Finish(
                        Err(broken(error, answer("thread/settings/update"@, reply)->Err_0)),
                    ));
                },
                _ => {
                    if let Err(recovery) = idle_read(change, reply) {
                        assert(after.1 == ContextActionView::Finish(Err(broken(error, recovery))));
                    } else {
                        assert(after.1 == ContextActionView::Finish(Err(broken(error, unconfirmed()))));
                    }
                },
            }
        }
    }
}

/// Each action leaves a stage that waits for what comes of it: a call for its reply, a provider search for
/// the provider, a window to be noted for that it was; and the end leaves nothing to wait for.
pub proof fn law_actions_name_their_event(change: ChangeView, stage: StageView, event: ContextEventView)
    requires
        fits(stage, event),
    ensures
        ({
            let (then, action) = next(change, stage, event);
            match action {
                ContextActionView::Call { .. } => forall|e: ContextEventView| #[trigger] fits(then, e) <==> e is Replied,
                ContextActionView::FindProvider => forall|e: ContextEventView| #[trigger] fits(then, e) <==> e is Provider,
                ContextActionView::NoteWindow(_) => forall|e: ContextEventView| #[trigger] fits(then, e) <==> e is Noted,
                ContextActionView::Finish(_) => forall|e: ContextEventView| !#[trigger] fits(then, e),
            }
        }),
{
}

/// A limit that is known to be applied needs nothing: it is settled without a single call.
pub proof fn law_unchanged_limit_needs_nothing(thread: ThreadView, window: u32, model: Option<ModelRefView>, facts: ThreadFacts)
    requires
        window > 0,
        facts.routed,
        facts.applied == Some(window),
    ensures
        settled_at_once(thread, Some(window), model, facts) == Some(Ok::<(), HarnessErrorView>(())),
{
}

/// The names of parameters are told apart.
proof fn lemma_parameter_names()
    ensures
        "threadId"@ != "includeTurns"@,
        "threadId"@ != "limit"@,
        "cursor"@ != "includeHidden"@,
        "threadId"@ != "model"@,
        "threadId"@ != "effort"@,
        "model"@ != "effort"@,
        "threadId"@ != "modelProvider"@,
        "threadId"@ != "cwd"@,
        "threadId"@ != "excludeTurns"@,
        "threadId"@ != "config"@,
        "model"@ != "modelProvider"@,
        "model"@ != "cwd"@,
        "model"@ != "excludeTurns"@,
        "model"@ != "config"@,
        "modelProvider"@ != "cwd"@,
        "modelProvider"@ != "excludeTurns"@,
        "modelProvider"@ != "config"@,
        "cwd"@ != "excludeTurns"@,
        "cwd"@ != "config"@,
        "excludeTurns"@ != "config"@,
        "model_reasoning_effort"@ != "model_context_window"@,
        "model_reasoning_effort"@ != "model_auto_compact_token_limit"@,
        "model_reasoning_effort"@ != "model_auto_compact_token_limit_scope"@,
        "model_context_window"@ != "model_auto_compact_token_limit"@,
        "model_context_window"@ != "model_auto_compact_token_limit_scope"@,
        "model_auto_compact_token_limit"@ != "model_auto_compact_token_limit_scope"@,
{
    reveal_strlit("threadId");
    reveal_strlit("includeTurns");
    reveal_strlit("limit");
    reveal_strlit("cursor");
    reveal_strlit("includeHidden");
    reveal_strlit("model");
    reveal_strlit("effort");
    reveal_strlit("modelProvider");
    reveal_strlit("cwd");
    reveal_strlit("excludeTurns");
    reveal_strlit("config");
    reveal_strlit("model_reasoning_effort");
    reveal_strlit("model_context_window");
    reveal_strlit("model_auto_compact_token_limit");
    reveal_strlit("model_auto_compact_token_limit_scope");
    assert("threadId"@.len() != "includeTurns"@.len());
    assert("threadId"@.len() != "limit"@.len());
    assert("cursor"@.len() != "includeHidden"@.len());
    assert("threadId"@.len() != "model"@.len());
    assert("threadId"@.len() != "effort"@.len());
    assert("model"@.len() != "effort"@.len());
    assert("threadId"@.len() != "modelProvider"@.len());
    assert("threadId"@.len() != "cwd"@.len());
    assert("threadId"@.len() != "excludeTurns"@.len());
    assert("threadId"@.len() != "config"@.len());
    assert("model"@.len() != "modelProvider"@.len());
    assert("model"@.len() != "cwd"@.len());
    assert("model"@.len() != "excludeTurns"@.len());
    assert("model"@.len() != "config"@.len());
    assert("modelProvider"@.len() != "cwd"@.len());
    assert("modelProvider"@.len() != "excludeTurns"@.len());
    assert("modelProvider"@.len() != "config"@.len());
    assert("cwd"@.len() != "excludeTurns"@.len());
    assert("cwd"@.len() != "config"@.len());
    assert("excludeTurns"@.len() != "config"@.len());
    assert("model_reasoning_effort"@.len() != "model_context_window"@.len());
    assert("model_reasoning_effort"@.len() != "model_auto_compact_token_limit"@.len());
    assert("model_reasoning_effort"@.len() != "model_auto_compact_token_limit_scope"@.len());
    assert("model_context_window"@.len() != "model_auto_compact_token_limit"@.len());
    assert("model_context_window"@.len() != "model_auto_compact_token_limit_scope"@.len());
    assert("model_auto_compact_token_limit"@.len() != "model_auto_compact_token_limit_scope"@.len());
}

/// A thread is looked into further exactly where it is the one that was asked about, idle, open to input
/// and on the model's provider. A thread of the right name that is not idle is busy; nothing else happens to
/// a thread that is not ready.
pub proof fn law_only_ready_threads_are_looked_into(change: ChangeView, value: JsonView, late: bool)
    ensures
        ({
            let thread = at(value, "thread"@);
            let own = at(thread, "id"@) == JsonView::Text(change.thread.harness_thread_id);
            let idle = at(at(thread, "status"@), "type"@) == JsonView::Text("idle"@);
            let ready = own && idle && at(thread, "canAcceptDirectInput"@) != JsonView::Bool(false) && at(
                thread,
                "modelProvider"@,
            ) == JsonView::Text(change.model.provider);
            let (then, action) = next(
                change,
                StageView::Inspecting,
                ContextEventView::Replied { reply: ReplyView::Answered(value), late },
            );
            if ready {
                then is ReadingGoal && (action matches ContextActionView::Call { method, params, .. } && method
                    == "thread/goal/get"@ && member(params, "threadId"@) == Some(
                    JsonView::Text(change.thread.harness_thread_id),
                ))
            } else {
                then is Finished && (action matches ContextActionView::Finish(result) && (result matches Err(error) && (own
                    && !idle ==> error == HarnessErrorView::ThreadBusy(change.thread.thread)) && (!(own && !idle)
                    ==> error is Protocol)))
            }
        }),
{
}

/// Whatever the goal is answered to be, it is kept, and the queue of the thread is asked for: one entry is
/// enough to tell.
pub proof fn law_goals_are_kept_for_judging(change: ChangeView, goal: JsonView, late: bool)
    ensures
        ({
            let (then, action) = next(
                change,
                StageView::ReadingGoal,
                ContextEventView::Replied { reply: ReplyView::Answered(goal), late },
            );
            &&& then == StageView::ReadingQueue { goal }
            &&& action matches ContextActionView::Call { method, params, .. } && method == "thread/queue/list"@ && member(
                params,
                "threadId"@,
            ) == Some(JsonView::Text(change.thread.harness_thread_id)) && member(params, "limit"@) == Some(
                JsonView::Integer(1),
            )
        }),
{
    lemma_parameter_names();
}

/// A change goes on exactly where nothing of the thread's own is at work: the goal is answered and there is
/// none, or it is this thread's and has any status but `active`, and the queue is an empty list without
/// another page. Otherwise the change ends.
pub proof fn law_threads_at_rest_go_on(change: ChangeView, goal: JsonView, queue: JsonView, late: bool)
    ensures
        ({
            let known = member(goal, "goal"@) matches Some(own) && (own == JsonView::Null || at(own, "threadId"@)
                == JsonView::Text(change.thread.harness_thread_id));
            let resting = at(at(goal, "goal"@), "status"@) != JsonView::Text("active"@);
            let empty = member(queue, "data"@) == Some(JsonView::Array(Seq::empty())) && (member(queue, "nextCursor"@) is None
                || member(queue, "nextCursor"@) == Some(JsonView::Null));
            let (then, action) = next(
                change,
                StageView::ReadingQueue { goal },
                ContextEventView::Replied { reply: ReplyView::Answered(queue), late },
            );
            if known && resting && empty {
                then is FindingProvider && action is FindProvider
            } else {
                then is Finished && (action matches ContextActionView::Finish(result) && (result matches Err(error) && error is Protocol))
            }
        }),
{
    if let JsonView::Array(waiting) = at(queue, "data"@) {
        if waiting.len() == 0 {
            assert(waiting =~= Seq::<JsonView>::empty());
        }
    }
}

/// Of two goals of the same thread that are not active it makes no difference which the thread has.
pub proof fn law_resting_goals_are_alike(
    change: ChangeView,
    first: JsonView,
    second: JsonView,
    queue: JsonView,
    late: bool,
)
    requires
        member(first, "goal"@) matches Some(own) && at(own, "threadId"@) == JsonView::Text(change.thread.harness_thread_id)
            && at(own, "status"@) != JsonView::Text("active"@),
        member(second, "goal"@) == Some(JsonView::Null),
    ensures
        next(
            change,
            StageView::ReadingQueue { goal: first },
            ContextEventView::Replied { reply: ReplyView::Answered(queue), late },
        ) == next(
            change,
            StageView::ReadingQueue { goal: second },
            ContextEventView::Replied { reply: ReplyView::Answered(queue), late },
        ),
{
    assert(at(JsonView::Null, "status"@) == JsonView::Null);
}

/// The catalog is read from its start, hidden models and all, exactly where it belongs to the model's
/// provider.
pub proof fn law_the_catalog_is_the_providers(change: ChangeView, provider: Seq<char>)
    ensures
        ({
            let (then, action) = next(
                change,
                StageView::FindingProvider,
                ContextEventView::Provider(ProviderReplyView::Found(provider)),
            );
            if provider == change.model.provider {
                then == (StageView::Browsing { seen: Seq::empty() }) && (action matches ContextActionView::Call {
                    method,
                    params,
                    ..
                } && method == "model/list"@ && member(params, "cursor"@) == Some(JsonView::Null) && member(
                    params,
                    "includeHidden"@,
                ) == Some(JsonView::Bool(true)))
            } else {
                then is Finished && (action matches ContextActionView::Finish(result) && result is Err)
            }
        }),
        forall|error: HarnessErrorView| #[trigger]
            next(
                change,
                StageView::FindingProvider,
                ContextEventView::Provider(ProviderReplyView::Failed(error)),
            ).1 == ContextActionView::Finish(Err(error)),
        next(change, StageView::FindingProvider, ContextEventView::Provider(ProviderReplyView::TimedOut)).1
            matches ContextActionView::Finish(result) && (result matches Err(error) && error is Timeout),
{
    lemma_parameter_names();
}

/// A page that names the model decides with its first entry for it: the change goes on with the efforts of
/// that entry, or ends. A page that does not name the model leads to the next page, never to one whose
/// cursor was followed before, and to the end where there is none.
pub proof fn law_the_catalog_is_read_to_the_model(
    change: ChangeView,
    seen: Seq<Seq<char>>,
    entries: Seq<JsonView>,
    page: JsonView,
    late: bool,
)
    requires
        member(page, "data"@) == Some(JsonView::Array(entries)),
    ensures
        ({
            let (then, action) = next(
                change,
                StageView::Browsing { seen },
                ContextEventView::Replied { reply: ReplyView::Answered(page), late },
            );
            let cursor = at(page, "nextCursor"@);
            if exists|i: int| 0 <= i < entries.len() && names(#[trigger] entries[i], change.model.model) {
                exists|i: int|
                    0 <= i < entries.len() && names(#[trigger] entries[i], change.model.model) && (forall|k: int|
                        0 <= k < i ==> !names(#[trigger] entries[k], change.model.model)) && match entry_efforts(
                        entries[i],
                        change.model.reasoning_effort,
                    ) {
                        Ok(efforts) => then == (StageView::Clearing { efforts }) && action == ContextActionView::NoteWindow(
                            None,
                        ),
                        Err(error) => then is Finished && action == ContextActionView::Finish(Err(error)),
                    }
            } else if cursor == JsonView::Null || seen.contains(printed(cursor)) {
                then is Finished && (action matches ContextActionView::Finish(result) && (result matches Err(error) && error is Protocol))
            } else {
                then == (StageView::Browsing { seen: seen.push(printed(cursor)) }) && (action
                    matches ContextActionView::Call { method, params, .. } && method == "model/list"@ && member(
                    params,
                    "cursor"@,
                ) == Some(cursor) && member(params, "includeHidden"@) == Some(JsonView::Bool(true)))
            }
        }),
{
    lemma_parameter_names();
    law_entries_are_found_by_name(entries, change.model.model);
    if let Some(entry) = first_entry(entries, change.model.model) {
        let i = choose|i: int|
            0 <= i < entries.len() && entry == #[trigger] entries[i] && names(entry, change.model.model) && forall|k: int|
                0 <= k < i ==> !names(#[trigger] entries[k], change.model.model);
        assert(names(entries[i], change.model.model));
    }
}

/// The thread is marked with the marker, under its own model.
pub proof fn law_the_marker_is_set(change: ChangeView, efforts: EffortsView)
    ensures
        ({
            let (then, action) = next(change, StageView::Clearing { efforts }, ContextEventView::Noted(Ok(())));
            &&& then == StageView::Marking { efforts }
            &&& action matches ContextActionView::Call { method, params, .. } && method == "thread/settings/update"@ && member(
                params,
                "effort"@,
            ) == Some(JsonView::Text(efforts.marker)) && member(params, "model"@) == Some(
                JsonView::Text(change.model.model),
            ) && member(params, "threadId"@) == Some(JsonView::Text(change.thread.harness_thread_id))
        }),
{
    lemma_parameter_names();
}

/// After a setting was sent, the thread is read, without its turns, until it shows the setting or the time is
/// over; the clock starts with the first read.
pub proof fn law_settings_are_waited_for(
    change: ChangeView,
    efforts: EffortsView,
    error: HarnessErrorView,
    value: JsonView,
    late: bool,
)
    ensures
        ({
            let answered = ContextEventView::Replied { reply: ReplyView::Answered(value), late };
            let reads = |action: ContextActionView, pace: Pace|
                action matches ContextActionView::Call { method, params, pace: p } && method == "thread/read"@ && p == pace
                    && member(params, "threadId"@) == Some(JsonView::Text(change.thread.harness_thread_id)) && member(
                    params,
                    "includeTurns"@,
                ) == Some(JsonView::Bool(false));
            let thread = at(value, "thread"@);
            let idle = at(thread, "id"@) == JsonView::Text(change.thread.harness_thread_id) && at(
                at(thread, "status"@),
                "type"@,
            ) == JsonView::Text("idle"@);
            let marked = next(change, StageView::Marking { efforts }, answered);
            let waiting = next(change, StageView::AwaitingMarker { efforts }, answered);
            let restored = next(change, StageView::RestoringEffort { efforts, error }, answered);
            let returning = next(change, StageView::AwaitingEffort { efforts, error }, answered);
            &&& marked.0 == (StageView::AwaitingMarker { efforts }) && reads(marked.1, Pace::Starting)
            &&& restored.0 == (StageView::AwaitingEffort { efforts, error }) && reads(restored.1, Pace::Starting)
            &&& idle && at(thread, "reasoningEffort"@) != JsonView::Text(efforts.marker) && !late ==> waiting.0 == (
            StageView::AwaitingMarker { efforts }) && reads(waiting.1, Pace::Polling)
            &&& idle && at(thread, "reasoningEffort"@) != JsonView::Text(efforts.desired) && !late ==> returning.0 == (
            StageView::AwaitingEffort { efforts, error }) && reads(returning.1, Pace::Polling)
        }),
{
    lemma_parameter_names();
}

/// The thread is let go exactly where a read shows it idle with the marker. One that shows no marker in time,
/// that is not idle or not the thread, is brought back.
pub proof fn law_marked_threads_are_let_go(change: ChangeView, efforts: EffortsView, value: JsonView, late: bool)
    ensures
        ({
            let thread = at(value, "thread"@);
            let idle = at(thread, "id"@) == JsonView::Text(change.thread.harness_thread_id) && at(
                at(thread, "status"@),
                "type"@,
            ) == JsonView::Text("idle"@);
            let shown = at(thread, "reasoningEffort"@) == JsonView::Text(efforts.marker);
            let (then, action) = next(
                change,
                StageView::AwaitingMarker { efforts },
                ContextEventView::Replied { reply: ReplyView::Answered(value), late },
            );
            &&& idle && shown <==> then is Unsubscribing
            &&& idle && shown ==> then == (StageView::Unsubscribing { efforts }) && (action
                matches ContextActionView::Call { method, params, .. } && method == "thread/unsubscribe"@ && member(
                params,
                "threadId"@,
            ) == Some(JsonView::Text(change.thread.harness_thread_id)))
            &&& !idle || !shown && late ==> (then matches StageView::Restoring { efforts: e, error } && e == efforts && (idle
                ==> error is Timeout))
        }),
{
}

/// A thread that was let go is resumed with the window as its whole budget and with the effort that is wanted,
/// on its own model, provider and directory.
pub proof fn law_threads_are_resumed_with_the_window(change: ChangeView, efforts: EffortsView, value: JsonView, late: bool)
    ensures
        ({
            let (then, action) = next(
                change,
                StageView::Unsubscribing { efforts },
                ContextEventView::Replied { reply: ReplyView::Answered(value), late },
            );
            &&& then == StageView::Resuming { efforts }
            &&& action matches ContextActionView::Call { method, params, .. } && method == "thread/resume"@ && {
                let config = at(params, "config"@);
                &&& member(params, "threadId"@) == Some(JsonView::Text(change.thread.harness_thread_id))
                &&& member(params, "model"@) == Some(JsonView::Text(change.model.model))
                &&& member(params, "modelProvider"@) == Some(JsonView::Text(change.model.provider))
                &&& member(params, "cwd"@) == Some(JsonView::Text(change.thread.workspace_root))
                &&& member(params, "excludeTurns"@) == Some(JsonView::Bool(true))
                &&& member(config, "model_context_window"@) == Some(JsonView::Integer(change.window as int))
                &&& member(config, "model_auto_compact_token_limit"@) == Some(JsonView::Integer(change.window as int))
                &&& member(config, "model_auto_compact_token_limit_scope"@) == Some(JsonView::Text("total"@))
                &&& member(config, "model_reasoning_effort"@) == Some(JsonView::Text(efforts.desired))
            }
        }),
{
    lemma_parameter_names();
}

/// The window is noted exactly where the resumed thread is the one that was asked about and shows the wanted
/// effort, the model and the provider; otherwise the change is undone.
pub proof fn law_the_window_is_noted_where_it_shows(change: ChangeView, efforts: EffortsView, value: JsonView, late: bool)
    ensures
        ({
            let shown = at(at(value, "thread"@), "id"@) == JsonView::Text(change.thread.harness_thread_id) && at(
                value,
                "reasoningEffort"@,
            ) == JsonView::Text(efforts.desired) && at(value, "model"@) == JsonView::Text(change.model.model) && at(
                value,
                "modelProvider"@,
            ) == JsonView::Text(change.model.provider);
            let (then, action) = next(
                change,
                StageView::Resuming { efforts },
                ContextEventView::Replied { reply: ReplyView::Answered(value), late },
            );
            if shown {
                then is Confirming && action == ContextActionView::NoteWindow(Some(change.window))
            } else {
                then matches StageView::Restoring { efforts: e, error } && e == efforts && error is Protocol
            }
        }),
        next(change, StageView::Confirming, ContextEventView::Noted(Ok(()))) == (
            StageView::Finished,
            ContextActionView::Finish(Ok::<(), HarnessErrorView>(())),
        ),
{
}

/// Undoing resumes the thread as it was, without any settings, then asks for the effort that was wanted, and
/// ends with the failure that it was undone for once the thread shows that effort.
pub proof fn law_undoing_brings_the_thread_back(
    change: ChangeView,
    stage: StageView,
    efforts: EffortsView,
    error: HarnessErrorView,
    value: JsonView,
    late: bool,
)
    requires
        stage == (StageView::Marking { efforts }) || stage == (StageView::AwaitingMarker { efforts }) || stage == (
        StageView::Unsubscribing { efforts }) || stage == (StageView::Resuming { efforts }),
    ensures
        ({
            let answered = ContextEventView::Replied { reply: ReplyView::Answered(value), late };
            let failed = next(change, stage, ContextEventView::Replied { reply: ReplyView::Failed(error), late });
            let resumed = next(change, StageView::Restoring { efforts, error }, answered);
            let shown = next(change, StageView::AwaitingEffort { efforts, error }, answered);
            let thread = at(value, "thread"@);
            let own = at(thread, "id"@) == JsonView::Text(change.thread.harness_thread_id);
            let idle = at(at(thread, "status"@), "type"@) == JsonView::Text("idle"@);
            &&& failed.0 == StageView::Restoring { efforts, error }
            &&& failed.1 matches ContextActionView::Call { method, params, .. } && method == "thread/resume"@ && member(
                params,
                "config"@,
            ) is None && member(params, "threadId"@) == Some(JsonView::Text(change.thread.harness_thread_id)) && member(
                params,
                "model"@,
            ) == Some(JsonView::Text(change.model.model)) && member(params, "modelProvider"@) == Some(
                JsonView::Text(change.model.provider),
            ) && member(params, "cwd"@) == Some(JsonView::Text(change.thread.workspace_root)) && member(
                params,
                "excludeTurns"@,
            ) == Some(JsonView::Bool(true))
            &&& own ==> resumed.0 == (StageView::RestoringEffort { efforts, error }) && (resumed.1
                matches ContextActionView::Call { method, params, .. } && method == "thread/settings/update"@ && member(
                params,
                "effort"@,
            ) == Some(JsonView::Text(efforts.desired)) && member(params, "model"@) == Some(
                JsonView::Text(change.model.model),
            ) && member(params, "threadId"@) == Some(JsonView::Text(change.thread.harness_thread_id)))
            &&& own && idle && at(thread, "reasoningEffort"@) == JsonView::Text(efforts.desired) ==> shown == (
                StageView::Finished,
                ContextActionView::Finish(Err::<(), HarnessErrorView>(error)),
            )
            &&& !(own && idle) || late && at(thread, "reasoningEffort"@) != JsonView::Text(efforts.desired) ==> (shown.1
                matches ContextActionView::Finish(result) && (result matches Err(told) && told is Protocol))
        }),
{
    lemma_parameter_names();
}

/// A failure before the thread is touched is told as it came, and a call that is not answered in time as a
/// timeout.
pub proof fn law_early_failures_are_told(change: ChangeView, stage: StageView, error: HarnessErrorView, late: bool)
    requires
        stage is Inspecting || stage is ReadingGoal || stage is ReadingQueue || stage is Browsing,
    ensures
        next(change, stage, ContextEventView::Replied { reply: ReplyView::Failed(error), late }) == (
            StageView::Finished,
            ContextActionView::Finish(Err::<(), HarnessErrorView>(error)),
        ),
        next(change, stage, ContextEventView::Replied { reply: ReplyView::TimedOut, late }).1
            matches ContextActionView::Finish(result) && (result matches Err(told) && told is Timeout),
{
}

/// A failure that could not be undone tells both failures, the first one first.
pub proof fn law_broken_changes_tell_both_failures(
    change: ChangeView,
    efforts: EffortsView,
    error: HarnessErrorView,
    recovery: HarnessErrorView,
    late: bool,
)
    ensures
        forall|stage: StageView|
            stage == (StageView::Restoring { efforts, error }) || stage == (StageView::RestoringEffort { efforts, error })
                || stage == (StageView::AwaitingEffort { efforts, error }) ==> (#[trigger] next(
                change,
                stage,
                ContextEventView::Replied { reply: ReplyView::Failed(recovery), late },
            )).1 == ContextActionView::Finish(Err::<(), HarnessErrorView>(broken(error, recovery))),
        broken(error, recovery) matches HarnessErrorView::Protocol(text) && exists|
            before: Seq<char>,
            between: Seq<char>,
            after: Seq<char>,
        | text == #[trigger] (before + described(error) + between + described(recovery) + after),
{
    assert(broken(error, recovery)->Protocol_0 == "Context change failed: "@ + described(error)
        + ". Restoring the native session also failed: "@ + described(recovery)
        + ". Reopen this session before starting more work."@);
}

/// Nothing is asked of the app-server without a limit, for a limit of nothing, for a thread that is no longer
/// this session's, or while a turn runs; a limit that is applied already is settled well even while one
/// runs, and everything else needs a model.
pub proof fn law_changes_begin_where_they_can(
    thread: ThreadView,
    window: u32,
    model: Option<ModelRefView>,
    facts: ThreadFacts,
)
    ensures
        settled_at_once(thread, None, model, facts) == Some(Ok::<(), HarnessErrorView>(())),
        settled_at_once(thread, Some(window), model, facts) is None <==> window > 0 && facts.routed && facts.applied != Some(
            window,
        ) && !facts.turn_active && model is Some,
        settled_at_once(thread, Some(window), model, facts) == Some(Ok::<(), HarnessErrorView>(())) <==> window > 0
            && facts.routed && facts.applied == Some(window),
        window > 0 && facts.routed && facts.applied != Some(window) && facts.turn_active ==> settled_at_once(
            thread,
            Some(window),
            model,
            facts,
        ) == Some(Err::<(), HarnessErrorView>(HarnessErrorView::ThreadBusy(thread.thread))),
        member(read_params(thread.harness_thread_id), "threadId"@) == Some(JsonView::Text(thread.harness_thread_id)),
        member(read_params(thread.harness_thread_id), "includeTurns"@) == Some(JsonView::Bool(false)),
{
    lemma_parameter_names();
}

/// The call that each stage waits for the answer of.
pub open spec fn awaited_call(stage: StageView) -> Seq<char> {
    match stage {
        StageView::Inspecting => "thread/read"@,
        StageView::ReadingGoal => "thread/goal/get"@,
        StageView::ReadingQueue { .. } => "thread/queue/list"@,
        StageView::Browsing { .. } => "model/list"@,
        StageView::Marking { .. } => "thread/settings/update"@,
        StageView::AwaitingMarker { .. } => "thread/read"@,
        StageView::Unsubscribing { .. } => "thread/unsubscribe"@,
        StageView::Resuming { .. } => "thread/resume"@,
        StageView::Restoring { .. } => "thread/resume"@,
        StageView::RestoringEffort { .. } => "thread/settings/update"@,
        StageView::AwaitingEffort { .. } => "thread/read"@,
        _ => Seq::empty(),
    }
}

/// A call without an answer in time is told by its name, in the words for something whose delivery is not known:
/// as the failure itself, as what is to be undone, or beside what was being undone.
pub proof fn law_late_answers_name_their_call(change: ChangeView, stage: StageView, late: bool)
    ensures
        ({
            let (then, action) = next(change, stage, ContextEventView::Replied { reply: ReplyView::TimedOut, late });
            let named = |text: Seq<char>|
                exists|before: Seq<char>, after: Seq<char>| text == #[trigger] (before + awaited_call(stage) + after);
            &&& stage is Inspecting || stage is ReadingGoal || stage is ReadingQueue || stage is Browsing ==> (action
                matches ContextActionView::Finish(result) && (result matches Err(HarnessErrorView::Timeout(text)) && named(text)))
            &&& stage is Marking || stage is AwaitingMarker || stage is Unsubscribing || stage is Resuming ==> (then
                matches StageView::Restoring { error, .. } && (error matches HarnessErrorView::Timeout(text) && named(text)))
            &&& stage is Restoring || stage is RestoringEffort || stage is AwaitingEffort ==> (action
                matches ContextActionView::Finish(result) && (result matches Err(HarnessErrorView::Protocol(text)) && named(text)))
        }),
{
    let method = awaited_call(stage);
    let (then, action) = next(change, stage, ContextEventView::Replied { reply: ReplyView::TimedOut, late });
    let words = "Context configuration "@ + method + " timed out; delivery is uncertain"@;
    assert(late_call(method) == HarnessErrorView::Timeout(words));
    let error = match stage {
        StageView::Restoring { error, .. } => error,
        StageView::RestoringEffort { error, .. } => error,
        StageView::AwaitingEffort { error, .. } => error,
        _ => HarnessErrorView::Timeout(words),
    };
    let before = "Context change failed: "@ + described(error) + ". Restoring the native session also failed: "@
        + "Context configuration "@;
    let after = " timed out; delivery is uncertain"@ + ". Reopen this session before starting more work."@;
    assert(broken(error, late_call(method))->Protocol_0 =~= before + method + after);
}

/// What stands in the way is named: a thread that is owned elsewhere or is on another provider, a goal that cannot
/// be the thread's, or work of the thread's own.
pub proof fn law_obstacles_are_named(change: ChangeView, value: JsonView, goal: JsonView, queue: JsonView, late: bool)
    ensures
        ({
            let thread = at(value, "thread"@);
            let own = at(thread, "id"@) == JsonView::Text(change.thread.harness_thread_id);
            let idle = at(at(thread, "status"@), "type"@) == JsonView::Text("idle"@);
            let answered = ContextEventView::Replied { reply: ReplyView::Answered(value), late };
            let text = next(change, StageView::Inspecting, answered).1->Finish_0->Err_0->Protocol_0;
            let child = at(thread, "canAcceptDirectInput"@) == JsonView::Bool(false);
            &&& !own ==> "Context configuration returned a different"@.is_prefix_of(text)
            &&& own && idle && child ==> "Provider-owned child sessions"@.is_prefix_of(text)
            &&& own && idle && !child && at(thread, "modelProvider"@) != JsonView::Text(change.model.provider)
                ==> "Context configuration cannot change the native provider"@ == text
        }),
        ({
            let known = member(goal, "goal"@) matches Some(own) && (own == JsonView::Null || at(own, "threadId"@)
                == JsonView::Text(change.thread.harness_thread_id));
            let answered = ContextEventView::Replied { reply: ReplyView::Answered(queue), late };
            let action = next(change, StageView::ReadingQueue { goal }, answered).1;
            let text = action->Finish_0->Err_0->Protocol_0;
            &&& !known ==> "Native goal state could not be verified"@.is_prefix_of(text)
            &&& known && action is Finish ==> "Pause the native goal and empty the native queue"@.is_prefix_of(text)
        }),
{
    reveal_strlit("Context configuration returned a different");
    reveal_strlit("Context configuration returned a different native thread");
    assert("Context configuration returned a different native thread"@.subrange(0, 42) =~= "Context configuration returned a different"@);
    reveal_strlit("Provider-owned child sessions");
    reveal_strlit("Provider-owned child sessions cannot change context through public resume");
    assert("Provider-owned child sessions cannot change context through public resume"@.subrange(0, 29) =~= "Provider-owned child sessions"@);
    reveal_strlit("Native goal state could not be verified");
    reveal_strlit("Native goal state could not be verified for context configuration");
    assert("Native goal state could not be verified for context configuration"@.subrange(0, 39) =~= "Native goal state could not be verified"@);
    reveal_strlit("Pause the native goal and empty the native queue");
    reveal_strlit("Pause the native goal and empty the native queue before applying a changed context limit");
    assert("Pause the native goal and empty the native queue before applying a changed context limit"@.subrange(0, 48) =~= "Pause the native goal and empty the native queue"@);
}

/// Whatever is asked for is asked for once; only reads that wait for a setting come again.
pub proof fn law_only_reads_come_again(change: ChangeView, stage: StageView, event: ContextEventView)
    ensures
        next(change, stage, event).1 matches ContextActionView::Call { method, pace, .. } ==> (method != "thread/read"@
            ==> pace == Pace::Once) && (pace != Pace::Once ==> next(change, stage, event).0 is AwaitingMarker || next(
            change,
            stage,
            event,
        ).0 is AwaitingEffort),
{
}

} // verus!
