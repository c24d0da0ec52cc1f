//! Which goal and queue commands a thread takes, and on what they run.

use vstd::prelude::*;
use crate::context_window::opt_model;
use crate::error::{ApiError, ApiErrorView};
use crate::goals_queue::{command_fault, launches_work, CommandView, GoalsQueueCommand};
use crate::json::opt_text;
use crate::model::{ModelRef, ModelRefView};
use crate::text::same;

verus! {

/// What is stored of the thread.
#[derive(Debug)]
pub struct StoredThread {
    pub archived: bool,
    pub model: Option<ModelRef>,
    /// The collaboration mode, where one is known.
    pub mode: Option<String>,
    pub permission_preset: String,
}

/// The loaded thread on the app-server.
#[derive(Debug)]
pub struct Binding {
    /// The provider that the loaded thread runs on, where it is known.
    pub native_provider: Option<String>,
    pub same_project: bool,
}

/// What a command is judged by.
#[derive(Debug)]
pub struct CommandFacts {
    pub project_found: bool,
    pub thread: Option<StoredThread>,
    /// Why the thread must not be written, where it must not; of no matter to a read.
    pub write_fault: Option<ApiError>,
    pub turn_active: bool,
    pub binding: Option<Binding>,
}

/// What work is launched with.
#[derive(Debug)]
pub struct TurnOverrides {
    pub model: ModelRef,
    pub mode: String,
    pub permission_preset: String,
}

pub struct TurnOverridesView {
    pub model: ModelRefView,
    pub mode: Seq<char>,
    pub permission_preset: Seq<char>,
}

impl View for TurnOverrides {
    type V = TurnOverridesView;

    open spec fn view(&self) -> TurnOverridesView {
        TurnOverridesView { model: self.model@, mode: self.mode@, permission_preset: self.permission_preset@ }
    }
}

/// On what a command runs.
#[derive(Debug)]
pub struct Admission {
    /// What work is launched with; none where the command launches nothing.
    pub settings: Option<TurnOverrides>,
    /// The loaded thread is used; otherwise a handle that only reads.
    pub bound: bool,
}

pub struct AdmissionView {
    pub settings: Option<TurnOverridesView>,
    pub bound: bool,
}

impl View for Admission {
    type V = AdmissionView;

    open spec fn view(&self) -> AdmissionView {
        AdmissionView {
            settings: match self.settings {
                Some(settings) => Some(settings@),
                None => None,
            },
            bound: self.bound,
        }
    }
}

pub open spec fn conflict(message: Seq<char>) -> ApiErrorView {
    ApiErrorView::Conflict(message)
}

/// What work is launched with, all of it the thread's own, or why it is not launched.
pub open spec fn launch_settings(thread: StoredThread, binding: Option<Binding>) -> Result<TurnOverridesView, ApiErrorView> {
    let native = match binding {
        Some(b) => opt_text(b.native_provider),
        None => None,
    };
    match (opt_model(thread.model), opt_text(thread.mode), native) {
        (None, _, _) => Err(conflict("Select a model before starting native work"@)),
        (Some(_), None, _) => Err(conflict("Select a collaboration mode before starting native work"@)),
        (Some(_), Some(_), None) => Err(
            conflict("Reopen the thread to verify its native provider before starting work"@),
        ),
        (Some(model), Some(mode), Some(provider)) => if model.provider != provider {
            Err(
                conflict(
                    "Selected provider differs from the loaded native thread; create or reopen a thread on that provider"@,
                ),
            )
        } else {
            Ok(TurnOverridesView { model, mode, permission_preset: thread.permission_preset@ })
        },
    }
}

/// Where a command runs, or why it does not.
pub open spec fn place(read: bool, binding: Option<Binding>) -> Result<bool, ApiErrorView> {
    match binding {
        Some(b) => if b.same_project {
            Ok(true)
        } else {
            Err(conflict("Thread binding belongs to a different project"@))
        },
        None => if read {
            Ok(false)
        } else {
            Err(conflict("Open the thread before changing its goal or queue"@))
        },
    }
}

/// Whether a command runs, and on what.
pub open spec fn judged(command: CommandView, facts: CommandFacts) -> Result<AdmissionView, ApiErrorView> {
    if let Some(fault) = command_fault(command) {
        Err(ApiErrorView::BadRequest(fault))
    } else if !facts.project_found || facts.thread is None {
        Err(ApiErrorView::NotFound)
    } else if !(command is Read) && facts.write_fault is Some {
        Err(facts.write_fault->0@)
    } else if !(command is Read) && facts.thread->0.archived {
        Err(conflict("Unarchive the thread before changing its goal or queue"@))
    } else if command is Start && facts.turn_active {
        Err(conflict("Wait for the active turn to finish before starting queued input"@))
    } else {
        let settings = if launches_work(command) {
            match launch_settings(facts.thread->0, facts.binding) {
                Ok(settings) => Ok(Some(settings)),
                Err(error) => Err(error),
            }
        } else {
            Ok(None)
        };
        match settings {
            Err(error) => Err(error),
            Ok(settings) => match place(command is Read, facts.binding) {
                Err(error) => Err(error),
                Ok(bound) => Ok(AdmissionView { settings, bound }),
            },
        }
    }
}

fn find_launch_settings(thread: &StoredThread, binding: &Option<Binding>) -> (r: Result<TurnOverrides, ApiError>)
    ensures
        match launch_settings(*thread, *binding) {
            Ok(settings) => r matches Ok(found) && found@ == settings,
            Err(fault) => r matches Err(error) && error@ == fault,
        },
{
    let model = match &thread.model {
        Some(model) => model,
        None => {
            return Err(ApiError::conflict("Select a model before starting native work"));
        },
    };
    let mode = match &thread.mode {
        Some(mode) => mode,
        None => {
            return Err(ApiError::conflict("Select a collaboration mode before starting native work"));
        },
    };
    let native = match binding {
        Some(b) => match &b.native_provider {
            Some(provider) => Some(provider.as_str()),
            None => None,
        },
        None => None,
    };
    match native {
        None => Err(ApiError::conflict("Reopen the thread to verify its native provider before starting work")),
        Some(provider) => if same(model.provider.as_str(), provider) {
            Ok(
                TurnOverrides {
                    model: model.clone(),
                    mode: mode.clone(),
                    permission_preset: thread.permission_preset.clone(),
                },
            )
        } else {
            Err(
                ApiError::conflict(
                    "Selected provider differs from the loaded native thread; create or reopen a thread on that provider",
                ),
            )
        },
    }
}

/// Whether a command runs, and on what.
pub fn judge(command: &GoalsQueueCommand, facts: CommandFacts) -> (r: Result<Admission, ApiError>)
    ensures
        match judged(command@, facts) {
            Ok(admission) => r matches Ok(found) && found@ == admission,
            Err(fault) => r matches Err(error) && error@ == fault,
        },
{
    if let Err(fault) = command.validate() {
        return Err(ApiError::BadRequest(fault));
    }
    let read = command.is_read();
    let CommandFacts { project_found, thread, write_fault, turn_active, binding } = facts;
    if !project_found {
        return Err(ApiError::NotFound);
    }
    let thread = match thread {
        Some(thread) => thread,
        None => {
            return Err(ApiError::NotFound);
        },
    };
    if !read {
        if let Some(fault) = write_fault {
            return Err(fault);
        }
        if thread.archived {
            return Err(ApiError::conflict("Unarchive the thread before changing its goal or queue"));
        }
    }
    if turn_active && matches!(command, GoalsQueueCommand::Start { .. }) {
        return Err(ApiError::conflict("Wait for the active turn to finish before starting queued input"));
    }
    let settings = if command.requires_settings() {
        match find_launch_settings(&thread, &binding) {
            Ok(settings) => Some(settings),
            Err(error) => {
                return Err(error);
            },
        }
    } else {
        None
    };
    match binding {
        Some(b) => if b.same_project {
            Ok(Admission { settings, bound: true })
        } else {
            Err(ApiError::conflict("Thread binding belongs to a different project"))
        },
        None => if read {
            Ok(Admission { settings, bound: false })
        } else {
            Err(ApiError::conflict("Open the thread before changing its goal or queue"))
        },
    }
}

/// Reading is never refused for what only changes need: not for an archived or read-only thread, not for
/// a running turn, not for a missing model, and not for a thread that is not loaded.
pub proof fn law_reading_needs_little(cursor: Option<Seq<char>>, facts: CommandFacts)
    requires
        facts.project_found,
        facts.thread is Some,
        facts.binding matches Some(b) ==> b.same_project,
    ensures
        judged(CommandView::Read { cursor }, facts) == Ok::<AdmissionView, ApiErrorView>(
            (AdmissionView { settings: None, bound: facts.binding is Some }),
        ),
{
}

/// Work starts only on a loaded thread of the same project whose provider is the selected model's.
pub proof fn law_work_needs_its_own_provider(command: CommandView, facts: CommandFacts)
    requires
        launches_work(command),
    ensures
        judged(command, facts) matches Ok(admission) ==> admission.bound && (admission.settings matches Some(settings) && (
        facts.binding matches Some(b) && b.same_project && opt_text(b.native_provider) == Some(settings.model.provider))),
{
}

/// Work is launched with the model, the collaboration mode and the permission preset of the thread, and
/// nothing else is launched with anything.
pub proof fn law_work_keeps_the_threads_settings(command: CommandView, facts: CommandFacts)
    ensures
        judged(command, facts) matches Ok(admission) ==> match admission.settings {
            Some(settings) => {
                &&& launches_work(command)
                &&& facts.thread matches Some(thread) && opt_model(thread.model) == Some(settings.model) && opt_text(thread.mode)
                    == Some(settings.mode) && thread.permission_preset@ == settings.permission_preset
            },
            None => !launches_work(command),
        },
{
}

/// A command runs exactly where it is valid, its project and thread are found, nothing that it changes is closed
/// to it, a start finds the thread idle, and the thread is loaded in the same project: a read can do without that.
/// Work also needs the thread's model and mode, and the provider that is loaded.
pub proof fn law_commands_run_where_all_is_met(command: CommandView, facts: CommandFacts)
    ensures
        judged(command, facts) is Ok <==> {
            &&& command_fault(command) is None
            &&& facts.project_found
            &&& facts.thread matches Some(thread) && {
                &&& !(command is Read) ==> facts.write_fault is None && !thread.archived && facts.binding is Some
                &&& command is Start ==> !facts.turn_active
                &&& facts.binding matches Some(b) ==> b.same_project
                &&& command is SetGoal || command is Add || command is Start ==> {
                    &&& thread.mode is Some
                    &&& thread.model matches Some(model) && (facts.binding matches Some(b) && (b.native_provider matches Some(
                        provider,
                    ) && provider@ == model@.provider))
                }
            }
        },
        judged(command, facts) matches Ok(admission) ==> (admission.bound <==> facts.binding is Some),
{
}

/// Refusals come in order: first for the command itself, then for what is not there, then for what closes the
/// thread to writing, as it was found; everything else is a conflict.
pub proof fn law_refusals_come_in_order(command: CommandView, facts: CommandFacts)
    ensures
        command_fault(command) matches Some(fault) ==> judged(command, facts) == Err::<AdmissionView, ApiErrorView>(
            ApiErrorView::BadRequest(fault),
        ),
        command_fault(command) is None && (!facts.project_found || facts.thread is None) ==> judged(command, facts) == Err::<
            AdmissionView,
            ApiErrorView,
        >(ApiErrorView::NotFound),
        command_fault(command) is None && facts.project_found && facts.thread is Some ==> {
            &&& !(command is Read) ==> (facts.write_fault matches Some(error) ==> judged(command, facts) == Err::<
                AdmissionView,
                ApiErrorView,
            >(error@))
            &&& command is Read || facts.write_fault is None ==> (judged(command, facts) matches Err(error)
                ==> error is Conflict)
        },
{
}

/// Each conflict tells what to do about it, and the first one that applies is told.
pub proof fn law_conflicts_tell_what_to_do(command: CommandView, facts: CommandFacts, thread: StoredThread)
    requires
        command_fault(command) is None,
        facts.project_found,
        facts.thread == Some(thread),
        facts.write_fault is None,
        !(command is Read),
    ensures
        ({
            let works = command is SetGoal || command is Add || command is Start;
            let waits = command is Start && facts.turn_active;
            let text = judged(command, facts)->Err_0->Conflict_0;
            &&& thread.archived ==> "Unarchive the thread"@.is_prefix_of(text)
            &&& !thread.archived && waits ==> "Wait for the active turn"@.is_prefix_of(text)
            &&& !thread.archived && !waits && works && thread.model is None ==> "Select a model"@.is_prefix_of(text)
            &&& !thread.archived && !waits && works && thread.model is Some && thread.mode is None
                ==> "Select a collaboration mode"@.is_prefix_of(text)
            &&& !thread.archived && !works && facts.binding is None ==> "Open the thread"@.is_prefix_of(text)
            &&& !thread.archived && !waits && works && thread.model is Some && thread.mode is Some && facts.binding is None
                ==> "Reopen the thread"@.is_prefix_of(text)
            &&& !thread.archived && !works ==> (facts.binding matches Some(b) ==> !b.same_project
                ==> "Thread binding belongs to a different project"@ == text)
        }),
{
    reveal_strlit("Unarchive the thread");
    reveal_strlit("Unarchive the thread before changing its goal or queue");
    reveal_strlit("Wait for the active turn");
    reveal_strlit("Wait for the active turn to finish before starting queued input");
    reveal_strlit("Select a model");
    reveal_strlit("Select a model before starting native work");
    reveal_strlit("Select a collaboration mode");
    reveal_strlit("Select a collaboration mode before starting native work");
    reveal_strlit("Open the thread");
    reveal_strlit("Open the thread before changing its goal or queue");
    reveal_strlit("Reopen the thread");
    reveal_strlit("Reopen the thread to verify its native provider before starting work");
}

} // verus!
