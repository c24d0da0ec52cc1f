//! Harness-owned goal and queued-input controls: the commands a user may send and when one is
//! refused before it reaches the harness.

use vstd::prelude::*;
use crate::json::opt_text;
use crate::text::{blank, is_blank};
use vstd::string::*;

verus! {

/// The most characters a goal objective may hold.
pub const MAX_OBJECTIVE_CHARS: usize = 4000;

#[derive(Debug, Clone, Copy, PartialEq, Eq, Structural)]
pub enum GoalStatus {
    Active,
    Paused,
    Blocked,
    UsageLimited,
    BudgetLimited,
    Complete,
}

#[derive(Debug, Clone, PartialEq, Eq)]
pub struct Goal {
    pub objective: String,
    pub status: GoalStatus,
    pub token_budget: Option<i64>,
    pub tokens_used: i64,
    pub time_used_seconds: i64,
    pub created_at: i64,
    pub updated_at: i64,
}

#[verifier::ext_equal]
pub struct GoalView {
    pub objective: Seq<char>,
    pub status: GoalStatus,
    pub token_budget: Option<i64>,
    pub tokens_used: i64,
    pub time_used_seconds: i64,
    pub created_at: i64,
    pub updated_at: i64,
}

impl View for Goal {
    type V = GoalView;

    open spec fn view(&self) -> GoalView {
        GoalView {
            objective: self.objective@,
            status: self.status,
            token_budget: self.token_budget,
            tokens_used: self.tokens_used,
            time_used_seconds: self.time_used_seconds,
            created_at: self.created_at,
            updated_at: self.updated_at,
        }
    }
}

#[derive(Debug, Clone, PartialEq, Eq)]
pub struct QueuedInput {
    pub id: String,
    pub client_message_id: String,
    pub text: String,
    /// Non-text input is preserved by the harness, and cannot be replaced by the text editor.
    pub has_other_input: bool,
}

#[verifier::ext_equal]
pub struct QueuedInputView {
    pub id: Seq<char>,
    pub client_message_id: Seq<char>,
    pub text: Seq<char>,
    pub has_other_input: bool,
}

impl View for QueuedInput {
    type V = QueuedInputView;

    open spec fn view(&self) -> QueuedInputView {
        QueuedInputView {
            id: self.id@,
            client_message_id: self.client_message_id@,
            text: self.text@,
            has_other_input: self.has_other_input,
        }
    }
}

#[derive(Debug, Clone, PartialEq, Eq)]
pub struct GoalsQueueSnapshot {
    pub goal: Option<Goal>,
    pub queue: Vec<QueuedInput>,
    pub next_cursor: Option<String>,
}

#[verifier::ext_equal]
pub struct SnapshotView {
    pub goal: Option<GoalView>,
    pub queue: Seq<QueuedInputView>,
    pub next_cursor: Option<Seq<char>>,
}

pub open spec fn queue_view(queue: Seq<QueuedInput>) -> Seq<QueuedInputView> {
    Seq::new(queue.len(), |i: int| queue[i]@)
}

pub open spec fn goal_view(goal: Option<Goal>) -> Option<GoalView> {
    match goal {
        Some(g) => Some(g@),
        None => None,
    }
}

impl View for GoalsQueueSnapshot {
    type V = SnapshotView;

    open spec fn view(&self) -> SnapshotView {
        SnapshotView {
            goal: goal_view(self.goal),
            queue: queue_view(self.queue@),
            next_cursor: opt_text(self.next_cursor),
        }
    }
}

/// No goal, nothing queued, nothing further to read.
pub open spec fn empty_snapshot() -> SnapshotView {
    SnapshotView { goal: None, queue: Seq::empty(), next_cursor: None }
}

impl Default for GoalsQueueSnapshot {
    fn default() -> (r: GoalsQueueSnapshot)
        ensures
            r@ == empty_snapshot(),
    {
        let r = GoalsQueueSnapshot { goal: None, queue: Vec::new(), next_cursor: None };
        assert(r@ =~= empty_snapshot());
        r
    }
}

#[allow(inconsistent_fields)]
#[derive(Debug, Clone)]
pub enum GoalsQueueCommand {
    Read { cursor: Option<String> },
    SetGoal { objective: Option<String>, status: Option<GoalStatus>, token_budget: Option<i64> },
    ClearGoal,
    Add { text: String, client_message_id: String },
    Update { id: String, text: String },
    Delete { id: String },
    Reorder { ids: Vec<String> },
    Start { id: Option<String> },
}

#[allow(inconsistent_fields)]
#[verifier::ext_equal]
pub enum CommandView {
    Read { cursor: Option<Seq<char>> },
    SetGoal { objective: Option<Seq<char>>, status: Option<GoalStatus>, token_budget: Option<i64> },
    ClearGoal,
    Add { text: Seq<char>, client_message_id: Seq<char> },
    Update { id: Seq<char>, text: Seq<char> },
    Delete { id: Seq<char> },
    Reorder { ids: Seq<Seq<char>> },
    Start { id: Option<Seq<char>> },
}

pub open spec fn texts(items: Seq<String>) -> Seq<Seq<char>> {
    Seq::new(items.len(), |i: int| items[i]@)
}

impl View for GoalsQueueCommand {
    type V = CommandView;

    open spec fn view(&self) -> CommandView {
        match self {
            GoalsQueueCommand::Read { cursor } => CommandView::Read { cursor: opt_text(*cursor) },
            GoalsQueueCommand::SetGoal { objective, status, token_budget } => CommandView::SetGoal {
                objective: opt_text(*objective),
                status: *status,
                token_budget: *token_budget,
            },
            GoalsQueueCommand::ClearGoal => CommandView::ClearGoal,
            GoalsQueueCommand::Add { text, client_message_id } => CommandView::Add {
                text: text@,
                client_message_id: client_message_id@,
            },
            GoalsQueueCommand::Update { id, text } => CommandView::Update { id: id@, text: text@ },
            GoalsQueueCommand::Delete { id } => CommandView::Delete { id: id@ },
            GoalsQueueCommand::Reorder { ids } => CommandView::Reorder { ids: texts(ids@) },
            GoalsQueueCommand::Start { id } => CommandView::Start { id: opt_text(*id) },
        }
    }
}

/// These controls can initiate native work.
pub open spec fn launches_work(command: CommandView) -> bool {
    command is SetGoal || command is Add || command is Start
}

/// Why a command is refused outright; nothing for a command that may be sent.
pub open spec fn command_fault(command: CommandView) -> Option<Seq<char>> {
    match command {
        CommandView::SetGoal { objective: Some(s), .. } if blank(s) || s.len()
            > MAX_OBJECTIVE_CHARS => Some("Goal objective must contain 1–4000 characters"@),
        CommandView::SetGoal { token_budget: Some(n), .. } if n <= 0 => Some(
            "Token budget must be positive"@,
        ),
        CommandView::Add { text, client_message_id } if blank(text) || blank(client_message_id) => Some(
            "Queued text and client message ID are required"@,
        ),
        CommandView::Update { id, text } if blank(id) || blank(text) => Some(
            "Queue ID and text are required"@,
        ),
        CommandView::Delete { id } if blank(id) => Some("Queue ID must not be empty"@),
        CommandView::Start { id: Some(id) } if blank(id) => Some("Queue ID must not be empty"@),
        CommandView::Reorder { ids } if !ids.no_duplicates() || exists|i: int|
            0 <= i < ids.len() && blank(#[trigger] ids[i]) => Some(
            "Queue order must contain unique nonempty IDs"@,
        ),
        _ => None,
    }
}

/// Every id is different from every other.
fn all_different(ids: &Vec<String>) -> (r: bool)
    ensures
        r == texts(ids@).no_duplicates(),
{
    let ghost view = texts(ids@);
    let mut i: usize = 0;
    while i < ids.len()
        invariant
            i <= ids@.len(),
            view == texts(ids@),
            forall|a: int, b: int| 0 <= a < i && 0 <= b < ids@.len() && a != b ==> view[a] != view[b],
        decreases ids@.len() - i,
    {
        let mut j: usize = 0;
        while j < ids.len()
            invariant
                i < ids@.len(),
                j <= ids@.len(),
                view == texts(ids@),
                forall|b: int| 0 <= b < j && i != b ==> view[i as int] != view[b],
            decreases ids@.len() - j,
        {
            if i != j && ids[i] == ids[j] {
                assert(view[i as int] == view[j as int]);
                return false;
            }
            assert(view[j as int] == ids@[j as int]@);
            j += 1;
        }
        i += 1;
    }
    true
}

/// Some id is blank.
fn any_blank(ids: &Vec<String>) -> (r: bool)
    ensures
        r == exists|i: int| 0 <= i < texts(ids@).len() && blank(#[trigger] texts(ids@)[i]),
{
    let mut i: usize = 0;
    while i < ids.len()
        invariant
            i <= ids@.len(),
            forall|k: int| 0 <= k < i ==> !blank(#[trigger] texts(ids@)[k]),
        decreases ids@.len() - i,
    {
        if is_blank(ids[i].as_str()) {
            assert(blank(texts(ids@)[i as int]));
            return true;
        }
        i += 1;
    }
    false
}

impl GoalsQueueCommand {
    /// These controls can initiate native work, which must capture the selected settings first.
    pub fn requires_settings(&self) -> (r: bool)
        ensures
            r == launches_work(self@),
    {
        matches!(self, GoalsQueueCommand::SetGoal { .. } | GoalsQueueCommand::Add { .. } | GoalsQueueCommand::Start { .. })
    }

    pub fn is_read(&self) -> (r: bool)
        ensures
            r == (self@ is Read),
    {
        matches!(self, GoalsQueueCommand::Read { .. })
    }

    /// Refuses a command that could never be carried out, naming the first fault.
    pub fn validate(&self) -> (r: Result<(), String>)
        ensures
            r is Ok <==> command_fault(self@) is None,
            r matches Err(m) ==> command_fault(self@) == Some(m@),
    {
        match self {
            GoalsQueueCommand::SetGoal { objective, token_budget, .. } => {
                if let Some(s) = objective {
                    if is_blank(s.as_str()) || s.as_str().unicode_len() > MAX_OBJECTIVE_CHARS {
                        return Err("Goal objective must contain 1–4000 characters".to_owned());
                    }
                }
                if let Some(n) = token_budget {
                    if *n <= 0 {
                        return Err("Token budget must be positive".to_owned());
                    }
                }
                Ok(())
            },
            GoalsQueueCommand::Add { text, client_message_id } => {
                if is_blank(text.as_str()) || is_blank(client_message_id.as_str()) {
                    return Err("Queued text and client message ID are required".to_owned());
                }
                Ok(())
            },
            GoalsQueueCommand::Update { id, text } => {
                if is_blank(id.as_str()) || is_blank(text.as_str()) {
                    return Err("Queue ID and text are required".to_owned());
                }
                Ok(())
            },
            GoalsQueueCommand::Delete { id } => {
                if is_blank(id.as_str()) {
                    return Err("Queue ID must not be empty".to_owned());
                }
                Ok(())
            },
            GoalsQueueCommand::Start { id: Some(id) } => {
                if is_blank(id.as_str()) {
                    return Err("Queue ID must not be empty".to_owned());
                }
                Ok(())
            },
            GoalsQueueCommand::Reorder { ids } => {
                if !all_different(ids) || any_blank(ids) {
                    return Err("Queue order must contain unique nonempty IDs".to_owned());
                }
                Ok(())
            },
            _ => Ok(()),
        }
    }
}

/// A goal is refused exactly where its objective is named and is blank or too long, or its budget is named and
/// not positive. An edit that names neither may always be sent.
pub proof fn law_goals_are_refused_for_what_they_name(
    objective: Option<Seq<char>>,
    status: Option<GoalStatus>,
    token_budget: Option<i64>,
)
    ensures
        command_fault(CommandView::SetGoal { objective, status, token_budget }) is None <==> {
            &&& objective matches Some(s) ==> !blank(s) && s.len() <= 4000
            &&& token_budget matches Some(n) ==> n > 0
        },
{
}

/// Queued input is refused exactly where its text, or what names it, is blank.
pub proof fn law_input_needs_text_and_a_name(id: Seq<char>, text: Seq<char>)
    ensures
        command_fault(CommandView::Add { text, client_message_id: id }) is None <==> !blank(text) && !blank(id),
        command_fault(CommandView::Update { id, text }) is None <==> !blank(id) && !blank(text),
        command_fault(CommandView::Delete { id }) is None <==> !blank(id),
        command_fault(CommandView::Start { id: Some(id) }) is None <==> !blank(id),
        command_fault(CommandView::Start { id: None }) is None,
{
}

/// An order is refused exactly where an id stands in it twice or is blank.
pub proof fn law_orders_name_each_entry_once(ids: Seq<Seq<char>>)
    ensures
        command_fault(CommandView::Reorder { ids }) is None <==> (forall|i: int, j: int|
            0 <= i < j < ids.len() ==> #[trigger] ids[i] != #[trigger] ids[j]) && (forall|i: int|
            0 <= i < ids.len() ==> !blank(#[trigger] ids[i])),
{
    if forall|i: int, j: int| 0 <= i < j < ids.len() ==> #[trigger] ids[i] != #[trigger] ids[j] {
        assert forall|i: int, j: int| 0 <= i < ids.len() && 0 <= j < ids.len() && i != j implies ids[i] != ids[j] by {
            if i < j {
                assert(ids[i] != ids[j]);
            } else {
                assert(ids[j] != ids[i]);
            }
        }
    }
}

/// Reading, and clearing the goal, are never refused. Work can start from a goal, from added input and from a
/// start; from nothing else.
pub proof fn law_some_commands_start_work(command: CommandView)
    ensures
        command is Read || command is ClearGoal ==> command_fault(command) is None,
        launches_work(command) <==> match command {
            CommandView::SetGoal { .. } => true,
            CommandView::Add { .. } => true,
            CommandView::Start { .. } => true,
            CommandView::Read { .. } => false,
            CommandView::ClearGoal => false,
            CommandView::Update { .. } => false,
            CommandView::Delete { .. } => false,
            CommandView::Reorder { .. } => false,
        },
{
}

/// A refusal says what is wrong: the objective before the budget, and an entry's own parts.
pub proof fn law_refusals_say_what_is_wrong(
    objective: Option<Seq<char>>,
    status: Option<GoalStatus>,
    token_budget: Option<i64>,
    id: Seq<char>,
    text: Seq<char>,
    ids: Seq<Seq<char>>,
)
    ensures
        (objective matches Some(s) && (blank(s) || s.len() > 4000)) ==> (command_fault(
            CommandView::SetGoal { objective, status, token_budget },
        ) matches Some(why) && "Goal objective"@.is_prefix_of(why)),
        !(objective matches Some(s) && (blank(s) || s.len() > 4000)) ==> (command_fault(
            CommandView::SetGoal { objective, status, token_budget },
        ) matches Some(why) ==> "Token budget"@.is_prefix_of(why)),
        command_fault(CommandView::Add { text, client_message_id: id }) matches Some(why) ==> "Queued text"@.is_prefix_of(why),
        command_fault(CommandView::Update { id, text }) matches Some(why) ==> "Queue ID and text"@.is_prefix_of(why),
        command_fault(CommandView::Delete { id }) matches Some(why) ==> "Queue ID must"@.is_prefix_of(why),
        command_fault(CommandView::Start { id: Some(id) }) matches Some(why) ==> "Queue ID must"@.is_prefix_of(why),
        command_fault(CommandView::Reorder { ids }) matches Some(why) ==> "Queue order"@.is_prefix_of(why),
{
    reveal_strlit("Goal objective");
    reveal_strlit("Goal objective must contain 1–4000 characters");
    assert("Goal objective must contain 1–4000 characters"@.subrange(0, 14) =~= "Goal objective"@);
    reveal_strlit("Token budget");
    reveal_strlit("Token budget must be positive");
    assert("Token budget must be positive"@.subrange(0, 12) =~= "Token budget"@);
    reveal_strlit("Queued text");
    reveal_strlit("Queued text and client message ID are required");
    assert("Queued text and client message ID are required"@.subrange(0, 11) =~= "Queued text"@);
    reveal_strlit("Queue ID and text");
    reveal_strlit("Queue ID and text are required");
    assert("Queue ID and text are required"@.subrange(0, 17) =~= "Queue ID and text"@);
    reveal_strlit("Queue ID must");
    reveal_strlit("Queue ID must not be empty");
    assert("Queue ID must not be empty"@.subrange(0, 13) =~= "Queue ID must"@);
    reveal_strlit("Queue order");
    reveal_strlit("Queue order must contain unique nonempty IDs");
    assert("Queue order must contain unique nonempty IDs"@.subrange(0, 11) =~= "Queue order"@);
}

/// A thread begins with no goal, nothing queued and nothing further to read.
pub proof fn law_threads_begin_empty()
    ensures
        empty_snapshot().goal is None,
        empty_snapshot().queue.len() == 0,
        empty_snapshot().next_cursor is None,
{
}

} // verus!
