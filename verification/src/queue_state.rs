//! Goal and queue state owned by a scripted thread, and the effect of each command on it.

use vstd::prelude::*;
use crate::clock::unix_seconds;
use crate::error::{HarnessError, HarnessErrorView};
use crate::goals_queue::{
    command_fault, queue_view, texts, CommandView, Goal, GoalStatus, GoalView, GoalsQueueCommand,
    GoalsQueueSnapshot, QueuedInput, QueuedInputView, SnapshotView,
};
use crate::json::opt_text;
use crate::text::same;

verus! {

/// Where the first entry with this id stands; the queue's length where there is none.
pub open spec fn place_of(queue: Seq<QueuedInputView>, id: Seq<char>) -> int
    decreases queue.len(),
{
    if queue.len() == 0 || queue[0].id == id {
        0
    } else {
        1 + place_of(queue.drop_first(), id)
    }
}

/// Some entry has this id.
pub open spec fn queued(queue: Seq<QueuedInputView>, id: Seq<char>) -> bool {
    exists|i: int| 0 <= i < queue.len() && (#[trigger] queue[i]).id == id
}

/// Some entry came from the client message with this id.
pub open spec fn message_queued(queue: Seq<QueuedInputView>, client_message_id: Seq<char>) -> bool {
    exists|i: int| 0 <= i < queue.len() && (#[trigger] queue[i]).client_message_id == client_message_id
}

/// The goal after a change. A new objective, or any objective given to a completed goal, starts the
/// accounting afresh; status and budget change only where the command names them.
pub open spec fn goal_after(
    goal: Option<GoalView>,
    objective: Option<Seq<char>>,
    status: Option<GoalStatus>,
    token_budget: Option<i64>,
    now: i64,
) -> Option<GoalView> {
    match (goal, objective) {
        (None, None) => None,
        (None, Some(objective)) => Some(
            GoalView {
                objective,
                status: if status is Some { status->0 } else { GoalStatus::Active },
                token_budget,
                tokens_used: 0,
                time_used_seconds: 0,
                created_at: now,
                updated_at: now,
            },
        ),
        (Some(goal), _) => {
            let afresh = objective is Some && (objective->0 != goal.objective || goal.status
                == GoalStatus::Complete);
            Some(
                GoalView {
                    objective: if objective is Some { objective->0 } else { goal.objective },
                    status: if status is Some { status->0 } else { goal.status },
                    token_budget: if token_budget is Some { token_budget } else { goal.token_budget },
                    tokens_used: if afresh { 0 } else { goal.tokens_used },
                    time_used_seconds: if afresh { 0 } else { goal.time_used_seconds },
                    created_at: if afresh { now } else { goal.created_at },
                    updated_at: now,
                },
            )
        },
    }
}

/// What a command leads to: the state after it and the text it starts, or the refusal. `now` is the
/// time of the command and `fresh_id` the id that a newly queued entry gets.
pub open spec fn after(
    state: SnapshotView,
    command: CommandView,
    now: i64,
    fresh_id: Seq<char>,
) -> Result<(SnapshotView, Option<Seq<char>>), HarnessErrorView> {
    let refuse = |m: Seq<char>| Err::<(SnapshotView, Option<Seq<char>>), _>(HarnessErrorView::Protocol(m));
    let gone = refuse("Queued input no longer exists"@);
    if command_fault(command) is Some {
        refuse(command_fault(command)->0)
    } else {
        match command {
            CommandView::Read { cursor } => if cursor is Some {
                refuse("Unknown queue cursor"@)
            } else {
                Ok((state, None))
            },
            CommandView::SetGoal { objective, status, token_budget } => match goal_after(
                state.goal,
                objective,
                status,
                token_budget,
                now,
            ) {
                Some(goal) => Ok((SnapshotView { goal: Some(goal), ..state }, None)),
                None => refuse("A new goal needs an objective"@),
            },
            CommandView::ClearGoal => Ok((SnapshotView { goal: None, ..state }, None)),
            CommandView::Add { text, client_message_id } => if message_queued(
                state.queue,
                client_message_id,
            ) {
                refuse("Client message ID already queued"@)
            } else {
                let entry = QueuedInputView { id: fresh_id, client_message_id, text, has_other_input: false };
                Ok((SnapshotView { queue: state.queue.push(entry), ..state }, None))
            },
            CommandView::Update { id, text } => {
                let place = place_of(state.queue, id);
                if place < state.queue.len() {
                    let entry = QueuedInputView { text, ..state.queue[place] };
                    Ok((SnapshotView { queue: state.queue.update(place, entry), ..state }, None))
                } else {
                    gone
                }
            },
            CommandView::Delete { id } => {
                let place = place_of(state.queue, id);
                if place < state.queue.len() {
                    Ok((SnapshotView { queue: state.queue.remove(place), ..state }, None))
                } else {
                    gone
                }
            },
            CommandView::Reorder { ids } => if ids.len() != state.queue.len() || exists|i: int|
                0 <= i < ids.len() && !queued(state.queue, #[trigger] ids[i]) {
                refuse("Order must include every queued input exactly once"@)
            } else {
                Ok((SnapshotView { queue: in_order(state.queue, ids), ..state }, None))
            },
            CommandView::Start { id } => {
                let place = if id is Some { place_of(state.queue, id->0) } else { 0 };
                if place < state.queue.len() {
                    Ok((SnapshotView { queue: state.queue.remove(place), ..state }, Some(state.queue[place].text)))
                } else {
                    gone
                }
            },
        }
    }
}

/// The entries named by `ids`, in that order.
pub open spec fn in_order(queue: Seq<QueuedInputView>, ids: Seq<Seq<char>>) -> Seq<QueuedInputView> {
    Seq::new(ids.len(), |i: int| queue[place_of(queue, ids[i])])
}

/// The first entry with an id is at its place; an id without an entry has none.
proof fn lemma_place(queue: Seq<QueuedInputView>, id: Seq<char>, at: int)
    requires
        0 <= at <= queue.len(),
        forall|k: int| 0 <= k < at ==> (#[trigger] queue[k]).id != id,
        at < queue.len() ==> queue[at].id == id,
    ensures
        place_of(queue, id) == at,
    decreases queue.len(),
{
    if at > 0 {
        assert(queue[0].id != id);
        assert forall|k: int| 0 <= k < at - 1 implies (#[trigger] queue.drop_first()[k]).id != id by {
            assert(queue.drop_first()[k] == queue[k + 1]);
        }
        lemma_place(queue.drop_first(), id, at - 1);
    }
}

/// A queued id has a place, and the entry there has it.
proof fn lemma_queued_place(queue: Seq<QueuedInputView>, id: Seq<char>)
    ensures
        0 <= place_of(queue, id) <= queue.len(),
        queued(queue, id) <==> place_of(queue, id) < queue.len(),
        queued(queue, id) ==> queue[place_of(queue, id)].id == id,
    decreases queue.len(),
{
    if queue.len() > 0 && queue[0].id != id {
        let rest = queue.drop_first();
        lemma_queued_place(rest, id);
        if queued(queue, id) {
            let i = choose|i: int| 0 <= i < queue.len() && (#[trigger] queue[i]).id == id;
            assert(rest[i - 1].id == id);
        }
        if queued(rest, id) {
            assert(queue[place_of(rest, id) + 1].id == id);
        }
    } else if queue.len() > 0 {
        assert(queue[0].id == id);
    }
}

/// The place of the first entry with this id, if any.
fn find(queue: &Vec<QueuedInput>, id: &str) -> (r: Option<usize>)
    ensures
        r matches Some(i) ==> i < queue@.len() && place_of(queue_view(queue@), id@) == i,
        r is None ==> place_of(queue_view(queue@), id@) == queue@.len(),
{
    let ghost view = queue_view(queue@);
    let mut i: usize = 0;
    while i < queue.len()
        invariant
            i <= queue@.len(),
            view == queue_view(queue@),
            forall|k: int| 0 <= k < i ==> (#[trigger] view[k]).id != id@,
        decreases queue@.len() - i,
    {
        if same(queue[i].id.as_str(), id) {
            proof {
                lemma_place(view, id@, i as int);
            }
            return Some(i);
        }
        i += 1;
    }
    proof {
        lemma_place(view, id@, view.len() as int);
    }
    None
}

/// Some entry came from this client message.
fn has_message(queue: &Vec<QueuedInput>, client_message_id: &str) -> (r: bool)
    ensures
        r == message_queued(queue_view(queue@), client_message_id@),
{
    let ghost view = queue_view(queue@);
    let mut i: usize = 0;
    while i < queue.len()
        invariant
            i <= queue@.len(),
            view == queue_view(queue@),
            forall|k: int| 0 <= k < i ==> (#[trigger] view[k]).client_message_id != client_message_id@,
        decreases queue@.len() - i,
    {
        if same(queue[i].client_message_id.as_str(), client_message_id) {
            assert(view[i as int].client_message_id == client_message_id@);
            return true;
        }
        i += 1;
    }
    false
}

/// The queue in the order of `ids`; nothing where an id is not queued.
fn reordered(queue: &Vec<QueuedInput>, ids: &Vec<String>) -> (r: Option<Vec<QueuedInput>>)
    ensures
        r is None <==> exists|i: int| 0 <= i < texts(ids@).len() && !queued(queue_view(queue@), #[trigger] texts(ids@)[i]),
        r matches Some(q) ==> queue_view(q@) == in_order(queue_view(queue@), texts(ids@)),
{
    let ghost view = queue_view(queue@);
    let mut out: Vec<QueuedInput> = Vec::new();
    let mut i: usize = 0;
    while i < ids.len()
        invariant
            i <= ids@.len(),
            view == queue_view(queue@),
            forall|k: int| 0 <= k < i ==> queued(view, #[trigger] texts(ids@)[k]),
            out@.len() == i,
            forall|k: int| 0 <= k < i ==> #[trigger] queue_view(out@)[k] == view[place_of(view, texts(ids@)[k])],
        decreases ids@.len() - i,
    {
        proof {
            lemma_queued_place(view, ids@[i as int]@);
            assert(texts(ids@)[i as int] == ids@[i as int]@);
        }
        match find(queue, ids[i].as_str()) {
            Some(place) => {
                let entry = &queue[place];
                let ghost before = out@;
                out.push(QueuedInput {
                    id: entry.id.clone(),
                    client_message_id: entry.client_message_id.clone(),
                    text: entry.text.clone(),
                    has_other_input: entry.has_other_input,
                });
                assert(forall|k: int| 0 <= k < i ==> #[trigger] queue_view(out@)[k] == queue_view(before)[k]);
                assert(queue_view(out@)[i as int] == view[place as int]);
            },
            None => {
                return None;
            },
        }
        i += 1;
    }
    assert(queue_view(out@) =~= in_order(view, texts(ids@)));
    Some(out)
}

/// Carries out a command at the time `now`. A refused command leaves the state as it was; text comes
/// back only where `Start` consumes an entry.
pub fn apply_at(
    state: &mut GoalsQueueSnapshot,
    command: GoalsQueueCommand,
    now: i64,
    fresh_id: String,
) -> (r: Result<Option<String>, HarnessError>)
    ensures
        r matches Ok(text) ==> after(old(state)@, command@, now, fresh_id@) == Ok::<_, HarnessErrorView>(
            (final(state)@, opt_text(text)),
        ),
        r matches Err(e) ==> {
            &&& after(old(state)@, command@, now, fresh_id@) == Err::<(SnapshotView, Option<Seq<char>>), _>(e@)
            &&& *final(state) == *old(state)
        },
{
    if let Err(message) = command.validate() {
        return Err(HarnessError::Protocol(message));
    }
    let ghost before = state@;
    match command {
        GoalsQueueCommand::Read { cursor } => {
            if cursor.is_some() {
                return Err(HarnessError::protocol("Unknown queue cursor"));
            }
            Ok(None)
        },
        GoalsQueueCommand::SetGoal { objective, status, token_budget } => {
            let current = state.goal.take();
            let next = match current {
                Some(goal) => {
                    let mut goal = goal;
                    if let Some(objective) = objective {
                        if !same(objective.as_str(), goal.objective.as_str()) || goal.status == GoalStatus::Complete {
                            goal.tokens_used = 0;
                            goal.time_used_seconds = 0;
                            goal.created_at = now;
                        }
                        goal.objective = objective;
                    }
                    if let Some(status) = status {
                        goal.status = status;
                    }
                    if token_budget.is_some() {
                        goal.token_budget = token_budget;
                    }
                    goal.updated_at = now;
                    goal
                },
                None => match objective {
                    Some(objective) => Goal {
                        objective,
                        status: match status {
                            Some(status) => status,
                            None => GoalStatus::Active,
                        },
                        token_budget,
                        tokens_used: 0,
                        time_used_seconds: 0,
                        created_at: now,
                        updated_at: now,
                    },
                    None => {
                        return Err(HarnessError::protocol("A new goal needs an objective"));
                    },
                },
            };
            state.goal = Some(next);
            Ok(None)
        },
        GoalsQueueCommand::ClearGoal => {
            state.goal = None;
            Ok(None)
        },
        GoalsQueueCommand::Add { text, client_message_id } => {
            if has_message(&state.queue, client_message_id.as_str()) {
                return Err(HarnessError::protocol("Client message ID already queued"));
            }
            let entry = QueuedInput { id: fresh_id, client_message_id, text, has_other_input: false };
            let ghost entry_view = entry@;
            state.queue.push(entry);
            assert(queue_view(state.queue@) =~= before.queue.push(entry_view));
            Ok(None)
        },
        GoalsQueueCommand::Update { id, text } => {
            match find(&state.queue, id.as_str()) {
                Some(place) => {
                    let ghost text_view = text@;
                    state.queue[place].text = text;
                    assert(queue_view(state.queue@) =~= before.queue.update(
                        place as int,
                        QueuedInputView { text: text_view, ..before.queue[place as int] },
                    ));
                    Ok(None)
                },
                None => Err(HarnessError::protocol("Queued input no longer exists")),
            }
        },
        GoalsQueueCommand::Delete { id } => {
            match find(&state.queue, id.as_str()) {
                Some(place) => {
                    state.queue.remove(place);
                    assert(queue_view(state.queue@) =~= before.queue.remove(place as int));
                    Ok(None)
                },
                None => Err(HarnessError::protocol("Queued input no longer exists")),
            }
        },
        GoalsQueueCommand::Reorder { ids } => {
            if ids.len() != state.queue.len() {
                return Err(HarnessError::protocol("Order must include every queued input exactly once"));
            }
            match reordered(&state.queue, &ids) {
                Some(queue) => {
                    state.queue = queue;
                    Ok(None)
                },
                None => Err(HarnessError::protocol("Order must include every queued input exactly once")),
            }
        },
        GoalsQueueCommand::Start { id } => {
            let place = match id {
                Some(id) => find(&state.queue, id.as_str()),
                None => if state.queue.len() > 0 {
                    Some(0)
                } else {
                    None
                },
            };
            match place {
                Some(place) => {
                    let entry = state.queue.remove(place);
                    assert(queue_view(state.queue@) =~= before.queue.remove(place as int));
                    Ok(Some(entry.text))
                },
                None => Err(HarnessError::protocol("Queued input no longer exists")),
            }
        },
    }
}

/// Carries out a command now. Whatever the clock says, the outcome is that of `apply_at` at some time.
pub fn apply(state: &mut GoalsQueueSnapshot, command: GoalsQueueCommand, fresh_id: String) -> (r: Result<
    Option<String>,
    HarnessError,
>)
    ensures
        r matches Ok(text) ==> exists|now: i64| #[trigger]
            after(old(state)@, command@, now, fresh_id@) == Ok::<_, HarnessErrorView>((final(state)@, opt_text(text))),
        r matches Err(e) ==> {
            &&& forall|now: i64| #[trigger]
                after(old(state)@, command@, now, fresh_id@) == Err::<(SnapshotView, Option<Seq<char>>), _>(e@)
            &&& *final(state) == *old(state)
        },
{
    let now: i64 = unix_seconds();
    apply_at(state, command, now, fresh_id)
}

/// No two entries share an id, and no two came from one client message.
pub open spec fn identities_distinct(queue: Seq<QueuedInputView>) -> bool {
    forall|i: int, j: int| 0 <= i < j < queue.len() ==> {
        &&& (#[trigger] queue[i]).id != (#[trigger] queue[j]).id
        &&& queue[i].client_message_id != queue[j].client_message_id
    }
}

/// An accepted order gives back every entry exactly once, with the ids as ordered.
pub proof fn law_reorder_loses_nothing(state: SnapshotView, ids: Seq<Seq<char>>, now: i64, fresh_id: Seq<char>)
    ensures
        after(state, CommandView::Reorder { ids }, now, fresh_id) matches Ok((next, _)) ==> {
            &&& next.queue.to_multiset() == state.queue.to_multiset()
            &&& next.queue.len() == ids.len()
            &&& forall|i: int| 0 <= i < ids.len() ==> (#[trigger] next.queue[i]).id == ids[i]
            &&& next.goal == state.goal
        },
{
    if let Ok((next, _)) = after(state, CommandView::Reorder { ids }, now, fresh_id) {
        let queue = state.queue;
        let ordered = in_order(queue, ids);
        assert forall|i: int| 0 <= i < ids.len() implies (#[trigger] ordered[i]).id == ids[i] && queue.contains(ordered[i]) by {
            assert(queued(queue, ids[i]));
            lemma_queued_place(queue, ids[i]);
        }
        assert(ordered.no_duplicates()) by {
            assert forall|i: int, j: int| 0 <= i < ordered.len() && 0 <= j < ordered.len() && i != j implies ordered[i] != ordered[j] by {
                assert(ids[i] != ids[j]);
            }
        }
        lemma_same_entries(ordered, queue);
    }
}

/// As many different entries as there are in all, each among them, are all of them.
proof fn lemma_same_entries(part: Seq<QueuedInputView>, whole: Seq<QueuedInputView>)
    requires
        part.no_duplicates(),
        part.len() == whole.len(),
        forall|i: int| 0 <= i < part.len() ==> whole.contains(#[trigger] part[i]),
    ensures
        part.to_multiset() == whole.to_multiset(),
{
    broadcast use vstd::seq_lib::seq_to_set_is_finite;
    broadcast use vstd::seq_lib::group_to_multiset_ensures;

    part.unique_seq_to_set();
    whole.lemma_cardinality_of_set();
    assert(part.to_set().subset_of(whole.to_set())) by {
        assert forall|x: QueuedInputView| part.to_set().contains(x) implies whole.to_set().contains(x) by {
            let i = choose|i: int| 0 <= i < part.len() && part[i] == x;
            assert(whole.contains(part[i]));
        }
    }
    vstd::set_lib::lemma_len_subset(part.to_set(), whole.to_set());
    vstd::set_lib::lemma_subset_equality(part.to_set(), whole.to_set());
    whole.lemma_no_dup_set_cardinality();
    part.lemma_multiset_has_no_duplicates();
    whole.lemma_multiset_has_no_duplicates();
    assert forall|x: QueuedInputView| part.to_multiset().count(x) == whole.to_multiset().count(x) by {
        assert(part.to_set().contains(x) == whole.to_set().contains(x));
        assert(part.contains(x) == part.to_set().contains(x));
        assert(whole.contains(x) == whole.to_set().contains(x));
    }
    assert(part.to_multiset() =~= whole.to_multiset());
}

/// Whatever the command, entries that could be told apart can still be told apart after it.
pub proof fn law_identities_stay_distinct(state: SnapshotView, command: CommandView, now: i64, fresh_id: Seq<char>)
    requires
        identities_distinct(state.queue),
        !queued(state.queue, fresh_id),
    ensures
        after(state, command, now, fresh_id) matches Ok((next, _)) ==> identities_distinct(next.queue),
{
    if let Ok((next, _)) = after(state, command, now, fresh_id) {
        let queue = state.queue;
        if let CommandView::Reorder { ids } = command {
            assert forall|i: int, j: int| 0 <= i < j < next.queue.len() implies {
                &&& (#[trigger] next.queue[i]).id != (#[trigger] next.queue[j]).id
                &&& next.queue[i].client_message_id != next.queue[j].client_message_id
            } by {
                assert(queued(queue, ids[i]) && queued(queue, ids[j]));
                lemma_queued_place(queue, ids[i]);
                lemma_queued_place(queue, ids[j]);
                assert(ids[i] != ids[j]);
            }
        } else if let CommandView::Add { text, client_message_id } = command {
            assert forall|i: int, j: int| 0 <= i < j < next.queue.len() implies {
                &&& (#[trigger] next.queue[i]).id != (#[trigger] next.queue[j]).id
                &&& next.queue[i].client_message_id != next.queue[j].client_message_id
            } by {
                assert(next.queue[i] == queue[i]);
            }
        } else if let CommandView::Delete { id } = command {
            lemma_queued_place(queue, id);
        } else if let CommandView::Update { id, text } = command {
            lemma_queued_place(queue, id);
        } else if let CommandView::Start { id: Some(id) } = command {
            lemma_queued_place(queue, id);
        }
    }
}

/// A change that names no objective keeps the objective and all accounting of a goal.
pub proof fn law_status_edit_keeps_accounting(
    state: SnapshotView,
    status: Option<GoalStatus>,
    token_budget: Option<i64>,
    now: i64,
    fresh_id: Seq<char>,
)
    requires
        state.goal is Some,
    ensures
        after(state, CommandView::SetGoal { objective: None, status, token_budget }, now, fresh_id) matches Ok((next, _)) ==> {
            &&& next.goal is Some
            &&& next.goal->0.objective == state.goal->0.objective
            &&& next.goal->0.tokens_used == state.goal->0.tokens_used
            &&& next.goal->0.time_used_seconds == state.goal->0.time_used_seconds
            &&& next.goal->0.created_at == state.goal->0.created_at
        },
{
}

/// Input queued first is started first: what is added to a queue starts only after all that stood in it.
pub proof fn law_queue_is_first_in_first_out(
    state: SnapshotView,
    text: Seq<char>,
    client_message_id: Seq<char>,
    now: i64,
    fresh_id: Seq<char>,
)
    requires
        state.queue.len() > 0,
    ensures
        after(state, CommandView::Add { text, client_message_id }, now, fresh_id) matches Ok((added, _)) ==> {
            &&& after(added, CommandView::Start { id: None }, now, fresh_id) matches Ok((started, Some(first)))
            &&& first == state.queue[0].text
            &&& started.queue == state.queue.drop_first().push(added.queue.last())
        },
{
    if let Ok((added, _)) = after(state, CommandView::Add { text, client_message_id }, now, fresh_id) {
        assert(added.queue.remove(0) =~= state.queue.drop_first().push(added.queue.last()));
    }
}

/// A goal is begun with what the command names, active unless it says otherwise, with nothing spent and both
/// times now.
pub proof fn law_goals_begin_afresh(
    state: SnapshotView,
    objective: Seq<char>,
    status: Option<GoalStatus>,
    token_budget: Option<i64>,
    now: i64,
    fresh_id: Seq<char>,
)
    requires
        state.goal is None,
        command_fault(CommandView::SetGoal { objective: Some(objective), status, token_budget }) is None,
    ensures
        after(state, CommandView::SetGoal { objective: Some(objective), status, token_budget }, now, fresh_id) matches Ok((then, None))
            && {
            &&& then.queue == state.queue && then.next_cursor == state.next_cursor
            &&& then.goal matches Some(goal) && {
                &&& goal.objective == objective
                &&& status matches Some(s) ==> goal.status == s
                &&& status is None ==> goal.status is Active
                &&& goal.token_budget == token_budget
                &&& goal.tokens_used == 0 && goal.time_used_seconds == 0
                &&& goal.created_at == now && goal.updated_at == now
            }
        },
        after(state, CommandView::SetGoal { objective: None, status, token_budget }, now, fresh_id) is Err,
{
}

/// A goal that is there changes in what the command names and keeps the rest. Its accounting starts over exactly
/// where another objective is named, or any is named for a goal that was complete.
pub proof fn law_goals_change_in_what_is_named(
    state: SnapshotView,
    goal: GoalView,
    objective: Option<Seq<char>>,
    status: Option<GoalStatus>,
    token_budget: Option<i64>,
    now: i64,
    fresh_id: Seq<char>,
)
    requires
        state.goal == Some(goal),
        command_fault(CommandView::SetGoal { objective, status, token_budget }) is None,
    ensures
        after(state, CommandView::SetGoal { objective, status, token_budget }, now, fresh_id) matches Ok((then, None)) && {
            &&& then.queue == state.queue && then.next_cursor == state.next_cursor
            &&& then.goal matches Some(changed) && {
                &&& objective matches Some(o) ==> changed.objective == o
                &&& objective is None ==> changed.objective == goal.objective
                &&& status matches Some(s) ==> changed.status == s
                &&& status is None ==> changed.status == goal.status
                &&& token_budget is Some ==> changed.token_budget == token_budget
                &&& token_budget is None ==> changed.token_budget == goal.token_budget
                &&& changed.updated_at == now
                &&& (objective matches Some(o) && (o != goal.objective || goal.status is Complete)) ==> changed.tokens_used == 0
                    && changed.time_used_seconds == 0 && changed.created_at == now
                &&& !(objective matches Some(o) && (o != goal.objective || goal.status is Complete)) ==> changed.tokens_used
                    == goal.tokens_used && changed.time_used_seconds == goal.time_used_seconds && changed.created_at
                    == goal.created_at
            }
        },
{
}

/// Clearing leaves no goal, and reading leaves everything; neither touches the queue or starts anything. There are
/// no further pages to read.
pub proof fn law_clearing_and_reading_leave_the_queue(state: SnapshotView, cursor: Seq<char>, now: i64, fresh_id: Seq<char>)
    ensures
        after(state, CommandView::ClearGoal, now, fresh_id) matches Ok((then, None)) && then.goal is None && then.queue
            == state.queue && then.next_cursor == state.next_cursor,
        after(state, CommandView::Read { cursor: None }, now, fresh_id) == Ok::<(SnapshotView, Option<Seq<char>>), HarnessErrorView>(
            (state, None),
        ),
        after(state, CommandView::Read { cursor: Some(cursor) }, now, fresh_id) is Err,
{
}

/// Input joins the end of the queue under the new id, with its own text and message id, unless its message is
/// queued already.
pub proof fn law_added_input_comes_last(
    state: SnapshotView,
    text: Seq<char>,
    client_message_id: Seq<char>,
    now: i64,
    fresh_id: Seq<char>,
)
    requires
        command_fault(CommandView::Add { text, client_message_id }) is None,
    ensures
        after(state, CommandView::Add { text, client_message_id }, now, fresh_id) is Err <==> exists|i: int|
            0 <= i < state.queue.len() && (#[trigger] state.queue[i]).client_message_id == client_message_id,
        after(state, CommandView::Add { text, client_message_id }, now, fresh_id) matches Ok((then, started)) ==> {
            &&& started is None
            &&& then.goal == state.goal && then.next_cursor == state.next_cursor
            &&& then.queue.drop_last() == state.queue
            &&& then.queue.len() == state.queue.len() + 1
            &&& then.queue.last().id == fresh_id
            &&& then.queue.last().client_message_id == client_message_id
            &&& then.queue.last().text == text
            &&& !then.queue.last().has_other_input
        },
{
    assert(forall|entry: QueuedInputView| state.queue.push(entry).drop_last() =~= state.queue);
}

/// An entry is edited, taken out or started exactly where one has the id. Then the first that has it is the one:
/// editing changes its text and nothing else, taking out leaves the others in their order, and starting also
/// gives its text.
pub proof fn law_entries_are_found_by_their_id(
    state: SnapshotView,
    id: Seq<char>,
    text: Seq<char>,
    k: int,
    now: i64,
    fresh_id: Seq<char>,
)
    requires
        command_fault(CommandView::Update { id, text }) is None,
        0 <= k <= state.queue.len(),
        forall|i: int| 0 <= i < k ==> (#[trigger] state.queue[i]).id != id,
        k < state.queue.len() ==> state.queue[k].id == id,
    ensures
        ({
            let edited = after(state, CommandView::Update { id, text }, now, fresh_id);
            let taken = after(state, CommandView::Delete { id }, now, fresh_id);
            let started = after(state, CommandView::Start { id: Some(id) }, now, fresh_id);
            &&& k == state.queue.len() ==> edited is Err && taken is Err && started is Err
            &&& k < state.queue.len() ==> {
                &&& edited matches Ok((then, None)) && {
                    &&& then.goal == state.goal && then.next_cursor == state.next_cursor
                    &&& then.queue.len() == state.queue.len()
                    &&& forall|i: int| 0 <= i < state.queue.len() && i != k ==> #[trigger] then.queue[i] == state.queue[i]
                    &&& then.queue[k].text == text
                    &&& then.queue[k].id == id
                    &&& then.queue[k].client_message_id == state.queue[k].client_message_id
                    &&& then.queue[k].has_other_input == state.queue[k].has_other_input
                }
                &&& taken matches Ok((then, None)) && then.goal == state.goal && then.next_cursor == state.next_cursor
                    && then.queue == state.queue.take(k) + state.queue.skip(k + 1)
                &&& started matches Ok((then, Some(first))) && then.goal == state.goal && then.next_cursor == state.next_cursor
                    && then.queue == state.queue.take(k) + state.queue.skip(k + 1) && first == state.queue[k].text
            }
        }),
{
    lemma_place(state.queue, id, k);
    if k < state.queue.len() {
        assert(state.queue.remove(k) =~= state.queue.take(k) + state.queue.skip(k + 1));
    }
}

/// Without an id the first entry is started, and with an empty queue nothing is.
pub proof fn law_the_first_entry_starts(state: SnapshotView, now: i64, fresh_id: Seq<char>)
    ensures
        state.queue.len() == 0 <==> after(state, CommandView::Start { id: None }, now, fresh_id) is Err,
        after(state, CommandView::Start { id: None }, now, fresh_id) matches Ok((then, started)) ==> started == Some(
            state.queue[0].text,
        ) && then.queue == state.queue.drop_first() && then.goal == state.goal,
{
    if state.queue.len() > 0 {
        assert(state.queue.remove(0) =~= state.queue.drop_first());
    }
}

/// An order is taken exactly where it names as many entries as there are, every one of them queued.
pub proof fn law_orders_name_the_whole_queue(state: SnapshotView, ids: Seq<Seq<char>>, now: i64, fresh_id: Seq<char>)
    requires
        command_fault(CommandView::Reorder { ids }) is None,
    ensures
        after(state, CommandView::Reorder { ids }, now, fresh_id) is Ok <==> ids.len() == state.queue.len() && forall|i: int|
            0 <= i < ids.len() ==> exists|j: int| 0 <= j < state.queue.len() && (#[trigger] state.queue[j]).id == #[trigger] ids[i],
        after(state, CommandView::Reorder { ids }, now, fresh_id) matches Ok((_, started)) ==> started is None,
{
    if forall|i: int|
        0 <= i < ids.len() ==> exists|j: int| 0 <= j < state.queue.len() && (#[trigger] state.queue[j]).id == #[trigger] ids[i] {
        assert forall|i: int| 0 <= i < ids.len() implies queued(state.queue, #[trigger] ids[i]) by {}
    }
    if ids.len() == state.queue.len() && !(exists|i: int| 0 <= i < ids.len() && !queued(state.queue, #[trigger] ids[i])) {
        assert forall|i: int| 0 <= i < ids.len() implies exists|j: int|
            0 <= j < state.queue.len() && (#[trigger] state.queue[j]).id == #[trigger] ids[i] by {
            assert(queued(state.queue, ids[i]));
        }
    }
}

/// A command that could never be carried out is refused for what is wrong with it, whatever the state.
pub proof fn law_faulty_commands_are_refused(state: SnapshotView, command: CommandView, now: i64, fresh_id: Seq<char>)
    ensures
        command_fault(command) matches Some(fault) ==> after(state, command, now, fresh_id) == Err::<
            (SnapshotView, Option<Seq<char>>),
            HarnessErrorView,
        >(HarnessErrorView::Protocol(fault)),
        after(state, command, now, fresh_id) matches Ok((then, started)) ==> (started is Some ==> command is Start),
{
}

} // verus!
