//! Goals and queued input as the app-server keeps them: what is asked of it, and how its answers are
//! read. The app-server stays the authority.

use vstd::prelude::*;
use vstd::string::*;
use crate::error::{HarnessError, HarnessErrorView};
use crate::goals_queue::{goal_view, queue_view, Goal, GoalStatus, GoalView, QueuedInput, QueuedInputView};
use crate::json::{array_view, at, json_view, lemma_array_view, opt_text, text_at, text_of, Json, JsonView};
use crate::text::same;

verus! {

/// How the app-server writes a status.
pub open spec fn status_word(status: GoalStatus) -> Seq<char> {
    match status {
        GoalStatus::Active => "active"@,
        GoalStatus::Paused => "paused"@,
        GoalStatus::Blocked => "blocked"@,
        GoalStatus::UsageLimited => "usageLimited"@,
        GoalStatus::BudgetLimited => "budgetLimited"@,
        GoalStatus::Complete => "complete"@,
    }
}

/// The status a word stands for.
pub open spec fn word_status(word: Seq<char>) -> Option<GoalStatus> {
    if word == "active"@ {
        Some(GoalStatus::Active)
    } else if word == "paused"@ {
        Some(GoalStatus::Paused)
    } else if word == "blocked"@ {
        Some(GoalStatus::Blocked)
    } else if word == "usageLimited"@ {
        Some(GoalStatus::UsageLimited)
    } else if word == "budgetLimited"@ {
        Some(GoalStatus::BudgetLimited)
    } else if word == "complete"@ {
        Some(GoalStatus::Complete)
    } else {
        None
    }
}

pub fn native_status(status: GoalStatus) -> (r: &'static str)
    ensures
        r@ == status_word(status),
{
    match status {
        GoalStatus::Active => "active",
        GoalStatus::Paused => "paused",
        GoalStatus::Blocked => "blocked",
        GoalStatus::UsageLimited => "usageLimited",
        GoalStatus::BudgetLimited => "budgetLimited",
        GoalStatus::Complete => "complete",
    }
}

pub fn read_status(word: &str) -> (r: Option<GoalStatus>)
    ensures
        r == word_status(word@),
{
    if same(word, "active") {
        Some(GoalStatus::Active)
    } else if same(word, "paused") {
        Some(GoalStatus::Paused)
    } else if same(word, "blocked") {
        Some(GoalStatus::Blocked)
    } else if same(word, "usageLimited") {
        Some(GoalStatus::UsageLimited)
    } else if same(word, "budgetLimited") {
        Some(GoalStatus::BudgetLimited)
    } else if same(word, "complete") {
        Some(GoalStatus::Complete)
    } else {
        None
    }
}

/// A status that is written reads back as itself, and only words that are written are read.
pub proof fn law_status_reads_back(status: GoalStatus, word: Seq<char>)
    ensures
        word_status(status_word(status)) == Some(status),
        word_status(word) == Some(status) ==> word == status_word(status),
{
    reveal_strlit("active");
    reveal_strlit("paused");
    reveal_strlit("blocked");
    reveal_strlit("usageLimited");
    reveal_strlit("budgetLimited");
    reveal_strlit("complete");
    assert("active"@[0] == 'a' && "paused"@[0] == 'p' && "blocked"@[0] == 'b' && "usageLimited"@[0] == 'u'
        && "budgetLimited"@[0] == 'b' && "complete"@[0] == 'c');
    assert("blocked"@[1] == 'l' && "budgetLimited"@[1] == 'u');
}

/// The fields of a record: an object's members under `keys`, or an array of just these fields.
pub open spec fn fields_of(value: JsonView, keys: Seq<Seq<char>>) -> Option<Seq<JsonView>> {
    match value {
        JsonView::Object(_) => Some(Seq::new(keys.len(), |i: int| at(value, keys[i]))),
        JsonView::Array(items) if items.len() == keys.len() => Some(items),
        _ => None,
    }
}

/// The number a document holds, where it is an integer of 64 bits with sign.
pub open spec fn number_of(value: JsonView) -> Option<i64> {
    match value {
        JsonView::Integer(n) if i64::MIN <= n <= i64::MAX => Some(n as i64),
        _ => None,
    }
}

/// A field of its own type, or `null` for none.
pub open spec fn optional_number(value: JsonView) -> Option<Option<i64>> {
    match value {
        JsonView::Null => Some(None),
        _ => match number_of(value) {
            Some(n) => Some(Some(n)),
            None => None,
        },
    }
}

pub open spec fn optional_text(value: JsonView) -> Option<Option<Seq<char>>> {
    match value {
        JsonView::Null => Some(None),
        JsonView::Text(t) => Some(Some(t)),
        _ => None,
    }
}

/// A goal as the app-server tells it.
pub struct NativeGoalView {
    pub thread_id: Seq<char>,
    pub objective: Seq<char>,
    pub status: Seq<char>,
    pub token_budget: Option<i64>,
    pub tokens_used: i64,
    pub time_used_seconds: i64,
    pub created_at: i64,
    pub updated_at: i64,
}

pub open spec fn goal_keys() -> Seq<Seq<char>> {
    seq![
        "threadId"@,
        "objective"@,
        "status"@,
        "tokenBudget"@,
        "tokensUsed"@,
        "timeUsedSeconds"@,
        "createdAt"@,
        "updatedAt"@,
    ]
}

pub open spec fn native_goal(value: JsonView) -> Option<NativeGoalView> {
    match fields_of(value, goal_keys()) {
        None => None,
        Some(f) => match (
            text_of(f[0]),
            text_of(f[1]),
            text_of(f[2]),
            optional_number(f[3]),
            number_of(f[4]),
            number_of(f[5]),
            number_of(f[6]),
            number_of(f[7]),
        ) {
            (
                Some(thread_id),
                Some(objective),
                Some(status),
                Some(token_budget),
                Some(tokens_used),
                Some(time_used_seconds),
                Some(created_at),
                Some(updated_at),
            ) => Some(
                NativeGoalView {
                    thread_id,
                    objective,
                    status,
                    token_budget,
                    tokens_used,
                    time_used_seconds,
                    created_at,
                    updated_at,
                },
            ),
            _ => None,
        },
    }
}

/// The goal in an answer: none, one, or an answer of another shape.
pub open spec fn goal_answer(value: JsonView) -> Option<Option<NativeGoalView>> {
    match fields_of(value, seq!["goal"@]) {
        None => None,
        Some(f) => if f[0] is Null {
            Some(None)
        } else {
            match native_goal(f[0]) {
                Some(goal) => Some(Some(goal)),
                None => None,
            }
        },
    }
}

/// The goal of `thread` in an answer.
pub open spec fn decoded_goal(value: JsonView, thread: Seq<char>) -> Result<Option<GoalView>, HarnessErrorView> {
    match goal_answer(value) {
        None => Err(HarnessErrorView::Protocol("Invalid goal response: unexpected shape"@)),
        Some(None) => Ok(None),
        Some(Some(goal)) => if goal.thread_id != thread {
            Err(HarnessErrorView::Protocol("Goal response belongs to a different thread"@))
        } else {
            match word_status(goal.status) {
                None => Err(HarnessErrorView::Protocol("Unknown goal status: "@ + goal.status)),
                Some(status) => Ok(
                    Some(
                        GoalView {
                            objective: goal.objective,
                            status,
                            token_budget: goal.token_budget,
                            tokens_used: goal.tokens_used,
                            time_used_seconds: goal.time_used_seconds,
                            created_at: goal.created_at,
                            updated_at: goal.updated_at,
                        },
                    ),
                ),
            }
        },
    }
}

/// A record's field: the member of an object, or the place in an array that `fits`.
fn field<'a>(value: &'a Json, key: &str, place: usize, Ghost(keys): Ghost<Seq<Seq<char>>>) -> (r: &'a Json)
    requires
        fields_of(value@, keys) is Some,
        place < keys.len(),
        keys[place as int] == key@,
    ensures
        r@ == fields_of(value@, keys)->0[place as int],
{
    match value {
        Json::Array(items) => {
            proof {
                lemma_array_view(items@);
            }
            &items[place]
        },
        _ => value.at(key),
    }
}

fn is_record(value: &Json, places: usize, Ghost(keys): Ghost<Seq<Seq<char>>>) -> (r: bool)
    requires
        keys.len() == places,
    ensures
        r == (fields_of(value@, keys) is Some),
{
    match value {
        Json::Object(_) => true,
        Json::Array(items) => {
            proof {
                lemma_array_view(items@);
            }
            items.len() == places
        },
        _ => false,
    }
}

fn number(value: &Json) -> (r: Option<i64>)
    ensures
        r == number_of(value@),
{
    match value {
        Json::Unsigned(n) => if *n <= i64::MAX as u64 {
            Some(*n as i64)
        } else {
            None
        },
        Json::Signed(n) => Some(*n),
        _ => None,
    }
}

/// The goal of `thread` in an answer.
pub fn decode_goal(value: &Json, thread: &str) -> (r: Result<Option<Goal>, HarnessError>)
    ensures
        match r {
            Ok(goal) => decoded_goal(value@, thread@) == Ok::<Option<GoalView>, HarnessErrorView>(goal_view(goal)),
            Err(error) => decoded_goal(value@, thread@) == Err::<Option<GoalView>, HarnessErrorView>(error@),
        },
{
    let ghost outer = seq!["goal"@];
    if !is_record(value, 1, Ghost(outer)) {
        return Err(HarnessError::protocol("Invalid goal response: unexpected shape"));
    }
    let goal = field(value, "goal", 0, Ghost(outer));
    if goal.is_null() {
        return Ok(None);
    }
    let ghost keys = goal_keys();
    if !is_record(goal, 8, Ghost(keys)) {
        return Err(HarnessError::protocol("Invalid goal response: unexpected shape"));
    }
    let budget = field(goal, "tokenBudget", 3, Ghost(keys));
    let token_budget: Option<i64> = if budget.is_null() {
        None
    } else {
        match number(budget) {
            Some(n) => Some(n),
            None => {
                return Err(HarnessError::protocol("Invalid goal response: unexpected shape"));
            },
        }
    };
    match (
        field(goal, "threadId", 0, Ghost(keys)).as_str(),
        field(goal, "objective", 1, Ghost(keys)).as_str(),
        field(goal, "status", 2, Ghost(keys)).as_str(),
        number(field(goal, "tokensUsed", 4, Ghost(keys))),
        number(field(goal, "timeUsedSeconds", 5, Ghost(keys))),
        number(field(goal, "createdAt", 6, Ghost(keys))),
        number(field(goal, "updatedAt", 7, Ghost(keys))),
    ) {
        (
            Some(thread_id),
            Some(objective),
            Some(word),
            Some(tokens_used),
            Some(time_used_seconds),
            Some(created_at),
            Some(updated_at),
        ) => {
            if !same(thread_id, thread) {
                return Err(HarnessError::protocol("Goal response belongs to a different thread"));
            }
            match read_status(word) {
                None => {
                    let mut message = "Unknown goal status: ".to_owned();
                    message.append(word);
                    Err(HarnessError::Protocol(message))
                },
                Some(status) => Ok(
                    Some(
                        Goal {
                            objective: objective.to_owned(),
                            status,
                            token_budget,
                            tokens_used,
                            time_used_seconds,
                            created_at,
                            updated_at,
                        },
                    ),
                ),
            }
        },
        _ => Err(HarnessError::protocol("Invalid goal response: unexpected shape")),
    }
}

/// The text of an input, where it is text.
pub open spec fn input_text(input: JsonView) -> Option<Seq<char>> {
    if text_at(input, "type"@) == Some("text"@) {
        text_at(input, "text"@)
    } else {
        None
    }
}

/// The texts among the inputs, one per line.
pub open spec fn joined_text(inputs: Seq<JsonView>) -> Option<Seq<char>>
    decreases inputs.len(),
{
    if inputs.len() == 0 {
        None
    } else {
        match (joined_text(inputs.drop_last()), input_text(inputs.last())) {
            (Some(text), Some(line)) => Some(text + "\n"@ + line),
            (None, Some(line)) => Some(line),
            (text, None) => text,
        }
    }
}

pub open spec fn holds_other_input(inputs: Seq<JsonView>) -> bool {
    exists|i: int| 0 <= i < inputs.len() && text_at(#[trigger] inputs[i], "type"@) != Some("text"@)
}

pub open spec fn entry_keys() -> Seq<Seq<char>> {
    seq!["id"@, "clientUserMessageId"@, "input"@]
}

pub open spec fn queue_entry(value: JsonView) -> Option<QueuedInputView> {
    match fields_of(value, entry_keys()) {
        None => None,
        Some(f) => match (text_of(f[0]), text_of(f[1]), f[2]) {
            (Some(id), Some(client_message_id), JsonView::Array(inputs)) => Some(
                QueuedInputView {
                    id,
                    client_message_id,
                    text: match joined_text(inputs) {
                        Some(text) => text,
                        None => Seq::empty(),
                    },
                    has_other_input: holds_other_input(inputs),
                },
            ),
            _ => None,
        },
    }
}

pub open spec fn queue_entries(values: Seq<JsonView>) -> Option<Seq<QueuedInputView>>
    decreases values.len(),
{
    if values.len() == 0 {
        Some(Seq::empty())
    } else {
        match (queue_entries(values.drop_last()), queue_entry(values.last())) {
            (Some(front), Some(last)) => Some(front.push(last)),
            _ => None,
        }
    }
}

pub open spec fn queue_keys() -> Seq<Seq<char>> {
    seq!["data"@, "nextCursor"@]
}

/// The queued input in an answer, and where to read on.
pub open spec fn decoded_queue(value: JsonView) -> Option<(Seq<QueuedInputView>, Option<Seq<char>>)> {
    match fields_of(value, queue_keys()) {
        None => None,
        Some(f) => match (f[0], optional_text(f[1])) {
            (JsonView::Array(values), Some(cursor)) => match queue_entries(values) {
                Some(entries) => Some((entries, cursor)),
                None => None,
            },
            _ => None,
        },
    }
}

/// One entry that cannot be read makes all of them unreadable.
proof fn lemma_unreadable_entry(values: Seq<JsonView>, at: int)
    requires
        0 <= at < values.len(),
        queue_entry(values[at]) is None,
    ensures
        queue_entries(values) is None,
    decreases values.len(),
{
    if at < values.len() - 1 {
        assert(values.drop_last()[at] == values[at]);
        lemma_unreadable_entry(values.drop_last(), at);
    }
}

fn join_inputs(inputs: &Vec<Json>) -> (r: (String, bool))
    ensures
        r.0@ == (match joined_text(array_view(inputs@)) {
            Some(text) => text,
            None => Seq::empty(),
        }),
        r.1 == holds_other_input(array_view(inputs@)),
{
    proof {
        lemma_array_view(inputs@);
    }
    let ghost all = array_view(inputs@);
    let mut text = String::new();
    let mut started = false;
    let mut other = false;
    let mut i: usize = 0;
    assert(all.take(0) =~= Seq::<JsonView>::empty());
    while i < inputs.len()
        invariant
            i <= inputs@.len(),
            all.len() == inputs@.len(),
            forall|k: int| 0 <= k < inputs@.len() ==> #[trigger] all[k] == json_view(inputs@[k]),
            started ==> joined_text(all.take(i as int)) == Some(text@),
            !started ==> joined_text(all.take(i as int)) is None && text@ == Seq::<char>::empty(),
            other == (exists|k: int| 0 <= k < i && text_at(#[trigger] all[k], "type"@) != Some("text"@)),
        decreases inputs@.len() - i,
    {
        let input = &inputs[i];
        assert(input@ == all[i as int]);
        assert(all.take(i + 1).drop_last() =~= all.take(i as int));
        assert(all.take(i + 1).last() == all[i as int]);
        if input.at("type").is_text("text") {
            if let Some(line) = input.text_at("text") {
                if started {
                    text.append("\n");
                    text.append(line);
                } else {
                    text = line.to_owned();
                    started = true;
                }
            }
        } else {
            other = true;
        }
        i += 1;
    }
    assert(all.take(all.len() as int) =~= all);
    (text, other)
}

fn read_entry(value: &Json) -> (r: Option<QueuedInput>)
    ensures
        match queue_entry(value@) {
            Some(entry) => r matches Some(found) && found@ == entry,
            None => r is None,
        },
{
    let ghost keys = entry_keys();
    if !is_record(value, 3, Ghost(keys)) {
        return None;
    }
    match (
        field(value, "id", 0, Ghost(keys)).as_str(),
        field(value, "clientUserMessageId", 1, Ghost(keys)).as_str(),
        field(value, "input", 2, Ghost(keys)),
    ) {
        (Some(id), Some(client_message_id), Json::Array(inputs)) => {
            let (text, has_other_input) = join_inputs(inputs);
            Some(
                QueuedInput { id: id.to_owned(), client_message_id: client_message_id.to_owned(), text, has_other_input },
            )
        },
        _ => None,
    }
}

/// The queued input in an answer, and where to read on.
pub fn decode_queue(value: &Json) -> (r: Result<(Vec<QueuedInput>, Option<String>), HarnessError>)
    ensures
        match decoded_queue(value@) {
            Some((entries, cursor)) => r matches Ok(found) && queue_view(found.0@) == entries && opt_text(found.1) == cursor,
            None => r matches Err(error) && error@ == HarnessErrorView::Protocol("Invalid queue response: unexpected shape"@),
        },
{
    let ghost keys = queue_keys();
    if !is_record(value, 2, Ghost(keys)) {
        return Err(HarnessError::protocol("Invalid queue response: unexpected shape"));
    }
    let cursor = match field(value, "nextCursor", 1, Ghost(keys)) {
        Json::Null => None,
        Json::Text(cursor) => Some(cursor.clone()),
        _ => {
            return Err(HarnessError::protocol("Invalid queue response: unexpected shape"));
        },
    };
    match field(value, "data", 0, Ghost(keys)) {
        Json::Array(values) => {
            proof {
                lemma_array_view(values@);
            }
            let ghost all = array_view(values@);
            let mut entries: Vec<QueuedInput> = Vec::new();
            let mut i: usize = 0;
            assert(all.take(0) =~= Seq::<JsonView>::empty());
            assert(queue_view(entries@) =~= Seq::<QueuedInputView>::empty());
            while i < values.len()
                invariant
                    i <= values@.len(),
                    all == array_view(values@),
                    all.len() == values@.len(),
                    forall|k: int| 0 <= k < values@.len() ==> #[trigger] all[k] == json_view(values@[k]),
                    queue_entries(all.take(i as int)) == Some(queue_view(entries@)),
                    fields_of(value@, keys) is Some,
                    keys == queue_keys(),
                    fields_of(value@, keys)->0[0] == JsonView::Array(all),
                decreases values@.len() - i,
            {
                assert(all.take(i + 1).drop_last() =~= all.take(i as int));
                assert(all.take(i + 1).last() == all[i as int]);
                match read_entry(&values[i]) {
                    Some(entry) => {
                        let ghost before = queue_view(entries@);
                        let ghost added = entry@;
                        entries.push(entry);
                        assert(queue_view(entries@) =~= before.push(added));
                    },
                    None => {
                        proof {
                            lemma_unreadable_entry(all, i as int);
                        }
                        return Err(HarnessError::protocol("Invalid queue response: unexpected shape"));
                    },
                }
                i += 1;
            }
            assert(all.take(all.len() as int) =~= all);
            Ok((entries, cursor))
        },
        _ => Err(HarnessError::protocol("Invalid queue response: unexpected shape")),
    }
}

/// The word of each status is the app-server's own.
pub proof fn law_status_words_are_the_app_servers(status: GoalStatus, word: Seq<char>)
    ensures
        status_word(status) == "active"@ <==> status is Active,
        status_word(status) == "paused"@ <==> status is Paused,
        status_word(status) == "blocked"@ <==> status is Blocked,
        status_word(status) == "usageLimited"@ <==> status is UsageLimited,
        status_word(status) == "budgetLimited"@ <==> status is BudgetLimited,
        status_word(status) == "complete"@ <==> status is Complete,
        word_status(word) == Some(status) <==> word == status_word(status),
{
    law_status_reads_back(status, word);
    reveal_strlit("active");
    reveal_strlit("paused");
    reveal_strlit("blocked");
    reveal_strlit("usageLimited");
    reveal_strlit("budgetLimited");
    reveal_strlit("complete");
    assert("active"@[0] == 'a' && "paused"@[0] == 'p' && "blocked"@[0] == 'b' && "usageLimited"@[0] == 'u'
        && "budgetLimited"@[0] == 'b' && "complete"@[0] == 'c');
    assert("blocked"@[1] == 'l' && "budgetLimited"@[1] == 'u');
}

/// An answer without a goal tells that there is none.
pub proof fn law_no_goal_is_an_answer(value: JsonView, thread: Seq<char>)
    requires
        value is Object,
        at(value, "goal"@) is Null,
    ensures
        decoded_goal(value, thread) == Ok::<Option<GoalView>, HarnessErrorView>(None),
{
}

/// A goal is taken exactly where it is the thread's own, its status is known, and its fields are of their kind;
/// each field of it is then what the member of its name says.
pub proof fn law_goals_are_read_member_by_member(value: JsonView, thread: Seq<char>)
    requires
        value is Object,
        at(value, "goal"@) is Object,
    ensures
        ({
            let own = at(value, "goal"@);
            let read = decoded_goal(value, thread);
            &&& read matches Ok(found) ==> (found matches Some(goal) && {
                &&& at(own, "threadId"@) == JsonView::Text(thread)
                &&& at(own, "objective"@) == JsonView::Text(goal.objective)
                &&& at(own, "status"@) == JsonView::Text(status_word(goal.status))
                &&& at(own, "tokenBudget"@) == (match goal.token_budget {
                    Some(n) => JsonView::Integer(n as int),
                    None => JsonView::Null,
                })
                &&& at(own, "tokensUsed"@) == JsonView::Integer(goal.tokens_used as int)
                &&& at(own, "timeUsedSeconds"@) == JsonView::Integer(goal.time_used_seconds as int)
                &&& at(own, "createdAt"@) == JsonView::Integer(goal.created_at as int)
                &&& at(own, "updatedAt"@) == JsonView::Integer(goal.updated_at as int)
            })
            &&& read is Ok <==> {
                &&& at(own, "threadId"@) == JsonView::Text(thread)
                &&& at(own, "objective"@) is Text
                &&& at(own, "status"@) matches JsonView::Text(word) && word_status(word) is Some
                &&& at(own, "tokenBudget"@) is Null || number_of(at(own, "tokenBudget"@)) is Some
                &&& number_of(at(own, "tokensUsed"@)) is Some
                &&& number_of(at(own, "timeUsedSeconds"@)) is Some
                &&& number_of(at(own, "createdAt"@)) is Some
                &&& number_of(at(own, "updatedAt"@)) is Some
            }
        }),
{
    let own = at(value, "goal"@);
    let f = fields_of(own, goal_keys())->0;
    let keys = goal_keys();
    assert(keys[0] == "threadId"@ && keys[1] == "objective"@ && keys[2] == "status"@ && keys[3] == "tokenBudget"@ && keys[4]
        == "tokensUsed"@ && keys[5] == "timeUsedSeconds"@ && keys[6] == "createdAt"@ && keys[7] == "updatedAt"@);
    assert(f[0] == at(own, "threadId"@) && f[1] == at(own, "objective"@) && f[2] == at(own, "status"@) && f[3] == at(
        own,
        "tokenBudget"@,
    ) && f[4] == at(own, "tokensUsed"@) && f[5] == at(own, "timeUsedSeconds"@) && f[6] == at(own, "createdAt"@) && f[7]
        == at(own, "updatedAt"@));
    assert(fields_of(value, seq!["goal"@])->0[0] == at(value, "goal"@));
    if let Some(goal) = native_goal(own) {
        if let Some(status) = word_status(goal.status) {
            law_status_reads_back(status, goal.status);
        }
    }
}

/// Numbers are taken as they are, as long as they fit.
pub proof fn law_numbers_are_taken_as_they_are(value: JsonView)
    ensures
        number_of(value) matches Some(n) ==> value == JsonView::Integer(n as int),
        value matches JsonView::Integer(n) ==> i64::MIN <= n <= i64::MAX ==> number_of(value) == Some(n as i64),
{
}

/// An entry of the queue is read member by member; its text is that of its text inputs.
pub proof fn law_entries_are_read_member_by_member(value: JsonView, inputs: Seq<JsonView>)
    requires
        value is Object,
        at(value, "input"@) == JsonView::Array(inputs),
    ensures
        queue_entry(value) is Some <==> at(value, "id"@) is Text && at(value, "clientUserMessageId"@) is Text,
        queue_entry(value) matches Some(entry) ==> {
            &&& at(value, "id"@) == JsonView::Text(entry.id)
            &&& at(value, "clientUserMessageId"@) == JsonView::Text(entry.client_message_id)
            &&& joined_text(inputs) matches Some(text) ==> entry.text == text
            &&& joined_text(inputs) is None ==> entry.text.len() == 0
            &&& entry.has_other_input <==> exists|i: int|
                0 <= i < inputs.len() && at(#[trigger] inputs[i], "type"@) != JsonView::Text("text"@)
        },
{
    let f = fields_of(value, entry_keys())->0;
    let keys = entry_keys();
    assert(keys[0] == "id"@ && keys[1] == "clientUserMessageId"@ && keys[2] == "input"@);
    assert(f[0] == at(value, "id"@) && f[1] == at(value, "clientUserMessageId"@) && f[2] == at(value, "input"@));
    if holds_other_input(inputs) {
        let i = choose|i: int| 0 <= i < inputs.len() && text_at(#[trigger] inputs[i], "type"@) != Some("text"@);
        assert(at(inputs[i], "type"@) != JsonView::Text("text"@));
    }
    if exists|i: int| 0 <= i < inputs.len() && at(#[trigger] inputs[i], "type"@) != JsonView::Text("text"@) {
        let i = choose|i: int| 0 <= i < inputs.len() && at(#[trigger] inputs[i], "type"@) != JsonView::Text("text"@);
        assert(text_at(inputs[i], "type"@) != Some("text"@));
    }
}

/// One more text input adds one more line, and any other input adds nothing: a picture between two texts leaves
/// them two lines.
pub proof fn law_inputs_are_lines(inputs: Seq<JsonView>, next: JsonView)
    ensures
        joined_text(Seq::empty()) is None,
        at(next, "type"@) == JsonView::Text("text"@) ==> (at(next, "text"@) matches JsonView::Text(line) ==> joined_text(
            inputs.push(next),
        ) == Some(
            match joined_text(inputs) {
                Some(text) => text.push('\n') + line,
                None => line,
            },
        )),
        at(next, "type"@) != JsonView::Text("text"@) || !(at(next, "text"@) is Text) ==> joined_text(inputs.push(next))
            == joined_text(inputs),
{
    reveal_strlit("\n");
    assert(inputs.push(next).drop_last() =~= inputs);
    if let Some(text) = joined_text(inputs) {
        assert(text + "\n"@ =~= text.push('\n'));
    }
}

/// The queue is read in order, every entry of it or none, together with where to read on.
pub proof fn law_queues_are_read_in_order(value: JsonView, values: Seq<JsonView>)
    requires
        value is Object,
        at(value, "data"@) == JsonView::Array(values),
    ensures
        decoded_queue(value) is Some <==> (at(value, "nextCursor"@) is Null || at(value, "nextCursor"@) is Text) && forall|
            i: int,
        |
            0 <= i < values.len() ==> queue_entry(#[trigger] values[i]) is Some,
        decoded_queue(value) matches Some(read) ==> {
            &&& read.0.len() == values.len()
            &&& forall|i: int| 0 <= i < values.len() ==> queue_entry(#[trigger] values[i]) == Some(read.0[i])
            &&& at(value, "nextCursor"@) == (match read.1 {
                Some(cursor) => JsonView::Text(cursor),
                None => JsonView::Null,
            })
        },
{
    let f = fields_of(value, queue_keys())->0;
    let keys = queue_keys();
    assert(keys[0] == "data"@ && keys[1] == "nextCursor"@);
    assert(f[0] == at(value, "data"@) && f[1] == at(value, "nextCursor"@));
    lemma_entries_in_order(values);
}

proof fn lemma_entries_in_order(values: Seq<JsonView>)
    ensures
        queue_entries(values) is Some <==> forall|i: int| 0 <= i < values.len() ==> queue_entry(#[trigger] values[i]) is Some,
        queue_entries(values) matches Some(entries) ==> entries.len() == values.len() && forall|i: int|
            0 <= i < values.len() ==> queue_entry(#[trigger] values[i]) == Some(entries[i]),
    decreases values.len(),
{
    if values.len() > 0 {
        let front = values.drop_last();
        lemma_entries_in_order(front);
        assert(forall|i: int| 0 <= i < front.len() ==> front[i] == values[i]);
        assert(values.last() == values[values.len() - 1]);
        if forall|i: int| 0 <= i < values.len() ==> queue_entry(#[trigger] values[i]) is Some {
            assert forall|i: int| 0 <= i < front.len() implies queue_entry(#[trigger] front[i]) is Some by {
                assert(front[i] == values[i]);
            }
        }
        if queue_entries(values) is Some {
            assert forall|i: int| 0 <= i < values.len() implies queue_entry(#[trigger] values[i]) is Some by {
                if i < front.len() {
                    assert(front[i] == values[i]);
                }
            }
            let entries = queue_entries(values)->0;
            assert forall|i: int| 0 <= i < values.len() implies queue_entry(#[trigger] values[i]) == Some(entries[i]) by {
                if i < front.len() {
                    assert(front[i] == values[i]);
                }
            }
        }
    }
}

/// The names of a record's fields are told apart.
proof fn lemma_record_names()
    ensures
        "threadId"@ != "objective"@,
        "threadId"@ != "status"@,
        "threadId"@ != "tokenBudget"@,
        "threadId"@ != "tokensUsed"@,
        "threadId"@ != "timeUsedSeconds"@,
        "threadId"@ != "createdAt"@,
        "threadId"@ != "updatedAt"@,
        "objective"@ != "status"@,
        "objective"@ != "tokenBudget"@,
        "objective"@ != "tokensUsed"@,
        "objective"@ != "timeUsedSeconds"@,
        "objective"@ != "createdAt"@,
        "objective"@ != "updatedAt"@,
        "status"@ != "tokenBudget"@,
        "status"@ != "tokensUsed"@,
        "status"@ != "timeUsedSeconds"@,
        "status"@ != "createdAt"@,
        "status"@ != "updatedAt"@,
        "tokenBudget"@ != "tokensUsed"@,
        "tokenBudget"@ != "timeUsedSeconds"@,
        "tokenBudget"@ != "createdAt"@,
        "tokenBudget"@ != "updatedAt"@,
        "tokensUsed"@ != "timeUsedSeconds"@,
        "tokensUsed"@ != "createdAt"@,
        "tokensUsed"@ != "updatedAt"@,
        "timeUsedSeconds"@ != "createdAt"@,
        "timeUsedSeconds"@ != "updatedAt"@,
        "createdAt"@ != "updatedAt"@,
        "id"@ != "clientUserMessageId"@,
        "id"@ != "input"@,
        "clientUserMessageId"@ != "input"@,
        "data"@ != "nextCursor"@,
{
    reveal_strlit("threadId");
    reveal_strlit("objective");
    reveal_strlit("status");
    reveal_strlit("tokenBudget");
    reveal_strlit("tokensUsed");
    reveal_strlit("timeUsedSeconds");
    reveal_strlit("createdAt");
    reveal_strlit("updatedAt");
    reveal_strlit("id");
    reveal_strlit("clientUserMessageId");
    reveal_strlit("input");
    reveal_strlit("data");
    reveal_strlit("nextCursor");
    assert("threadId"@.len() != "objective"@.len());
    assert("threadId"@.len() != "status"@.len());
    assert("threadId"@.len() != "tokenBudget"@.len());
    assert("threadId"@.len() != "tokensUsed"@.len());
    assert("threadId"@.len() != "timeUsedSeconds"@.len());
    assert("threadId"@.len() != "createdAt"@.len());
    assert("threadId"@.len() != "updatedAt"@.len());
    assert("objective"@.len() != "status"@.len());
    assert("objective"@.len() != "tokenBudget"@.len());
    assert("objective"@.len() != "tokensUsed"@.len());
    assert("objective"@.len() != "timeUsedSeconds"@.len());
    assert("objective"@[0] != "createdAt"@[0]);
    assert("objective"@[0] != "updatedAt"@[0]);
    assert("status"@.len() != "tokenBudget"@.len());
    assert("status"@.len() != "tokensUsed"@.len());
    assert("status"@.len() != "timeUsedSeconds"@.len());
    assert("status"@.len() != "createdAt"@.len());
    assert("status"@.len() != "updatedAt"@.len());
    assert("tokenBudget"@.len() != "tokensUsed"@.len());
    assert("tokenBudget"@.len() != "timeUsedSeconds"@.len());
    assert("tokenBudget"@.len() != "createdAt"@.len());
    assert("tokenBudget"@.len() != "updatedAt"@.len());
    assert("tokensUsed"@.len() != "timeUsedSeconds"@.len());
    assert("tokensUsed"@.len() != "createdAt"@.len());
    assert("tokensUsed"@.len() != "updatedAt"@.len());
    assert("timeUsedSeconds"@.len() != "createdAt"@.len());
    assert("timeUsedSeconds"@.len() != "updatedAt"@.len());
    assert("createdAt"@[0] != "updatedAt"@[0]);
    assert("id"@.len() != "clientUserMessageId"@.len());
    assert("id"@.len() != "input"@.len());
    assert("clientUserMessageId"@.len() != "input"@.len());
    assert("data"@.len() != "nextCursor"@.len());
}

/// A record may come as a list of its fields in their order, and says the same then as under their names. A list
/// with a field too few or too many says nothing.
pub proof fn law_records_may_be_lists(items: Seq<JsonView>, thread: Seq<char>)
    ensures
        items.len() == 8 ==> native_goal(JsonView::Array(items)) == native_goal(
            JsonView::Object(
                map![
                    "threadId"@ => items[0],
                    "objective"@ => items[1],
                    "status"@ => items[2],
                    "tokenBudget"@ => items[3],
                    "tokensUsed"@ => items[4],
                    "timeUsedSeconds"@ => items[5],
                    "createdAt"@ => items[6],
                    "updatedAt"@ => items[7],
                ],
            ),
        ),
        items.len() != 8 ==> native_goal(JsonView::Array(items)) is None,
        items.len() == 3 ==> queue_entry(JsonView::Array(items)) == queue_entry(
            JsonView::Object(map!["id"@ => items[0], "clientUserMessageId"@ => items[1], "input"@ => items[2]]),
        ),
        items.len() != 3 ==> queue_entry(JsonView::Array(items)) is None,
        items.len() == 2 ==> decoded_queue(JsonView::Array(items)) == decoded_queue(
            JsonView::Object(map!["data"@ => items[0], "nextCursor"@ => items[1]]),
        ),
        items.len() != 2 ==> decoded_queue(JsonView::Array(items)) is None,
        items.len() == 1 ==> decoded_goal(JsonView::Array(items), thread) == decoded_goal(
            JsonView::Object(map!["goal"@ => items[0]]),
            thread,
        ),
        items.len() != 1 ==> decoded_goal(JsonView::Array(items), thread) is Err,
{
    lemma_record_names();
    if items.len() == 8 {
        let value = JsonView::Object(
            map![
                "threadId"@ => items[0],
                "objective"@ => items[1],
                "status"@ => items[2],
                "tokenBudget"@ => items[3],
                "tokensUsed"@ => items[4],
                "timeUsedSeconds"@ => items[5],
                "createdAt"@ => items[6],
                "updatedAt"@ => items[7],
            ],
        );
        assert(fields_of(value, goal_keys())->0 =~= items);
    }
    if items.len() == 3 {
        let value = JsonView::Object(map!["id"@ => items[0], "clientUserMessageId"@ => items[1], "input"@ => items[2]]);
        assert(fields_of(value, entry_keys())->0 =~= items);
    }
    if items.len() == 2 {
        let value = JsonView::Object(map!["data"@ => items[0], "nextCursor"@ => items[1]]);
        assert(fields_of(value, queue_keys())->0 =~= items);
    }
    if items.len() == 1 {
        let value = JsonView::Object(map!["goal"@ => items[0]]);
        assert(fields_of(value, seq!["goal"@])->0 =~= items);
    }
}

/// A goal of another thread is refused for that, whatever its status; a status that is not known is told.
pub proof fn law_refused_goals_say_why(value: JsonView, thread: Seq<char>, goal: NativeGoalView)
    requires
        goal_answer(value) == Some(Some(goal)),
    ensures
        goal.thread_id != thread ==> decoded_goal(value, thread) == Err::<Option<GoalView>, HarnessErrorView>(
            HarnessErrorView::Protocol("Goal response belongs to a different thread"@),
        ),
        goal.thread_id == thread && word_status(goal.status) is None ==> (decoded_goal(value, thread) matches Err(
            HarnessErrorView::Protocol(why),
        ) && goal.status.is_suffix_of(why)),
{
}

} // verus!
