//! Applying a session's context limit to a loaded thread. The app-server takes such settings only when
//! a thread is started or resumed cold, so a change is a guarded sequence: look, mark, let go, resume
//! with the new limit, and believe it only once the answer shows it.

use vstd::prelude::*;
use vstd::string::*;
use crate::error::{outcome, HarnessError, HarnessErrorView};
use crate::json::{array_view, at, json_view, lemma_array_view, member, text_at, Json, JsonView};
use crate::text::same;

verus! {

/// The settings that make `window` the whole budget.
pub open spec fn window_settings(window: u32) -> JsonView {
    JsonView::Object(
        map![
            "model_context_window"@ => JsonView::Integer(window as int),
            "model_auto_compact_token_limit"@ => JsonView::Integer(window as int),
            "model_auto_compact_token_limit_scope"@ => JsonView::Text("total"@),
        ],
    )
}

/// The settings that make `window` the whole budget; there is no empty budget.
pub fn config(window: u32) -> (r: Result<Json, HarnessError>)
    ensures
        outcome(r) == (if window == 0 {
            Err(HarnessErrorView::Protocol("Context window must be positive"@))
        } else {
            Ok(window_settings(window))
        }),
{
    if window == 0 {
        return Err(HarnessError::protocol("Context window must be positive"));
    }
    let settings = Json::object().with("model_context_window", Json::Unsigned(window as u64)).with(
        "model_auto_compact_token_limit",
        Json::Unsigned(window as u64),
    ).with("model_auto_compact_token_limit_scope", Json::text("total"));
    assert(settings@ =~= window_settings(window));
    Ok(settings)
}

/// The effort a thread should have, and another one that shows whether a change took hold.
#[derive(Debug)]
pub struct Efforts {
    pub desired: String,
    pub marker: String,
}

pub struct EffortsView {
    pub desired: Seq<char>,
    pub marker: Seq<char>,
}

impl View for Efforts {
    type V = EffortsView;

    open spec fn view(&self) -> EffortsView {
        EffortsView { desired: self.desired@, marker: self.marker@ }
    }
}

pub open spec fn protocol_fault(message: Seq<char>) -> HarnessErrorView {
    HarnessErrorView::Protocol(message)
}

/// The first catalog entry for a model, by model or by id.
pub open spec fn first_entry(entries: Seq<JsonView>, model: Seq<char>) -> Option<JsonView>
    decreases entries.len(),
{
    if entries.len() == 0 {
        None
    } else if text_at(entries[0], "model"@) == Some(model) || text_at(entries[0], "id"@) == Some(model) {
        Some(entries[0])
    } else {
        first_entry(entries.drop_first(), model)
    }
}

pub open spec fn advertises(efforts: Seq<JsonView>, effort: Seq<char>) -> bool {
    exists|i: int| 0 <= i < efforts.len() && text_at(#[trigger] efforts[i], "reasoningEffort"@) == Some(effort)
}

/// The first advertised effort that differs from `desired`.
pub open spec fn first_other(efforts: Seq<JsonView>, desired: Seq<char>) -> Option<Seq<char>>
    decreases efforts.len(),
{
    if efforts.len() == 0 {
        None
    } else {
        match text_at(efforts[0], "reasoningEffort"@) {
            Some(effort) if effort != desired => Some(effort),
            _ => first_other(efforts.drop_first(), desired),
        }
    }
}

/// The efforts a change works with, from a model's catalog entry.
pub open spec fn entry_efforts(entry: JsonView, selected: Option<Seq<char>>) -> Result<EffortsView, HarnessErrorView> {
    let wanted = match selected {
        Some(effort) => Some(effort),
        None => text_at(entry, "defaultReasoningEffort"@),
    };
    match (wanted, at(entry, "supportedReasoningEfforts"@)) {
        (None, _) => Err(protocol_fault("Native catalog has no default reasoning effort for context reconfiguration"@)),
        (Some(desired), JsonView::Array(advertised)) => if !advertises(advertised, desired) {
            Err(protocol_fault("Selected reasoning effort is not advertised by the native model"@))
        } else {
            match first_other(advertised, desired) {
                Some(marker) => Ok(EffortsView { desired, marker }),
                None => Err(
                    protocol_fault(
                        "This model has no alternate reasoning effort to verify a context change; start a new session with the desired limit"@,
                    ),
                ),
            }
        },
        _ => Err(
            protocol_fault("Native model does not advertise reasoning settings for verified context reconfiguration"@),
        ),
    }
}

/// The marker is never the effort that is wanted in the end, and both are advertised.
pub proof fn law_marker_differs(entry: JsonView, selected: Option<Seq<char>>)
    ensures
        entry_efforts(entry, selected) matches Ok(efforts) ==> efforts.marker != efforts.desired && (at(
            entry,
            "supportedReasoningEfforts"@,
        ) matches JsonView::Array(advertised) && advertises(advertised, efforts.desired) && advertises(
            advertised,
            efforts.marker,
        )),
{
    if let JsonView::Array(advertised) = at(entry, "supportedReasoningEfforts"@) {
        if let Ok(efforts) = entry_efforts(entry, selected) {
            lemma_first_other(advertised, efforts.desired);
        }
    }
}

proof fn lemma_first_other(efforts: Seq<JsonView>, desired: Seq<char>)
    ensures
        first_other(efforts, desired) matches Some(effort) ==> effort != desired && advertises(efforts, effort),
    decreases efforts.len(),
{
    if efforts.len() > 0 {
        lemma_first_other(efforts.drop_first(), desired);
        match text_at(efforts[0], "reasoningEffort"@) {
            Some(effort) if effort != desired => {},
            _ => {
                if let Some(effort) = first_other(efforts.drop_first(), desired) {
                    let k = choose|k: int|
                        0 <= k < efforts.drop_first().len() && text_at(
                            #[trigger] efforts.drop_first()[k],
                            "reasoningEffort"@,
                        ) == Some(effort);
                    assert(efforts[k + 1] == efforts.drop_first()[k]);
                }
            },
        }
    }
}

pub(crate) fn find_entry<'a>(entries: &'a Vec<Json>, model: &str) -> (r: Option<&'a Json>)
    ensures
        match first_entry(array_view(entries@), model@) {
            Some(entry) => r matches Some(found) && found@ == entry,
            None => r is None,
        },
{
    proof {
        lemma_array_view(entries@);
    }
    let ghost all = array_view(entries@);
    assert(all.skip(0) =~= all);
    let mut i: usize = 0;
    while i < entries.len()
        invariant
            i <= entries@.len(),
            all == array_view(entries@),
            all.len() == entries@.len(),
            forall|k: int| 0 <= k < entries@.len() ==> #[trigger] all[k] == json_view(entries@[k]),
            first_entry(all, model@) == first_entry(all.skip(i as int), model@),
        decreases entries@.len() - i,
    {
        assert(all.skip(i as int)[0] == entries@[i as int]@);
        assert(all.skip(i as int).drop_first() =~= all.skip(i + 1));
        if entries[i].at("model").is_text(model) || entries[i].at("id").is_text(model) {
            return Some(&entries[i]);
        }
        i += 1;
    }
    None
}

fn has_effort(efforts: &Vec<Json>, effort: &str) -> (r: bool)
    ensures
        r == advertises(array_view(efforts@), effort@),
{
    proof {
        lemma_array_view(efforts@);
    }
    let ghost all = array_view(efforts@);
    let mut i: usize = 0;
    while i < efforts.len()
        invariant
            i <= efforts@.len(),
            all == array_view(efforts@),
            all.len() == efforts@.len(),
            forall|k: int| 0 <= k < efforts@.len() ==> #[trigger] all[k] == json_view(efforts@[k]),
            forall|k: int| 0 <= k < i ==> text_at(#[trigger] all[k], "reasoningEffort"@) != Some(effort@),
        decreases efforts@.len() - i,
    {
        assert(all[i as int] == efforts@[i as int]@);
        if efforts[i].at("reasoningEffort").is_text(effort) {
            return true;
        }
        i += 1;
    }
    false
}

fn other_effort<'a>(efforts: &'a Vec<Json>, desired: &str) -> (r: Option<&'a str>)
    ensures
        match first_other(array_view(efforts@), desired@) {
            Some(effort) => r matches Some(found) && found@ == effort,
            None => r is None,
        },
{
    proof {
        lemma_array_view(efforts@);
    }
    let ghost all = array_view(efforts@);
    assert(all.skip(0) =~= all);
    let mut i: usize = 0;
    while i < efforts.len()
        invariant
            i <= efforts@.len(),
            all == array_view(efforts@),
            all.len() == efforts@.len(),
            forall|k: int| 0 <= k < efforts@.len() ==> #[trigger] all[k] == json_view(efforts@[k]),
            first_other(all, desired@) == first_other(all.skip(i as int), desired@),
        decreases efforts@.len() - i,
    {
        assert(all.skip(i as int)[0] == efforts@[i as int]@);
        assert(all.skip(i as int).drop_first() =~= all.skip(i + 1));
        if let Some(effort) = efforts[i].text_at("reasoningEffort") {
            if !same(effort, desired) {
                return Some(effort);
            }
        }
        i += 1;
    }
    None
}

/// The efforts a change works with, from a model's catalog entry.
pub fn choose_efforts(entry: &Json, selected: Option<&str>) -> (r: Result<Efforts, HarnessError>)
    ensures
        outcome(r) == entry_efforts(
            entry@,
            match selected {
                Some(effort) => Some(effort@),
                None => None,
            },
        ),
{
    let wanted = match selected {
        Some(effort) => Some(effort),
        None => entry.text_at("defaultReasoningEffort"),
    };
    let desired = match wanted {
        Some(effort) => effort,
        None => {
            return Err(
                HarnessError::protocol("Native catalog has no default reasoning effort for context reconfiguration"),
            );
        },
    };
    match entry.at("supportedReasoningEfforts") {
        Json::Array(advertised) => {
            if !has_effort(advertised, desired) {
                return Err(HarnessError::protocol("Selected reasoning effort is not advertised by the native model"));
            }
            match other_effort(advertised, desired) {
                Some(marker) => Ok(Efforts { desired: desired.to_owned(), marker: marker.to_owned() }),
                None => Err(
                    HarnessError::protocol(
                        "This model has no alternate reasoning effort to verify a context change; start a new session with the desired limit",
                    ),
                ),
            }
        },
        _ => Err(
            HarnessError::protocol(
                "Native model does not advertise reasoning settings for verified context reconfiguration",
            ),
        ),
    }
}

/// The entry that is found for a model names it, as its model or as its id, and no entry before it does.
/// None is found only where none names the model.
pub proof fn law_entries_are_found_by_name(entries: Seq<JsonView>, model: Seq<char>)
    ensures
        match first_entry(entries, model) {
            Some(entry) => exists|i: int|
                0 <= i < entries.len() && entry == #[trigger] entries[i] && names(entry, model) && forall|k: int|
                    0 <= k < i ==> !names(#[trigger] entries[k], model),
            None => forall|k: int| 0 <= k < entries.len() ==> !names(#[trigger] entries[k], model),
        },
    decreases entries.len(),
{
    if entries.len() > 0 && !names(entries[0], model) {
        let rest = entries.drop_first();
        law_entries_are_found_by_name(rest, model);
        match first_entry(rest, model) {
            Some(entry) => {
                let i = choose|i: int|
                    0 <= i < rest.len() && entry == #[trigger] rest[i] && names(entry, model) && forall|k: int|
                        0 <= k < i ==> !names(#[trigger] rest[k], model);
                assert(entries[i + 1] == rest[i]);
                assert forall|k: int| 0 <= k < i + 1 implies !names(#[trigger] entries[k], model) by {
                    if k > 0 {
                        assert(entries[k] == rest[k - 1]);
                    }
                }
            },
            None => {
                assert forall|k: int| 0 <= k < entries.len() implies !names(#[trigger] entries[k], model) by {
                    if k > 0 {
                        assert(entries[k] == rest[k - 1]);
                    }
                }
            },
        }
    } else if entries.len() > 0 {
        assert(first_entry(entries, model) == Some(entries[0]));
    }
}

/// An entry names a model by its `model` or by its `id`.
pub open spec fn names(entry: JsonView, model: Seq<char>) -> bool {
    at(entry, "model"@) == JsonView::Text(model) || at(entry, "id"@) == JsonView::Text(model)
}

/// The effort that is wanted is the selected one, and the entry's default only where none is selected; the
/// marker is the first advertised effort that is another one.
pub proof fn law_efforts_are_the_selected_and_the_first_other(entry: JsonView, selected: Option<Seq<char>>)
    ensures
        entry_efforts(entry, selected) matches Ok(efforts) ==> {
            &&& selected matches Some(effort) ==> efforts.desired == effort
            &&& selected is None ==> at(entry, "defaultReasoningEffort"@) == JsonView::Text(efforts.desired)
            &&& at(entry, "supportedReasoningEfforts"@) matches JsonView::Array(advertised) && exists|i: int|
                0 <= i < advertised.len() && at(#[trigger] advertised[i], "reasoningEffort"@) == JsonView::Text(efforts.marker)
                    && forall|k: int|
                    0 <= k < i ==> (at(#[trigger] advertised[k], "reasoningEffort"@) matches JsonView::Text(effort) ==> effort
                        == efforts.desired)
        },
{
    if let JsonView::Array(advertised) = at(entry, "supportedReasoningEfforts"@) {
        if let Ok(efforts) = entry_efforts(entry, selected) {
            lemma_first_other_is_first(advertised, efforts.desired);
        }
    }
}

/// Efforts are found wherever an effort is wanted that the entry advertises beside another one.
pub proof fn law_two_efforts_are_enough(entry: JsonView, selected: Option<Seq<char>>, desired: Seq<char>, i: int, j: int)
    requires
        selected == Some(desired) || selected is None && at(entry, "defaultReasoningEffort"@) == JsonView::Text(desired),
        at(entry, "supportedReasoningEfforts"@) matches JsonView::Array(advertised) && 0 <= i < advertised.len() && 0 <= j
            < advertised.len() && at(advertised[i], "reasoningEffort"@) == JsonView::Text(desired) && (at(
            advertised[j],
            "reasoningEffort"@,
        ) matches JsonView::Text(other) && other != desired),
    ensures
        entry_efforts(entry, selected) is Ok,
{
    let advertised = at(entry, "supportedReasoningEfforts"@)->Array_0;
    assert(text_at(advertised[i], "reasoningEffort"@) == Some(desired));
    lemma_first_other_is_first(advertised, desired);
    assert(text_at(advertised[j], "reasoningEffort"@) is Some);
}

proof fn lemma_first_other_is_first(efforts: Seq<JsonView>, desired: Seq<char>)
    ensures
        match first_other(efforts, desired) {
            Some(marker) => exists|i: int|
                0 <= i < efforts.len() && at(#[trigger] efforts[i], "reasoningEffort"@) == JsonView::Text(marker) && forall|
                    k: int,
                |
                    0 <= k < i ==> (at(#[trigger] efforts[k], "reasoningEffort"@) matches JsonView::Text(effort) ==> effort
                        == desired),
            None => forall|k: int|
                0 <= k < efforts.len() ==> (at(#[trigger] efforts[k], "reasoningEffort"@) matches JsonView::Text(effort)
                    ==> effort == desired),
        },
    decreases efforts.len(),
{
    if efforts.len() > 0 {
        let rest = efforts.drop_first();
        lemma_first_other_is_first(rest, desired);
        match text_at(efforts[0], "reasoningEffort"@) {
            Some(effort) if effort != desired => {
                assert(at(efforts[0], "reasoningEffort"@) == JsonView::Text(effort));
            },
            _ => {
                if let Some(marker) = first_other(rest, desired) {
                    let i = choose|i: int|
                        0 <= i < rest.len() && at(#[trigger] rest[i], "reasoningEffort"@) == JsonView::Text(marker) && forall|
                            k: int,
                        |
                            0 <= k < i ==> (at(#[trigger] rest[k], "reasoningEffort"@) matches JsonView::Text(effort)
                                ==> effort == desired);
                    assert(efforts[i + 1] == rest[i]);
                    assert forall|k: int| 0 <= k < i + 1 implies (at(#[trigger] efforts[k], "reasoningEffort"@)
                        matches JsonView::Text(effort) ==> effort == desired) by {
                        if k > 0 {
                            assert(efforts[k] == rest[k - 1]);
                        }
                    }
                } else {
                    assert forall|k: int| 0 <= k < efforts.len() implies (at(#[trigger] efforts[k], "reasoningEffort"@)
                        matches JsonView::Text(effort) ==> effort == desired) by {
                        if k > 0 {
                            assert(efforts[k] == rest[k - 1]);
                        }
                    }
                }
            },
        }
    }
}

/// The names of the settings are told apart.
proof fn lemma_setting_names()
    ensures
        "model_context_window"@ != "model_auto_compact_token_limit"@,
        "model_context_window"@ != "model_auto_compact_token_limit_scope"@,
        "model_auto_compact_token_limit"@ != "model_auto_compact_token_limit_scope"@,
{
    reveal_strlit("model_context_window");
    reveal_strlit("model_auto_compact_token_limit");
    reveal_strlit("model_auto_compact_token_limit_scope");
    assert("model_context_window"@.len() != "model_auto_compact_token_limit"@.len());
    assert("model_context_window"@.len() != "model_auto_compact_token_limit_scope"@.len());
    assert("model_auto_compact_token_limit"@.len() != "model_auto_compact_token_limit_scope"@.len());
}

/// The whole window is the budget: the app-server is told the same number as the window and as the limit
/// at which it compacts, the latter of the total, and nothing else.
pub proof fn law_the_window_is_the_whole_budget(window: u32)
    ensures
        member(window_settings(window), "model_context_window"@) == Some(JsonView::Integer(window as int)),
        member(window_settings(window), "model_auto_compact_token_limit"@) == Some(JsonView::Integer(window as int)),
        member(window_settings(window), "model_auto_compact_token_limit_scope"@) == Some(JsonView::Text("total"@)),
        forall|key: Seq<char>| #[trigger]
            member(window_settings(window), key) is Some ==> key == "model_context_window"@ || key
                == "model_auto_compact_token_limit"@ || key == "model_auto_compact_token_limit_scope"@,
{
    lemma_setting_names();
}

} // verus!
