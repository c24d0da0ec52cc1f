//! A session's context preference: what is shown of it, and which changes are taken.

use vstd::prelude::*;
use vstd::string::*;
use crate::error::{ApiError, ApiErrorView};
use crate::model::{
    non_premium_context_window, price_boundary, session_default, session_maximum, ModelDescriptor, ModelRef, ModelRefView,
};
use crate::text::{decimal, push_decimal, same};

verus! {

/// What is stored of a thread, as far as its context preference goes.
#[derive(Debug)]
pub struct ThreadRecord {
    pub current_model: Option<ModelRef>,
    /// The limit the user chose, where one was chosen.
    pub context_window_override: Option<u32>,
    /// The window that the last turn reported.
    pub context_window: u32,
    /// The largest window that turns of this session have reported for its model, where one did.
    pub recorded_capacity: Option<u32>,
    /// A thread of the user's own, not one that an agent owns.
    pub primary: bool,
    pub archived: bool,
}

#[verifier::ext_equal]
pub struct ThreadRecordView {
    pub current_model: Option<ModelRefView>,
    pub context_window_override: Option<u32>,
    pub context_window: u32,
    pub recorded_capacity: Option<u32>,
    pub primary: bool,
    pub archived: bool,
}

pub open spec fn opt_model(model: Option<ModelRef>) -> Option<ModelRefView> {
    match model {
        Some(model) => Some(model@),
        None => None,
    }
}

impl View for ThreadRecord {
    type V = ThreadRecordView;

    open spec fn view(&self) -> ThreadRecordView {
        ThreadRecordView {
            current_model: opt_model(self.current_model),
            context_window_override: self.context_window_override,
            context_window: self.context_window,
            recorded_capacity: self.recorded_capacity,
            primary: self.primary,
            archived: self.archived,
        }
    }
}

/// What is shown of a session's context preference.
#[derive(Debug)]
pub struct Settings {
    pub model: ModelRef,
    pub advertised_maximum: Option<u32>,
    pub default_window: u32,
    pub selected_window: u32,
    pub override_window: Option<u32>,
    pub non_premium_window: Option<u32>,
    pub effective_window: u32,
    pub can_configure: bool,
}

/// A change of the preference, for the model it was chosen for.
#[derive(Debug)]
pub struct Update {
    pub model: ModelRef,
    pub context_window: Option<u32>,
}

/// Same provider and same model id; effort and tier do not matter.
pub open spec fn same_choice(left: ModelRefView, right: ModelRefView) -> bool {
    left.provider == right.provider && left.model == right.model
}

pub fn same_model(left: &ModelRef, right: &ModelRef) -> (r: bool)
    ensures
        r == same_choice(left@, right@),
{
    same(left.provider.as_str(), right.provider.as_str()) && same(left.model.as_str(), right.model.as_str())
}

/// A capacity that says something.
pub open spec fn positive(capacity: Option<u32>) -> Option<u32> {
    match capacity {
        Some(value) if value > 0 => Some(value),
        _ => None,
    }
}

/// What is known of a session's capacity: the lower of what the catalog says of the model and of what
/// turns of the session have shown, or the one that there is.
pub open spec fn known_capacity(thread: ThreadRecordView, descriptor: ModelDescriptor) -> Option<u32> {
    match (positive(descriptor.advertised_context_window), positive(thread.recorded_capacity)) {
        (Some(catalog), Some(recorded)) => Some(if recorded < catalog {
            recorded
        } else {
            catalog
        }),
        (Some(catalog), None) => Some(catalog),
        (None, recorded) => recorded,
    }
}

/// The largest window a session may be given.
pub open spec fn maximum_of(thread: ThreadRecordView, descriptor: ModelDescriptor) -> u32 {
    session_maximum(known_capacity(thread, descriptor), descriptor.context_window)
}

/// The window a session gets unless another one is chosen.
pub open spec fn default_of(thread: ThreadRecordView, descriptor: ModelDescriptor) -> u32 {
    session_default(descriptor.model@, maximum_of(thread, descriptor))
}

/// The window that a session is set to: the chosen one, brought down to the maximum, or the default.
pub open spec fn selected_of(thread: ThreadRecordView, descriptor: ModelDescriptor) -> u32 {
    match thread.context_window_override {
        None => default_of(thread, descriptor),
        Some(value) => if value < maximum_of(thread, descriptor) {
            value
        } else {
            maximum_of(thread, descriptor)
        },
    }
}

fn capacity(thread: &ThreadRecord, descriptor: &ModelDescriptor) -> (r: Option<u32>)
    ensures
        r == known_capacity(thread@, *descriptor),
{
    let recorded = match thread.recorded_capacity {
        Some(value) if value > 0 => Some(value),
        _ => None,
    };
    match descriptor.advertised_context_window {
        Some(catalog) if catalog > 0 => match recorded {
            Some(value) if value < catalog => Some(value),
            _ => Some(catalog),
        },
        _ => recorded,
    }
}

fn maximum_window(thread: &ThreadRecord, descriptor: &ModelDescriptor) -> (r: u32)
    ensures
        r == maximum_of(thread@, *descriptor),
{
    match capacity(thread, descriptor) {
        Some(value) => value,
        None => if descriptor.context_window > 0 {
            descriptor.context_window
        } else {
            ModelDescriptor::CONSERVATIVE_CONTEXT_WINDOW
        },
    }
}

fn default_window(thread: &ThreadRecord, descriptor: &ModelDescriptor) -> (r: u32)
    ensures
        r == default_of(thread@, *descriptor),
{
    let maximum: u32 = maximum_window(thread, descriptor);
    match non_premium_context_window(descriptor.model.as_str()) {
        Some(boundary) if boundary < maximum => boundary,
        _ => maximum,
    }
}

fn selected_window(thread: &ThreadRecord, descriptor: &ModelDescriptor) -> (r: u32)
    ensures
        r == selected_of(thread@, *descriptor),
{
    let maximum: u32 = maximum_window(thread, descriptor);
    match thread.context_window_override {
        None => default_window(thread, descriptor),
        Some(value) => if value < maximum {
            value
        } else {
            maximum
        },
    }
}

/// The window that a turn of a session is launched with: the one it is set to, where its capacity is
/// known. Otherwise none is asked for.
pub fn launch_window(thread: &ThreadRecord, descriptor: &ModelDescriptor) -> (r: Option<u32>)
    ensures
        r == (if known_capacity(thread@, *descriptor) is Some {
            Some(selected_of(thread@, *descriptor))
        } else {
            None
        }),
{
    match capacity(thread, descriptor) {
        Some(_) => Some(selected_window(thread, descriptor)),
        None => None,
    }
}

/// What is shown of a thread's preference.
pub fn project_settings(thread: &ThreadRecord, model: ModelRef, descriptor: &ModelDescriptor, supported: bool) -> (r: Settings)
    ensures
        r.model == model,
        r.advertised_maximum == known_capacity(thread@, *descriptor),
        r.default_window == default_of(thread@, *descriptor),
        r.selected_window == selected_of(thread@, *descriptor),
        r.override_window == thread.context_window_override,
        r.non_premium_window == price_boundary(model@.model),
        r.effective_window == thread.context_window,
        r.can_configure == (supported && thread.primary && !thread.archived),
{
    Settings {
        advertised_maximum: capacity(thread, descriptor),
        default_window: default_window(thread, descriptor),
        selected_window: selected_window(thread, descriptor),
        override_window: thread.context_window_override,
        non_premium_window: non_premium_context_window(model.model.as_str()),
        effective_window: thread.context_window,
        can_configure: supported && thread.primary && !thread.archived,
        model,
    }
}

/// The model whose preference a request is about.
pub fn known_model(project_found: bool, thread: Option<&ThreadRecord>) -> (r: Result<ModelRef, ApiError>)
    ensures
        match thread {
            Some(thread) if project_found => match thread@.current_model {
                Some(model) => r matches Ok(found) && found@ == model,
                None => r matches Err(error) && error@ == ApiErrorView::Conflict(
                    "Select a model before configuring its context limit"@,
                ),
            },
            _ => r matches Err(error) && error@ == ApiErrorView::NotFound,
        },
{
    if !project_found {
        return Err(ApiError::NotFound);
    }
    match thread {
        None => Err(ApiError::NotFound),
        Some(thread) => match &thread.current_model {
            Some(model) => Ok(model.clone()),
            None => Err(ApiError::conflict("Select a model before configuring its context limit")),
        },
    }
}

/// The limits between which a preference must lie, in words.
pub open spec fn range_text(low: u32, high: u32) -> Seq<char> {
    "Context limit must be between "@ + decimal(low as nat) + " and "@ + decimal(high as nat) + " tokens"@
}

/// Why a change is refused.
pub open spec fn update_fault(
    thread: ThreadRecordView,
    model: ModelRefView,
    descriptor: ModelDescriptor,
    supported: bool,
    request: Update,
) -> Option<ApiErrorView> {
    if !supported || thread.archived {
        Some(ApiErrorView::Conflict("Context settings require a writable, unarchived thread and a supporting harness"@))
    } else if !same_choice(model, request.model@) {
        Some(ApiErrorView::Conflict("The selected model changed; reopen Context and try again"@))
    } else {
        match (request.context_window, known_capacity(thread, descriptor)) {
            (None, _) => None,
            (Some(_), None) => Some(ApiErrorView::BadRequest("The model has not advertised its maximum context window"@)),
            (Some(value), Some(maximum)) => if value < default_of(thread, descriptor) || value > maximum {
                Some(ApiErrorView::BadRequest(range_text(default_of(thread, descriptor), maximum)))
            } else {
                None
            },
        }
    }
}

/// Whether a change may be made at all.
pub fn check_update(
    thread: &ThreadRecord,
    model: &ModelRef,
    descriptor: &ModelDescriptor,
    supported: bool,
    request: &Update,
) -> (r: Result<(), ApiError>)
    ensures
        match update_fault(thread@, model@, *descriptor, supported, *request) {
            None => r is Ok,
            Some(fault) => r matches Err(error) && error@ == fault,
        },
{
    if !supported || thread.archived {
        return Err(
            ApiError::conflict("Context settings require a writable, unarchived thread and a supporting harness"),
        );
    }
    if !same_model(model, &request.model) {
        return Err(ApiError::conflict("The selected model changed; reopen Context and try again"));
    }
    if let Some(value) = request.context_window {
        let maximum: u32 = match capacity(thread, descriptor) {
            Some(maximum) => maximum,
            None => {
                return Err(ApiError::bad_request("The model has not advertised its maximum context window"));
            },
        };
        let low: u32 = default_window(thread, descriptor);
        if value < low || value > maximum {
            let mut message = "Context limit must be between ".to_owned();
            push_decimal(&mut message, low as u64);
            message.append(" and ");
            push_decimal(&mut message, maximum as u64);
            message.append(" tokens");
            return Err(ApiError::BadRequest(message));
        }
    }
    Ok(())
}

/// A stored thread that is no longer the one the change was checked against.
pub open spec fn outdated(current: ThreadRecordView, request: Update) -> bool {
    current.archived || !current.primary || !(current.current_model matches Some(model) && same_choice(
        model,
        request.model@,
    ))
}

/// Makes a checked change on the stored thread, and tells whether the thread was outdated; an outdated
/// thread is left as it is.
pub fn apply_update(current: &mut ThreadRecord, request: &Update) -> (r: bool)
    ensures
        r == outdated(old(current)@, *request),
        final(current)@ == (if r {
            old(current)@
        } else {
            ThreadRecordView { context_window_override: request.context_window, ..old(current)@ }
        }),
{
    let kept = match &current.current_model {
        Some(model) => same_model(model, &request.model),
        None => false,
    };
    if current.archived || !current.primary || !kept {
        return true;
    }
    current.context_window_override = request.context_window;
    false
}

/// Ends a change: `current` is the thread after it, where it still exists.
pub fn finish_update(current: Option<ThreadRecord>, stale: bool) -> (r: Result<ThreadRecord, ApiError>)
    ensures
        match current {
            None => r matches Err(error) && error@ == ApiErrorView::NotFound,
            Some(thread) => if stale {
                r matches Err(error) && error@ == ApiErrorView::Conflict("The thread changed; reopen Context and try again"@)
            } else {
                r == Ok::<ThreadRecord, ApiError>(thread)
            },
        },
{
    match current {
        None => Err(ApiError::NotFound),
        Some(thread) => if stale {
            Err(ApiError::conflict("The thread changed; reopen Context and try again"))
        } else {
            Ok(thread)
        },
    }
}

/// A chosen limit lies between the session's default and its known capacity, both positive.
pub proof fn law_chosen_limits_are_in_range(
    thread: ThreadRecordView,
    model: ModelRefView,
    descriptor: ModelDescriptor,
    supported: bool,
    request: Update,
)
    requires
        update_fault(thread, model, descriptor, supported, request) is None,
    ensures
        request.context_window matches Some(value) ==> (known_capacity(thread, descriptor) matches Some(maximum) && 0
            < default_of(thread, descriptor) <= value <= maximum),
{
}

/// Neither the catalog nor the session's own record is exceeded: the known capacity is the lower of both,
/// and a selection never exceeds it, however large it was when it was chosen. Without a choice the
/// selection is the default, and a choice within bounds is what is selected.
pub proof fn law_selection_is_bounded(thread: ThreadRecordView, descriptor: ModelDescriptor)
    ensures
        known_capacity(thread, descriptor) matches Some(known) ==> {
            &&& 0 < known
            &&& selected_of(thread, descriptor) <= known
            &&& positive(descriptor.advertised_context_window) matches Some(catalog) ==> known <= catalog
            &&& positive(thread.recorded_capacity) matches Some(recorded) ==> known <= recorded
        },
        thread.context_window_override is None ==> selected_of(thread, descriptor) == default_of(thread, descriptor),
        thread.context_window_override matches Some(value) ==> value <= maximum_of(thread, descriptor) ==> selected_of(
            thread,
            descriptor,
        ) == value,
{
}

/// The gauge of the last turn is shown, and says nothing of what a session can take: capacity, default
/// and selection stay as they are when it changes.
pub proof fn law_gauge_is_not_capacity(thread: ThreadRecordView, descriptor: ModelDescriptor, gauge: u32)
    ensures
        ({
            let later = ThreadRecordView { context_window: gauge, ..thread };
            &&& known_capacity(later, descriptor) == known_capacity(thread, descriptor)
            &&& default_of(later, descriptor) == default_of(thread, descriptor)
            &&& selected_of(later, descriptor) == selected_of(thread, descriptor)
        }),
{
}

/// A preference belongs to provider and model: effort and tier may change without making a change of it
/// outdated, another provider or model may not.
pub proof fn law_preferences_belong_to_a_model(
    thread: ThreadRecordView,
    request: Update,
    model: ModelRefView,
    effort: Option<Seq<char>>,
    tier: Option<Seq<char>>,
)
    requires
        thread.current_model == Some(model),
    ensures
        outdated(
            ThreadRecordView {
                current_model: Some(ModelRefView { reasoning_effort: effort, service_tier: tier, ..model }),
                ..thread
            },
            request,
        ) == outdated(thread, request),
        model.provider != request.model@.provider || model.model != request.model@.model ==> outdated(thread, request),
{
}

/// The known capacity is one of what the catalog and the session's turns say, no more than either, and
/// there is one as soon as one of them says something.
pub proof fn law_capacity_is_the_lower_report(thread: ThreadRecordView, descriptor: ModelDescriptor)
    ensures
        known_capacity(thread, descriptor) is None <==> (descriptor.advertised_context_window is None
            || descriptor.advertised_context_window == Some(0u32)) && (thread.recorded_capacity is None
            || thread.recorded_capacity == Some(0u32)),
        known_capacity(thread, descriptor) matches Some(known) ==> {
            &&& known > 0
            &&& descriptor.advertised_context_window == Some(known) || thread.recorded_capacity == Some(known)
            &&& descriptor.advertised_context_window matches Some(catalog) ==> catalog == 0 || known <= catalog
            &&& thread.recorded_capacity matches Some(recorded) ==> recorded == 0 || known <= recorded
        },
{
}

/// The maximum of a session is its known capacity. Where none is known, it is the ordinary window of the
/// model, or a conservative one.
pub proof fn law_maximum_follows_the_capacity(thread: ThreadRecordView, descriptor: ModelDescriptor)
    ensures
        known_capacity(thread, descriptor) matches Some(known) ==> maximum_of(thread, descriptor) == known,
        known_capacity(thread, descriptor) is None ==> maximum_of(thread, descriptor) == (if descriptor.context_window
            > 0 {
            descriptor.context_window
        } else {
            128_000
        }),
{
}

/// The default of a session goes by the model it runs: without a price boundary it is the maximum, and with
/// one the smaller of the two.
pub proof fn law_default_goes_by_the_model(thread: ThreadRecordView, descriptor: ModelDescriptor)
    ensures
        price_boundary(descriptor.model@) is None ==> default_of(thread, descriptor) == maximum_of(thread, descriptor),
        price_boundary(descriptor.model@) matches Some(boundary) ==> {
            &&& default_of(thread, descriptor) <= boundary
            &&& default_of(thread, descriptor) <= maximum_of(thread, descriptor)
            &&& default_of(thread, descriptor) == boundary || default_of(thread, descriptor) == maximum_of(
                thread,
                descriptor,
            )
        },
{
}

/// What is selected is the choice as long as the session can take it, and all that it can take otherwise.
/// A choice is never replaced by the default.
pub proof fn law_choices_are_brought_down(thread: ThreadRecordView, descriptor: ModelDescriptor, value: u32)
    ensures
        ({
            let chosen = ThreadRecordView { context_window_override: Some(value), ..thread };
            let unset = ThreadRecordView { context_window_override: None, ..thread };
            &&& maximum_of(chosen, descriptor) == maximum_of(unset, descriptor)
            &&& value <= maximum_of(unset, descriptor) ==> selected_of(chosen, descriptor) == value
            &&& value > maximum_of(unset, descriptor) ==> selected_of(chosen, descriptor) == maximum_of(unset, descriptor)
            &&& selected_of(unset, descriptor) == default_of(unset, descriptor)
        }),
{
}

/// A change is taken exactly where the harness supports it, the thread is not archived, the model is still
/// the one it was chosen for, and a limit lies between the default and a known capacity. Taking a limit
/// back needs no capacity.
pub proof fn law_changes_are_taken_where_they_fit(
    thread: ThreadRecordView,
    model: ModelRefView,
    descriptor: ModelDescriptor,
    supported: bool,
    request: Update,
)
    ensures
        update_fault(thread, model, descriptor, supported, request) is None <==> {
            &&& supported
            &&& !thread.archived
            &&& request.model@.provider == model.provider
            &&& request.model@.model == model.model
            &&& request.context_window matches Some(value) ==> (known_capacity(thread, descriptor) matches Some(known)
                && default_of(thread, descriptor) <= value <= known)
        },
        update_fault(thread, model, descriptor, supported, request) is Some ==> (update_fault(
            thread,
            model,
            descriptor,
            supported,
            request,
        )->0 is BadRequest <==> supported && !thread.archived && request.model@.provider == model.provider
            && request.model@.model == model.model),
        update_fault(thread, model, descriptor, supported, request) != Some(ApiErrorView::NotFound),
{
}

/// A thread is outdated exactly where it is archived, no thread of the user's own, or on another provider or
/// model than the change was made for.
pub proof fn law_outdated_threads_differ(current: ThreadRecordView, request: Update)
    ensures
        !outdated(current, request) <==> !current.archived && current.primary && (current.current_model matches Some(model)
            && model.provider == request.model@.provider && model.model == request.model@.model),
{
}

/// The words of a refused limit hold both bounds, the lower one first.
pub proof fn law_range_names_both_bounds(low: u32, high: u32)
    ensures
        exists|before: Seq<char>, between: Seq<char>, after: Seq<char>|
            range_text(low, high) == #[trigger] (before + decimal(low as nat) + between + decimal(high as nat) + after),
{
    assert(range_text(low, high) == "Context limit must be between "@ + decimal(low as nat) + " and "@ + decimal(
        high as nat,
    ) + " tokens"@);
}

} // verus!
