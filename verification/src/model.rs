//! Models, their catalog metadata, and the context window a session gets.

use vstd::prelude::*;
use vstd::string::*;
use crate::json::opt_text;
use crate::text::same;

verus! {

/// A model, identified by provider and model id, with the chosen reasoning effort and service tier.
///
/// The same model id on two providers is two models.
#[derive(Debug, PartialEq, Eq, Hash)]
pub struct ModelRef {
    pub provider: String,
    pub model: String,
    pub reasoning_effort: Option<Effort>,
    /// Applied to each turn on its own.
    pub service_tier: Option<String>,
}

pub struct ModelRefView {
    pub provider: Seq<char>,
    pub model: Seq<char>,
    pub reasoning_effort: Option<Seq<char>>,
    pub service_tier: Option<Seq<char>>,
}

impl View for ModelRef {
    type V = ModelRefView;

    open spec fn view(&self) -> ModelRefView {
        ModelRefView {
            provider: self.provider@,
            model: self.model@,
            reasoning_effort: match self.reasoning_effort {
                Some(effort) => Some(effort@),
                None => None,
            },
            service_tier: opt_text(self.service_tier),
        }
    }
}

impl Clone for ModelRef {
    fn clone(&self) -> (r: ModelRef)
        ensures
            r@ == self@,
    {
        ModelRef {
            provider: self.provider.clone(),
            model: self.model.clone(),
            reasoning_effort: match &self.reasoning_effort {
                Some(effort) => Some(effort.clone()),
                None => None,
            },
            service_tier: match &self.service_tier {
                Some(tier) => Some(tier.clone()),
                None => None,
            },
        }
    }
}

/// A reasoning-effort level. Which levels exist is up to the model; the value is passed through.
#[derive(Debug, PartialEq, Eq, Hash)]
pub struct Effort(pub String);

impl View for Effort {
    type V = Seq<char>;

    open spec fn view(&self) -> Seq<char> {
        self.0@
    }
}

impl Clone for Effort {
    fn clone(&self) -> (r: Effort)
        ensures
            r@ == self@,
    {
        Effort(self.0.clone())
    }
}

impl Effort {
    pub fn new<T: Into<String>>(value: T) -> (r: Effort)
        ensures
            call_ensures(T::into, (value,), r.0),
    {
        Effort(value.into())
    }

    pub fn as_str(&self) -> (r: &str)
        ensures
            r@ == self@,
    {
        self.0.as_str()
    }
}

/// Metadata of a model.
#[derive(Debug, Clone, PartialEq, Eq)]
pub struct ModelDescriptor {
    pub provider: String,
    pub model: String,
    /// The token limit that drives the context gauge.
    pub context_window: u32,
    /// The request capacity the provider advertises, whatever the configured default is.
    pub advertised_context_window: Option<u32>,
    pub supports_reasoning_effort: bool,
    /// The effort levels the model advertises; none when they are unknown.
    pub reasoning_efforts: Vec<String>,
    pub display_name: Option<String>,
    /// The model to start from when nothing else is chosen.
    pub is_default: bool,
    pub service_tiers: Option<Vec<ModelServiceTier>>,
    pub default_service_tier: Option<String>,
    /// `None` while the supported input types have not been reported.
    pub input_modalities: Option<Vec<String>>,
    pub multi_agent_version: Option<String>,
}

/// A service tier as the model catalog names it.
#[derive(Debug, Clone, PartialEq, Eq)]
pub struct ModelServiceTier {
    pub id: String,
    pub name: String,
    pub description: String,
}

/// The composite key of a model.
pub open spec fn model_key(provider: Seq<char>, model: Seq<char>) -> Seq<char> {
    provider + "/"@ + model
}

impl ModelRef {
    /// The composite key "provider/model".
    pub fn key(&self) -> (r: String)
        ensures
            r@ == model_key(self@.provider, self@.model),
    {
        let mut out = self.provider.clone();
        out.append("/");
        out.append(self.model.as_str());
        out
    }
}

/// The models whose larger prompts are priced higher, by exact id.
pub open spec fn price_bounded(model_id: Seq<char>) -> bool {
    ||| model_id == "gpt-6-astra"@
    ||| model_id == "gpt-5.6-sol"@
    ||| model_id == "gpt-5.6-terra"@
    ||| model_id == "gpt-5.6-luna"@
    ||| model_id == "gpt-5.5"@
    ||| model_id == "gpt-5.5-2026-04-23"@
    ||| model_id == "gpt-5.5-pro"@
    ||| model_id == "gpt-5.5-pro-2026-04-23"@
    ||| model_id == "gpt-5.4"@
    ||| model_id == "gpt-5.4-2026-03-05"@
    ||| model_id == "gpt-5.4-pro"@
    ||| model_id == "gpt-5.4-pro-2026-03-05"@
}

/// The largest prompt below the higher price, where one is known.
pub open spec fn price_boundary(model_id: Seq<char>) -> Option<u32> {
    if price_bounded(model_id) {
        Some(272_000)
    } else {
        None
    }
}

/// The largest prompt below the higher price. Only exact ids match: variants and unknown future ids
/// get no boundary from a shared prefix.
pub fn non_premium_context_window(model_id: &str) -> (r: Option<u32>)
    ensures
        r == price_boundary(model_id@),
{
    if same(model_id, "gpt-6-astra") || same(model_id, "gpt-5.6-sol") || same(model_id, "gpt-5.6-terra") || same(
        model_id,
        "gpt-5.6-luna",
    ) || same(model_id, "gpt-5.5") || same(model_id, "gpt-5.5-2026-04-23") || same(model_id, "gpt-5.5-pro") || same(
        model_id,
        "gpt-5.5-pro-2026-04-23",
    ) || same(model_id, "gpt-5.4") || same(model_id, "gpt-5.4-2026-03-05") || same(model_id, "gpt-5.4-pro") || same(
        model_id,
        "gpt-5.4-pro-2026-03-05",
    ) {
        Some(272_000)
    } else {
        None
    }
}

/// The advertised capacity where it is positive, else the ordinary window where that is, else the
/// conservative one.
pub open spec fn session_maximum(advertised: Option<u32>, ordinary: u32) -> u32 {
    match advertised {
        Some(value) if value > 0 => value,
        _ => if ordinary > 0 {
            ordinary
        } else {
            ModelDescriptor::CONSERVATIVE_CONTEXT_WINDOW
        },
    }
}

/// The maximum, brought down to the price boundary where one is known.
pub open spec fn session_default(model_id: Seq<char>, maximum: u32) -> u32 {
    match price_boundary(model_id) {
        Some(boundary) if boundary < maximum => boundary,
        _ => maximum,
    }
}

impl ModelDescriptor {
    /// The window used while a model's size is unknown.
    pub const CONSERVATIVE_CONTEXT_WINDOW: u32 = 128_000;

    /// The largest window a session may be given.
    pub fn maximum_session_context_window(&self) -> (r: u32)
        ensures
            r == session_maximum(self.advertised_context_window, self.context_window),
    {
        match self.advertised_context_window {
            Some(value) if value > 0 => value,
            _ => if self.context_window > 0 {
                self.context_window
            } else {
                Self::CONSERVATIVE_CONTEXT_WINDOW
            },
        }
    }

    /// The window a session gets unless another one is chosen.
    pub fn default_session_context_window(&self) -> (r: u32)
        ensures
            r == session_default(self.model@, session_maximum(self.advertised_context_window, self.context_window)),
    {
        let maximum: u32 = self.maximum_session_context_window();
        match non_premium_context_window(self.model.as_str()) {
            Some(boundary) if boundary < maximum => boundary,
            _ => maximum,
        }
    }

    /// What is taken for granted of a model nothing is known of.
    pub fn conservative<P: Into<String>, M: Into<String>>(provider: P, model: M) -> (r: Self)
        ensures
            call_ensures(P::into, (provider,), r.provider),
            call_ensures(M::into, (model,), r.model),
            r.context_window == Self::CONSERVATIVE_CONTEXT_WINDOW,
            r.advertised_context_window is None,
            !r.supports_reasoning_effort,
            r.reasoning_efforts@.len() == 0,
            r.display_name is None,
            !r.is_default,
            r.service_tiers is None,
            r.default_service_tier is None,
            r.input_modalities is None,
            r.multi_agent_version is None,
    {
        ModelDescriptor {
            provider: provider.into(),
            model: model.into(),
            context_window: Self::CONSERVATIVE_CONTEXT_WINDOW,
            advertised_context_window: None,
            supports_reasoning_effort: false,
            reasoning_efforts: Vec::new(),
            display_name: None,
            is_default: false,
            service_tiers: None,
            default_service_tier: None,
            input_modalities: None,
            multi_agent_version: None,
        }
    }
}

/// A session's default never exceeds what the model can take, both are positive, and the default is
/// the smaller of the maximum and the price boundary.
pub proof fn law_default_is_bounded(model_id: Seq<char>, advertised: Option<u32>, ordinary: u32)
    ensures
        0 < session_default(model_id, session_maximum(advertised, ordinary)) <= session_maximum(advertised, ordinary),
        price_boundary(model_id) matches Some(boundary) ==> session_default(
            model_id,
            session_maximum(advertised, ordinary),
        ) <= boundary,
        price_boundary(model_id) is None ==> session_default(model_id, session_maximum(advertised, ordinary))
            == session_maximum(advertised, ordinary),
{
}

/// An advertised capacity counts whatever the ordinary window is: reports from a limited session
/// never replace it.
pub proof fn law_advertised_capacity_is_kept(advertised: u32, first: u32, second: u32)
    requires
        advertised > 0,
    ensures
        session_maximum(Some(advertised), first) == advertised,
        session_maximum(Some(advertised), first) == session_maximum(Some(advertised), second),
{
}

/// Models on different providers have different keys, as long as provider names hold no slash.
pub proof fn law_providers_are_significant(
    provider: Seq<char>,
    model: Seq<char>,
    other_provider: Seq<char>,
    other_model: Seq<char>,
)
    requires
        !provider.contains('/'),
        !other_provider.contains('/'),
    ensures
        model_key(provider, model) == model_key(other_provider, other_model) <==> (provider == other_provider && model
            == other_model),
{
    reveal_strlit("/");
    let key = model_key(provider, model);
    let other = model_key(other_provider, other_model);
    if key == other {
        assert(key[provider.len() as int] == '/');
        assert(other[other_provider.len() as int] == '/');
        if provider.len() < other_provider.len() {
            assert(other_provider[provider.len() as int] == other[provider.len() as int]);
            assert(other_provider.contains('/'));
        }
        if other_provider.len() < provider.len() {
            assert(provider[other_provider.len() as int] == key[other_provider.len() as int]);
            assert(provider.contains('/'));
        }
        assert(provider =~= key.take(provider.len() as int));
        assert(other_provider =~= other.take(other_provider.len() as int));
        assert(model =~= key.skip((provider.len() + 1) as int));
        assert(other_model =~= other.skip((other_provider.len() + 1) as int));
    }
}

/// Exactly the ids on the price list have a boundary, and it is the same for all of them: an id that only
/// begins like one of them has none.
pub proof fn law_boundaries_are_for_exact_ids(model_id: Seq<char>)
    ensures
        price_boundary(model_id) is Some <==> seq![
            "gpt-6-astra"@,
            "gpt-5.6-sol"@,
            "gpt-5.6-terra"@,
            "gpt-5.6-luna"@,
            "gpt-5.5"@,
            "gpt-5.5-2026-04-23"@,
            "gpt-5.5-pro"@,
            "gpt-5.5-pro-2026-04-23"@,
            "gpt-5.4"@,
            "gpt-5.4-2026-03-05"@,
            "gpt-5.4-pro"@,
            "gpt-5.4-pro-2026-03-05"@,
        ].contains(model_id),
        price_boundary(model_id) matches Some(boundary) ==> boundary == 272_000,
{
    let list = seq![
        "gpt-6-astra"@,
        "gpt-5.6-sol"@,
        "gpt-5.6-terra"@,
        "gpt-5.6-luna"@,
        "gpt-5.5"@,
        "gpt-5.5-2026-04-23"@,
        "gpt-5.5-pro"@,
        "gpt-5.5-pro-2026-04-23"@,
        "gpt-5.4"@,
        "gpt-5.4-2026-03-05"@,
        "gpt-5.4-pro"@,
        "gpt-5.4-pro-2026-03-05"@,
    ];
    assert(list[0] == "gpt-6-astra"@ && list[1] == "gpt-5.6-sol"@ && list[2] == "gpt-5.6-terra"@ && list[3]
        == "gpt-5.6-luna"@ && list[4] == "gpt-5.5"@ && list[5] == "gpt-5.5-2026-04-23"@ && list[6] == "gpt-5.5-pro"@
        && list[7] == "gpt-5.5-pro-2026-04-23"@ && list[8] == "gpt-5.4"@ && list[9] == "gpt-5.4-2026-03-05"@ && list[10]
        == "gpt-5.4-pro"@ && list[11] == "gpt-5.4-pro-2026-03-05"@);
    if list.contains(model_id) {
        let k = choose|k: int| 0 <= k < list.len() && list[k] == model_id;
        assert(list[k] == model_id);
    }
}

/// A session may be given all that is advertised; where nothing is, the ordinary window; and a model of
/// which neither is known gets a positive one all the same.
pub proof fn law_maximum_is_what_is_known(advertised: Option<u32>, ordinary: u32)
    ensures
        advertised matches Some(value) ==> value > 0 ==> session_maximum(advertised, ordinary) == value,
        (advertised is None || advertised == Some(0u32)) && ordinary > 0 ==> session_maximum(advertised, ordinary)
            == ordinary,
        (advertised is None || advertised == Some(0u32)) && ordinary == 0 ==> session_maximum(advertised, ordinary)
            == 128_000,
{
}

/// The default is one of the maximum and the boundary, and neither of them is below it.
pub proof fn law_default_is_the_smaller(model_id: Seq<char>, maximum: u32)
    ensures
        match price_boundary(model_id) {
            None => session_default(model_id, maximum) == maximum,
            Some(boundary) => {
                &&& session_default(model_id, maximum) == boundary || session_default(model_id, maximum) == maximum
                &&& session_default(model_id, maximum) <= boundary
                &&& session_default(model_id, maximum) <= maximum
            },
        },
{
}

/// A key begins with the provider, ends with the model id, and has one more character, a slash, between.
pub proof fn law_keys_hold_both_names(provider: Seq<char>, model: Seq<char>)
    ensures
        model_key(provider, model).len() == provider.len() + 1 + model.len(),
        model_key(provider, model).take(provider.len() as int) == provider,
        model_key(provider, model)[provider.len() as int] == '/',
        model_key(provider, model).skip((provider.len() + 1) as int) == model,
{
    reveal_strlit("/");
    assert(model_key(provider, model).take(provider.len() as int) =~= provider);
    assert(model_key(provider, model).skip((provider.len() + 1) as int) =~= model);
}

} // verus!
