//! Answers to forms that tool servers ask for: an accepted answer is held to the complete original
//! schema before it goes anywhere.

use vstd::prelude::*;
use vstd::string::*;
use crate::error::{HarnessError, HarnessErrorView};
use crate::json::{at, member, text_at, Json, JsonView};
use crate::schema::{form_compiles, form_fault, judge_form, FormVerdict};
use crate::schema_shape::{is_usable, unbounded, usable};
use crate::steady::steady;
use crate::text::same;

verus! {

/// A question, as far as an answer to it is judged.
#[derive(Debug)]
pub struct FormRequest {
    pub method: String,
    pub params: Json,
}

/// An answer: a result, or an error of its own.
#[derive(Debug)]
pub enum FormResponse {
    Result { value: Json },
    Error { code: i64, message: String },
}

/// What an answer is judged by.
pub enum FormCheck {
    /// Nothing: the answer may go.
    Pass,
    /// It is refused as it stands.
    Refuse(Seq<char>),
    /// Its content is held to the schema.
    Judge { schema: JsonView, content: JsonView },
}

pub open spec fn form_check(method: Seq<char>, params: JsonView, answer: Option<JsonView>) -> FormCheck {
    match answer {
        Some(value) if method == "mcpServer/elicitation/request"@ => {
            let action = text_at(value, "action"@);
            let mode = text_at(params, "mode"@);
            if action == Some("decline"@) || action == Some("cancel"@) {
                FormCheck::Pass
            } else if action != Some("accept"@) {
                FormCheck::Refuse("response requires accept, decline, or cancel action"@)
            } else if mode == Some("url"@) {
                FormCheck::Pass
            } else if mode != Some("form"@) && mode != Some("openai/form"@) && mode != Some("openaiForm"@) {
                FormCheck::Refuse("unsupported elicitation mode"@)
            } else {
                match (member(params, "requestedSchema"@), member(value, "content"@)) {
                    (None, _) => FormCheck::Refuse("request omitted requestedSchema"@),
                    (_, None) => FormCheck::Refuse("accepted response omitted content"@),
                    (Some(schema), Some(content)) => FormCheck::Judge { schema, content },
                }
            }
        },
        _ => FormCheck::Pass,
    }
}

pub open spec fn form_error(message: Seq<char>) -> HarnessErrorView {
    HarnessErrorView::Protocol("MCP form: "@ + message)
}

pub open spec fn answer_of(response: FormResponse) -> Option<JsonView> {
    match response {
        FormResponse::Result { value } => Some(value@),
        FormResponse::Error { .. } => None,
    }
}

/// What an answer that has to be judged is held to.
#[derive(Debug)]
pub enum FormPlan<'a> {
    Pass,
    Refuse(HarnessError),
    Judge { schema: &'a Json, content: &'a Json },
}

fn refusal(message: &str) -> (r: HarnessError)
    ensures
        r@ == form_error(message@),
{
    let mut text = "MCP form: ".to_owned();
    text.append(message);
    HarnessError::Protocol(text)
}

/// What an answer is judged by.
pub fn plan<'a>(request: &'a FormRequest, response: &'a FormResponse) -> (r: FormPlan<'a>)
    ensures
        match form_check(request.method@, request.params@, answer_of(*response)) {
            FormCheck::Pass => r is Pass,
            FormCheck::Refuse(message) => r matches FormPlan::Refuse(error) && error@ == form_error(message),
            FormCheck::Judge { schema, content } => r matches FormPlan::Judge { schema: s, content: c } && s@ == schema && c@
                == content,
        },
{
    if !same(request.method.as_str(), "mcpServer/elicitation/request") {
        return FormPlan::Pass;
    }
    let value = match response {
        FormResponse::Result { value } => value,
        FormResponse::Error { .. } => {
            return FormPlan::Pass;
        },
    };
    let action = value.at("action");
    if action.is_text("decline") || action.is_text("cancel") {
        return FormPlan::Pass;
    }
    if !action.is_text("accept") {
        return FormPlan::Refuse(refusal("response requires accept, decline, or cancel action"));
    }
    let mode = request.params.at("mode");
    if mode.is_text("url") {
        return FormPlan::Pass;
    }
    if !mode.is_text("form") && !mode.is_text("openai/form") && !mode.is_text("openaiForm") {
        return FormPlan::Refuse(refusal("unsupported elicitation mode"));
    }
    match request.params.get("requestedSchema") {
        None => FormPlan::Refuse(refusal("request omitted requestedSchema")),
        Some(schema) => match value.get("content") {
            None => FormPlan::Refuse(refusal("accepted response omitted content")),
            Some(content) => FormPlan::Judge { schema, content },
        },
    }
}

/// The schema cannot be used, for this reason.
pub open spec fn unusable_error(complaint: Seq<char>) -> HarnessErrorView {
    form_error("schema cannot be validated: "@ + complaint)
}

/// The content fails at this place, for this reason.
pub open spec fn content_error(place: Seq<char>, complaint: Seq<char>) -> HarnessErrorView {
    form_error(place + ": "@ + complaint)
}

pub open spec fn verdict_error(verdict: FormVerdict) -> Option<HarnessErrorView> {
    match verdict {
        FormVerdict::Fits => None,
        FormVerdict::Unusable(complaint) => Some(unusable_error(complaint@)),
        FormVerdict::Fails { place, complaint } => Some(content_error(place@, complaint@)),
    }
}

/// What a verdict on an answer's content means for the answer.
pub fn pronounce(verdict: FormVerdict) -> (r: Result<(), HarnessError>)
    ensures
        match verdict_error(verdict) {
            None => r is Ok,
            Some(error) => r matches Err(found) && found@ == error,
        },
{
    match verdict {
        FormVerdict::Fits => Ok(()),
        FormVerdict::Unusable(complaint) => {
            let mut message = "schema cannot be validated: ".to_owned();
            message.append(complaint.as_str());
            Err(refusal(message.as_str()))
        },
        FormVerdict::Fails { place, complaint } => {
            let mut message = place;
            message.append(": ");
            message.append(complaint.as_str());
            Err(refusal(message.as_str()))
        },
    }
}

/// Whether an answer may go to the tool server.
pub fn validate_response(request: &FormRequest, response: &FormResponse) -> (r: Result<(), HarnessError>)
    ensures
        match form_check(request.method@, request.params@, answer_of(*response)) {
            FormCheck::Pass => r is Ok,
            FormCheck::Refuse(message) => r matches Err(error) && error@ == form_error(message),
            FormCheck::Judge { schema, content } => if !usable(schema) {
                r matches Err(error) && error@ == unusable_error(unbounded())
            } else if !form_compiles(schema) {
                r matches Err(error) && exists|complaint: Seq<char>| error@ == #[trigger] unusable_error(complaint)
            } else if steady(content) {
                match form_fault(schema, content) {
                    None => r is Ok,
                    Some(fault) => r matches Err(error) && error@ == content_error(fault.place, fault.complaint),
                }
            } else {
                r matches Err(error) ==> exists|place: Seq<char>, complaint: Seq<char>|
                    error@ == #[trigger] content_error(place, complaint)
            },
        },
{
    match plan(request, response) {
        FormPlan::Pass => Ok(()),
        FormPlan::Refuse(error) => Err(error),
        FormPlan::Judge { schema, content } => {
            if !is_usable(schema) {
                return pronounce(FormVerdict::Unusable("its references or keywords have no bound".to_owned()));
            }
            let verdict = judge_form(schema, content);
            let ghost told = verdict;
            let r = pronounce(verdict);
            proof {
                match told {
                    FormVerdict::Unusable(complaint) => {
                        assert(r->Err_0@ == unusable_error(complaint@));
                    },
                    FormVerdict::Fails { place, complaint } => {
                        assert(r->Err_0@ == content_error(place@, complaint@));
                    },
                    FormVerdict::Fits => {},
                }
            }
            r
        },
    }
}

/// An accepted form answer passes exactly when its content meets the schema: nothing accepted goes
/// unjudged, and declining or cancelling never needs a schema.
pub proof fn law_accepted_answers_are_judged(params: JsonView, answer: JsonView)
    ensures
        ({
            let check = form_check("mcpServer/elicitation/request"@, params, Some(answer));
            let action = text_at(answer, "action"@);
            &&& (action == Some("decline"@) || action == Some("cancel"@)) ==> check is Pass
            &&& check is Pass ==> action == Some("decline"@) || action == Some("cancel"@) || text_at(params, "mode"@)
                == Some("url"@)
            &&& check matches FormCheck::Judge { schema, content } ==> member(params, "requestedSchema"@) == Some(schema)
                && member(answer, "content"@) == Some(content)
        }),
{
}

/// Only answers to elicitations are looked at, and an answer that is an error of its own may always go.
pub proof fn law_other_answers_may_go(method: Seq<char>, params: JsonView, answer: JsonView)
    ensures
        form_check(method, params, None) is Pass,
        method != "mcpServer/elicitation/request"@ ==> form_check(method, params, Some(answer)) is Pass,
{
}

/// An answer is held to the schema exactly where it accepts a form and both the schema and the content are there;
/// it may go as it stands exactly where it accepts nothing, or accepts a mere address.
pub proof fn law_forms_are_held_to_their_schema(params: JsonView, answer: JsonView)
    ensures
        ({
            let check = form_check("mcpServer/elicitation/request"@, params, Some(answer));
            let action = at(answer, "action"@);
            let mode = at(params, "mode"@);
            let form = mode == JsonView::Text("form"@) || mode == JsonView::Text("openai/form"@) || mode == JsonView::Text(
                "openaiForm"@,
            );
            &&& check is Pass <==> action == JsonView::Text("decline"@) || action == JsonView::Text("cancel"@) || (action
                == JsonView::Text("accept"@) && mode == JsonView::Text("url"@))
            &&& check is Judge <==> action == JsonView::Text("accept"@) && form && member(params, "requestedSchema"@) is Some
                && member(answer, "content"@) is Some
            &&& check matches FormCheck::Judge { schema, content } ==> member(params, "requestedSchema"@) == Some(schema)
                && member(answer, "content"@) == Some(content)
            &&& check matches FormCheck::Refuse(why) ==> {
                &&& action != JsonView::Text("accept"@) <==> "response requires"@.is_prefix_of(why)
                &&& action == JsonView::Text("accept"@) ==> (!form <==> "unsupported"@.is_prefix_of(why))
                &&& action == JsonView::Text("accept"@) && form ==> (member(params, "requestedSchema"@) is None
                    <==> "request omitted"@.is_prefix_of(why))
                &&& action == JsonView::Text("accept"@) && form && member(params, "requestedSchema"@) is Some
                    ==> "accepted response omitted"@.is_prefix_of(why)
            }
        }),
{
    reveal_strlit("accept");
    reveal_strlit("decline");
    reveal_strlit("cancel");
    reveal_strlit("url");
    reveal_strlit("form");
    reveal_strlit("openai/form");
    reveal_strlit("openaiForm");
    assert("accept"@[0] == 'a' && "decline"@[0] == 'd' && "cancel"@[0] == 'c');
    assert("url"@.len() == 3 && "form"@.len() == 4 && "openai/form"@.len() == 11 && "openaiForm"@.len() == 10);
    reveal_strlit("response requires");
    reveal_strlit("response requires accept, decline, or cancel action");
    reveal_strlit("unsupported");
    reveal_strlit("unsupported elicitation mode");
    reveal_strlit("request omitted");
    reveal_strlit("request omitted requestedSchema");
    reveal_strlit("accepted response omitted");
    reveal_strlit("accepted response omitted content");
    let a = "response requires accept, decline, or cancel action"@;
    let b = "unsupported elicitation mode"@;
    let c = "request omitted requestedSchema"@;
    let d = "accepted response omitted content"@;
    assert(a.subrange(0, 17) =~= "response requires"@);
    assert(b.subrange(0, 11) =~= "unsupported"@);
    assert(c.subrange(0, 15) =~= "request omitted"@);
    assert(d.subrange(0, 25) =~= "accepted response omitted"@);
    assert(forall|x: Seq<char>| #[trigger] "response requires"@.is_prefix_of(x) ==> x[0] == 'r' && x[2] == 's') by {
        assert forall|x: Seq<char>| #[trigger] "response requires"@.is_prefix_of(x) implies x[0] == 'r' && x[2] == 's' by {
            assert(x.subrange(0, 17)[0] == 'r' && x.subrange(0, 17)[2] == 's');
        }
    }
    assert(forall|x: Seq<char>| #[trigger] "unsupported"@.is_prefix_of(x) ==> x[0] == 'u') by {
        assert forall|x: Seq<char>| #[trigger] "unsupported"@.is_prefix_of(x) implies x[0] == 'u' by {
            assert(x.subrange(0, 11)[0] == 'u');
        }
    }
    assert(forall|x: Seq<char>| #[trigger] "request omitted"@.is_prefix_of(x) ==> x[0] == 'r') by {
        assert forall|x: Seq<char>| #[trigger] "request omitted"@.is_prefix_of(x) implies x[0] == 'r' by {
            assert(x.subrange(0, 15)[0] == 'r');
        }
    }
    assert(a[0] == 'r' && a[2] == 's' && b[0] == 'u' && c[0] == 'r' && c[2] == 'q' && d[0] == 'a');
}

/// A verdict lets an answer go exactly where its content fits; otherwise the answer's sender is told the place
/// and the complaint, or why the schema is of no use.
pub proof fn law_verdicts_are_told(verdict: FormVerdict)
    ensures
        verdict_error(verdict) is None <==> verdict is Fits,
        verdict matches FormVerdict::Unusable(complaint) ==> (verdict_error(verdict) matches Some(
            HarnessErrorView::Protocol(text),
        ) && complaint@.is_suffix_of(text)),
        verdict matches FormVerdict::Fails { place, complaint } ==> (verdict_error(verdict) matches Some(
            HarnessErrorView::Protocol(text),
        ) && exists|before: Seq<char>| text == #[trigger] (before + (place@ + ": "@ + complaint@))),
{
    match verdict {
        FormVerdict::Unusable(complaint) => {
            assert("MCP form: "@ + ("schema cannot be validated: "@ + complaint@) =~= ("MCP form: "@
                + "schema cannot be validated: "@) + complaint@);
        },
        FormVerdict::Fails { place, complaint } => {
            assert(verdict_error(verdict)->0->Protocol_0 == "MCP form: "@ + (place@ + ": "@ + complaint@));
        },
        FormVerdict::Fits => {},
    }
}

} // verus!
