//! JSON Schema checks, done by `jsonschema`.

use vstd::prelude::*;
use crate::json::{to_value, Json, JsonView};
use crate::schema_shape::usable;
use crate::steady::steady;

verus! {

/// Whether `jsonschema::validator_for` accepts a document as a schema.
pub uninterp spec fn schema_compiles(schema: JsonView) -> bool;

/// Checks a schema with `jsonschema::validator_for` and tells its complaint. On a usable schema the call
/// comes to an end without a panic, and whether there is a complaint is a function of the schema alone. How
/// it reads is not stated: which of several unresolved references is told hangs on a seeded hash.
#[verifier::external_body]
pub(crate) fn compile_schema(schema: &Json) -> (r: Result<(), String>)
    requires
        usable(schema@),
    ensures
        r is Ok == schema_compiles(schema@),
{
    jsonschema::validator_for(&to_value(schema)).map(drop).map_err(|e| e.to_string())
}

/// The place at which `jsonschema::Validator::validate` first finds a value to fail a schema; none where
/// the value meets it.
pub uninterp spec fn value_fault(schema: JsonView, value: JsonView) -> Option<Seq<char>>;

/// The place that a check told.
pub open spec fn place_told(r: Result<(), String>) -> Option<Seq<char>> {
    match r {
        Ok(_) => None,
        Err(place) => Some(place@),
    }
}

/// Checks a value with `jsonschema::Validator::validate` and tells where it fails. On a usable schema the
/// call comes to an end without a panic. Only a schema that compiles accepts anything. Of a schema that
/// compiles, the place told is a function of schema and value, as long as no long array in the value
/// holds what may be negative zero: equal items of a long array are found by a seeded hash of their bits.
#[verifier::external_body]
pub(crate) fn check_value(schema: &Json, value: &Json) -> (r: Result<(), String>)
    requires
        usable(schema@),
    ensures
        r is Ok ==> schema_compiles(schema@),
        schema_compiles(schema@) && steady(value@) ==> place_told(r) == value_fault(schema@, value@),
{
    jsonschema::validator_for(&to_value(schema)).map_err(|e| e.to_string())?
        .validate(&to_value(value)).map_err(|e| e.instance_path.to_string())
}

/// How a form's content fares against its schema.
#[derive(Debug)]
pub enum FormVerdict {
    /// The schema itself is unusable, with the complaint.
    Unusable(String),
    /// The content fails at a place, with the complaint.
    Fails { place: String, complaint: String },
    Fits,
}

/// A place at which a form's content fails, and why.
pub struct FormFault {
    pub place: Seq<char>,
    pub complaint: Seq<char>,
}

impl FormVerdict {
    /// The fault that a verdict on content tells.
    pub open spec fn fault(&self) -> Option<FormFault> {
        match self {
            FormVerdict::Fails { place, complaint } => Some(FormFault { place: place@, complaint: complaint@ }),
            _ => None,
        }
    }
}

/// Whether `jsonschema::ValidationOptions::build` accepts a form's schema, with formats checked, unknown
/// ones refused and nothing fetched.
pub uninterp spec fn form_compiles(schema: JsonView) -> bool;

/// What `jsonschema::Validator::validate` first finds wrong with a form's content; none where it fits.
pub uninterp spec fn form_fault(schema: JsonView, content: JsonView) -> Option<FormFault>;

/// Judges a form's content with `jsonschema::ValidationOptions::build` and `Validator::validate`.
/// Formats are checked, unknown ones are refused, and the retriever refuses every reference that leaves
/// the schema. On a usable schema the calls come to an end without a panic. Whether the schema is
/// accepted is a function of the schema; how its complaint reads is not stated. Of an accepted schema,
/// what is found wrong is a function of schema and content, under the condition that `check_value` has.
#[verifier::external_body]
pub(crate) fn judge_form(schema: &Json, content: &Json) -> (r: FormVerdict)
    requires
        usable(schema@),
    ensures
        r is Unusable == !form_compiles(schema@),
        form_compiles(schema@) && steady(content@) ==> r.fault() == form_fault(schema@, content@),
{
    match jsonschema::options().with_retriever(referencing::DefaultRetriever).should_validate_formats(true)
        .should_ignore_unknown_formats(false).build(&to_value(schema)) {
        Err(e) => FormVerdict::Unusable(e.to_string()),
        Ok(validator) => match validator.validate(&to_value(content)) {
            Ok(()) => FormVerdict::Fits,
            Err(e) => FormVerdict::Fails { place: e.instance_path.to_string(), complaint: e.to_string() },
        },
    }
}

} // verus!
