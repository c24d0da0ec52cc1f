use giskard::error::HarnessError;
use giskard::json::Json;
use giskard::mcp_forms::{plan, pronounce, validate_response, FormPlan, FormRequest, FormResponse};
use giskard::schema::FormVerdict;

fn j(text: &str) -> Json {
    Json::read(text.as_bytes()).unwrap()
}

fn request(schema: &str) -> FormRequest {
    FormRequest {
        method: "mcpServer/elicitation/request".into(),
        params: j(&format!(r#"{{"mode":"openai/form","requestedSchema":{schema}}}"#)),
    }
}

fn result(text: &str) -> FormResponse {
    FormResponse::Result { value: j(text) }
}

fn accept(content: &str) -> FormResponse {
    result(&format!(r#"{{"action":"accept","content":{content}}}"#))
}

#[test]
fn validates_local_references_composites_and_conditional_fields() {
    let request = request(
        r##"{"$schema":"https://json-schema.org/draft/2020-12/schema",
            "$defs":{"count":{"type":"integer","minimum":1}},
            "type":"object", "properties":{"count":{"$ref":"#/$defs/count"}, "name":{"type":"string"}},
            "required":["count"], "additionalProperties":false,
            "if":{"properties":{"count":{"minimum":3}}}, "then":{"required":["name"]}}"##,
    );
    assert!(validate_response(&request, &accept(r#"{"count":2}"#)).is_ok());
    assert!(validate_response(&request, &accept(r#"{"count":3,"name":"daily"}"#)).is_ok());
    for value in [r#"{"count":0}"#, r#"{"count":3}"#, r#"{"count":1.5}"#, r#"{"count":1,"other":true}"#] {
        assert!(validate_response(&request, &accept(value)).is_err());
    }
}

#[test]
fn honors_schema_draft_and_array_constraints() {
    let request = request(
        r#"{"$schema":"http://json-schema.org/draft-07/schema#", "oneOf":[
                {"type":"array", "items":{"type":"boolean"}, "minItems":1, "uniqueItems":true},
                {"type":"number", "exclusiveMinimum":0, "multipleOf":0.5}
            ]}"#,
    );
    for value in ["[true,false]", "0.5"] {
        assert!(validate_response(&request, &accept(value)).is_ok());
    }
    for value in ["[]", "[true,true]", "[1]", "0", "0.3"] {
        assert!(validate_response(&request, &accept(value)).is_err());
    }
}

#[test]
fn external_references_invalid_schemas_and_bad_content_fail_without_io() {
    for schema in [
        r#"{"$ref":"file:///etc/passwd"}"#,
        r#"{"$ref":"https://example.com/schema"}"#,
        r#"{"type":7}"#,
        r#"{"$schema":"https://example.com/custom-dialect"}"#,
        r#"{"type":"string","format":"unknown-format"}"#,
    ] {
        let request = request(schema);
        assert!(validate_response(&request, &accept("{}")).is_err());
        for action in ["decline", "cancel"] {
            assert!(validate_response(
                &request,
                &result(&format!(r#"{{"action":"{action}","content":null}}"#))
            )
            .is_ok());
        }
    }
    assert!(validate_response(&request("false"), &accept("{}")).is_err());
    assert!(validate_response(&request("{}"), &result(r#"{"action":"accept"}"#)).is_err());
}

#[test]
fn refusals_have_their_words() {
    let words = |request: &FormRequest, response: &FormResponse| match plan(request, response) {
        FormPlan::Refuse(HarnessError::Protocol(message)) => message,
        other => panic!("expected a refusal, got {other:?}"),
    };
    assert_eq!(
        words(&request("{}"), &result(r#"{"action":"maybe"}"#)),
        "MCP form: response requires accept, decline, or cancel action"
    );
    assert_eq!(
        words(&request("{}"), &result(r#"{"action":"accept"}"#)),
        "MCP form: accepted response omitted content"
    );
    let mut other = request("{}");
    other.params = j(r#"{"mode":"form"}"#);
    assert_eq!(words(&other, &accept("{}")), "MCP form: request omitted requestedSchema");
    other.params = j(r#"{"mode":"page"}"#);
    assert_eq!(words(&other, &accept("{}")), "MCP form: unsupported elicitation mode");
    other.params = j(r#"{"mode":"url"}"#);
    assert!(matches!(plan(&other, &accept("{}")), FormPlan::Pass));
    other.method = "item/tool/requestUserInput".into();
    assert!(matches!(plan(&other, &result("{}")), FormPlan::Pass));
    let error = FormResponse::Error { code: -1, message: "no".into() };
    assert!(matches!(plan(&request("{}"), &error), FormPlan::Pass));
}

#[test]
fn verdicts_are_pronounced() {
    assert_eq!(pronounce(FormVerdict::Fits), Ok(()));
    assert_eq!(
        pronounce(FormVerdict::Unusable("why".into())),
        Err(HarnessError::Protocol("MCP form: schema cannot be validated: why".into()))
    );
    assert_eq!(
        pronounce(FormVerdict::Fails { place: "/count".into(), complaint: "too small".into() }),
        Err(HarnessError::Protocol("MCP form: /count: too small".into()))
    );
    match validate_response(
        &request(r#"{"properties":{"count":{"minimum":2}}}"#),
        &accept(r#"{"count":1}"#),
    ) {
        Err(HarnessError::Protocol(message)) => assert!(message.starts_with("MCP form: /count: "), "{message}"),
        other => panic!("expected a failure, got {other:?}"),
    }
}
