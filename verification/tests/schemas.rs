use giskard::dynamic_tools::{DynamicToolConfig, DynamicToolNamespaceConfig, Registry};
use giskard::error::HarnessError;
use giskard::json::Json;
use giskard::mcp_forms::{validate_response, FormRequest, FormResponse};
use giskard::parts::{children, holds, parts, parts_inside};
use giskard::patterns::is_plain_pattern;
use giskard::protocol::DynamicToolCallParams;
use giskard::schema_shape::is_usable;
use giskard::steady::is_steady;

fn j(text: &str) -> Json {
    Json::read(text.as_bytes()).unwrap()
}

fn usable(text: &str) -> bool {
    is_usable(&j(text))
}

fn register(schema: &str) -> Result<Registry, String> {
    Registry::from_config(vec![DynamicToolNamespaceConfig {
        name: "local".into(),
        description: "".into(),
        tools: vec![DynamicToolConfig {
            name: "tool".into(),
            description: "".into(),
            input_schema: j(schema),
            command: "/bin/true".into(),
            cwd: "/".into(),
            args: vec![],
            timeout_ms: 1,
        }],
    }])
}

fn call(arguments: &str) -> DynamicToolCallParams {
    DynamicToolCallParams {
        namespace: Some("local".into()),
        tool: "tool".into(),
        arguments: j(arguments),
        thread_id: "t".into(),
        turn_id: "u".into(),
        call_id: "c".into(),
    }
}

#[test]
fn parts_are_found_at_every_depth() {
    let doc = j(r#"{"a":[1,{"b":null}],"c":"x"}"#);
    assert_eq!(children(&doc).len(), 2);
    assert_eq!(parts_inside(&doc).len(), 5);
    assert_eq!(parts(&doc).len(), 6);
    assert!(holds(&doc, "b"));
    assert!(!holds(&doc, "x"));
    let shadowed = Json::Object(vec![("a".into(), Json::Null), ("a".into(), Json::Bool(true))]);
    assert_eq!(children(&shadowed).len(), 1);
    assert!(matches!(children(&shadowed)[0], Json::Bool(true)));
}

#[test]
fn circles_at_the_same_value_are_refused() {
    for schema in [
        r##"{"allOf":[{"$ref":"#"}]}"##,
        r##"{"anyOf":[{"type":"string"},{"not":{"$ref":"#"}}]}"##,
        r##"{"if":{"type":"object"},"then":{"oneOf":[{"$ref":"#"}]}}"##,
        r##"{"dependentSchemas":{"a":{"$ref":"#"}}}"##,
        r##"{"dependencies":{"a":{"$ref":"#"}}}"##,
        r##"{"allOf":[{"$dynamicRef":"#"}]}"##,
        r##"{"$schema":"https://json-schema.org/draft/2019-09/schema","allOf":[{"$recursiveRef":"#"}]}"##,
        r##"{"$schema":"http://json-schema.org/draft-07/schema#","allOf":[{"$ref":"#"}]}"##,
        r##"{"$ref":"#/$defs/a","$defs":{"a":{"$ref":"#/$defs/b"},"b":{"if":{"type":"string"},"else":{"$ref":"#/$defs/a"}}}}"##,
        r##"{"$ref":"#here","$defs":{"a":{"$anchor":"here","allOf":[{"$ref":"#here"}]}}}"##,
        r##"{"allOf":[{"$ref":""}]}"##,
        r##"{"allOf":[{"$ref":"json-schema:///"}]}"##,
        r##"{"$id":"https://example.com/s","allOf":[{"$ref":"https://example.com/s"}]}"##,
        r##"{"$id":"form","allOf":[{"$ref":"form"}]}"##,
        r##"{"$ref":"#/$defs/a~1b","$defs":{"a/b":{"not":{"$ref":"#/$defs/a~1b"}}}}"##,
        r##"{"$ref":"#/$defs/a%20b","$defs":{"a b":{"not":{"$ref":"#/$defs/a%20b"}}}}"##,
        r##"{"allOf":[{"not":{"$ref":"#/allOf/0"}}]}"##,
        r##"{"$schema":"http://json-schema.org/draft-07/schema#","$id":"b/c","$ref":"#/definitions/d",
            "definitions":{"d":{"$ref":"json-schema:///"}}}"##,
        r##"{"$ref":"#/$defs/d","$defs":{"d":{"if":{"$ref":"#/$defs/d"},"unevaluatedProperties":false}}}"##,
    ] {
        assert!(!usable(schema), "{schema}");
        assert_eq!(
            register(schema).unwrap_err(),
            "invalid inputSchema for tool: its references or keywords have no bound"
        );
        let request = FormRequest {
            method: "mcpServer/elicitation/request".into(),
            params: j(&format!(r#"{{"mode":"form","requestedSchema":{schema}}}"#)),
        };
        let answer = FormResponse::Result { value: j(r#"{"action":"accept","content":{}}"#) };
        assert_eq!(
            validate_response(&request, &answer),
            Err(HarnessError::Protocol(
                "MCP form: schema cannot be validated: its references or keywords have no bound".into()
            ))
        );
    }
}

#[test]
fn recursion_into_the_value_is_kept() {
    let tree = r##"{"type":"object","properties":{"name":{"type":"string"},
        "children":{"type":"array","items":{"$ref":"#"}}},"required":["name"]}"##;
    assert!(usable(tree));
    let registry = register(tree).unwrap();
    assert!(registry.executor(&call(r#"{"name":"a","children":[{"name":"b","children":[]}]}"#)).is_ok());
    assert_eq!(
        registry.executor(&call(r#"{"name":"a","children":[{"children":[]}]}"#)).unwrap_err(),
        "dynamic tool arguments do not match inputSchema at /children/0"
    );
    for schema in [
        r##"{"$defs":{"node":{"properties":{"next":{"$ref":"#/$defs/node"}}}},"$ref":"#/$defs/node"}"##,
        r##"{"$id":"https://example.com/tree","properties":{"next":{"$ref":"#"}}}"##,
        r##"{"$defs":{"n":{"$anchor":"node","properties":{"next":{"$ref":"#node"}}}},"$ref":"#node"}"##,
        r##"{"$schema":"https://json-schema.org/draft/2019-09/schema","$recursiveAnchor":true,
            "properties":{"next":{"$recursiveRef":"#"}}}"##,
        r##"{"$defs":{"a~b":{"type":"object"}},"$ref":"#/$defs/a~0b"}"##,
        r##"{"allOf":[{"type":"object"},{"$ref":"#/allOf/0"}]}"##,
        r##"{"properties":{"s":{"$ref":"http://json-schema.org/draft-07/schema#"}},
            "$schema":"http://json-schema.org/draft-07/schema#"}"##,
        r##"{"properties":{"id":{"type":"string"},"n":{"$ref":"#"}},"default":{"id":"x"}}"##,
    ] {
        assert!(usable(schema), "{schema}");
        let registry = register(schema).unwrap();
        assert!(registry.executor(&call(r#"{"next":{"next":{}},"n":{"n":{}}}"#)).is_ok(), "{schema}");
    }
}

#[test]
fn circles_that_are_never_run_through_are_kept() {
    for schema in [
        r##"{"$ref":"#"}"##,
        r##"{"$dynamicRef":"#"}"##,
        r##"{"$recursiveRef":"#"}"##,
        r##"{"then":{"$ref":"#"}}"##,
        r##"{"$defs":{"a":{"allOf":[{"$ref":"#/$defs/a"}]}}}"##,
        r##"{"default":{"allOf":[{"$ref":"#"}]}}"##,
        r##"{"$schema":"http://json-schema.org/draft-07/schema#","definitions":{"a":{}},
            "$ref":"#/definitions/a","allOf":[{"$ref":"#"}]}"##,
        r##"{"$schema":"http://json-schema.org/draft-07/schema#","if":{"$ref":"#"}}"##,
        r##"{"$defs":{"other":{"$id":"a/","properties":{"b":{"$ref":"#"}}}},"properties":{"a":{"type":"integer"}}}"##,
    ] {
        assert!(usable(schema), "{schema}");
        let registry = register(schema).unwrap();
        assert!(registry.executor(&call(r#"{"a":1}"#)).is_ok(), "{schema}");
    }
}

#[test]
fn what_breaks_the_checks_is_refused() {
    for schema in [
        r##"{"$dynamicRef":"#","unevaluatedProperties":false}"##,
        r##"{"$ref":"#","unevaluatedItems":false}"##,
        r##"{"$schema":"https://json-schema.org/draft/2019-09/schema","$ref":"#","unevaluatedProperties":false}"##,
        r##"{"$schema":"http://json-schema.org/draft-07/schema#",
            "properties":{"a":{"$recursiveAnchor":true,"$ref":"#"}}}"##,
        r##"{"$defs":{"t":true},"$ref":"#/$defs/t","unevaluatedProperties":false}"##,
        r##"{"patternProperties":{"^(?=a)":true},"unevaluatedProperties":false}"##,
        r##"{"patternProperties":{"(a)\\1":true},"unevaluatedProperties":false}"##,
        r##"{"$schema":"https://json-schema.org/draft/2019-09/schema","items":true,"unevaluatedItems":false}"##,
        r##"{"properties":{"a":{"$id":"b/","properties":{"c":{"$ref":"#"}}}}}"##,
        r##"{"$id":"a/","properties":{"c":{"$ref":"#"}}}"##,
        r##"{"$schema":"http://json-schema.org/draft-07/schema#","$ref":"#/$defs/e","$defs":{"d":{"$ref":"#"},
            "e":{"$id":"https://example.com/s","properties":{"b":{"$ref":"#/$defs/d"}}}}}"##,
        r##"{"$ref":"#/$defs/e","unevaluatedProperties":{"properties":{"a":{"$ref":"#/$defs/e"}}},
            "$defs":{"e":{"if":{"$ref":"#nowhere"}}}}"##,
        r##"{"$ref":"https://example.com/s","unevaluatedProperties":false,"$defs":{"s":{"$id":"https://example.com/s",
            "$ref":"#/$defs/t","$defs":{"t":{"properties":{"a":true}}}}}}"##,
        r##"{"properties":{"a":{"$schema":"http://json-schema.org/draft-07/schema#","$ref":"#"}}}"##,
    ] {
        assert!(!usable(schema), "{schema}");
        assert!(register(schema).is_err());
    }
}

#[test]
fn patterns_that_look_around_are_told_apart() {
    for pattern in [
        "^a", "", "a*b+?c{1,2}", r"\d+", r"\p{L}+", r"\x{41}+", r"\u{1F600}*", "(a+)+", "(?:a)", "(?i)a", "(?im-s:a)", "(?<n>a)",
        "(?P<n>a)", "[(?=a)]", r"[\b]", r"[[a]\]]", r"\(?=", r"\\d", "[a-z]+",
    ] {
        assert!(is_plain_pattern(pattern), "{pattern}");
    }
    for pattern in [
        "(?=a)", "(?!a)", "(?<=a)", "(?<!a)", "(?>a)", "(?P=n)", "(?(1)a)", "(?x)a", r"(a)\1", r"\ba", r"a\B", r"\<a", "a++", "a*+",
        "a?+", "a{1}+", r"[a]\1", r"\\(?=a)",
    ] {
        assert!(!is_plain_pattern(pattern), "{pattern}");
    }
}

#[test]
fn what_is_left_over_is_told_apart() {
    for schema in [
        r##"{"$defs":{"base":{"properties":{"a":{"type":"string"}}}},
            "allOf":[{"$ref":"#/$defs/base"}],"unevaluatedProperties":false}"##,
        r##"{"$defs":{"base":{"properties":{"a":{"type":"string"}}}},
            "$ref":"#/$defs/base","unevaluatedProperties":false}"##,
        r##"{"properties":{"a":true},"unevaluatedProperties":false}"##,
        r##"{"patternProperties":{"^a":{}},"unevaluatedProperties":false}"##,
        r##"{"patternProperties":{"^[ac-z]{1}$":{"type":"string"}},"unevaluatedProperties":false}"##,
        r##"{"patternProperties":{"(?i)^A+$":{"type":"string"}},"unevaluatedProperties":false}"##,
        r##"{"patternProperties":{"^(?:a|\\p{Lu}+)$":{"type":"string"}},"unevaluatedProperties":false}"##,
        r##"{"$schema":"https://json-schema.org/draft/2019-09/schema",
            "patternProperties":{"^a":{}},"unevaluatedProperties":false}"##,
        r##"{"$ref":"https://example.com/s","unevaluatedProperties":false,
            "$defs":{"s":{"$id":"https://example.com/s","properties":{"a":true}}}}"##,
    ] {
        assert!(usable(schema), "{schema}");
        let registry = register(schema).unwrap();
        assert!(registry.executor(&call(r#"{"a":"x"}"#)).is_ok(), "{schema}");
        assert!(registry.executor(&call(r#"{"a":"x","b":1}"#)).is_err(), "{schema}");
    }
    let nested = r##"{"properties":{"a":{"$ref":"#"}},"unevaluatedProperties":false}"##;
    assert!(usable(nested));
    let registry = register(nested).unwrap();
    assert!(registry.executor(&call(r#"{"a":{"a":{}}}"#)).is_ok());
    assert!(registry.executor(&call(r#"{"a":{"b":{}}}"#)).is_err());
    for schema in [
        r##"{"items":true,"unevaluatedItems":false}"##,
        r##"{"prefixItems":[{}],"items":false,"unevaluatedItems":false}"##,
        r##"{"$schema":"https://json-schema.org/draft/2019-09/schema","items":[{}],"unevaluatedItems":false}"##,
    ] {
        assert!(usable(schema), "{schema}");
        assert!(register(schema).unwrap().executor(&call("[1]")).is_ok(), "{schema}");
    }
}

#[test]
fn references_are_read_in_every_spelling() {
    for schema in [
        r##"{"$defs":{"a b":{"type":"string"}},"properties":{"a":{"$ref":"#/$defs/a%20b"}}}"##,
        r##"{"$id":"form","$defs":{"text":{"type":"string"}},"properties":{"a":{"$ref":"#/$defs/text"}}}"##,
        r##"{"$id":"https://example.com/s","$defs":{"text":{"type":"string"}},
            "properties":{"a":{"$ref":"https://example.com/s#/$defs/text"}}}"##,
        r##"{"$defs":{"text":{"$anchor":"text","type":"string"}},"properties":{"a":{"$ref":"#text"}}}"##,
        r##"{"$schema":"http://json-schema.org/draft-07/schema#","definitions":{"text":{"$id":"#text","type":"string"}},
            "properties":{"a":{"$ref":"#text"}}}"##,
    ] {
        assert!(usable(schema), "{schema}");
        let registry = register(schema).unwrap();
        assert!(registry.executor(&call(r#"{"a":"x"}"#)).is_ok(), "{schema}");
        assert!(registry.executor(&call(r#"{"a":1}"#)).is_err(), "{schema}");
    }
    for schema in [
        r##"{"type":"object","properties":{"a":{"$ref":""}}}"##,
        r##"{"$id":"https://example.com/s","type":"object","properties":{"a":{"$ref":"https://example.com/s"}}}"##,
        r##"{"$id":"form","type":"object","properties":{"a":{"$ref":"form"}}}"##,
        r##"{"$ref":"#/$defs/node","$defs":{"node":{"$id":"https://example.com/node","type":"object",
            "properties":{"a":{"$ref":"#"}}}}}"##,
        r##"{"$id":"https://example.com/tree","$dynamicAnchor":"node","type":"object",
            "properties":{"a":{"$dynamicRef":"#node"}}}"##,
        r##"{"$id":"https://example.com/root","$ref":"item","$defs":{
            "item":{"$id":"https://example.com/item","allOf":[{"$ref":"#/$defs/base"}],"$defs":{"base":{"type":"object"}},
                "properties":{"a":{"$ref":"#"}}}}}"##,
    ] {
        assert!(usable(schema), "{schema}");
        let registry = register(schema).unwrap();
        assert!(registry.executor(&call(r#"{"a":{"a":{}}}"#)).is_ok(), "{schema}");
        assert!(registry.executor(&call(r#"{"a":{"a":1}}"#)).is_err(), "{schema}");
    }
}

#[test]
fn forms_with_references_are_held_against_their_answers() {
    for (schema, good, bad) in [
        (r##"{"patternProperties":{"^a":{}},"unevaluatedProperties":false}"##, r#"{"a":"x"}"#, r#"{"b":"x"}"#),
        (
            r##"{"$id":"form","$defs":{"count":{"type":"object"}},"$ref":"#/$defs/count","required":["n"]}"##,
            r#"{"n":1}"#,
            "{}",
        ),
        (r##"{"properties":{"a":{"$ref":"#"}},"unevaluatedProperties":false}"##, r#"{"a":{}}"#, r#"{"b":{}}"#),
    ] {
        let request = FormRequest {
            method: "mcpServer/elicitation/request".into(),
            params: j(&format!(r#"{{"mode":"form","requestedSchema":{schema}}}"#)),
        };
        let answer = |content: &str| FormResponse::Result {
            value: j(&format!(r#"{{"action":"accept","content":{content}}}"#)),
        };
        assert_eq!(validate_response(&request, &answer(good)), Ok(()), "{schema}");
        assert!(validate_response(&request, &answer(bad)).is_err(), "{schema}");
    }
}

#[test]
fn chains_of_references_may_be_long() {
    let chain = |length: usize, last: &str| {
        let links: Vec<String> = (0..length)
            .map(|n| format!(r##""d{n}":{{"$ref":"#/$defs/d{}"}}"##, n + 1))
            .collect();
        format!(r##"{{"$defs":{{{},"d{length}":{last}}},"$ref":"#/$defs/d0"}}"##, links.join(","))
    };
    let schema = chain(100, r#"{"required":["a"]}"#);
    assert!(usable(&schema));
    let registry = register(&schema).unwrap();
    assert!(registry.executor(&call(r#"{"a":1}"#)).is_ok());
    assert!(registry.executor(&call("{}")).is_err());
    assert!(!usable(&chain(100, r##"{"$ref":"#/$defs/d0"}"##)));
}

#[test]
fn unknown_and_foreign_references_are_left_to_the_compiler() {
    for schema in [
        r##"{"$ref":"#/nowhere"}"##,
        r##"{"$ref":"https://example.com/schema"}"##,
        r##"{"$ref":"file:///etc/passwd"}"##,
        r##"{"$ref":5}"##,
        r##"{"$ref":"other.json"}"##,
        r##"{"$ref":"#/a%20b"}"##,
        r##"{"$schema":"https://example.com/dialect","allOf":[{"$ref":"#"}]}"##,
    ] {
        assert!(usable(schema), "{schema}");
        assert!(register(schema).unwrap_err().starts_with("invalid inputSchema for tool: "));
    }
}

#[test]
fn long_lists_with_a_possible_negative_zero_are_not_steady() {
    let list = |last: &str| {
        let mut items: Vec<String> = (1..16).map(|n| n.to_string()).collect();
        items.push(last.to_owned());
        j(&format!("[{}]", items.join(",")))
    };
    for doubtful in ["-0.0", "-1e-300", "[-0.0]", r#"{"a":-0.0}"#] {
        assert!(!is_steady(&list(doubtful)), "{doubtful}");
        assert!(is_steady(&j(&format!("[{doubtful}]"))), "{doubtful}");
    }
    for sure in ["0", "-1", "0.0", "-1.5", "-1e-7", "\"-0.0\""] {
        assert!(is_steady(&list(sure)), "{sure}");
    }
    assert!(is_usable(&Json::object().with("enum", list("-0.0"))));
    let registry = register(r#"{"uniqueItems":true}"#).unwrap();
    assert!(registry.executor(&call("[1,2,3,4,5,6,7,8,9,10,11,12,13,14,15,16]")).is_ok());
    assert!(registry.executor(&call("[1,2,3,4,5,6,7,8,9,10,11,12,13,14,15,15.0]")).is_err());
}
