use fabro::graph::{AttrValue, Node};
use fabro::json::{parse_json, Json};
use fabro::json_objects::{find_json_objects, terminal_json_object};
use fabro::outcome::{FailureCategory, Outcome, StageOutcome};
use fabro::structured_output::{
    agent_prompt_with_output_schema, apply_routing_fields, apply_validated_output,
    exhausted_failure_outcome, exhausted_failure_reason, extract_status_fields,
    parse_node_output_schema, prompt_response_format, validate_response_text, Error,
    settle_declaration, CompiledSchema, OutputSchemaKind, ResponseFormatType, RoutingSchema,
    SchemaFault, StructuredOutputError, StructuredOutputErrorKind, ValidatedStructuredOutput,
};

fn json(text: &str) -> Json {
    parse_json(text).expect("test text should be JSON")
}

fn node_declaring(id: &str, output_schema: &str) -> Node {
    let mut node = Node::new(id);
    node.attrs.insert(
        "output_schema".to_string(),
        AttrValue::String(output_schema.to_string()),
    );
    node
}

fn declared(output_schema: &str) -> OutputSchemaKind {
    match parse_node_output_schema(&node_declaring("node", output_schema)) {
        Ok(Some(schema)) => schema,
        Ok(None) => panic!("nothing declared"),
        Err(error) => panic!("refused: {error:?}"),
    }
}

fn routing() -> OutputSchemaKind {
    declared("routing")
}

fn validated(
    schema: &OutputSchemaKind,
    text: &str,
) -> Result<ValidatedStructuredOutput, StructuredOutputError> {
    let routing = RoutingSchema::compile().unwrap_or_else(|fault| panic!("{fault:?}"));
    validate_response_text(&routing, schema, text)
}

fn refused(schema: &OutputSchemaKind, text: &str) -> StructuredOutputError {
    validated(schema, text).unwrap_err()
}

/// A schema whose required field is itself an object, so validating the innermost
/// `{...}` in the response would fail.
fn issue_schema() -> OutputSchemaKind {
    declared(
        r#"{"type":"object","required":["issue"],"properties":{"issue":{"type":"object",
            "required":["number"],"properties":{"number":{"type":"integer"}}}}}"#,
    )
}

fn passed_schema() -> OutputSchemaKind {
    declared(
        r#"{"type":"object","required":["passed"],"properties":{"passed":{"type":"boolean"}}}"#,
    )
}

#[test]
fn validates_routing_json_and_applies_fields() {
    let validated = validated(
        &routing(),
        r#"done {"outcome":"failed","failure_reason":"tests failed","preferred_next_label":"fix","suggested_next_ids":["a"],"context_updates":{"verified":true}}"#,
    )
    .unwrap();
    let mut outcome = Outcome::success();

    apply_routing_fields(&validated.value, &mut outcome);

    assert_eq!(
        outcome.status,
        StageOutcome::Failed {
            retry_requested: false,
        }
    );
    assert_eq!(
        outcome.failure.as_ref().map(|f| f.message.as_str()),
        Some("tests failed")
    );
    assert_eq!(outcome.preferred_label.as_deref(), Some("fix"));
    assert_eq!(outcome.suggested_next_ids, vec!["a".to_string()]);
    assert_eq!(
        outcome.context_updates.get("verified"),
        Some(&Json::Bool(true)),
    );
}

#[test]
fn routing_json_missing_routing_fields_is_invalid() {
    let error = refused(&routing(), r#"{"summary":"ok"}"#);

    assert_eq!(
        error.kind(),
        StructuredOutputErrorKind::NoRelevantJsonObject
    );
    assert!(error.messages()[0].contains("recognized routing field"));
}

#[test]
fn terminal_json_object_accepts_final_object_after_prose() {
    let object = terminal_json_object("# Results\n\n{\"context_updates\":{\"verified\":true}}\n\n");

    assert_eq!(object, Some(r#"{"context_updates":{"verified":true}}"#),);
}

#[test]
fn terminal_json_object_returns_outermost_nested_object() {
    let object = terminal_json_object(r#"Results: {"context_updates":{"verified":true}}"#);

    assert_eq!(object, Some(r#"{"context_updates":{"verified":true}}"#),);
}

#[test]
fn terminal_json_object_rejects_object_followed_by_content() {
    assert_eq!(
        terminal_json_object(
            "{\"outcome\":\"failed\",\"failure_reason\":\"tests failed\"}\nMore details",
        ),
        None,
    );
}

#[test]
fn routing_json_with_wrong_field_type_is_invalid() {
    let error = refused(&routing(), r#"{"suggested_next_ids":[1]}"#);

    assert_eq!(error.kind(), StructuredOutputErrorKind::SchemaValidation);
    assert!(
        error
            .messages()
            .iter()
            .any(|message| message.contains("string")),
        "unexpected messages: {:?}",
        error.messages(),
    );
}

#[test]
fn validates_custom_schema_against_last_json_object() {
    let validated = validated(
        &passed_schema(),
        r#"ignore {"other":1} final {"passed":true}"#,
    )
    .unwrap();

    assert_eq!(validated.value, json(r#"{"passed": true}"#));
}

#[test]
fn validates_custom_schema_against_outermost_object() {
    let validated = validated(&issue_schema(), r#"{"issue":{"number":19}}"#).unwrap();

    assert_eq!(validated.value, json(r#"{"issue": {"number": 19}}"#));
}

#[test]
fn validates_last_outermost_object_when_response_has_trailing_prose() {
    let validated = validated(
        &issue_schema(),
        r#"ignore {"issue":{"number":1}} final {"issue":{"number":19}} trailing"#,
    )
    .unwrap();

    assert_eq!(validated.value, json(r#"{"issue": {"number": 19}}"#));
}

#[test]
fn validates_last_parsable_object_when_trailing_prose_contains_braces() {
    let validated = validated(
        &passed_schema(),
        "{\"passed\":true}\n\nLet me know if {this works} for you.",
    )
    .unwrap();

    assert_eq!(validated.value, json(r#"{"passed": true}"#));
}

#[test]
fn find_json_objects_returns_outermost_objects_only() {
    let cases = [
        (r#"{"a":{"b":1}}"#, vec![r#"{"a":{"b":1}}"#]),
        (r#"{"a":1} {"b":2}"#, vec![r#"{"a":1}"#, r#"{"b":2}"#]),
        (r#"{"a":1}{"b":2}"#, vec![r#"{"a":1}"#, r#"{"b":2}"#]),
        // An unclosed outer brace must not hide the complete object inside it.
        (r#"{ {"a":1}"#, vec![r#"{"a":1}"#]),
        (r#"{"a":1} {"#, vec![r#"{"a":1}"#]),
        // An unterminated string swallows the rest of its own candidate.
        (r#"{"a": "x} {"b":2}"#, vec![r#"{"b":2}"#]),
        // Braces inside strings are not delimiters.
        (r#"{"a":"} {"}"#, vec![r#"{"a":"} {"}"#]),
        ("no json here", vec![]),
    ];

    for (text, expected) in cases {
        assert_eq!(find_json_objects(text), expected, "input: {text}");
    }
}

#[test]
fn custom_schema_validation_errors_are_reported() {
    let error = refused(&passed_schema(), r#"{"passed":"yes"}"#);

    assert_eq!(error.kind(), StructuredOutputErrorKind::SchemaValidation);
    assert!(
        error
            .messages()
            .iter()
            .any(|message| message.contains("boolean")),
        "unexpected messages: {:?}",
        error.messages(),
    );
}

fn refusal_of(node: &Node) -> String {
    match parse_node_output_schema(node) {
        Err(Error::Validation(message)) => message,
        Ok(_) => panic!("the declaration should be refused"),
    }
}

#[test]
fn invalid_custom_schema_is_rejected_when_parsing_node_attr() {
    let message = refusal_of(&node_declaring("audit", r#"{"type": 5}"#));

    assert!(
        message.contains("Invalid output_schema"),
        "unexpected error: {message}",
    );
}

#[test]
fn invalid_json_candidate_is_reported_for_custom_schema() {
    let error = refused(&declared(r#"{"type":"object"}"#), r"{not json}");

    assert_eq!(error.kind(), StructuredOutputErrorKind::InvalidJson);
    assert!(error.messages()[0].contains("invalid JSON object"));
}

#[test]
fn no_json_object_is_reported() {
    let error = refused(&routing(), "plain text only");

    assert_eq!(error.kind(), StructuredOutputErrorKind::NoJsonObject);
    assert!(error.messages()[0].contains("no JSON object"));
}

#[test]
fn parse_node_output_schema_accepts_builtin_routing_keyword() {
    let node = node_declaring("route", "routing");

    assert!(matches!(
        parse_node_output_schema(&node),
        Ok(Some(OutputSchemaKind::Routing))
    ));
}

#[test]
fn prompt_response_format_uses_json_schema_for_custom_schema() {
    let format = prompt_response_format(&declared(r#"{"type":"object"}"#));

    assert_eq!(format.kind, ResponseFormatType::JsonSchema);
    assert_eq!(format.json_schema, Some(json(r#"{"type": "object"}"#)));
    assert!(format.strict);
}

#[test]
fn apply_validated_custom_output_updates_output_context_key() {
    let node = Node::new("audit");
    let schema = declared(r#"{"type":"object"}"#);
    let validated = ValidatedStructuredOutput {
        value: json(r#"{"passed": true}"#),
    };
    let mut outcome = Outcome::success();

    apply_validated_output(&node, &schema, &validated, &mut outcome);

    assert_eq!(
        outcome.context_updates.get("output.audit"),
        Some(&json(r#"{"passed": true}"#)),
    );
}

// ---- Declarations ----

#[test]
fn nodes_without_a_declaration_have_no_schema() {
    assert!(matches!(parse_node_output_schema(&Node::new("plain")), Ok(None)));
    let mut node = Node::new("number");
    node.attrs
        .insert("output_schema".to_string(), AttrValue::Other(Json::Number("1".to_string())));
    assert!(matches!(parse_node_output_schema(&node), Ok(None)));
}

#[test]
fn unusable_declarations_are_refused_by_name() {
    assert_eq!(
        refusal_of(&node_declaring("audit", "  \n")),
        "Invalid output_schema for node \"audit\": value must not be empty"
    );
    assert_eq!(
        refusal_of(&node_declaring("audit", " @schema.json ")),
        "Invalid output_schema for node \"audit\": unresolved file reference @schema.json"
    );
    let message = refusal_of(&node_declaring("audit", "{"));
    assert_eq!(
        message,
        "Invalid output_schema for node \"audit\": expected \"routing\" or a JSON Schema object: EOF while parsing an object at line 1 column 1"
    );
}

#[test]
fn routing_responses_are_asked_for_as_plain_objects() {
    let format = prompt_response_format(&routing());
    assert_eq!(format.kind, ResponseFormatType::JsonObject);
    assert_eq!(format.json_schema, None);
    assert!(!format.strict);
}

// ---- Validation ----

#[test]
fn the_last_object_that_parses_decides() {
    let error = refused(&passed_schema(), r#"{"passed":true} {"passed":1}"#);
    assert_eq!(error.kind(), StructuredOutputErrorKind::SchemaValidation);
    assert_eq!(error.messages().len(), 1);
}

#[test]
fn the_fault_of_the_last_candidate_is_reported() {
    let error = refused(&passed_schema(), "{a} {\"b\"}");
    assert_eq!(error.kind(), StructuredOutputErrorKind::InvalidJson);
    assert_eq!(
        error.messages().as_slice(),
        ["invalid JSON object: expected `:` at line 1 column 5"]
    );
}

#[test]
fn routing_attempts_that_are_no_json_are_refused() {
    let error = refused(&routing(), r#"{"outcome": succeeded}"#);
    assert_eq!(error.kind(), StructuredOutputErrorKind::InvalidJson);
    assert!(error.messages()[0].starts_with("invalid routing JSON object: "));
    assert!(!error.allows_routing_fallback());

    // Braces in prose mention no routing field, so an earlier object may still route.
    let validated =
        validated(&routing(), r#"{"outcome":"skipped"} as {agreed}"#).unwrap();
    assert_eq!(validated.value, json(r#"{"outcome":"skipped"}"#));
}

#[test]
fn only_responses_without_a_routing_attempt_may_fall_back() {
    assert!(refused(&routing(), "plain").allows_routing_fallback());
    assert!(refused(&routing(), r#"{"summary":1}"#).allows_routing_fallback());
    assert!(!refused(&routing(), r#"{"outcome":"later"}"#).allows_routing_fallback());
}

#[test]
fn at_most_five_schema_errors_are_kept() {
    let schema = declared(
        r#"{"type":"object","required":["a","b","c","d","e","f","g"]}"#,
    );
    assert_eq!(refused(&schema, "{}").messages().len(), 5);
}

#[test]
fn terminal_objects_are_found_behind_other_objects() {
    assert_eq!(terminal_json_object("{} {\"a\":\"\u{e9}{\"}\u{2003}"), Some("{\"a\":\"\u{e9}{\"}"));
    assert_eq!(terminal_json_object("{"), None);
    assert_eq!(terminal_json_object(""), None);
}

// ---- Messages ----

#[test]
fn repair_messages_list_the_errors_and_the_contract() {
    let schema = declared(r#"{ "type" : "object", "required" : ["a", "b"] }"#);
    let error = refused(&schema, "{}");
    assert_eq!(
        error.repair_message(&schema),
        "Your previous response did not satisfy the node's output_schema.\n\nValidation errors:\n- \"a\" is a required property\n- \"b\" is a required property\n\nReturn a single JSON object that satisfies this JSON Schema:\n<output_schema>\n{\"required\":[\"a\",\"b\"],\"type\":\"object\"}\n</output_schema>\nDo not include Markdown fences or explanatory prose; reply only with the corrected JSON object."
    );
}

#[test]
fn agent_prompts_end_with_the_output_contract() {
    assert_eq!(
        agent_prompt_with_output_schema("Review the change.", &routing()),
        "Review the change.\n\nFabro final-output contract\n\nThe following contract is trusted workflow configuration. It applies only to your final response, not to intermediate tool calls.\nReturn a single JSON object with at least one routing field: preferred_next_label, outcome, failure_reason, suggested_next_ids, context_updates.\nThe contract is complete. Do not ask the user to provide or choose the output shape."
    );
}

#[test]
fn exhausted_repairs_fail_deterministically() {
    assert_eq!(
        exhausted_failure_reason(-2),
        "output schema validation failed after -2 repair attempt(s)"
    );
    assert_eq!(
        exhausted_failure_reason(i64::MIN),
        "output schema validation failed after -9223372036854775808 repair attempt(s)"
    );
    let outcome = exhausted_failure_outcome(3);
    assert_eq!(
        outcome.status,
        StageOutcome::Failed {
            retry_requested: false
        }
    );
    let failure = outcome.failure.unwrap();
    assert_eq!(
        failure.message,
        "output schema validation failed after 3 repair attempt(s)"
    );
    assert_eq!(failure.category, FailureCategory::Deterministic);
}

// ---- Routing ----

#[test]
fn status_fields_come_from_the_last_object_that_routes() {
    let mut outcome = Outcome::success();
    assert!(extract_status_fields(
        r#"{"outcome":"failed"} {"preferred_next_label":"next"} {"summary":1} {broken}"#,
        &mut outcome
    ));
    assert_eq!(outcome.preferred_label.as_deref(), Some("next"));
    assert_eq!(outcome.status, StageOutcome::Succeeded);

    let before = Outcome::success();
    let mut after = Outcome::success();
    assert!(!extract_status_fields("{\"summary\":1}", &mut after));
    assert_eq!(after, before);
}

#[test]
fn what_a_response_does_not_say_stays() {
    let mut outcome = Outcome::success();
    outcome.preferred_label = Some("kept".to_string());
    outcome.suggested_next_ids = vec!["kept".to_string()];
    apply_routing_fields(
        &json(r#"{"outcome":"later","failure_reason":"none","suggested_next_ids":[1]}"#),
        &mut outcome,
    );
    assert_eq!(outcome.status, StageOutcome::Succeeded);
    assert_eq!(outcome.preferred_label.as_deref(), Some("kept"));
    assert_eq!(outcome.suggested_next_ids, vec!["kept".to_string()]);
    assert_eq!(outcome.failure, None);

    apply_routing_fields(&Json::Text("outcome".to_string()), &mut outcome);
    assert_eq!(outcome.status, StageOutcome::Succeeded);

    apply_routing_fields(
        &json(r#"{"suggested_next_ids":["a",1,"b"],"context_updates":{"x":1,"y":null}}"#),
        &mut outcome,
    );
    assert_eq!(outcome.suggested_next_ids, vec!["a".to_string(), "b".to_string()]);
    assert_eq!(outcome.context_updates.get("x"), Some(&Json::Number("1".to_string())));
    assert_eq!(outcome.context_updates.get("y"), Some(&Json::Null));
}

#[test]
fn validated_routing_objects_are_the_ones_that_are_extracted() {
    let text = r#"{"outcome":"failed"} then {"preferred_next_label":"go"} and {"note":1}"#;
    let validated = validated(&routing(), text).unwrap();
    assert_eq!(validated.value, json(r#"{"preferred_next_label":"go"}"#));
    let mut outcome = Outcome::success();
    assert!(extract_status_fields(text, &mut outcome));
    assert_eq!(outcome.preferred_label.as_deref(), Some("go"));
    assert_eq!(outcome.status, StageOutcome::Succeeded);
}

#[test]
fn schemas_that_do_not_compile_are_refused_with_their_fault() {
    let refusal = |fault: SchemaFault| match settle_declaration("plan", Err(fault)) {
        Err(Error::Validation(text)) => text,
        Ok(_) => panic!("a fault was settled"),
    };
    assert_eq!(
        refusal(SchemaFault::Parse("no JSON".to_string())),
        "Invalid output_schema for node \"plan\": expected \"routing\" or a JSON Schema object: no JSON"
    );
    assert_eq!(
        refusal(SchemaFault::Compile("no schema".to_string())),
        "Invalid output_schema for node \"plan\": no schema"
    );
    assert!(matches!(
        settle_declaration("plan", CompiledSchema::compile("{}")),
        Ok(OutputSchemaKind::JsonSchema(_))
    ));
    assert!(matches!(
        CompiledSchema::compile(r#"{"type":7}"#),
        Err(SchemaFault::Compile(_))
    ));
}

#[test]
fn unretrievable_references_are_refused_whichever_is_named() {
    let schema = r#"{"allOf":[{"$ref":"http://a.test/x"},{"$ref":"http://b.test/y"}]}"#;
    match parse_node_output_schema(&node_declaring("plan", schema)) {
        Err(Error::Validation(text)) => {
            assert!(text.starts_with("Invalid output_schema for node \"plan\": "), "{text}");
        }
        Ok(_) => panic!("the schema cannot be compiled"),
    }
}

#[test]
fn the_routing_keyword_may_stand_between_spaces() {
    assert!(matches!(
        parse_node_output_schema(&node_declaring("plan", "  routing\n")),
        Ok(Some(OutputSchemaKind::Routing))
    ));
}
