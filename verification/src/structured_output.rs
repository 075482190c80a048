//! Structured output of a stage: the schema that a node declares, the validation of a
//! response against it, and what a valid response does to the outcome of the stage.

use vstd::prelude::*;
use vstd::string::*;

use crate::graph::{attribute, AttrValue, Node};
use crate::json::{
    compact, compile, document, from_value, has_member, members_are_found_by_name, objections,
    parse_value, parsed, schema_compiles, source_schema, value_text, violations, Json, Tree,
};
use crate::json_objects::{
    find_json_objects, is_written_object, json_objects, texts_without_braces_hold_no_object,
    written_objects_are_found_whole, Piece,
};
use crate::outcome::{
    named_outcome, FailureCategory, FailureDetail, Outcome, StageOutcome,
};
use crate::text::{
    blank, contains, is_space, join, joined, occurs_at, only_blank_text_is_trimmed_away, same_text,
    signed_decimal, signed_decimal_text, text_has, trim, trimmed, trimming_undoes_white_space,
    views,
};
use crate::text_map::TextMap;

verus! {

// ---- Routing fields ----

/// The fields with which a response routes the run.
pub open spec fn routing_status_fields() -> Seq<Seq<char>> {
    seq![
        "preferred_next_label"@,
        "outcome"@,
        "failure_reason"@,
        "suggested_next_ids"@,
        "context_updates"@,
    ]
}

fn routing_fields() -> (r: Vec<String>)
    ensures
        views(r@) == routing_status_fields(),
{
    let mut r: Vec<String> = Vec::new();
    r.push("preferred_next_label".to_owned());
    r.push("outcome".to_owned());
    r.push("failure_reason".to_owned());
    r.push("suggested_next_ids".to_owned());
    r.push("context_updates".to_owned());
    proof {
        assert(views(r@) =~= routing_status_fields());
    }
    r
}

/// The document is an object with a routing field.
pub open spec fn routes(document: Tree) -> bool {
    document matches Tree::Object(members) && (has_member(members, "preferred_next_label"@)
        || has_member(members, "outcome"@) || has_member(members, "failure_reason"@) || has_member(
        members,
        "suggested_next_ids"@,
    ) || has_member(members, "context_updates"@))
}

/// Whether a value is an object with a routing field.
pub fn contains_routing_field(value: &Json) -> (b: bool)
    ensures
        b == routes(value.tree()),
{
    value.get("preferred_next_label").is_some() || value.get("outcome").is_some() || value.get(
        "failure_reason",
    ).is_some() || value.get("suggested_next_ids").is_some() || value.get(
        "context_updates",
    ).is_some()
}

/// The text mentions the name of a routing field in double quotes.
pub open spec fn mentions_routing_field(text: Seq<char>) -> bool {
    text_has(text, "\"preferred_next_label\""@) || text_has(text, "\"outcome\""@) || text_has(
        text,
        "\"failure_reason\""@,
    ) || text_has(text, "\"suggested_next_ids\""@) || text_has(text, "\"context_updates\""@)
}

/// Whether a text mentions the name of a routing field in double quotes.
pub fn raw_mentions_routing_field(candidate: &str) -> (b: bool)
    ensures
        b == mentions_routing_field(candidate@),
{
    contains(candidate, "\"preferred_next_label\"") || contains(candidate, "\"outcome\"")
        || contains(candidate, "\"failure_reason\"") || contains(
        candidate,
        "\"suggested_next_ids\"",
    ) || contains(candidate, "\"context_updates\"")
}

// ---- Schemas ----

/// The schema of a routing response.
pub const ROUTING_SCHEMA: &'static str = "{\"type\":\"object\",\"additionalProperties\":true,\
\"properties\":{\
\"preferred_next_label\":{\"type\":\"string\"},\
\"outcome\":{\"type\":\"string\",\"enum\":[\"succeeded\",\"partially_succeeded\",\"failed\",\"skipped\"]},\
\"failure_reason\":{\"type\":\"string\"},\
\"suggested_next_ids\":{\"type\":\"array\",\"items\":{\"type\":\"string\"}},\
\"context_updates\":{\"type\":\"object\"}},\
\"anyOf\":[\
{\"required\":[\"preferred_next_label\"]},\
{\"required\":[\"outcome\"]},\
{\"required\":[\"failure_reason\"]},\
{\"required\":[\"suggested_next_ids\"]},\
{\"required\":[\"context_updates\"]}]}";

/// A JSON schema with its validator, compiled once.
pub struct CompiledSchema {
    schema: Json,
    rendered: String,
    validator: jsonschema::Validator,
}

/// Why a text is no schema.
#[derive(Debug, PartialEq, Eq)]
pub enum SchemaFault {
    /// It is no JSON.
    Parse(String),
    /// It is JSON, but no schema.
    Compile(String),
}

impl CompiledSchema {
    #[verifier::type_invariant]
    spec fn wf(self) -> bool {
        self.rendered@ == compact(self.schema.tree()) && source_schema(self.validator)
            == self.schema.tree()
    }

    /// The schema.
    pub closed spec fn tree(self) -> Tree {
        self.schema.tree()
    }

    /// Compiles the schema in a text.
    pub fn compile(text: &str) -> (r: Result<CompiledSchema, SchemaFault>)
        ensures
            match parsed(text@) {
                Err(message) => r matches Err(SchemaFault::Parse(m)) && m@ == message,
                Ok(schema) => if schema_compiles(schema) {
                    r matches Ok(compiled) && compiled.tree() == schema
                } else {
                    r matches Err(SchemaFault::Compile(_))
                },
            },
    {
        let value = match parse_value(text) {
            Ok(value) => value,
            Err(message) => {
                return Err(SchemaFault::Parse(message));
            },
        };
        let validator = match compile(&value) {
            Ok(validator) => validator,
            Err(message) => {
                return Err(SchemaFault::Compile(message));
            },
        };
        let rendered = value_text(&value);
        let schema = from_value(value);
        Ok(CompiledSchema { schema, rendered, validator })
    }

    /// The schema as a JSON value.
    pub fn schema(&self) -> (r: Json)
        ensures
            r.tree() == self.tree(),
    {
        self.schema.clone()
    }

    /// The schema as compact JSON.
    pub fn text(&self) -> (r: &String)
        ensures
            r@ == compact(self.tree()),
    {
        proof {
            use_type_invariant(self);
        }
        &self.rendered
    }

    fn check(&self, value: &serde_json::Value) -> (r: Vec<String>)
        ensures
            views(r@) == violations(self.tree(), document(*value)),
    {
        proof {
            use_type_invariant(self);
        }
        objections(&self.validator, value)
    }
}

/// The built-in schema of routing responses as a JSON value.
pub open spec fn routing_schema() -> Tree {
    parsed(ROUTING_SCHEMA@)->Ok_0
}

/// The built-in schema of routing responses, compiled.
pub struct RoutingSchema {
    compiled: CompiledSchema,
}

impl RoutingSchema {
    #[verifier::type_invariant]
    spec fn wf(self) -> bool {
        parsed(ROUTING_SCHEMA@) == Ok::<Tree, Seq<char>>(self.compiled.tree())
    }

    /// Compiles the built-in schema. That it compiles is up to `serde_json` and
    /// `jsonschema`, and not stated here.
    pub fn compile() -> (r: Result<RoutingSchema, SchemaFault>)
        ensures
            match parsed(ROUTING_SCHEMA@) {
                Err(message) => r matches Err(SchemaFault::Parse(m)) && m@ == message,
                Ok(schema) => if schema_compiles(schema) {
                    r is Ok
                } else {
                    r matches Err(SchemaFault::Compile(_))
                },
            },
    {
        match CompiledSchema::compile(ROUTING_SCHEMA) {
            Ok(compiled) => Ok(RoutingSchema { compiled }),
            Err(fault) => Err(fault),
        }
    }

    /// The compiled schema: always the built-in one.
    pub fn compiled(&self) -> (r: &CompiledSchema)
        ensures
            r.tree() == routing_schema(),
    {
        proof {
            use_type_invariant(self);
        }
        &self.compiled
    }
}

/// The output schema that a node declares, with its validator.
pub enum OutputSchemaKind {
    /// The built-in schema of routing responses: see [`RoutingSchema`].
    Routing,
    /// A schema of the node's own.
    JsonSchema(CompiledSchema),
}

/// Why the declaration of a node is refused.
#[derive(Debug, PartialEq, Eq)]
pub enum Error {
    Validation(String),
}

/// What a node declares as its output schema, before it is compiled.
#[derive(Debug, PartialEq, Eq)]
pub enum Declaration {
    Routing,
    Schema(String),
}

/// The opening of every message about the declaration of a node.
pub open spec fn refusal(node_id: Seq<char>) -> Seq<char> {
    "Invalid output_schema for node \""@ + node_id + "\": "@
}

/// The text is a message about the declaration of a node.
pub open spec fn is_refusal(text: Seq<char>, node_id: Seq<char>) -> bool {
    exists|message: Seq<char>| text == #[trigger] (refusal(node_id) + message)
}

/// What a node declares, or the message with which its declaration is refused.
pub open spec fn declared(node: Node) -> Result<Option<Declared>, Seq<char>> {
    match attribute(node.attrs, "output_schema"@) {
        None => Ok(None),
        Some(raw) => {
            let value = trimmed(raw);
            if value.len() == 0 {
                Err(refusal(node.id@) + "value must not be empty"@)
            } else if value == "routing"@ {
                Ok(Some(Declared::Routing))
            } else if value[0] == '@' {
                Err(refusal(node.id@) + "unresolved file reference "@ + value)
            } else {
                Ok(Some(Declared::Schema(value)))
            }
        },
    }
}

/// A declaration as a value.
pub enum Declared {
    Routing,
    Schema(Seq<char>),
}

impl View for Declaration {
    type V = Declared;

    open spec fn view(&self) -> Declared {
        match *self {
            Declaration::Routing => Declared::Routing,
            Declaration::Schema(text) => Declared::Schema(text@),
        }
    }
}

fn refuse(node_id: &str) -> (r: String)
    ensures
        r@ == refusal(node_id@),
{
    let mut r = "Invalid output_schema for node \"".to_owned();
    r.append(node_id);
    r.append("\": ");
    r
}

/// What a node declares as its output schema.
pub fn read_declaration(node: &Node) -> (r: Result<Option<Declaration>, Error>)
    ensures
        match (r, declared(*node)) {
            (Ok(None), Ok(None)) => true,
            (Ok(Some(declaration)), Ok(Some(expected))) => declaration@ == expected,
            (Err(Error::Validation(text)), Err(message)) => text@ == message,
            _ => false,
        },
{
    let raw = match node.attr("output_schema") {
        Some(raw) => raw,
        None => {
            return Ok(None);
        },
    };
    let value = trim(raw.as_str());
    if value.unicode_len() == 0 {
        let mut message = refuse(node.id.as_str());
        message.append("value must not be empty");
        return Err(Error::Validation(message));
    }
    if same_text(value, "routing") {
        return Ok(Some(Declaration::Routing));
    }
    if value.get_char(0) == '@' {
        let mut message = refuse(node.id.as_str());
        message.append("unresolved file reference ");
        message.append(value);
        return Err(Error::Validation(message));
    }
    Ok(Some(Declaration::Schema(value.to_owned())))
}

/// The message for a schema that could not be compiled.
pub open spec fn schema_refusal(node_id: Seq<char>, fault: SchemaFault) -> Seq<char> {
    match fault {
        SchemaFault::Parse(message) => refusal(node_id)
            + "expected \"routing\" or a JSON Schema object: "@ + message@,
        SchemaFault::Compile(message) => refusal(node_id) + message@,
    }
}

/// The schema that a node declares as its own, from what compiling it gave.
pub fn settle_declaration(
    node_id: &str,
    compiled: Result<CompiledSchema, SchemaFault>,
) -> (r: Result<OutputSchemaKind, Error>)
    ensures
        match (compiled, r) {
            (Ok(schema), Ok(kind)) => kind == OutputSchemaKind::JsonSchema(schema),
            (Err(fault), Err(Error::Validation(text))) => text@ == schema_refusal(node_id@, fault),
            _ => false,
        },
{
    match compiled {
        Ok(schema) => Ok(OutputSchemaKind::JsonSchema(schema)),
        Err(SchemaFault::Parse(fault)) => {
            let mut message = refuse(node_id);
            message.append("expected \"routing\" or a JSON Schema object: ");
            message.append(fault.as_str());
            Err(Error::Validation(message))
        },
        Err(SchemaFault::Compile(fault)) => {
            let mut message = refuse(node_id);
            message.append(fault.as_str());
            Err(Error::Validation(message))
        },
    }
}

/// The schema of a node's output, if it declares one: the built-in schema of routing
/// responses, which is compiled elsewhere, or a schema of its own, compiled. What
/// `jsonschema` says of a schema that does not compile is not stated here; how it is
/// reported is stated by [`settle_declaration`].
pub fn parse_node_output_schema(node: &Node) -> (r: Result<Option<OutputSchemaKind>, Error>)
    ensures
        match declared(*node) {
            Ok(None) => r matches Ok(None),
            Err(message) => r matches Err(Error::Validation(text)) && text@ == message,
            Ok(Some(Declared::Routing)) => r matches Ok(Some(OutputSchemaKind::Routing)),
            Ok(Some(Declared::Schema(source))) => match parsed(source) {
                Err(message) => r matches Err(Error::Validation(text)) && text@ == refusal(
                    node.id@,
                ) + "expected \"routing\" or a JSON Schema object: "@ + message,
                Ok(schema) => if schema_compiles(schema) {
                    r matches Ok(Some(OutputSchemaKind::JsonSchema(c))) && c.tree() == schema
                } else {
                    r matches Err(Error::Validation(text)) && is_refusal(text@, node.id@)
                },
            },
        },
{
    match read_declaration(node) {
        Ok(None) => Ok(None),
        Ok(Some(Declaration::Routing)) => Ok(Some(OutputSchemaKind::Routing)),
        Ok(Some(Declaration::Schema(text))) => {
            let compiled = CompiledSchema::compile(text.as_str());
            match settle_declaration(node.id.as_str(), compiled) {
                Ok(kind) => Ok(Some(kind)),
                Err(error) => Err(error),
            }
        },
        Err(error) => Err(error),
    }
}

/// A node that declares the keyword `routing`, with or without spaces around it, has the
/// built-in schema, and no text but the empty one and a file reference is refused before
/// it is compiled.
pub proof fn the_routing_keyword_is_always_accepted(node: Node, raw: Seq<char>)
    requires
        attribute(node.attrs, "output_schema"@) == Some(raw),
    ensures
        trimmed(raw) == "routing"@ ==> declared(node) == Ok::<Option<Declared>, Seq<char>>(
            Some(Declared::Routing),
        ),
        declared(node) is Err <==> trimmed(raw).len() == 0 || trimmed(raw)[0] == '@',
{
    reveal_strlit("routing");
}

// ---- Validation ----

/// What is wrong with a response.
#[derive(Debug, Clone, Copy, PartialEq, Eq, Structural)]
pub enum StructuredOutputErrorKind {
    NoJsonObject,
    NoRelevantJsonObject,
    InvalidJson,
    SchemaValidation,
}

/// Why a response is refused.
#[derive(Debug, PartialEq, Eq)]
pub struct StructuredOutputError {
    kind: StructuredOutputErrorKind,
    messages: Vec<String>,
}

/// A refusal as a value.
#[verifier::ext_equal]
pub struct Rejection {
    pub kind: StructuredOutputErrorKind,
    pub messages: Seq<Seq<char>>,
}

impl View for StructuredOutputError {
    type V = Rejection;

    closed spec fn view(&self) -> Rejection {
        Rejection { kind: self.kind, messages: views(self.messages@) }
    }
}

/// A refusal with one message.
pub open spec fn rejects(kind: StructuredOutputErrorKind, message: Seq<char>) -> Rejection {
    Rejection { kind, messages: seq![message] }
}

impl StructuredOutputError {
    /// A refusal with one message.
    pub fn new(kind: StructuredOutputErrorKind, message: String) -> (r: Self)
        ensures
            r@ == rejects(kind, message@),
    {
        let mut messages: Vec<String> = Vec::new();
        messages.push(message);
        let r = StructuredOutputError { kind, messages };
        proof {
            assert(r@ =~= rejects(kind, message@));
        }
        r
    }

    /// A refusal by a schema.
    pub fn validation(messages: Vec<String>) -> (r: Self)
        ensures
            r@ == (Rejection {
                kind: StructuredOutputErrorKind::SchemaValidation,
                messages: views(messages@),
            }),
    {
        StructuredOutputError { kind: StructuredOutputErrorKind::SchemaValidation, messages }
    }

    /// What is wrong with the response.
    pub fn kind(&self) -> (r: StructuredOutputErrorKind)
        ensures
            r == self@.kind,
    {
        self.kind
    }

    /// The messages.
    pub fn messages(&self) -> (r: &Vec<String>)
        ensures
            views(r@) == self@.messages,
    {
        &self.messages
    }

    /// Whether routing may fall back to other means: no object was found that tried to
    /// route.
    pub fn allows_routing_fallback(&self) -> (b: bool)
        ensures
            b == (self@.kind == StructuredOutputErrorKind::NoJsonObject || self@.kind
                == StructuredOutputErrorKind::NoRelevantJsonObject),
    {
        match self.kind {
            StructuredOutputErrorKind::NoJsonObject => true,
            StructuredOutputErrorKind::NoRelevantJsonObject => true,
            _ => false,
        }
    }
}

/// A response that satisfies its schema.
#[derive(Debug, PartialEq, Eq)]
pub struct ValidatedStructuredOutput {
    pub value: Json,
}

/// How many messages a refusal by a schema holds at most.
pub const MAX_SCHEMA_MESSAGES: usize = 5;

/// The first messages, as many as are kept.
pub open spec fn kept(messages: Seq<Seq<char>>) -> Seq<Seq<char>> {
    if messages.len() > MAX_SCHEMA_MESSAGES {
        messages.take(MAX_SCHEMA_MESSAGES as int)
    } else {
        messages
    }
}

/// The verdict on a document, by what the schema objects to in it.
pub open spec fn judged(document: Tree, objections: Seq<Seq<char>>) -> Result<Tree, Rejection> {
    if objections.len() == 0 {
        Ok(document)
    } else {
        Err(
            Rejection {
                kind: StructuredOutputErrorKind::SchemaValidation,
                messages: kept(objections),
            },
        )
    }
}

/// The result is this verdict.
pub open spec fn gives(
    r: Result<ValidatedStructuredOutput, StructuredOutputError>,
    verdict: Result<Tree, Rejection>,
) -> bool {
    match (r, verdict) {
        (Ok(validated), Ok(document)) => validated.value.tree() == document,
        (Err(error), Err(rejection)) => error@ == rejection,
        _ => false,
    }
}

/// Judges a value by what a schema objects to in it.
pub fn judge(value: Json, messages: Vec<String>) -> (r: Result<
    ValidatedStructuredOutput,
    StructuredOutputError,
>)
    ensures
        gives(r, judged(value.tree(), views(messages@))),
{
    if messages.len() == 0 {
        return Ok(ValidatedStructuredOutput { value });
    }
    let ghost all = views(messages@);
    let mut messages = messages;
    if messages.len() > MAX_SCHEMA_MESSAGES {
        messages.truncate(MAX_SCHEMA_MESSAGES);
        proof {
            assert(views(messages@) =~= all.take(MAX_SCHEMA_MESSAGES as int));
        }
    }
    Err(StructuredOutputError::validation(messages))
}

/// What is done with a candidate of a routing response.
#[derive(Debug, PartialEq, Eq)]
pub enum RoutingCandidate {
    /// It has nothing to do with routing.
    Skip,
    /// It tried to route, but is no JSON.
    Reject(StructuredOutputError),
    /// It routes: its schema decides.
    Validate,
}

/// Reads a candidate of a routing response: `parsed` is what parsing it gave.
pub fn read_routing_candidate(candidate: &str, parsed: Result<&Json, &String>) -> (r:
    RoutingCandidate)
    ensures
        match parsed {
            Err(message) => if mentions_routing_field(candidate@) {
                r matches RoutingCandidate::Reject(error) && error@ == rejects(
                    StructuredOutputErrorKind::InvalidJson,
                    "invalid routing JSON object: "@ + message@,
                )
            } else {
                r is Skip
            },
            Ok(value) => if routes(value.tree()) {
                r is Validate
            } else {
                r is Skip
            },
        },
{
    match parsed {
        Err(message) => {
            if raw_mentions_routing_field(candidate) {
                let mut text = "invalid routing JSON object: ".to_owned();
                text.append(message.as_str());
                RoutingCandidate::Reject(
                    StructuredOutputError::new(StructuredOutputErrorKind::InvalidJson, text),
                )
            } else {
                RoutingCandidate::Skip
            }
        },
        Ok(value) => {
            if contains_routing_field(value) {
                RoutingCandidate::Validate
            } else {
                RoutingCandidate::Skip
            }
        },
    }
}

/// The message where no object routes.
pub open spec fn no_routing_message() -> Seq<char> {
    "no JSON object contained any recognized routing field ("@ + joined(
        routing_status_fields(),
        ", "@,
    ) + ")"@
}

/// The verdict on a routing response with these candidates: the last one that routes
/// decides. One that mentions a routing field but is no JSON is refused before it is
/// passed over.
pub open spec fn routing_verdict(schema: Tree, candidates: Seq<Seq<char>>) -> Result<
    Tree,
    Rejection,
>
    decreases candidates.len(),
{
    if candidates.len() == 0 {
        Err(rejects(StructuredOutputErrorKind::NoRelevantJsonObject, no_routing_message()))
    } else {
        let candidate = candidates.last();
        match parsed(candidate) {
            Err(message) => if mentions_routing_field(candidate) {
                Err(
                    rejects(
                        StructuredOutputErrorKind::InvalidJson,
                        "invalid routing JSON object: "@ + message,
                    ),
                )
            } else {
                routing_verdict(schema, candidates.drop_last())
            },
            Ok(value) => if routes(value) {
                judged(value, violations(schema, value))
            } else {
                routing_verdict(schema, candidates.drop_last())
            },
        }
    }
}

/// The verdict on the text of a routing response.
pub open spec fn routing_text_verdict(schema: Tree, text: Seq<char>) -> Result<Tree, Rejection> {
    if json_objects(text).len() == 0 {
        Err(
            rejects(
                StructuredOutputErrorKind::NoJsonObject,
                "no JSON object found in response"@,
            ),
        )
    } else {
        routing_verdict(schema, json_objects(text))
    }
}

/// Validates a routing response.
pub fn validate_routing_response_text(routing: &RoutingSchema, text: &str) -> (r: Result<
    ValidatedStructuredOutput,
    StructuredOutputError,
>)
    ensures
        gives(r, routing_text_verdict(routing_schema(), text@)),
{
    let schema = routing.compiled();
    let candidates = find_json_objects(text);
    let ghost all = json_objects(text@);
    proof {
        assert(candidates@.map_values(|t: &str| t@).len() == candidates@.len());
    }
    if candidates.len() == 0 {
        return Err(
            StructuredOutputError::new(
                StructuredOutputErrorKind::NoJsonObject,
                "no JSON object found in response".to_owned(),
            ),
        );
    }
    let mut n: usize = candidates.len();
    proof {
        assert(all.take(n as int) =~= all);
    }
    while n > 0
        invariant
            schema.tree() == routing_schema(),
            n <= candidates@.len(),
            candidates@.map_values(|t: &str| t@) == all,
            candidates@.len() == all.len(),
            all == json_objects(text@),
            all.len() > 0,
            routing_verdict(schema.tree(), all) == routing_verdict(
                schema.tree(),
                all.take(n as int),
            ),
        decreases n,
    {
        let candidate = candidates[n - 1];
        proof {
            assert(candidates@.map_values(|t: &str| t@)[n - 1] == candidate@);
            assert(all.take(n as int).last() == candidate@);
            assert(all.take(n as int).drop_last() =~= all.take(n - 1));
        }
        match parse_value(candidate) {
            Ok(value) => {
                let messages = schema.check(&value);
                let json = from_value(value);
                match read_routing_candidate(candidate, Ok(&json)) {
                    RoutingCandidate::Validate => {
                        return judge(json, messages);
                    },
                    _ => {},
                }
            },
            Err(message) => match read_routing_candidate(candidate, Err(&message)) {
                RoutingCandidate::Reject(error) => {
                    return Err(error);
                },
                _ => {},
            },
        }
        n -= 1;
    }
    let mut message = "no JSON object contained any recognized routing field (".to_owned();
    message.append(join(&routing_fields(), ", ").as_str());
    message.append(")");
    proof {
        assert(all.take(0).len() == 0);
    }
    Err(StructuredOutputError::new(StructuredOutputErrorKind::NoRelevantJsonObject, message))
}

/// The verdict where no candidate is JSON: by the fault of the one tried first, if any
/// was tried.
pub open spec fn unparsed_verdict(fault: Option<Seq<char>>) -> Rejection {
    match fault {
        Some(message) => rejects(
            StructuredOutputErrorKind::InvalidJson,
            "invalid JSON object: "@ + message,
        ),
        None => rejects(
            StructuredOutputErrorKind::NoJsonObject,
            "no JSON object found in response"@,
        ),
    }
}

/// The refusal where no candidate is JSON.
pub fn refuse_unparsed(fault: Option<String>) -> (r: StructuredOutputError)
    ensures
        r@ == unparsed_verdict(
            match fault {
                Some(message) => Some(message@),
                None => None,
            },
        ),
{
    match fault {
        Some(message) => {
            let mut text = "invalid JSON object: ".to_owned();
            text.append(message.as_str());
            StructuredOutputError::new(StructuredOutputErrorKind::InvalidJson, text)
        },
        None => StructuredOutputError::new(
            StructuredOutputErrorKind::NoJsonObject,
            "no JSON object found in response".to_owned(),
        ),
    }
}

/// The verdict on a response with these candidates: the last one that is JSON decides,
/// even where an earlier one would satisfy the schema. `fault` is that of the candidate
/// tried first, where it is no JSON.
pub open spec fn custom_verdict(
    schema: Tree,
    candidates: Seq<Seq<char>>,
    fault: Option<Seq<char>>,
) -> Result<Tree, Rejection>
    decreases candidates.len(),
{
    if candidates.len() == 0 {
        Err(unparsed_verdict(fault))
    } else {
        match parsed(candidates.last()) {
            Ok(value) => judged(value, violations(schema, value)),
            Err(message) => custom_verdict(
                schema,
                candidates.drop_last(),
                match fault {
                    Some(first) => Some(first),
                    None => Some(message),
                },
            ),
        }
    }
}

/// Validates a response against a schema.
pub fn validate_custom_response_text(schema: &CompiledSchema, text: &str) -> (r: Result<
    ValidatedStructuredOutput,
    StructuredOutputError,
>)
    ensures
        gives(r, custom_verdict(schema.tree(), json_objects(text@), None)),
{
    let candidates = find_json_objects(text);
    let ghost all = json_objects(text@);
    let mut fault: Option<String> = None;
    let mut n: usize = candidates.len();
    proof {
        assert(candidates@.map_values(|t: &str| t@).len() == candidates@.len());
        assert(all.take(n as int) =~= all);
    }
    while n > 0
        invariant
            n <= candidates@.len(),
            candidates@.map_values(|t: &str| t@) == all,
            candidates@.len() == all.len(),
            all == json_objects(text@),
            custom_verdict(schema.tree(), all, None) == custom_verdict(
                schema.tree(),
                all.take(n as int),
                match fault {
                    Some(message) => Some(message@),
                    None => None,
                },
            ),
        decreases n,
    {
        let candidate = candidates[n - 1];
        proof {
            assert(candidates@.map_values(|t: &str| t@)[n - 1] == candidate@);
            assert(all.take(n as int).last() == candidate@);
            assert(all.take(n as int).drop_last() =~= all.take(n - 1));
        }
        match parse_value(candidate) {
            Ok(value) => {
                let messages = schema.check(&value);
                return judge(from_value(value), messages);
            },
            Err(message) => {
                if fault.is_none() {
                    fault = Some(message);
                }
            },
        }
        n -= 1;
    }
    proof {
        assert(all.take(0).len() == 0);
    }
    Err(refuse_unparsed(fault))
}

/// The verdict on a response.
pub open spec fn verdict(schema: OutputSchemaKind, text: Seq<char>) -> Result<Tree, Rejection> {
    match schema {
        OutputSchemaKind::Routing => routing_text_verdict(routing_schema(), text),
        OutputSchemaKind::JsonSchema(compiled) => custom_verdict(
            compiled.tree(),
            json_objects(text),
            None,
        ),
    }
}

/// Validates a response against the output schema of its node. `routing` is the built-in
/// schema, compiled once for all responses.
pub fn validate_response_text(
    routing: &RoutingSchema,
    schema: &OutputSchemaKind,
    text: &str,
) -> (r: Result<ValidatedStructuredOutput, StructuredOutputError>)
    ensures
        gives(r, verdict(*schema, text@)),
{
    match schema {
        OutputSchemaKind::Routing => validate_routing_response_text(routing, text),
        OutputSchemaKind::JsonSchema(compiled) => validate_custom_response_text(compiled, text),
    }
}

/// A response without a JSON object is refused as such, whatever the schema.
pub proof fn responses_without_objects_are_refused(schema: OutputSchemaKind, text: Seq<char>)
    requires
        json_objects(text).len() == 0,
    ensures
        verdict(schema, text) == Err::<Tree, Rejection>(
            rejects(
                StructuredOutputErrorKind::NoJsonObject,
                "no JSON object found in response"@,
            ),
        ),
{
}

/// One of the candidates parses to `value`.
pub open spec fn among(value: Tree, candidates: Seq<Seq<char>>) -> bool {
    exists|i: int|
        0 <= i < candidates.len() && parsed(#[trigger] candidates[i]) == Ok::<Tree, Seq<char>>(
            value,
        )
}

/// A validated response is one of the objects of the text, and the schema objects to
/// nothing in it.
pub proof fn validated_responses_satisfy_their_schema(
    schema: Tree,
    candidates: Seq<Seq<char>>,
    fault: Option<Seq<char>>,
)
    ensures
        custom_verdict(schema, candidates, fault) matches Ok(value) ==> violations(
            schema,
            value,
        ).len() == 0 && among(value, candidates),
        routing_verdict(schema, candidates) matches Ok(value) ==> violations(schema, value).len()
            == 0 && routes(value) && among(value, candidates),
    decreases candidates.len(),
{
    if candidates.len() > 0 {
        let init = candidates.drop_last();
        let next = match parsed(candidates.last()) {
            Err(message) => match fault {
                Some(first) => Some(first),
                None => Some(message),
            },
            Ok(_) => fault,
        };
        validated_responses_satisfy_their_schema(schema, init, next);
        assert(candidates[candidates.len() - 1] == candidates.last());
        assert forall|value: Tree| #[trigger] among(value, init) implies among(
            value,
            candidates,
        ) by {
            let i = choose|i: int|
                0 <= i < init.len() && parsed(#[trigger] init[i]) == Ok::<Tree, Seq<char>>(value);
            assert(candidates[i] == init[i]);
        }
    }
}

/// The last object of a response that is JSON decides, whatever stands before it: an
/// earlier object that satisfies the schema does not make up for its faults.
pub proof fn the_last_json_object_decides(
    schema: Tree,
    candidates: Seq<Seq<char>>,
    fault: Option<Seq<char>>,
    last: int,
)
    requires
        0 <= last < candidates.len(),
        parsed(candidates[last]) is Ok,
        forall|i: int| last < i < candidates.len() ==> parsed(#[trigger] candidates[i]) is Err,
    ensures
        custom_verdict(schema, candidates, fault) == judged(
            parsed(candidates[last])->Ok_0,
            violations(schema, parsed(candidates[last])->Ok_0),
        ),
    decreases candidates.len(),
{
    if last + 1 < candidates.len() {
        let init = candidates.drop_last();
        let message = parsed(candidates.last())->Err_0;
        assert(candidates[candidates.len() - 1] == candidates.last());
        assert forall|i: int| last < i < init.len() implies parsed(
            #[trigger] init[i],
        ) is Err by {
            assert(init[i] == candidates[i]);
        }
        the_last_json_object_decides(
            schema,
            init,
            match fault {
                Some(first) => Some(first),
                None => Some(message),
            },
            last,
        );
    }
}

// ---- Messages to the model ----

/// What the model is told to return.
pub open spec fn expectation(schema: OutputSchemaKind) -> Seq<char> {
    match schema {
        OutputSchemaKind::Routing =>
        "Return a single JSON object with at least one routing field: "@ + joined(
            routing_status_fields(),
            ", "@,
        ) + "."@,
        OutputSchemaKind::JsonSchema(compiled) =>
        "Return a single JSON object that satisfies this JSON Schema:\n<output_schema>\n"@
            + compact(compiled.tree()) + "\n</output_schema>"@,
    }
}

fn output_expectation(schema: &OutputSchemaKind) -> (r: String)
    ensures
        r@ == expectation(*schema),
{
    match schema {
        OutputSchemaKind::Routing => {
            let mut r = "Return a single JSON object with at least one routing field: ".to_owned();
            r.append(join(&routing_fields(), ", ").as_str());
            r.append(".");
            r
        },
        OutputSchemaKind::JsonSchema(compiled) => {
            let mut r =
                "Return a single JSON object that satisfies this JSON Schema:\n<output_schema>\n".to_owned();
            r.append(compiled.text().as_str());
            r.append("\n</output_schema>");
            r
        },
    }
}

/// The prompt of an agent with the contract for its final response.
pub fn agent_prompt_with_output_schema(prompt: &str, schema: &OutputSchemaKind) -> (r: String)
    ensures
        r@ == prompt@
            + "\n\nFabro final-output contract\n\nThe following contract is trusted workflow configuration. It applies only to your final response, not to intermediate tool calls.\n"@
            + expectation(*schema)
            + "\nThe contract is complete. Do not ask the user to provide or choose the output shape."@,
{
    let mut r = prompt.to_owned();
    r.append(
        "\n\nFabro final-output contract\n\nThe following contract is trusted workflow configuration. It applies only to your final response, not to intermediate tool calls.\n",
    );
    r.append(output_expectation(schema).as_str());
    r.append(
        "\nThe contract is complete. Do not ask the user to provide or choose the output shape.",
    );
    r
}

/// The messages as a list, one a line.
pub open spec fn bulleted(messages: Seq<Seq<char>>) -> Seq<char> {
    joined(messages.map_values(|m: Seq<char>| "- "@ + m), "\n"@)
}

impl StructuredOutputError {
    /// The message that asks the model to correct its response.
    pub fn repair_message(&self, schema: &OutputSchemaKind) -> (r: String)
        ensures
            r@
                == "Your previous response did not satisfy the node's output_schema.\n\nValidation errors:\n"@
                + bulleted(self@.messages) + "\n\n"@ + expectation(*schema)
                + "\nDo not include Markdown fences or explanatory prose; reply only with the corrected JSON object."@,
    {
        let mut lines: Vec<String> = Vec::new();
        let mut i: usize = 0;
        while i < self.messages.len()
            invariant
                i <= self.messages@.len(),
                lines@.len() == i,
                forall|j: int|
                    0 <= j < i ==> (#[trigger] lines@[j])@ == "- "@ + self.messages@[j]@,
            decreases self.messages@.len() - i,
        {
            let mut line = "- ".to_owned();
            line.append(self.messages[i].as_str());
            lines.push(line);
            i += 1;
        }
        proof {
            assert(views(lines@) =~= views(self.messages@).map_values(
                |m: Seq<char>| "- "@ + m,
            ));
        }
        let mut r =
            "Your previous response did not satisfy the node's output_schema.\n\nValidation errors:\n".to_owned();
        r.append(join(&lines, "\n").as_str());
        r.append("\n\n");
        r.append(output_expectation(schema).as_str());
        r.append(
            "\nDo not include Markdown fences or explanatory prose; reply only with the corrected JSON object.",
        );
        r
    }
}

/// The format in which a model is asked to respond.
#[derive(Debug, Clone, Copy, PartialEq, Eq, Structural)]
pub enum ResponseFormatType {
    JsonObject,
    JsonSchema,
}

/// The format in which a model is asked to respond, with its schema.
#[derive(Debug, PartialEq, Eq)]
pub struct ResponseFormat {
    pub kind: ResponseFormatType,
    pub json_schema: Option<Json>,
    pub strict: bool,
}

/// The response format for an output schema: strict where the node has a schema of its
/// own.
pub fn prompt_response_format(schema: &OutputSchemaKind) -> (r: ResponseFormat)
    ensures
        match schema {
            OutputSchemaKind::Routing => r.kind == ResponseFormatType::JsonObject
                && r.json_schema is None && !r.strict,
            OutputSchemaKind::JsonSchema(compiled) => r.kind == ResponseFormatType::JsonSchema && (
            r.json_schema matches Some(json) && json.tree() == compiled.tree()) && r.strict,
        },
{
    match schema {
        OutputSchemaKind::Routing => ResponseFormat {
            kind: ResponseFormatType::JsonObject,
            json_schema: None,
            strict: false,
        },
        OutputSchemaKind::JsonSchema(compiled) => ResponseFormat {
            kind: ResponseFormatType::JsonSchema,
            json_schema: Some(compiled.schema()),
            strict: true,
        },
    }
}

// ---- The outcome ----

/// The context key under which the output of a node stands.
pub fn output_key(node_id: &str) -> (r: String)
    ensures
        r@ == "output."@ + node_id@,
{
    let mut r = "output.".to_owned();
    r.append(node_id);
    r
}

/// The reason for a stage whose output could not be repaired.
pub fn exhausted_failure_reason(repair_attempts: i64) -> (r: String)
    ensures
        r@ == "output schema validation failed after "@ + signed_decimal(repair_attempts as int)
            + " repair attempt(s)"@,
{
    let mut r = "output schema validation failed after ".to_owned();
    r.append(signed_decimal_text(repair_attempts).as_str());
    r.append(" repair attempt(s)");
    r
}

/// The outcome of a stage whose output could not be repaired.
pub fn exhausted_failure_outcome(repair_attempts: i64) -> (r: Outcome)
    ensures
        r.status == (StageOutcome::Failed { retry_requested: false }),
        r.failure matches Some(failure) && failure.message@
            == "output schema validation failed after "@ + signed_decimal(repair_attempts as int)
            + " repair attempt(s)"@ && failure.category == FailureCategory::Deterministic
            && failure.system_actor is None,
        r.preferred_label is None,
        r.suggested_next_ids@.len() == 0,
        r.context_updates@ == Map::<Seq<char>, Json>::empty(),
{
    let mut r = Outcome::success();
    r.status = StageOutcome::Failed { retry_requested: false };
    r.failure = Some(
        FailureDetail::new(
            exhausted_failure_reason(repair_attempts),
            FailureCategory::Deterministic,
        ),
    );
    r
}

/// The documents of a context.
pub open spec fn documents(context: Map<Seq<char>, Json>) -> Map<Seq<char>, Tree> {
    context.map_values(|value: Json| value.tree())
}

/// The context with each member put in, one after the other.
pub open spec fn with_members(
    context: Map<Seq<char>, Tree>,
    members: Seq<(Seq<char>, Tree)>,
) -> Map<Seq<char>, Tree>
    decreases members.len(),
{
    if members.len() == 0 {
        context
    } else {
        with_members(context, members.drop_last()).insert(members.last().0, members.last().1)
    }
}

/// The items that are texts, in order.
pub open spec fn text_items(items: Seq<Tree>) -> Seq<Seq<char>>
    decreases items.len(),
{
    if items.len() == 0 {
        Seq::empty()
    } else {
        let before = text_items(items.drop_last());
        match items.last() {
            Tree::Text(text) => before.push(text),
            _ => before,
        }
    }
}

/// The next stages that a response suggests.
pub open spec fn suggested(value: Tree) -> Seq<Seq<char>> {
    match value.at("suggested_next_ids"@) {
        Some(Tree::Array(items)) => text_items(items),
        _ => Seq::empty(),
    }
}

/// The outcome that a response names.
pub open spec fn routed_status(value: Tree) -> Option<StageOutcome> {
    match value.text_at("outcome"@) {
        Some(word) => named_outcome(word),
        None => None,
    }
}

/// `after` is the outcome `before` with what a routing response says put in. What it
/// does not say stays.
pub open spec fn routed(value: Tree, before: Outcome, after: Outcome) -> bool {
    &&& match value.text_at("preferred_next_label"@) {
        Some(label) => after.preferred_label matches Some(text) && text@ == label,
        None => after.preferred_label == before.preferred_label,
    }
    &&& if suggested(value).len() > 0 {
        views(after.suggested_next_ids@) == suggested(value)
    } else {
        after.suggested_next_ids == before.suggested_next_ids
    }
    &&& after.status == (match routed_status(value) {
        Some(status) => status,
        None => before.status,
    })
    &&& match (routed_status(value), value.text_at("failure_reason"@)) {
        (Some(StageOutcome::Failed { .. }), Some(reason)) => after.failure matches Some(failure)
            && failure.message@ == reason && failure.category == FailureCategory::Deterministic
            && failure.system_actor is None,
        _ => after.failure == before.failure,
    }
    &&& documents(after.context_updates@) == (match value.at("context_updates"@) {
        Some(Tree::Object(members)) => with_members(documents(before.context_updates@), members),
        _ => documents(before.context_updates@),
    })
}

fn read_texts(items: &Vec<Json>, Ghost(trees): Ghost<Seq<Tree>>) -> (r: Vec<String>)
    requires
        trees.len() == items@.len(),
        forall|i: int| 0 <= i < trees.len() ==> #[trigger] trees[i] == items@[i].tree(),
    ensures
        views(r@) == text_items(trees),
{
    let mut r: Vec<String> = Vec::new();
    let mut i: usize = 0;
    proof {
        assert(trees.take(0).len() == 0);
        assert(views(r@) =~= text_items(trees.take(0)));
    }
    while i < items.len()
        invariant
            i <= items@.len(),
            trees.len() == items@.len(),
            forall|j: int| 0 <= j < trees.len() ==> #[trigger] trees[j] == items@[j].tree(),
            views(r@) == text_items(trees.take(i as int)),
        decreases items@.len() - i,
    {
        proof {
            assert(trees.take(i + 1).drop_last() =~= trees.take(i as int));
            assert(trees.take(i + 1).last() == trees[i as int]);
        }
        if let Json::Text(text) = &items[i] {
            let ghost before = r@;
            r.push(text.clone());
            proof {
                assert(views(r@) =~= views(before).push(text@));
            }
        }
        i += 1;
    }
    proof {
        assert(trees.take(trees.len() as int) =~= trees);
    }
    r
}

fn put_members(
    context: &mut TextMap<Json>,
    members: &Vec<(String, Json)>,
    Ghost(trees): Ghost<Seq<(Seq<char>, Tree)>>,
)
    requires
        trees.len() == members@.len(),
        forall|i: int|
            0 <= i < trees.len() ==> #[trigger] trees[i] == (members@[i].0@, members@[i].1.tree()),
    ensures
        documents(final(context)@) == with_members(documents(old(context)@), trees),
{
    let ghost base = documents(context@);
    let mut i: usize = 0;
    proof {
        assert(trees.take(0).len() == 0);
    }
    while i < members.len()
        invariant
            i <= members@.len(),
            trees.len() == members@.len(),
            forall|j: int|
                0 <= j < trees.len() ==> #[trigger] trees[j] == (
                    members@[j].0@,
                    members@[j].1.tree(),
                ),
            documents(context@) == with_members(base, trees.take(i as int)),
        decreases members@.len() - i,
    {
        let ghost before = context@;
        let key = members[i].0.clone();
        let value = members[i].1.clone();
        let ghost tree = value.tree();
        let ghost name = key@;
        context.insert(key, value);
        proof {
            assert(documents(context@) =~= documents(before).insert(name, tree));
            assert(trees.take(i + 1).drop_last() =~= trees.take(i as int));
            assert(trees.take(i + 1).last() == trees[i as int]);
        }
        i += 1;
    }
    proof {
        assert(trees.take(trees.len() as int) =~= trees);
    }
}

/// Puts what a routing response says into an outcome.
pub fn apply_routing_fields(value: &Json, outcome: &mut Outcome)
    ensures
        routed(value.tree(), *old(outcome), *final(outcome)),
{
    if let Some(label) = value.get_text("preferred_next_label") {
        outcome.preferred_label = Some(label.clone());
    }
    if let Some(Json::Array(items)) = value.get("suggested_next_ids") {
        let ghost trees = Json::Array(*items).tree()->Array_0;
        let ids = read_texts(items, Ghost(trees));
        proof {
            assert(views(ids@).len() == ids@.len());
        }
        if ids.len() > 0 {
            outcome.suggested_next_ids = ids;
        }
    }
    if let Some(word) = value.get_text("outcome") {
        if let Some(status) = StageOutcome::parse(word.as_str()) {
            outcome.status = status;
            if status.is_failure() {
                if let Some(reason) = value.get_text("failure_reason") {
                    outcome.failure = Some(
                        FailureDetail::new(reason.clone(), FailureCategory::Deterministic),
                    );
                }
            }
        }
    }
    if let Some(Json::Object(members)) = value.get("context_updates") {
        let ghost trees = Json::Object(*members).tree()->Object_0;
        put_members(&mut outcome.context_updates, members, Ghost(trees));
    }
}

/// Puts a validated response into the outcome of its node: a routing response by its
/// fields, any other under the output key of the node.
pub fn apply_validated_output(
    node: &Node,
    schema: &OutputSchemaKind,
    validated: &ValidatedStructuredOutput,
    outcome: &mut Outcome,
)
    ensures
        match schema {
            OutputSchemaKind::Routing => routed(
                validated.value.tree(),
                *old(outcome),
                *final(outcome),
            ),
            OutputSchemaKind::JsonSchema(_) => {
                &&& documents(final(outcome).context_updates@) == documents(
                    old(outcome).context_updates@,
                ).insert("output."@ + node.id@, validated.value.tree())
                &&& final(outcome).status == old(outcome).status
                &&& final(outcome).preferred_label == old(outcome).preferred_label
                &&& final(outcome).suggested_next_ids == old(outcome).suggested_next_ids
                &&& final(outcome).failure == old(outcome).failure
            },
        },
{
    match schema {
        OutputSchemaKind::Routing => {
            apply_routing_fields(&validated.value, outcome);
        },
        OutputSchemaKind::JsonSchema(_) => {
            let ghost before = outcome.context_updates@;
            let key = output_key(node.id.as_str());
            let value = validated.value.clone();
            let ghost name = key@;
            outcome.context_updates.insert(key, value);
            proof {
                assert(documents(outcome.context_updates@) =~= documents(before).insert(
                    name,
                    validated.value.tree(),
                ));
            }
        },
    }
}

/// The last of the candidates that is an object with a routing field.
pub open spec fn status_value(candidates: Seq<Seq<char>>) -> Option<Tree>
    decreases candidates.len(),
{
    if candidates.len() == 0 {
        None
    } else {
        match parsed(candidates.last()) {
            Ok(value) => if routes(value) {
                Some(value)
            } else {
                status_value(candidates.drop_last())
            },
            Err(_) => status_value(candidates.drop_last()),
        }
    }
}

/// Looks for routing fields in a text, takes the last object that has any, and puts
/// them into the outcome. Says whether there was one.
pub fn extract_status_fields(text: &str, outcome: &mut Outcome) -> (found: bool)
    ensures
        match status_value(json_objects(text@)) {
            Some(value) => found && routed(value, *old(outcome), *final(outcome)),
            None => !found && *final(outcome) == *old(outcome),
        },
{
    let candidates = find_json_objects(text);
    let ghost all = json_objects(text@);
    let mut n: usize = candidates.len();
    proof {
        assert(candidates@.map_values(|t: &str| t@).len() == candidates@.len());
        assert(all.take(n as int) =~= all);
    }
    while n > 0
        invariant
            n <= candidates@.len(),
            candidates@.map_values(|t: &str| t@) == all,
            candidates@.len() == all.len(),
            all == json_objects(text@),
            status_value(all) == status_value(all.take(n as int)),
            *outcome == *old(outcome),
        decreases n,
    {
        let candidate = candidates[n - 1];
        proof {
            assert(candidates@.map_values(|t: &str| t@)[n - 1] == candidate@);
            assert(all.take(n as int).last() == candidate@);
            assert(all.take(n as int).drop_last() =~= all.take(n - 1));
        }
        if let Ok(value) = parse_value(candidate) {
            let json = from_value(value);
            if contains_routing_field(&json) {
                apply_routing_fields(&json, outcome);
                return true;
            }
        }
        n -= 1;
    }
    proof {
        assert(all.take(0).len() == 0);
    }
    false
}

/// A routing response that is validated is the object whose fields a search for routing
/// fields takes from the same text.
pub proof fn validation_and_extraction_agree(schema: Tree, candidates: Seq<Seq<char>>)
    ensures
        routing_verdict(schema, candidates) matches Ok(value) ==> status_value(candidates) == Some(
            value,
        ),
    decreases candidates.len(),
{
    if candidates.len() > 0 {
        validation_and_extraction_agree(schema, candidates.drop_last());
    }
}

/// A document that is no object leaves the outcome as it is.
pub proof fn only_objects_route(value: Tree, before: Outcome, after: Outcome)
    requires
        !(value is Object),
        routed(value, before, after),
    ensures
        after.status == before.status,
        after.preferred_label == before.preferred_label,
        after.suggested_next_ids == before.suggested_next_ids,
        after.failure == before.failure,
        documents(after.context_updates@) == documents(before.context_updates@),
{
}

// ---- What validating a response is for ----

/// The name is that of a routing field.
pub open spec fn is_routing_field(name: Seq<char>) -> bool {
    ||| name == "preferred_next_label"@
    ||| name == "outcome"@
    ||| name == "failure_reason"@
    ||| name == "suggested_next_ids"@
    ||| name == "context_updates"@
}

/// An object routes exactly if one of its members has the name of a routing field, and
/// nothing but an object does.
pub proof fn objects_with_a_routing_field_route(value: &Json, b: bool, i: int)
    requires
        call_ensures(contains_routing_field, (value,), b),
    ensures
        b == routes(value.tree()),
        value.tree() matches Tree::Object(members) ==> {
            &&& 0 <= i < members.len() && is_routing_field(members[i].0) ==> b
            &&& b ==> exists|j: int|
                0 <= j < members.len() && is_routing_field((#[trigger] members[j]).0)
        },
        !(value.tree() is Object) ==> !b,
{
    if let Tree::Object(members) = value.tree() {
        lemma_routes(members, i);
    }
}

proof fn lemma_routes(members: Seq<(Seq<char>, Tree)>, i: int)
    ensures
        0 <= i < members.len() && is_routing_field(members[i].0) ==> routes(Tree::Object(members)),
        routes(Tree::Object(members)) ==> exists|j: int|
            0 <= j < members.len() && is_routing_field((#[trigger] members[j]).0),
{
    members_are_found_by_name(members, "preferred_next_label"@, i, Tree::Null);
    members_are_found_by_name(members, "outcome"@, i, Tree::Null);
    members_are_found_by_name(members, "failure_reason"@, i, Tree::Null);
    members_are_found_by_name(members, "suggested_next_ids"@, i, Tree::Null);
    members_are_found_by_name(members, "context_updates"@, i, Tree::Null);
}

/// A text mentions a routing field exactly if the name of one stands in it in quotes.
pub proof fn mentions_are_quoted_names(
    candidate: &str,
    b: bool,
    before: Seq<char>,
    field: Seq<char>,
    after: Seq<char>,
)
    requires
        call_ensures(raw_mentions_routing_field, (candidate,), b),
    ensures
        is_routing_field(field) && candidate@ == before + seq!['"'] + field + seq!['"'] + after
            ==> b,
        !candidate@.contains('"') ==> !b,
{
    lemma_mentions(candidate@, before, field, after);
}

proof fn lemma_mentions(text: Seq<char>, before: Seq<char>, field: Seq<char>, after: Seq<char>)
    ensures
        is_routing_field(field) && text == before + seq!['"'] + field + seq!['"'] + after
            ==> mentions_routing_field(text),
        !text.contains('"') ==> !mentions_routing_field(text),
{
    reveal_strlit("preferred_next_label");
    reveal_strlit("outcome");
    reveal_strlit("failure_reason");
    reveal_strlit("suggested_next_ids");
    reveal_strlit("context_updates");
    reveal_strlit("\"preferred_next_label\"");
    reveal_strlit("\"outcome\"");
    reveal_strlit("\"failure_reason\"");
    reveal_strlit("\"suggested_next_ids\"");
    reveal_strlit("\"context_updates\"");
    let quoted = seq!['"'] + field + seq!['"'];
    if is_routing_field(field) && text == before + seq!['"'] + field + seq!['"'] + after {
        let at = before.len() as int;
        assert(text.subrange(at, at + quoted.len()) =~= quoted);
        assert(occurs_at(text, quoted, at));
        if field == "preferred_next_label"@ {
            assert(quoted =~= "\"preferred_next_label\""@);
        } else if field == "outcome"@ {
            assert(quoted =~= "\"outcome\""@);
        } else if field == "failure_reason"@ {
            assert(quoted =~= "\"failure_reason\""@);
        } else if field == "suggested_next_ids"@ {
            assert(quoted =~= "\"suggested_next_ids\""@);
        } else {
            assert(quoted =~= "\"context_updates\""@);
        }
    }
    if !text.contains('"') {
        assert("\"preferred_next_label\""@[0] == '"');
        assert("\"outcome\""@[0] == '"');
        assert("\"failure_reason\""@[0] == '"');
        assert("\"suggested_next_ids\""@[0] == '"');
        assert("\"context_updates\""@[0] == '"');
        assert forall|needle: Seq<char>, at: int|
            needle.len() > 0 && needle[0] == '"' implies !#[trigger] occurs_at(
            text,
            needle,
            at,
        ) by {
            if occurs_at(text, needle, at) {
                assert(text.subrange(at, at + needle.len())[0] == text[at]);
                assert(text.contains(text[at]));
            }
        }
    }
}

/// The verdict on a document is the schema's: what it does not object to is accepted as
/// it is, and else the first five objections are reported.
pub proof fn the_schema_decides(
    value: Json,
    messages: Vec<String>,
    r: Result<ValidatedStructuredOutput, StructuredOutputError>,
)
    requires
        call_ensures(judge, (value, messages), r),
    ensures
        messages@.len() == 0 ==> (r matches Ok(validated) && validated.value.tree()
            == value.tree()),
        messages@.len() > 0 ==> (r matches Err(error) && {
            &&& error@.kind == StructuredOutputErrorKind::SchemaValidation
            &&& error@.messages.len() == (if messages@.len() < 5 {
                messages@.len()
            } else {
                5
            })
            &&& forall|i: int|
                0 <= i < error@.messages.len() ==> #[trigger] error@.messages[i] == messages@[i]@
        }),
{
}

/// The response is accepted with this document.
pub open spec fn accepted_as(
    r: Result<ValidatedStructuredOutput, StructuredOutputError>,
    document: Tree,
) -> bool {
    r matches Ok(validated) && validated.value.tree() == document
}

/// The response is refused for this.
pub open spec fn refused_for(
    r: Result<ValidatedStructuredOutput, StructuredOutputError>,
    kind: StructuredOutputErrorKind,
) -> bool {
    r matches Err(error) && error@.kind == kind
}

/// A response that is an object as JSON writes it, between prose without braces, is
/// judged by that object as a whole, whatever quotes and braces its strings hold: it is
/// accepted exactly if the schema of the node objects to nothing in it.
pub proof fn a_written_response_is_judged_whole(
    routing: &RoutingSchema,
    schema: &OutputSchemaKind,
    text: &str,
    r: Result<ValidatedStructuredOutput, StructuredOutputError>,
    before: Seq<char>,
    object: Seq<char>,
    pieces: Seq<Piece>,
    after: Seq<char>,
    value: Tree,
    compiled: CompiledSchema,
)
    requires
        call_ensures(validate_response_text, (routing, schema, text), r),
        is_written_object(object, pieces),
        !before.contains('{'),
        !after.contains('{'),
        text@ == before + object + after,
        parsed(object) == Ok::<Tree, Seq<char>>(value),
        *schema == OutputSchemaKind::JsonSchema(compiled),
    ensures
        violations(compiled.tree(), value).len() == 0 <==> accepted_as(r, value),
        violations(compiled.tree(), value).len() > 0 <==> refused_for(
            r,
            StructuredOutputErrorKind::SchemaValidation,
        ),
{
    lemma_one_object(before, object, pieces, after);
    let found = json_objects(text@);
    assert(found.last() == object);
}

proof fn lemma_one_object(
    before: Seq<char>,
    object: Seq<char>,
    pieces: Seq<Piece>,
    after: Seq<char>,
)
    requires
        is_written_object(object, pieces),
        !before.contains('{'),
        !after.contains('{'),
    ensures
        json_objects(before + object + after) == seq![object],
{
    written_objects_are_found_whole(before, object, pieces, after);
    texts_without_braces_hold_no_object(after);
    assert(seq![object] + json_objects(after) =~= seq![object]);
}

/// A routing response that is an object as JSON writes it, between prose without braces,
/// is judged by that object as a whole: with a routing field it is accepted exactly if
/// the built-in schema objects to nothing in it, without one it routes nowhere, and what
/// is no JSON is refused as such only where it tried to route.
pub proof fn a_written_routing_response_is_judged_whole(
    routing: &RoutingSchema,
    text: &str,
    r: Result<ValidatedStructuredOutput, StructuredOutputError>,
    before: Seq<char>,
    object: Seq<char>,
    pieces: Seq<Piece>,
    after: Seq<char>,
)
    requires
        call_ensures(validate_response_text, (routing, &OutputSchemaKind::Routing, text), r),
        is_written_object(object, pieces),
        !before.contains('{'),
        !after.contains('{'),
        text@ == before + object + after,
    ensures
        parsed(object) matches Ok(Tree::Object(members)) ==> {
            let routed = exists|j: int|
                0 <= j < members.len() && is_routing_field((#[trigger] members[j]).0);
            let faults = violations(routing_schema(), Tree::Object(members));
            &&& routed && faults.len() == 0 ==> accepted_as(r, Tree::Object(members))
            &&& routed && faults.len() > 0 ==> refused_for(
                r,
                StructuredOutputErrorKind::SchemaValidation,
            )
            &&& !routed ==> refused_for(r, StructuredOutputErrorKind::NoRelevantJsonObject)
        },
        parsed(object) is Err && !object.contains('"') ==> refused_for(
            r,
            StructuredOutputErrorKind::NoRelevantJsonObject,
        ),
        parsed(object) is Err && mentions_routing_field(object) ==> refused_for(
            r,
            StructuredOutputErrorKind::InvalidJson,
        ),
{
    lemma_one_object(before, object, pieces, after);
    let found = json_objects(text@);
    assert(found.last() == object);
    assert(found.drop_last() =~= Seq::<Seq<char>>::empty());
    assert(routing_verdict(routing_schema(), found.drop_last()) is Err);
    lemma_mentions(object, before, object, after);
    if let Ok(Tree::Object(members)) = parsed(object) {
        if exists|j: int| 0 <= j < members.len() && is_routing_field((#[trigger] members[j]).0) {
            let j = choose|j: int|
                0 <= j < members.len() && is_routing_field((#[trigger] members[j]).0);
            lemma_routes(members, j);
        } else {
            lemma_routes(members, 0);
        }
    }
}

/// A response in which no brace opens, or none closes, is refused for want of an object,
/// and lets routing fall back to other means.
pub proof fn responses_without_braces_are_refused(
    routing: &RoutingSchema,
    schema: &OutputSchemaKind,
    text: &str,
    r: Result<ValidatedStructuredOutput, StructuredOutputError>,
    falls_back: bool,
)
    requires
        call_ensures(validate_response_text, (routing, schema, text), r),
        !text@.contains('{') || !text@.contains('}'),
        r is Err ==> call_ensures(
            StructuredOutputError::allows_routing_fallback,
            (&r->Err_0,),
            falls_back,
        ),
    ensures
        refused_for(r, StructuredOutputErrorKind::NoJsonObject),
        falls_back,
{
    texts_without_braces_hold_no_object(text@);
}

/// Routing falls back to other means exactly where no object tried to route: not where
/// one was no JSON, and not where the schema objected.
pub proof fn only_silence_lets_routing_fall_back(error: StructuredOutputError, b: bool)
    requires
        call_ensures(StructuredOutputError::allows_routing_fallback, (&error,), b),
    ensures
        error@.kind == StructuredOutputErrorKind::NoJsonObject ==> b,
        error@.kind == StructuredOutputErrorKind::NoRelevantJsonObject ==> b,
        error@.kind == StructuredOutputErrorKind::InvalidJson ==> !b,
        error@.kind == StructuredOutputErrorKind::SchemaValidation ==> !b,
{
}

/// Of several objects, the last one that routes decides, as long as nothing behind it is
/// broken JSON that tried to route; objects behind it that do not route are passed over.
pub proof fn the_last_object_that_routes_decides(
    candidates: Seq<Seq<char>>,
    last: int,
    value: Tree,
)
    requires
        0 <= last < candidates.len(),
        parsed(candidates[last]) == Ok::<Tree, Seq<char>>(value),
        routes(value),
        forall|i: int|
            last < i < candidates.len() ==> match parsed(#[trigger] candidates[i]) {
                Ok(other) => !routes(other),
                Err(_) => !mentions_routing_field(candidates[i]),
            },
    ensures
        violations(routing_schema(), value).len() == 0 ==> routing_verdict(
            routing_schema(),
            candidates,
        ) == Ok::<Tree, Rejection>(value),
        violations(routing_schema(), value).len() > 0 ==> (routing_verdict(
            routing_schema(),
            candidates,
        ) matches Err(rejection) && rejection.kind == StructuredOutputErrorKind::SchemaValidation),
        status_value(candidates) == Some(value),
    decreases candidates.len(),
{
    if last + 1 < candidates.len() {
        let init = candidates.drop_last();
        assert(candidates[candidates.len() - 1] == candidates.last());
        assert(init[last] == candidates[last]);
        assert forall|i: int| last < i < init.len() implies match parsed(#[trigger] init[i]) {
            Ok(other) => !routes(other),
            Err(_) => !mentions_routing_field(init[i]),
        } by {
            assert(init[i] == candidates[i]);
        }
        the_last_object_that_routes_decides(init, last, value);
    } else {
        assert(candidates.last() == candidates[last]);
    }
}

/// Broken JSON that tried to route is refused, where nothing behind it routes.
pub proof fn broken_routing_objects_are_refused(candidates: Seq<Seq<char>>, last: int)
    requires
        0 <= last < candidates.len(),
        parsed(candidates[last]) is Err,
        mentions_routing_field(candidates[last]),
        forall|i: int|
            last < i < candidates.len() ==> match parsed(#[trigger] candidates[i]) {
                Ok(other) => !routes(other),
                Err(_) => !mentions_routing_field(candidates[i]),
            },
    ensures
        routing_verdict(routing_schema(), candidates) matches Err(rejection) && rejection.kind
            == StructuredOutputErrorKind::InvalidJson,
    decreases candidates.len(),
{
    if last + 1 < candidates.len() {
        let init = candidates.drop_last();
        assert(candidates[candidates.len() - 1] == candidates.last());
        assert(init[last] == candidates[last]);
        assert forall|i: int| last < i < init.len() implies match parsed(#[trigger] init[i]) {
            Ok(other) => !routes(other),
            Err(_) => !mentions_routing_field(init[i]),
        } by {
            assert(init[i] == candidates[i]);
        }
        broken_routing_objects_are_refused(init, last);
    } else {
        assert(candidates.last() == candidates[last]);
    }
}

/// Where nothing in a response routes, nothing is extracted and nothing is accepted.
pub proof fn nothing_routes_without_a_routing_object(candidates: Seq<Seq<char>>)
    requires
        forall|i: int|
            0 <= i < candidates.len() ==> match parsed(#[trigger] candidates[i]) {
                Ok(other) => !routes(other),
                Err(_) => true,
            },
    ensures
        status_value(candidates) is None,
        routing_verdict(routing_schema(), candidates) is Err,
    decreases candidates.len(),
{
    if candidates.len() > 0 {
        let init = candidates.drop_last();
        assert(candidates[candidates.len() - 1] == candidates.last());
        assert forall|i: int| 0 <= i < init.len() implies match parsed(#[trigger] init[i]) {
            Ok(other) => !routes(other),
            Err(_) => true,
        } by {
            assert(init[i] == candidates[i]);
        }
        nothing_routes_without_a_routing_object(init);
    }
}

/// What a routing response says is what the outcome becomes: its label, the texts among
/// the next stages that it suggests, the status that it names. The reason of a failure
/// counts only where it names a failure. What it does not say, or says as something of
/// another kind, stays as it was.
pub proof fn routing_fields_become_the_outcome(value: Tree, before: Outcome, after: Outcome)
    requires
        routed(value, before, after),
    ensures
        value.at("preferred_next_label"@) matches Some(Tree::Text(label)) ==> (
        after.preferred_label matches Some(text) && text@ == label),
        !(value.at("preferred_next_label"@) matches Some(Tree::Text(_))) ==> after.preferred_label
            == before.preferred_label,
        value.at("outcome"@) == Some(Tree::Text("succeeded"@)) ==> after.status
            == StageOutcome::Succeeded,
        value.at("outcome"@) == Some(Tree::Text("partially_succeeded"@)) ==> after.status
            == StageOutcome::PartiallySucceeded,
        value.at("outcome"@) == Some(Tree::Text("skipped"@)) ==> after.status
            == StageOutcome::Skipped,
        value.at("outcome"@) == Some(Tree::Text("failed"@)) ==> after.status
            == (StageOutcome::Failed { retry_requested: false }),
        !(value.at("outcome"@) matches Some(Tree::Text(_))) ==> after.status == before.status,
        value.at("outcome"@) == Some(Tree::Text("failed"@)) ==> (value.at(
            "failure_reason"@,
        ) matches Some(Tree::Text(reason)) ==> (after.failure matches Some(failure)
            && failure.message@ == reason && failure.category == FailureCategory::Deterministic)),
        value.at("outcome"@) != Some(Tree::Text("failed"@)) ==> after.failure == before.failure,
        !(value.at("failure_reason"@) matches Some(Tree::Text(_))) ==> after.failure
            == before.failure,
        !(value.at("suggested_next_ids"@) matches Some(Tree::Array(_)))
            ==> after.suggested_next_ids == before.suggested_next_ids,
        !(value.at("context_updates"@) matches Some(Tree::Object(_))) ==> documents(
            after.context_updates@,
        ) == documents(before.context_updates@),
{
    reveal_strlit("succeeded");
    reveal_strlit("partially_succeeded");
    reveal_strlit("failed");
    reveal_strlit("skipped");
    assert("succeeded"@.len() == 9 && "partially_succeeded"@.len() == 19);
    assert("failed"@[0] == 'f' && "skipped"@[0] == 's' && "skipped"@.len() == 7 && "failed"@.len()
        == 6);
}

/// The next stages that a response suggests are its texts, in order: a list of texts is
/// taken as it is, items of another kind are left out, and a list without any text
/// changes nothing.
pub proof fn suggested_stages_are_the_texts_of_the_list(
    value: Tree,
    before: Outcome,
    after: Outcome,
    items: Seq<Tree>,
    i: int,
)
    requires
        routed(value, before, after),
        value.at("suggested_next_ids"@) == Some(Tree::Array(items)),
        0 <= i < items.len(),
    ensures
        (forall|j: int| 0 <= j < items.len() ==> (#[trigger] items[j]) is Text) ==> {
            &&& after.suggested_next_ids@.len() == items.len()
            &&& items[i] == Tree::Text(after.suggested_next_ids@[i]@)
        },
        items[i] matches Tree::Text(id) ==> views(after.suggested_next_ids@).contains(id),
        (forall|j: int| 0 <= j < items.len() ==> !((#[trigger] items[j]) is Text))
            ==> after.suggested_next_ids == before.suggested_next_ids,
{
    lemma_text_items(items);
    let ids = text_items(items);
    if items[i] is Text {
        assert(ids.contains(items[i]->Text_0));
        assert(ids.len() > 0);
    }
    if forall|j: int| 0 <= j < items.len() ==> (#[trigger] items[j]) is Text {
        assert(ids.len() == items.len());
        assert(ids[i] == items[i]->Text_0);
        assert(views(after.suggested_next_ids@)[i] == after.suggested_next_ids@[i]@);
    }
}

proof fn lemma_text_items(items: Seq<Tree>)
    ensures
        forall|i: int|
            0 <= i < items.len() && (#[trigger] items[i]) is Text ==> text_items(items).contains(
                items[i]->Text_0,
            ),
        (forall|j: int| 0 <= j < items.len() ==> (#[trigger] items[j]) is Text) ==> text_items(
            items,
        ).len() == items.len() && forall|k: int|
            0 <= k < items.len() ==> text_items(items)[k] == (#[trigger] items[k])->Text_0,
        (forall|j: int| 0 <= j < items.len() ==> !((#[trigger] items[j]) is Text)) ==> text_items(
            items,
        ).len() == 0,
    decreases items.len(),
{
    if items.len() > 0 {
        let init = items.drop_last();
        let before = text_items(init);
        let after = text_items(items);
        lemma_text_items(init);
        assert(items[items.len() - 1] == items.last());
        assert forall|j: int| 0 <= j < init.len() implies #[trigger] init[j] == items[j] by {}
        assert forall|i: int| 0 <= i < items.len() && (#[trigger] items[i]) is Text implies after.contains(
            items[i]->Text_0,
        ) by {
            if i < init.len() {
                assert(init[i] == items[i]);
                let k = choose|k: int| 0 <= k < before.len() && before[k] == init[i]->Text_0;
                assert(after[k] == items[i]->Text_0);
            } else {
                assert(after[before.len() as int] == items[i]->Text_0);
            }
        }
        if forall|j: int| 0 <= j < items.len() ==> (#[trigger] items[j]) is Text {
            assert forall|j: int| 0 <= j < init.len() implies (#[trigger] init[j]) is Text by {
                assert(init[j] == items[j]);
            }
            assert forall|k: int| 0 <= k < items.len() implies after[k] == (
            #[trigger] items[k])->Text_0 by {
                if k < init.len() {
                    assert(init[k] == items[k]);
                }
            }
        }
        if forall|j: int| 0 <= j < items.len() ==> !((#[trigger] items[j]) is Text) {
            assert forall|j: int| 0 <= j < init.len() implies !((#[trigger] init[j]) is Text) by {
                assert(init[j] == items[j]);
            }
        }
    }
}

/// Every update of the context that a response holds reaches the context, the last one of
/// a name where there are several, and what it does not name stays.
pub proof fn context_updates_reach_the_context(
    value: Tree,
    before: Outcome,
    after: Outcome,
    members: Seq<(Seq<char>, Tree)>,
    i: int,
    name: Seq<char>,
)
    requires
        routed(value, before, after),
        value.at("context_updates"@) == Some(Tree::Object(members)),
    ensures
        0 <= i < members.len() && (forall|j: int|
            i < j < members.len() ==> (#[trigger] members[j]).0 != members[i].0)
            ==> after.context_updates@.dom().contains(members[i].0)
            && after.context_updates@[members[i].0].tree() == members[i].1,
        (forall|j: int| 0 <= j < members.len() ==> (#[trigger] members[j]).0 != name) ==> {
            &&& after.context_updates@.dom().contains(name)
                <==> before.context_updates@.dom().contains(name)
            &&& before.context_updates@.dom().contains(name)
                ==> after.context_updates@[name].tree() == before.context_updates@[name].tree()
        },
{
    let base = documents(before.context_updates@);
    let done = documents(after.context_updates@);
    lemma_with_members(base, members, i, name);
    if 0 <= i < members.len() && (forall|j: int|
        i < j < members.len() ==> (#[trigger] members[j]).0 != members[i].0) {
        assert(done.dom().contains(members[i].0));
        assert(done[members[i].0] == after.context_updates@[members[i].0].tree());
    }
    if forall|j: int| 0 <= j < members.len() ==> (#[trigger] members[j]).0 != name {
        assert(done.dom().contains(name) <==> base.dom().contains(name));
        if base.dom().contains(name) {
            assert(done[name] == base[name]);
            assert(done[name] == after.context_updates@[name].tree());
        }
    }
}

proof fn lemma_with_members(
    context: Map<Seq<char>, Tree>,
    members: Seq<(Seq<char>, Tree)>,
    i: int,
    name: Seq<char>,
)
    ensures
        0 <= i < members.len() && (forall|j: int|
            i < j < members.len() ==> (#[trigger] members[j]).0 != members[i].0) ==> with_members(
            context,
            members,
        ).dom().contains(members[i].0) && with_members(context, members)[members[i].0]
            == members[i].1,
        (forall|j: int| 0 <= j < members.len() ==> (#[trigger] members[j]).0 != name) ==> {
            &&& with_members(context, members).dom().contains(name) <==> context.dom().contains(
                name,
            )
            &&& context.dom().contains(name) ==> with_members(context, members)[name]
                == context[name]
        },
    decreases members.len(),
{
    if members.len() > 0 {
        let init = members.drop_last();
        lemma_with_members(context, init, i, name);
        assert(members[members.len() - 1] == members.last());
        assert forall|j: int| 0 <= j < init.len() implies #[trigger] init[j] == members[j] by {}
        if 0 <= i < init.len() {
            assert(init[i] == members[i]);
        }
    }
}

/// The output of a node with a schema of its own is kept under its own key: `output.` and
/// the id of the node.
pub proof fn outputs_are_kept_under_their_node(a: &str, b: &str, key_a: String, key_b: String)
    requires
        call_ensures(output_key, (a,), key_a),
        call_ensures(output_key, (b,), key_b),
    ensures
        key_a@ == "output."@ + a@,
        key_a@ == key_b@ ==> a@ == b@,
{
    reveal_strlit("output.");
    if key_a@ == key_b@ {
        assert(key_a@.skip(7) =~= a@);
        assert(key_b@.skip(7) =~= b@);
    }
}

/// A stage whose output cannot be repaired fails for good: nothing asks to try again,
/// nothing is routed, and the reason says after how many attempts.
pub proof fn exhausted_repairs_fail_the_stage(attempts: i64, r: Outcome)
    requires
        call_ensures(exhausted_failure_outcome, (attempts,), r),
    ensures
        r.status == (StageOutcome::Failed { retry_requested: false }),
        r.preferred_label is None,
        r.suggested_next_ids@.len() == 0,
        r.context_updates@.dom() == Set::<Seq<char>>::empty(),
        r.failure matches Some(failure) && failure.category == FailureCategory::Deterministic
            && failure.message@ == "output schema validation failed after "@ + signed_decimal(
            attempts as int,
        ) + " repair attempt(s)"@ && failure.system_actor is None,
{
}

/// A model is held to a schema strictly exactly where the node has one of its own; for a
/// routing response any object is asked for.
pub proof fn only_own_schemas_are_strict(schema: &OutputSchemaKind, r: ResponseFormat)
    requires
        call_ensures(prompt_response_format, (schema,), r),
    ensures
        r.strict <==> *schema is JsonSchema,
        r.kind == ResponseFormatType::JsonSchema <==> *schema is JsonSchema,
        r.json_schema is Some <==> *schema is JsonSchema,
        *schema matches OutputSchemaKind::JsonSchema(compiled) ==> r.json_schema->0.tree()
            == compiled.tree(),
{
}

/// The contract for the final response stands behind the prompt, which stays as it is; a
/// node with a schema of its own is shown that schema, and every other the routing fields.
pub proof fn prompts_end_with_the_contract(prompt: &str, schema: &OutputSchemaKind, r: String)
    requires
        call_ensures(agent_prompt_with_output_schema, (prompt, schema), r),
    ensures
        r@.len() > prompt@.len(),
        r@.take(prompt@.len() as int) == prompt@,
        *schema matches OutputSchemaKind::JsonSchema(compiled) ==> text_has(
            r@,
            compact(compiled.tree()),
        ),
        *schema is Routing ==> text_has(
            r@,
            "preferred_next_label, outcome, failure_reason, suggested_next_ids, context_updates"@,
        ),
{
    let head =
        "\n\nFabro final-output contract\n\nThe following contract is trusted workflow configuration. It applies only to your final response, not to intermediate tool calls.\n"@;
    let tail =
        "\nThe contract is complete. Do not ask the user to provide or choose the output shape."@;
    reveal_strlit(
        "\nThe contract is complete. Do not ask the user to provide or choose the output shape.",
    );
    assert(r@.take(prompt@.len() as int) =~= prompt@);
    match *schema {
        OutputSchemaKind::JsonSchema(compiled) => {
            let opening =
                "Return a single JSON object that satisfies this JSON Schema:\n<output_schema>\n"@;
            let needle = compact(compiled.tree());
            let at = (prompt@ + head + opening).len() as int;
            assert(r@.subrange(at, at + needle.len()) =~= needle);
            assert(occurs_at(r@, needle, at));
        },
        OutputSchemaKind::Routing => {
            let opening = "Return a single JSON object with at least one routing field: "@;
            let needle = joined(routing_status_fields(), ", "@);
            lemma_field_list();
            let at = (prompt@ + head + opening).len() as int;
            assert(r@.subrange(at, at + needle.len()) =~= needle);
            assert(occurs_at(r@, needle, at));
        },
    }
}

proof fn lemma_field_list()
    ensures
        joined(routing_status_fields(), ", "@)
            == "preferred_next_label, outcome, failure_reason, suggested_next_ids, context_updates"@,
{
    let all = routing_status_fields();
    reveal_with_fuel(joined, 6);
    reveal_strlit("preferred_next_label");
    reveal_strlit("outcome");
    reveal_strlit("failure_reason");
    reveal_strlit("suggested_next_ids");
    reveal_strlit("context_updates");
    reveal_strlit(", ");
    reveal_strlit(
        "preferred_next_label, outcome, failure_reason, suggested_next_ids, context_updates",
    );
    let four = all.drop_last();
    let three = four.drop_last();
    let two = three.drop_last();
    let one = two.drop_last();
    assert(one.len() == 1 && one[0] == all[0]);
    assert(joined(one, ", "@) == all[0]);
    assert(joined(two, ", "@) == all[0] + ", "@ + all[1]);
    assert(joined(three, ", "@) == all[0] + ", "@ + all[1] + ", "@ + all[2]);
    assert(joined(four, ", "@) == all[0] + ", "@ + all[1] + ", "@ + all[2] + ", "@ + all[3]);
    assert(joined(all, ", "@) == all[0] + ", "@ + all[1] + ", "@ + all[2] + ", "@ + all[3] + ", "@
        + all[4]);
    assert(joined(all, ", "@)
        =~= "preferred_next_label, outcome, failure_reason, suggested_next_ids, context_updates"@);
}

// ---- What a node declares ----

/// A node declares its output schema by the text of one attribute, taken without the white
/// space around it: `routing` names the built-in schema, a reference to a file that was not
/// resolved is refused, and so is a blank text; any other text is a schema.
pub proof fn declarations_are_read_from_the_attribute(
    node: &Node,
    r: Result<Option<Declaration>, Error>,
    raw: String,
    before: Seq<char>,
    value: Seq<char>,
    after: Seq<char>,
)
    requires
        call_ensures(read_declaration, (node,), r),
    ensures
        !node.attrs@.dom().contains("output_schema"@) ==> r matches Ok(None),
        node.attrs@.dom().contains("output_schema"@) && node.attrs@["output_schema"@]
            == AttrValue::String(raw) ==> {
            &&& blank(raw@) ==> (r matches Err(Error::Validation(text)) && text@
                == "Invalid output_schema for node \""@ + node.id@ + "\": "@
                + "value must not be empty"@)
            &&& blank(before) && blank(after) && raw@ == before + value + after && value.len() > 0
                && !is_space(value.first()) && !is_space(value.last()) ==> {
                &&& value == "routing"@ ==> (r matches Ok(Some(Declaration::Routing)))
                &&& value[0] == '@' ==> (r matches Err(Error::Validation(text)) && text@
                    == "Invalid output_schema for node \""@ + node.id@ + "\": "@
                    + "unresolved file reference "@ + value)
                &&& value != "routing"@ && value[0] != '@' ==> (r matches Ok(
                    Some(Declaration::Schema(text)),
                ) && text@ == value)
            }
        },
{
    reveal_strlit("routing");
    if node.attrs@.dom().contains("output_schema"@) && node.attrs@["output_schema"@]
        == AttrValue::String(raw) {
        only_blank_text_is_trimmed_away(raw@);
        if blank(before) && blank(after) && raw@ == before + value + after && value.len() > 0
            && !is_space(value.first()) && !is_space(value.last()) {
            trimming_undoes_white_space(before, value, after);
        }
    }
}

/// What a node declares is compiled once: the keyword needs no compiling, a text that is no
/// JSON is refused with its fault, and a schema is the one that the text holds.
pub proof fn declared_schemas_are_compiled(
    node: &Node,
    declaration: Result<Option<Declaration>, Error>,
    r: Result<Option<OutputSchemaKind>, Error>,
)
    requires
        call_ensures(read_declaration, (node,), declaration),
        call_ensures(parse_node_output_schema, (node,), r),
    ensures
        declaration matches Ok(None) ==> r matches Ok(None),
        declaration matches Ok(Some(Declaration::Routing)) ==> r matches Ok(
            Some(OutputSchemaKind::Routing),
        ),
        declaration matches Err(Error::Validation(text)) ==> (r matches Err(
            Error::Validation(message),
        ) && message@ == text@),
        declaration matches Ok(Some(Declaration::Schema(source))) ==> {
            &&& parsed(source@) matches Err(fault) ==> (r matches Err(Error::Validation(message))
                && message@ == "Invalid output_schema for node \""@ + node.id@ + "\": "@
                + "expected \"routing\" or a JSON Schema object: "@ + fault)
            &&& parsed(source@) matches Ok(tree) ==> (schema_compiles(tree) <==> r is Ok)
            &&& r is Ok ==> (r matches Ok(Some(OutputSchemaKind::JsonSchema(compiled)))
                && parsed(source@) == Ok::<Tree, Seq<char>>(compiled.tree()))
        },
{
}

/// The schema that a node declares as its own is what compiling it gave; what went wrong is
/// reported for that node, a text that is no JSON with a hint at what may stand there.
pub proof fn faults_of_a_declaration_name_the_node(
    node_id: &str,
    compiled: Result<CompiledSchema, SchemaFault>,
    r: Result<OutputSchemaKind, Error>,
)
    requires
        call_ensures(settle_declaration, (node_id, compiled), r),
    ensures
        compiled matches Ok(schema) ==> (r matches Ok(OutputSchemaKind::JsonSchema(own)) && own
            == schema),
        compiled matches Err(SchemaFault::Parse(fault)) ==> (r matches Err(Error::Validation(text))
            && text@ == "Invalid output_schema for node \""@ + node_id@ + "\": "@
            + "expected \"routing\" or a JSON Schema object: "@ + fault@),
        compiled matches Err(SchemaFault::Compile(fault)) ==> (r matches Err(
            Error::Validation(text),
        ) && text@ == "Invalid output_schema for node \""@ + node_id@ + "\": "@ + fault@),
{
}

/// The texts of two lists, one behind the other, are the texts of the one and then those of
/// the other.
pub proof fn texts_are_taken_in_order(a: Seq<Tree>, b: Seq<Tree>)
    ensures
        text_items(a + b) == text_items(a) + text_items(b),
    decreases b.len(),
{
    if b.len() == 0 {
        assert(a + b =~= a);
        assert(text_items(a) + text_items(b) =~= text_items(a));
    } else {
        assert((a + b).drop_last() =~= a + b.drop_last());
        assert((a + b).last() == b.last());
        texts_are_taken_in_order(a, b.drop_last());
        assert(text_items(a + b) =~= text_items(a) + text_items(b));
    }
}

/// A word that names no outcome changes neither the status nor the failure.
pub proof fn unknown_outcomes_change_nothing(
    value: Tree,
    before: Outcome,
    after: Outcome,
    word: Seq<char>,
)
    requires
        routed(value, before, after),
        value.at("outcome"@) == Some(Tree::Text(word)),
        word != "succeeded"@,
        word != "partially_succeeded"@,
        word != "failed"@,
        word != "skipped"@,
    ensures
        after.status == before.status,
        after.failure == before.failure,
{
}

/// The message that asks for a correction lists every objection, and then asks for what the
/// prompt of the node asked for.
pub proof fn corrections_name_every_objection(
    error: StructuredOutputError,
    schema: &OutputSchemaKind,
    r: String,
    prompt: String,
    i: int,
)
    requires
        call_ensures(StructuredOutputError::repair_message, (&error, schema), r),
        call_ensures(agent_prompt_with_output_schema, ("", schema), prompt),
    ensures
        0 <= i < error@.messages.len() ==> text_has(r@, "- "@ + error@.messages[i]),
        exists|asked: Seq<char>| #[trigger] text_has(r@, asked) && prompt@
            == "\n\nFabro final-output contract\n\nThe following contract is trusted workflow configuration. It applies only to your final response, not to intermediate tool calls.\n"@
            + asked
            + "\nThe contract is complete. Do not ask the user to provide or choose the output shape."@,
{
    reveal_strlit("");
    let opening =
        "Your previous response did not satisfy the node's output_schema.\n\nValidation errors:\n"@;
    let list = bulleted(error@.messages);
    let asked = expectation(*schema);
    let at = (opening + list + "\n\n"@).len() as int;
    assert(r@.subrange(at, at + asked.len()) =~= asked);
    assert(occurs_at(r@, asked, at));
    assert(text_has(r@, asked));
    assert(prompt@
        =~= "\n\nFabro final-output contract\n\nThe following contract is trusted workflow configuration. It applies only to your final response, not to intermediate tool calls.\n"@
        + asked
        + "\nThe contract is complete. Do not ask the user to provide or choose the output shape."@);
    if 0 <= i < error@.messages.len() {
        let lines = error@.messages.map_values(|m: Seq<char>| "- "@ + m);
        let p = lemma_piece_is_there(lines, "\n"@, i);
        let line = lines[i];
        assert(list.subrange(p, p + line.len()) == line);
        let q = opening.len() + p;
        assert(r@.subrange(q, q + line.len()) =~= list.subrange(p, p + line.len()));
        assert(occurs_at(r@, line, q));
    }
}

proof fn lemma_piece_is_there(pieces: Seq<Seq<char>>, separator: Seq<char>, i: int) -> (at: int)
    requires
        0 <= i < pieces.len(),
    ensures
        0 <= at,
        at + pieces[i].len() <= joined(pieces, separator).len(),
        joined(pieces, separator).subrange(at, at + pieces[i].len()) == pieces[i],
    decreases pieces.len(),
{
    let all = joined(pieces, separator);
    let init = pieces.drop_last();
    if pieces.len() == 1 {
        assert(all.subrange(0, all.len() as int) =~= all);
        0
    } else if i == pieces.len() - 1 {
        let at = (joined(init, separator) + separator).len() as int;
        assert(all.subrange(at, at + pieces[i].len()) =~= pieces[i]);
        at
    } else {
        let at = lemma_piece_is_there(init, separator, i);
        assert(init[i] == pieces[i]);
        assert(all.subrange(at, at + pieces[i].len()) =~= joined(init, separator).subrange(
            at,
            at + pieces[i].len(),
        ));
        at
    }
}

/// A name in double quotes.
pub open spec fn in_quotes(name: Seq<char>) -> Seq<char> {
    seq!['"'] + name + seq!['"']
}

/// The built-in schema asks for an object that has one of the routing fields, with a text, a
/// list of texts or an object in them; the outcome is one of the words that name one, and
/// other members may stand beside.
pub proof fn the_built_in_schema_asks_for_a_routing_field()
    ensures
        ROUTING_SCHEMA@
            == "{\"type\":\"object\",\"additionalProperties\":true,\"properties\":{"@ + in_quotes(
            "preferred_next_label"@,
        ) + ":{\"type\":\"string\"},"@ + in_quotes("outcome"@) + ":{\"type\":\"string\",\"enum\":["@
            + in_quotes(StageOutcome::Succeeded.word()) + ","@ + in_quotes(
            StageOutcome::PartiallySucceeded.word(),
        ) + ","@ + in_quotes((StageOutcome::Failed { retry_requested: false }).word()) + ","@
            + in_quotes(StageOutcome::Skipped.word()) + "]},"@ + in_quotes("failure_reason"@)
            + ":{\"type\":\"string\"},"@ + in_quotes("suggested_next_ids"@)
            + ":{\"type\":\"array\",\"items\":{\"type\":\"string\"}},"@ + in_quotes(
            "context_updates"@,
        ) + ":{\"type\":\"object\"}},\"anyOf\":["@ + "{\"required\":["@ + in_quotes(
            "preferred_next_label"@,
        ) + "]},"@ + "{\"required\":["@ + in_quotes("outcome"@) + "]},"@ + "{\"required\":["@
            + in_quotes("failure_reason"@) + "]},"@ + "{\"required\":["@ + in_quotes(
            "suggested_next_ids"@,
        ) + "]},"@ + "{\"required\":["@ + in_quotes("context_updates"@) + "]}]}"@,
{
    reveal_strlit(
        "{\"type\":\"object\",\"additionalProperties\":true,\
\"properties\":{\
\"preferred_next_label\":{\"type\":\"string\"},\
\"outcome\":{\"type\":\"string\",\"enum\":[\"succeeded\",\"partially_succeeded\",\"failed\",\"skipped\"]},\
\"failure_reason\":{\"type\":\"string\"},\
\"suggested_next_ids\":{\"type\":\"array\",\"items\":{\"type\":\"string\"}},\
\"context_updates\":{\"type\":\"object\"}},\
\"anyOf\":[\
{\"required\":[\"preferred_next_label\"]},\
{\"required\":[\"outcome\"]},\
{\"required\":[\"failure_reason\"]},\
{\"required\":[\"suggested_next_ids\"]},\
{\"required\":[\"context_updates\"]}]}",
    );
    reveal_strlit("{\"type\":\"object\",\"additionalProperties\":true,\"properties\":{");
    reveal_strlit("preferred_next_label");
    reveal_strlit("outcome");
    reveal_strlit("failure_reason");
    reveal_strlit("suggested_next_ids");
    reveal_strlit("context_updates");
    reveal_strlit(":{\"type\":\"string\"},");
    reveal_strlit(":{\"type\":\"string\",\"enum\":[");
    reveal_strlit(",");
    reveal_strlit("succeeded");
    reveal_strlit("partially_succeeded");
    reveal_strlit("failed");
    reveal_strlit("skipped");
    reveal_strlit("]},");
    reveal_strlit(":{\"type\":\"array\",\"items\":{\"type\":\"string\"}},");
    reveal_strlit(":{\"type\":\"object\"}},\"anyOf\":[");
    reveal_strlit("{\"required\":[");
    reveal_strlit("]}]}");
    let whole = "{\"type\":\"object\",\"additionalProperties\":true,\"properties\":{"@ + in_quotes(
        "preferred_next_label"@,
    ) + ":{\"type\":\"string\"},"@ + in_quotes("outcome"@) + ":{\"type\":\"string\",\"enum\":["@
        + in_quotes(StageOutcome::Succeeded.word()) + ","@ + in_quotes(
        StageOutcome::PartiallySucceeded.word(),
    ) + ","@ + in_quotes((StageOutcome::Failed { retry_requested: false }).word()) + ","@
        + in_quotes(StageOutcome::Skipped.word()) + "]},"@ + in_quotes("failure_reason"@)
        + ":{\"type\":\"string\"},"@ + in_quotes("suggested_next_ids"@)
        + ":{\"type\":\"array\",\"items\":{\"type\":\"string\"}},"@ + in_quotes(
        "context_updates"@,
    ) + ":{\"type\":\"object\"}},\"anyOf\":["@ + "{\"required\":["@ + in_quotes(
        "preferred_next_label"@,
    ) + "]},"@ + "{\"required\":["@ + in_quotes("outcome"@) + "]},"@ + "{\"required\":["@
        + in_quotes("failure_reason"@) + "]},"@ + "{\"required\":["@ + in_quotes(
        "suggested_next_ids"@,
    ) + "]},"@ + "{\"required\":["@ + in_quotes("context_updates"@) + "]}]}"@;
    assert(ROUTING_SCHEMA@.len() == whole.len());
    assert(ROUTING_SCHEMA@ =~= whole);
}

/// A refusal says what it was made with.
pub proof fn refusals_say_what_is_wrong(
    kind: StructuredOutputErrorKind,
    message: String,
    made: StructuredOutputError,
    messages: Vec<String>,
    by_schema: StructuredOutputError,
    told: StructuredOutputErrorKind,
    listed: &Vec<String>,
    by_schema_told: StructuredOutputErrorKind,
)
    requires
        call_ensures(StructuredOutputError::new, (kind, message), made),
        call_ensures(StructuredOutputError::validation, (messages,), by_schema),
        call_ensures(StructuredOutputError::kind, (&made,), told),
        call_ensures(StructuredOutputError::messages, (&made,), listed),
        call_ensures(StructuredOutputError::kind, (&by_schema,), by_schema_told),
    ensures
        told == kind,
        listed@.len() == 1,
        listed@[0]@ == message@,
        by_schema_told == StructuredOutputErrorKind::SchemaValidation,
        by_schema@.messages == views(messages@),
{
    assert(views(listed@).len() == 1);
    assert(views(listed@)[0] == message@);
}

} // verus!
