//! What a tool tells a model about itself: its name, its description and the JSON
//! schema of its parameters.

use vstd::prelude::*;
use vstd::string::*;

use crate::json::{holds_at, members_are_found_by_name, Json, Tree};
use crate::native_tool::NativeTool;

verus! {

/// How a tool presents itself.
#[derive(Debug, PartialEq, Eq)]
pub struct ToolDefinition {
    pub name: String,
    pub description: String,
    pub parameters: Json,
}

/// The schema of a parameter: its type and what it is for.
pub open spec fn parameter_schema(kind: Seq<char>, description: Seq<char>) -> Tree {
    Tree::Object(seq![("type"@, Tree::Text(kind)), ("description"@, Tree::Text(description))])
}

/// The schema of a parameter that takes one of a few words.
pub open spec fn choice_schema(options: Seq<Seq<char>>, description: Seq<char>) -> Tree {
    Tree::Object(
        seq![
            ("type"@, Tree::Text("string"@)),
            ("enum"@, texts(options)),
            ("description"@, Tree::Text(description)),
        ],
    )
}

/// An array of texts.
pub open spec fn texts(items: Seq<Seq<char>>) -> Tree {
    Tree::Array(items.map_values(|t: Seq<char>| Tree::Text(t)))
}

/// The schema of the parameters of a tool.
pub open spec fn object_schema(
    properties: Seq<(Seq<char>, Tree)>,
    required: Seq<Seq<char>>,
) -> Tree {
    Tree::Object(
        seq![
            ("type"@, Tree::Text("object"@)),
            ("properties"@, Tree::Object(properties)),
            ("required"@, texts(required)),
        ],
    )
}

/// The members of an object as a value.
pub open spec fn member_trees(members: Seq<(String, Json)>) -> Seq<(Seq<char>, Tree)> {
    members.map_values(|m: (String, Json)| (m.0@, m.1.tree()))
}

pub(crate) proof fn lemma_object(members: Vec<(String, Json)>)
    ensures
        Json::Object(members).tree() == Tree::Object(member_trees(members@)),
{
    assert(Json::Object(members).tree()->Object_0 =~= member_trees(members@));
}

fn text_array(items: &Vec<&str>) -> (r: Json)
    ensures
        r.tree() == texts(items@.map_values(|t: &str| t@)),
{
    let mut out: Vec<Json> = Vec::new();
    let mut i: usize = 0;
    while i < items.len()
        invariant
            i <= items@.len(),
            out@.len() == i,
            forall|j: int| 0 <= j < i ==> (#[trigger] out@[j]).tree() == Tree::Text(items@[j]@),
        decreases items@.len() - i,
    {
        out.push(Json::Text(items[i].to_owned()));
        i += 1;
    }
    let r = Json::Array(out);
    proof {
        assert(r.tree()->Array_0 =~= texts(items@.map_values(|t: &str| t@))->Array_0);
    }
    r
}

/// The schema of a parameter.
pub(crate) fn parameter(kind: &str, description: &str) -> (r: Json)
    ensures
        r.tree() == parameter_schema(kind@, description@),
{
    let mut members: Vec<(String, Json)> = Vec::new();
    members.push(("type".to_owned(), Json::Text(kind.to_owned())));
    members.push(("description".to_owned(), Json::Text(description.to_owned())));
    proof {
        lemma_object(members);
        assert(member_trees(members@) =~= parameter_schema(kind@, description@)->Object_0);
    }
    Json::Object(members)
}

/// The schema of a parameter that takes one of a few words.
pub(crate) fn choice(options: &Vec<&str>, description: &str) -> (r: Json)
    ensures
        r.tree() == choice_schema(options@.map_values(|t: &str| t@), description@),
{
    let mut members: Vec<(String, Json)> = Vec::new();
    members.push(("type".to_owned(), Json::Text("string".to_owned())));
    members.push(("enum".to_owned(), text_array(options)));
    members.push(("description".to_owned(), Json::Text(description.to_owned())));
    proof {
        lemma_object(members);
        assert(member_trees(members@) =~= choice_schema(
            options@.map_values(|t: &str| t@),
            description@,
        )->Object_0);
    }
    Json::Object(members)
}

/// The schema of the parameters of a tool.
pub(crate) fn parameters(properties: Vec<(String, Json)>, required: &Vec<&str>) -> (r: Json)
    ensures
        r.tree() == object_schema(
            member_trees(properties@),
            required@.map_values(|t: &str| t@),
        ),
{
    let mut members: Vec<(String, Json)> = Vec::new();
    proof {
        lemma_object(properties);
    }
    members.push(("type".to_owned(), Json::Text("object".to_owned())));
    members.push(("properties".to_owned(), Json::Object(properties)));
    members.push(("required".to_owned(), text_array(required)));
    proof {
        lemma_object(members);
        assert(member_trees(members@) =~= object_schema(
            member_trees(properties@),
            required@.map_values(|t: &str| t@),
        )->Object_0);
    }
    Json::Object(members)
}

/// The definition of a built-in tool, under its canonical name. The registry renames
/// it on the way in.
pub fn definition(tool: NativeTool, description: &str, parameters: Json) -> (r: ToolDefinition)
    ensures
        r.name@ == tool.canonical(),
        r.description@ == description@,
        r.parameters == parameters,
{
    ToolDefinition {
        name: tool.canonical_name().to_owned(),
        description: description.to_owned(),
        parameters,
    }
}

/// The schema of a parameter says its type and what it is for, and the words to choose from
/// where there are any.
pub proof fn parameters_say_their_type(
    kind: Seq<char>,
    options: Seq<Seq<char>>,
    description: Seq<char>,
)
    ensures
        ({
            let plain = parameter_schema(kind, description);
            &&& plain.at("type"@) == Some(Tree::Text(kind))
            &&& plain.at("description"@) == Some(Tree::Text(description))
            &&& plain.at("enum"@) is None
        }),
        ({
            let chosen = choice_schema(options, description);
            &&& chosen.at("type"@) == Some(Tree::Text("string"@))
            &&& chosen.at("description"@) == Some(Tree::Text(description))
            &&& chosen.at("enum"@) matches Some(Tree::Array(items)) && items.len() == options.len()
                && forall|i: int|
                0 <= i < items.len() ==> #[trigger] items[i] == Tree::Text(options[i])
        }),
{
    lemma_words_differ();
    let a = parameter_schema(kind, description)->Object_0;
    members_are_found_by_name(a, "type"@, 0, Tree::Text(kind));
    members_are_found_by_name(a, "description"@, 1, Tree::Text(description));
    members_are_found_by_name(a, "enum"@, 0, Tree::Null);
    assert(holds_at(a, 0, "type"@, Tree::Text(kind)));
    assert(holds_at(a, 1, "description"@, Tree::Text(description)));
    let b = choice_schema(options, description)->Object_0;
    let words = texts(options);
    members_are_found_by_name(b, "type"@, 0, Tree::Text("string"@));
    members_are_found_by_name(b, "enum"@, 1, words);
    members_are_found_by_name(b, "description"@, 2, Tree::Text(description));
    assert(holds_at(b, 0, "type"@, Tree::Text("string"@)));
    assert(holds_at(b, 1, "enum"@, words));
    assert(holds_at(b, 2, "description"@, Tree::Text(description)));
}

proof fn lemma_words_differ()
    ensures
        "type"@ != "description"@,
        "type"@ != "enum"@,
        "enum"@ != "description"@,
        "type"@ != "properties"@,
        "type"@ != "required"@,
        "properties"@ != "required"@,
{
    reveal_strlit("type");
    reveal_strlit("enum");
    reveal_strlit("description");
    reveal_strlit("properties");
    reveal_strlit("required");
    assert("type"@[0] == 't' && "enum"@[0] == 'e' && "description"@[0] == 'd' && "properties"@[0]
        == 'p' && "required"@[0] == 'r');
}

/// The parameters of a tool are an object: it has each property that was given, as it was
/// given, and requires those that were named.
pub proof fn tools_take_an_object(properties: Seq<(Seq<char>, Tree)>, required: Seq<Seq<char>>)
    ensures
        ({
            let schema = object_schema(properties, required);
            &&& schema.at("type"@) == Some(Tree::Text("object"@))
            &&& schema.at("properties"@) == Some(Tree::Object(properties))
            &&& schema.at("required"@) matches Some(Tree::Array(items)) && items.len()
                == required.len() && forall|i: int|
                0 <= i < items.len() ==> #[trigger] items[i] == Tree::Text(required[i])
        }),
{
    lemma_words_differ();
    let all = object_schema(properties, required)->Object_0;
    let given = Tree::Object(properties);
    let words = texts(required);
    members_are_found_by_name(all, "type"@, 0, Tree::Text("object"@));
    members_are_found_by_name(all, "properties"@, 1, given);
    members_are_found_by_name(all, "required"@, 2, words);
    assert(holds_at(all, 0, "type"@, Tree::Text("object"@)));
    assert(holds_at(all, 1, "properties"@, given));
    assert(holds_at(all, 2, "required"@, words));
}

/// A built-in tool is defined under its canonical name, with what it was given.
pub proof fn definitions_have_the_canonical_name(
    tool: NativeTool,
    description: &str,
    parameters: Json,
    name: &'static str,
    r: ToolDefinition,
)
    requires
        call_ensures(NativeTool::canonical_name, (tool,), name),
        call_ensures(definition, (tool, description, parameters), r),
    ensures
        r.name@ == name@,
        r.description@ == description@,
        r.parameters == parameters,
{
}

} // verus!
