//! JSON values: the library's own value type, and the calls into `serde_json` and
//! `jsonschema` that parse text, compile schemas and validate values.

use vstd::prelude::*;

use crate::text::{characters, decimal, digit, same_text, views};

verus! {

/// A JSON document as a mathematical value. The members of an object stand in
/// the order in which they are walked; a number stands as it is written.
pub enum Tree {
    Null,
    Bool(bool),
    Number(Seq<char>),
    Text(Seq<char>),
    Array(Seq<Tree>),
    Object(Seq<(Seq<char>, Tree)>),
}

/// The value of the first member named `key`.
pub open spec fn member(members: Seq<(Seq<char>, Tree)>, key: Seq<char>) -> Option<Tree>
    decreases members.len(),
{
    if members.len() == 0 {
        None
    } else if members[0].0 == key {
        Some(members[0].1)
    } else {
        member(members.drop_first(), key)
    }
}

/// Whether an object has a member named `key`.
pub open spec fn has_member(members: Seq<(Seq<char>, Tree)>, key: Seq<char>) -> bool {
    member(members, key) is Some
}

/// Every character is a decimal digit.
pub open spec fn all_digits(text: Seq<char>) -> bool {
    forall|i: int| 0 <= i < text.len() ==> '0' <= #[trigger] text[i] <= '9'
}

/// The number that decimal digits stand for.
pub open spec fn digits_value(text: Seq<char>) -> nat
    decreases text.len(),
{
    if text.len() == 0 {
        0
    } else {
        digits_value(text.drop_last()) * 10 + (text.last() as nat - '0' as nat) as nat
    }
}

/// The integer that the text of a number stands for, if it is written as one.
pub open spec fn integer(text: Seq<char>) -> Option<int> {
    if text.len() > 0 && all_digits(text) {
        Some(digits_value(text) as int)
    } else if text.len() > 1 && text[0] == '-' && all_digits(text.skip(1)) {
        Some(-digits_value(text.skip(1)))
    } else {
        None
    }
}

/// A number that was written in decimal digits reads as that number.
pub proof fn written_numbers_read_back(n: nat)
    ensures
        integer(decimal(n)) == Some(n as int),
    decreases n,
{
    lemma_decimal(n);
}

proof fn lemma_decimal(n: nat)
    ensures
        decimal(n).len() > 0,
        all_digits(decimal(n)),
        digits_value(decimal(n)) == n,
    decreases n,
{
    if n < 10 {
        assert(seq![digit(n)].drop_last() =~= Seq::<char>::empty());
        assert(digits_value(Seq::<char>::empty()) == 0);
    } else {
        lemma_decimal(n / 10);
        assert(decimal(n).drop_last() =~= decimal(n / 10));
        assert(decimal(n).last() == digit(n % 10));
    }
}

impl Tree {
    /// The integer in the member named `key`, if there is one and it holds one.
    pub open spec fn integer_at(self, key: Seq<char>) -> Option<int> {
        match self.at(key) {
            Some(Tree::Number(text)) => integer(text),
            _ => None,
        }
    }

    /// The truth value in the member named `key`, if there is one and it holds one.
    pub open spec fn bool_at(self, key: Seq<char>) -> Option<bool> {
        match self.at(key) {
            Some(Tree::Bool(b)) => Some(b),
            _ => None,
        }
    }

    /// The member named `key`, if this is an object that has one.
    pub open spec fn at(self, key: Seq<char>) -> Option<Tree> {
        match self {
            Tree::Object(members) => member(members, key),
            _ => None,
        }
    }

    /// The text in the member named `key`, if there is one and it holds text.
    pub open spec fn text_at(self, key: Seq<char>) -> Option<Seq<char>> {
        match self.at(key) {
            Some(Tree::Text(text)) => Some(text),
            _ => None,
        }
    }
}

/// The text of a floating-point zero, with or without a sign.
pub open spec fn is_float_zero(text: Seq<char>) -> bool {
    text == "0.0"@ || text == "-0.0"@
}

/// The texts stand for equal numbers: a number is written in one way only, except for
/// the floating-point zeros, which are equal with either sign.
pub open spec fn same_number(a: Seq<char>, b: Seq<char>) -> bool {
    a == b || (is_float_zero(a) && is_float_zero(b))
}

/// The documents are equal as JSON values: the members of an object may stand in any
/// order.
pub open spec fn same_tree(a: Tree, b: Tree) -> bool
    decreases a,
{
    match (a, b) {
        (Tree::Array(xs), Tree::Array(ys)) => {
            &&& xs.len() == ys.len()
            &&& forall|i: int| 0 <= i < xs.len() ==> same_tree(#[trigger] xs[i], ys[i])
        },
        (Tree::Object(xs), Tree::Object(ys)) => {
            &&& xs.len() == ys.len()
            &&& forall|i: int|
                0 <= i < xs.len() ==> (member(ys, (#[trigger] xs[i]).0) matches Some(y)
                    && same_tree(xs[i].1, y))
        },
        (Tree::Number(x), Tree::Number(y)) => same_number(x, y),
        _ => a == b,
    }
}

/// A JSON value.
#[derive(Debug, PartialEq, Eq)]
pub enum Json {
    Null,
    Bool(bool),
    Number(String),
    Text(String),
    Array(Vec<Json>),
    Object(Vec<(String, Json)>),
}

impl Json {
    /// The document that this value holds.
    pub open spec fn tree(self) -> Tree
        decreases self,
    {
        match self {
            Json::Null => Tree::Null,
            Json::Bool(b) => Tree::Bool(b),
            Json::Number(n) => Tree::Number(n@),
            Json::Text(t) => Tree::Text(t@),
            Json::Array(items) => Tree::Array(
                Seq::new(
                    items@.len(),
                    |i: int|
                        if 0 <= i < items@.len() {
                            items@[i].tree()
                        } else {
                            Tree::Null
                        },
                ),
            ),
            Json::Object(members) => Tree::Object(
                Seq::new(
                    members@.len(),
                    |i: int|
                        if 0 <= i < members@.len() {
                            (members@[i].0@, members@[i].1.tree())
                        } else {
                            (Seq::empty(), Tree::Null)
                        },
                ),
            ),
        }
    }

    /// A value that holds the same document.
    pub fn copy(&self) -> (r: Json)
        ensures
            r.tree() == self.tree(),
        decreases *self,
    {
        match self {
            Json::Null => Json::Null,
            Json::Bool(b) => Json::Bool(*b),
            Json::Number(n) => Json::Number(n.clone()),
            Json::Text(t) => Json::Text(t.clone()),
            Json::Array(items) => {
                let mut out: Vec<Json> = Vec::new();
                let mut i: usize = 0;
                while i < items.len()
                    invariant
                        i <= items@.len(),
                        *self == Json::Array(*items),
                        out@.len() == i,
                        forall|j: int| 0 <= j < i ==> (#[trigger] out@[j]).tree() == items@[j].tree(),
                    decreases items@.len() - i,
                {
                    assert(decreases_to!(*self => self->Array_0));
                    assert(decreases_to!(items => items@));
                    assert(decreases_to!(items@ => items@[i as int]));
                    out.push(items[i].copy());
                    i += 1;
                }
                let r = Json::Array(out);
                assert(r.tree()->Array_0 =~= self.tree()->Array_0);
                r
            },
            Json::Object(members) => {
                let mut out: Vec<(String, Json)> = Vec::new();
                let mut i: usize = 0;
                while i < members.len()
                    invariant
                        i <= members@.len(),
                        *self == Json::Object(*members),
                        out@.len() == i,
                        forall|j: int|
                            0 <= j < i ==> (#[trigger] out@[j]).0@ == members@[j].0@
                                && out@[j].1.tree() == members@[j].1.tree(),
                    decreases members@.len() - i,
                {
                    assert(decreases_to!(*self => self->Object_0));
                    assert(decreases_to!(members => members@));
                    assert(decreases_to!(members@ => members@[i as int]));
                    assert(decreases_to!(members@[i as int] => members@[i as int].1));
                    out.push((members[i].0.clone(), members[i].1.copy()));
                    i += 1;
                }
                let r = Json::Object(out);
                assert(r.tree()->Object_0 =~= self.tree()->Object_0);
                r
            },
        }
    }

    /// Whether this value equals `other`: the members of an object may stand in any
    /// order.
    pub fn same(&self, other: &Json) -> (b: bool)
        ensures
            b == same_tree(self.tree(), other.tree()),
        decreases *self,
    {
        match (self, other) {
            (Json::Array(xs), Json::Array(ys)) => {
                if xs.len() != ys.len() {
                    return false;
                }
                let ghost left = self.tree()->Array_0;
                let ghost right = other.tree()->Array_0;
                let mut i: usize = 0;
                while i < xs.len()
                    invariant
                        i <= xs@.len(),
                        xs@.len() == ys@.len(),
                        *self == Json::Array(*xs),
                        *other == Json::Array(*ys),
                        self.tree() == Tree::Array(left),
                        other.tree() == Tree::Array(right),
                        left.len() == xs@.len(),
                        right.len() == ys@.len(),
                        forall|j: int| 0 <= j < i ==> same_tree(#[trigger] left[j], right[j]),
                    decreases xs@.len() - i,
                {
                    assert(decreases_to!(*self => self->Array_0));
                    assert(decreases_to!(xs => xs@));
                    assert(decreases_to!(xs@ => xs@[i as int]));
                    assert(left[i as int] == xs@[i as int].tree());
                    assert(right[i as int] == ys@[i as int].tree());
                    if !xs[i].same(&ys[i]) {
                        return false;
                    }
                    i += 1;
                }
                true
            },
            (Json::Object(xs), Json::Object(ys)) => {
                if xs.len() != ys.len() {
                    return false;
                }
                let ghost left = self.tree()->Object_0;
                let ghost right = other.tree()->Object_0;
                let mut i: usize = 0;
                while i < xs.len()
                    invariant
                        i <= xs@.len(),
                        xs@.len() == ys@.len(),
                        *self == Json::Object(*xs),
                        *other == Json::Object(*ys),
                        self.tree() == Tree::Object(left),
                        other.tree() == Tree::Object(right),
                        left.len() == xs@.len(),
                        right.len() == ys@.len(),
                        forall|j: int|
                            0 <= j < i ==> (member(right, (#[trigger] left[j]).0) matches Some(y)
                                && same_tree(left[j].1, y)),
                    decreases xs@.len() - i,
                {
                    assert(decreases_to!(*self => self->Object_0));
                    assert(decreases_to!(xs => xs@));
                    assert(decreases_to!(xs@ => xs@[i as int]));
                    assert(decreases_to!(xs@[i as int] => xs@[i as int].1));
                    assert(left[i as int] == (xs@[i as int].0@, xs@[i as int].1.tree()));
                    match other.get(xs[i].0.as_str()) {
                        Some(value) => {
                            if !xs[i].1.same(value) {
                                return false;
                            }
                        },
                        None => {
                            return false;
                        },
                    }
                    i += 1;
                }
                true
            },
            (Json::Null, Json::Null) => true,
            (Json::Bool(a), Json::Bool(b)) => *a == *b,
            (Json::Number(a), Json::Number(b)) => same_text(a.as_str(), b.as_str()) || (float_zero(
                a.as_str(),
            ) && float_zero(b.as_str())),
            (Json::Text(a), Json::Text(b)) => same_text(a.as_str(), b.as_str()),
            _ => false,
        }
    }

    /// The member named `key`, if this is an object that has one.
    pub fn get(&self, key: &str) -> (r: Option<&Json>)
        ensures
            match r {
                Some(value) => self.tree().at(key@) == Some(value.tree()),
                None => self.tree().at(key@) is None,
            },
    {
        match self {
            Json::Object(members) => {
                let mut i: usize = 0;
                let ghost all = self.tree()->Object_0;
                assert(all.skip(0) == all);
                while i < members.len()
                    invariant
                        i <= members@.len(),
                        *self == Json::Object(*members),
                        all == self.tree()->Object_0,
                        all.len() == members@.len(),
                        member(all.skip(i as int), key@) == member(all, key@),
                    decreases members@.len() - i,
                {
                    assert(all[i as int] == (members@[i as int].0@, members@[i as int].1.tree()));
                    assert(all.skip(i as int)[0] == all[i as int]);
                    assert(all.skip(i as int).drop_first() == all.skip(i + 1));
                    if same_text(members[i].0.as_str(), key) {
                        return Some(&members[i].1);
                    }
                    i += 1;
                }
                None
            },
            _ => None,
        }
    }

    /// The text in the member named `key`, if there is one and it holds text.
    pub fn get_text(&self, key: &str) -> (r: Option<&String>)
        ensures
            match r {
                Some(text) => self.tree().text_at(key@) == Some(text@),
                None => self.tree().text_at(key@) is None,
            },
    {
        match self.get(key) {
            Some(value) => match value {
                Json::Text(text) => Some(text),
                _ => None,
            },
            None => None,
        }
    }
}

/// Whether this is the text of a floating-point zero.
fn float_zero(text: &str) -> (b: bool)
    ensures
        b == is_float_zero(text@),
{
    same_text(text, "0.0") || same_text(text, "-0.0")
}

/// The integer that the text of a number stands for, if it is written as one and
/// lies in the range of `i128`.
fn read_integer(text: &str) -> (r: Option<i128>)
    ensures
        match r {
            Some(n) => integer(text@) == Some(n as int),
            None => integer(text@) is None || integer(text@)->0 > i128::MAX || integer(text@)->0
                < -i128::MAX,
        },
{
    let chars = characters(text);
    let n: usize = chars.len();
    let negative = n > 1 && chars[0] == '-';
    let from: usize = if negative {
        1
    } else {
        0
    };
    if n == 0 {
        return None;
    }
    let ghost digits = chars@.skip(from as int);
    let mut value: i128 = 0;
    let mut big = false;
    let mut i: usize = from;
    proof {
        assert(digits.take(0) =~= Seq::<char>::empty());
        if !negative {
            assert(digits =~= chars@);
        }
    }
    while i < n
        invariant
            n == chars@.len(),
            chars@ == text@,
            n > 0,
            negative == (n > 1 && chars@[0] == '-'),
            from == (if negative { 1int } else { 0int }),
            from <= i <= n,
            digits == chars@.skip(from as int),
            !negative ==> digits == chars@,
            forall|j: int| from <= j < i ==> '0' <= #[trigger] chars@[j] <= '9',
            0 <= value <= i128::MAX,
            !big ==> value == digits_value(digits.take(i - from)),
            big ==> digits_value(digits.take(i - from)) > i128::MAX,
        decreases n - i,
    {
        let c = chars[i];
        proof {
            assert(digits[i - from] == c);
            assert(digits.take(i - from + 1).drop_last() =~= digits.take(i - from));
            assert(digits.take(i - from + 1).last() == c);
        }
        if !('0' <= c && c <= '9') {
            proof {
                if negative {
                    assert(!('0' <= '-' && '-' <= '9'));
                    assert(text@[0] == '-');
                    assert(text@.skip(1)[i - 1] == c);
                } else {
                    assert(text@[i as int] == c);
                }
            }
            return None;
        }
        let d: i128 = ((c as u32) - 48) as i128;
        if !big {
            if value > (i128::MAX - d) / 10 {
                big = true;
            } else {
                value = value * 10 + d;
            }
        }
        i += 1;
    }
    proof {
        assert(digits.take(n - from) =~= digits);
        assert(all_digits(digits)) by {
            assert forall|j: int| 0 <= j < digits.len() implies '0' <= #[trigger] digits[j] <= '9' by {
                assert(digits[j] == chars@[j + from]);
            }
        }
        if negative {
            assert(text@[0] == '-');
            assert(!all_digits(text@));
            assert(text@.skip(1) =~= digits);
        }
    }
    if big {
        return None;
    }
    if negative {
        Some(-value)
    } else {
        Some(value)
    }
}

impl Json {
    /// The integer in the member named `key`, if there is one and it fits in 64 bits
    /// without a sign.
    pub fn get_u64(&self, key: &str) -> (r: Option<u64>)
        ensures
            match self.tree().integer_at(key@) {
                Some(n) => if 0 <= n <= u64::MAX {
                    r == Some(n as u64)
                } else {
                    r is None
                },
                None => r is None,
            },
    {
        match self.get(key) {
            Some(Json::Number(text)) => match read_integer(text.as_str()) {
                Some(n) => {
                    if 0 <= n && n <= u64::MAX as i128 {
                        Some(n as u64)
                    } else {
                        None
                    }
                },
                None => None,
            },
            _ => None,
        }
    }

    /// The integer in the member named `key`, if there is one and it fits in 64 bits
    /// with a sign.
    pub fn get_i64(&self, key: &str) -> (r: Option<i64>)
        ensures
            match self.tree().integer_at(key@) {
                Some(n) => if i64::MIN <= n <= i64::MAX {
                    r == Some(n as i64)
                } else {
                    r is None
                },
                None => r is None,
            },
    {
        match self.get(key) {
            Some(Json::Number(text)) => match read_integer(text.as_str()) {
                Some(n) => {
                    if i64::MIN as i128 <= n && n <= i64::MAX as i128 {
                        Some(n as i64)
                    } else {
                        None
                    }
                },
                None => None,
            },
            _ => None,
        }
    }

    /// The truth value in the member named `key`, if there is one and it holds one.
    pub fn get_bool(&self, key: &str) -> (r: Option<bool>)
        ensures
            r == self.tree().bool_at(key@),
    {
        match self.get(key) {
            Some(Json::Bool(b)) => Some(*b),
            _ => None,
        }
    }
}

impl Clone for Json {
    fn clone(&self) -> (r: Self)
        ensures
            r.tree() == self.tree(),
    {
        self.copy()
    }
}

/// A value of `serde_json`.
#[verifier::external_type_specification]
#[verifier::external_body]
pub struct ExValue(serde_json::Value);

/// A schema that `jsonschema` has compiled.
#[verifier::external_type_specification]
#[verifier::external_body]
pub struct ExValidator(jsonschema::Validator);

/// The document that a value of `serde_json` holds.
pub uninterp spec fn document(value: serde_json::Value) -> Tree;

/// The schema that a validator was compiled from.
pub uninterp spec fn source_schema(validator: jsonschema::Validator) -> Tree;

/// What `serde_json::from_str` makes of a text: the document in it, or the
/// message of its error.
pub uninterp spec fn parsed(text: Seq<char>) -> Result<Tree, Seq<char>>;

/// What `serde_json` writes for a document: compact JSON.
pub uninterp spec fn compact(document: Tree) -> Seq<char>;

/// Whether `jsonschema::validator_for` compiles a schema.
pub uninterp spec fn schema_compiles(schema: Tree) -> bool;

/// The messages of the errors that `Validator::iter_errors` finds in a document,
/// in its order.
pub uninterp spec fn violations(schema: Tree, instance: Tree) -> Seq<Seq<char>>;

/// Calls `serde_json::from_str`. The outcome is named `parsed`: it depends on
/// the text alone.
#[verifier::external_body]
pub(crate) fn parse_value(text: &str) -> (r: Result<serde_json::Value, String>)
    ensures
        match r {
            Ok(value) => parsed(text@) == Ok::<Tree, Seq<char>>(document(value)),
            Err(message) => parsed(text@) == Err::<Tree, Seq<char>>(message@),
        },
{
    serde_json::from_str::<serde_json::Value>(text).map_err(|error| error.to_string())
}

/// Calls `Value::to_string`, which writes compact JSON. The text is named
/// `compact`: it depends on the document alone.
#[verifier::external_body]
pub(crate) fn value_text(value: &serde_json::Value) -> (r: String)
    ensures
        r@ == compact(document(*value)),
{
    value.to_string()
}

/// Calls `jsonschema::validator_for`, built without support for remote or file
/// references. Whether the schema compiles is named `schema_compiles`: it depends on the
/// schema alone. The validator that comes back stands for that schema. Nothing is said
/// of the message for a schema that does not compile: where several references cannot be
/// retrieved, it names whichever was tried first, and they are walked in the order of a
/// hash set that is seeded at random.
#[verifier::external_body]
pub(crate) fn compile(schema: &serde_json::Value) -> (r: Result<jsonschema::Validator, String>)
    ensures
        match r {
            Ok(validator) => schema_compiles(document(*schema)) && source_schema(validator)
                == document(*schema),
            Err(_) => !schema_compiles(document(*schema)),
        },
{
    jsonschema::validator_for(schema).map_err(|error| error.to_string())
}

/// Calls `Validator::iter_errors` and takes the message of each error. The
/// messages are named `violations`: they depend on the schema and the document.
#[verifier::external_body]
pub(crate) fn objections(
    validator: &jsonschema::Validator,
    value: &serde_json::Value,
) -> (r: Vec<String>)
    ensures
        views(r@) == violations(source_schema(*validator), document(*value)),
{
    validator.iter_errors(value).map(|error| error.to_string()).collect()
}

/// A value of `serde_json` taken apart one level deep.
pub(crate) enum Parts {
    Null,
    Bool(bool),
    Number(String),
    Text(String),
    Array(Vec<serde_json::Value>),
    Object(Vec<(String, serde_json::Value)>),
}

/// Tells the variants of `serde_json::Value` apart and moves what they hold: an
/// array holds its items in order, an object its members in the order of its map,
/// a number is written by `Number::to_string`.
#[verifier::external_body]
pub(crate) fn take_apart(value: serde_json::Value) -> (parts: Parts)
    ensures
        document(value) == (match parts {
            Parts::Null => Tree::Null,
            Parts::Bool(b) => Tree::Bool(b),
            Parts::Number(n) => Tree::Number(n@),
            Parts::Text(t) => Tree::Text(t@),
            Parts::Array(items) => Tree::Array(
                items@.map_values(|v: serde_json::Value| document(v)),
            ),
            Parts::Object(members) => Tree::Object(
                members@.map_values(|m: (String, serde_json::Value)| (m.0@, document(m.1))),
            ),
        }),
{
    match value {
        serde_json::Value::Null => Parts::Null,
        serde_json::Value::Bool(b) => Parts::Bool(b),
        serde_json::Value::Number(n) => Parts::Number(n.to_string()),
        serde_json::Value::String(t) => Parts::Text(t),
        serde_json::Value::Array(items) => Parts::Array(items),
        serde_json::Value::Object(members) => Parts::Object(members.into_iter().collect()),
    }
}

/// The library's value for a value of `serde_json`.
pub fn from_value(value: serde_json::Value) -> (r: Json)
    ensures
        r.tree() == document(value),
    decreases document(value),
{
    let ghost whole = document(value);
    match take_apart(value) {
        Parts::Null => Json::Null,
        Parts::Bool(b) => Json::Bool(b),
        Parts::Number(n) => Json::Number(n),
        Parts::Text(t) => Json::Text(t),
        Parts::Array(items) => {
            let ghost all = items@;
            let mut rest = items;
            let mut out: Vec<Json> = Vec::new();
            while rest.len() > 0
                invariant
                    whole == document(value),
                    whole == Tree::Array(all.map_values(|v: serde_json::Value| document(v))),
                    out@.len() + rest@.len() == all.len(),
                    rest@ == all.skip(out@.len() as int),
                    forall|j: int| 0 <= j < out@.len() ==> (#[trigger] out@[j]).tree() == document(all[j]),
                decreases rest@.len(),
            {
                let ghost done = out@.len() as int;
                let first = rest.remove(0);
                assert(first == all[done]);
                assert(whole->Array_0[done] == document(first));
                assert(decreases_to!(whole => whole->Array_0));
                assert(decreases_to!(whole->Array_0 => whole->Array_0[done]));
                out.push(from_value(first));
                assert(rest@ =~= all.skip(done + 1));
            }
            let r = Json::Array(out);
            assert(r.tree()->Array_0 =~= whole->Array_0);
            r
        },
        Parts::Object(members) => {
            let ghost all = members@;
            let mut rest = members;
            let mut out: Vec<(String, Json)> = Vec::new();
            while rest.len() > 0
                invariant
                    whole == document(value),
                    whole == Tree::Object(
                        all.map_values(|m: (String, serde_json::Value)| (m.0@, document(m.1))),
                    ),
                    out@.len() + rest@.len() == all.len(),
                    rest@ == all.skip(out@.len() as int),
                    forall|j: int|
                        0 <= j < out@.len() ==> (#[trigger] out@[j]).0@ == all[j].0@
                            && out@[j].1.tree() == document(all[j].1),
                decreases rest@.len(),
            {
                let ghost done = out@.len() as int;
                let first = rest.remove(0);
                assert(first == all[done]);
                assert(whole->Object_0[done] == (first.0@, document(first.1)));
                assert(decreases_to!(whole => whole->Object_0));
                assert(decreases_to!(whole->Object_0 => whole->Object_0[done]));
                assert(decreases_to!(whole->Object_0[done] => whole->Object_0[done].1));
                out.push((first.0, from_value(first.1)));
                assert(rest@ =~= all.skip(done + 1));
            }
            let r = Json::Object(out);
            assert(r.tree()->Object_0 =~= whole->Object_0);
            r
        },
    }
}

/// The JSON value in a text, or the parser's message.
pub fn parse_json(text: &str) -> (r: Result<Json, String>)
    ensures
        match r {
            Ok(value) => parsed(text@) == Ok::<Tree, Seq<char>>(value.tree()),
            Err(message) => parsed(text@) == Err::<Tree, Seq<char>>(message@),
        },
{
    match parse_value(text) {
        Ok(value) => Ok(from_value(value)),
        Err(message) => Err(message),
    }
}

// ---- What reading a value is for ----

/// The object has a member of this name with this value, and none of this name before it.
pub open spec fn holds_at(
    members: Seq<(Seq<char>, Tree)>,
    i: int,
    key: Seq<char>,
    value: Tree,
) -> bool {
    &&& 0 <= i < members.len()
    &&& members[i] == (key, value)
    &&& forall|j: int| 0 <= j < i ==> (#[trigger] members[j]).0 != key
}

/// A member is found by its name, the first one of that name, and nothing is found where
/// no member has the name.
pub proof fn members_are_found_by_name(
    members: Seq<(Seq<char>, Tree)>,
    key: Seq<char>,
    i: int,
    value: Tree,
)
    ensures
        holds_at(members, i, key, value) ==> Tree::Object(members).at(key) == Some(value),
        Tree::Object(members).at(key) is None <==> forall|j: int|
            0 <= j < members.len() ==> (#[trigger] members[j]).0 != key,
        Tree::Object(members).at(key) matches Some(found) ==> exists|j: int| #[trigger]
            holds_at(members, j, key, found),
    decreases members.len(),
{
    if members.len() > 0 {
        let rest = members.drop_first();
        members_are_found_by_name(rest, key, i - 1, value);
        if holds_at(members, i, key, value) && i > 0 {
            assert(members[0].0 != key);
            assert forall|j: int| 0 <= j < i - 1 implies (#[trigger] rest[j]).0 != key by {
                assert(rest[j] == members[j + 1]);
            }
            assert(holds_at(rest, i - 1, key, value));
        }
        if members[0].0 == key {
            assert(holds_at(members, 0, key, members[0].1));
        } else {
            if let Some(found) = member(rest, key) {
                let j = choose|j: int| #[trigger] holds_at(rest, j, key, found);
                assert forall|l: int| 0 <= l < j + 1 implies (#[trigger] members[l]).0 != key by {
                    if l > 0 {
                        assert(members[l] == rest[l - 1]);
                    }
                }
                assert(rest[j] == members[j + 1]);
                assert(holds_at(members, j + 1, key, found));
            } else {
                assert forall|j: int| 0 <= j < members.len() implies (#[trigger] members[j]).0
                    != key by {
                    if j > 0 {
                        assert(members[j] == rest[j - 1]);
                    }
                }
            }
        }
    }
}

/// Text, truth values and integers are read from a member of their own kind only: a
/// number is an integer exactly if it is written in digits, with or without a minus sign.
pub proof fn values_are_read_by_their_kind(tree: Tree, key: Seq<char>, value: Tree)
    requires
        tree.at(key) == Some(value),
    ensures
        value matches Tree::Text(text) ==> tree.text_at(key) == Some(text),
        tree.text_at(key) is Some <==> value is Text,
        value matches Tree::Bool(b) ==> tree.bool_at(key) == Some(b),
        tree.bool_at(key) is Some <==> value is Bool,
        tree.integer_at(key) is Some ==> value is Number,
        forall|n: nat|
            value == Tree::Number(#[trigger] decimal(n)) ==> tree.integer_at(key) == Some(n as int),
        forall|n: nat|
            n > 0 && value == Tree::Number(seq!['-'] + #[trigger] decimal(n)) ==> tree.integer_at(
                key,
            ) == Some(-(n as int)),
{
    assert forall|n: nat| value == Tree::Number(#[trigger] decimal(n)) implies tree.integer_at(key)
        == Some(n as int) by {
        written_numbers_read_back(n);
    }
    assert forall|n: nat| n > 0 && value == Tree::Number(seq!['-'] + #[trigger] decimal(n)) implies tree.integer_at(
    key) == Some(-(n as int)) by {
        lemma_decimal(n);
        let text = seq!['-'] + decimal(n);
        assert(text.skip(1) =~= decimal(n));
        assert(text[0] == '-');
        assert(!all_digits(text));
    }
}

/// Reading a value that is no object finds nothing.
pub proof fn only_objects_have_members(tree: Tree, key: Seq<char>)
    requires
        !(tree is Object),
    ensures
        tree.at(key) is None,
        tree.text_at(key) is None,
        tree.bool_at(key) is None,
        tree.integer_at(key) is None,
{
}

/// A value equals itself, whatever it holds, as long as no object in it has a name twice.
pub proof fn every_value_equals_itself(tree: Tree)
    requires
        names_once(tree),
    ensures
        same_tree(tree, tree),
    decreases tree,
{
    match tree {
        Tree::Array(items) => {
            assert forall|i: int| 0 <= i < items.len() implies same_tree(
                #[trigger] items[i],
                items[i],
            ) by {
                assert(names_once(items[i]));
                every_value_equals_itself(items[i]);
            }
        },
        Tree::Object(members) => {
            assert forall|i: int| 0 <= i < members.len() implies (member(
                members,
                (#[trigger] members[i]).0,
            ) matches Some(y) && same_tree(members[i].1, y)) by {
                assert(names_once(members[i].1));
                every_value_equals_itself(members[i].1);
                assert(holds_at(members, i, members[i].0, members[i].1));
                members_are_found_by_name(members, members[i].0, i, members[i].1);
            }
        },
        _ => {},
    }
}

/// No object in the document has two members of one name.
pub open spec fn names_once(tree: Tree) -> bool
    decreases tree,
{
    match tree {
        Tree::Array(items) => forall|i: int|
            0 <= i < items.len() ==> names_once(#[trigger] items[i]),
        Tree::Object(members) => {
            &&& forall|i: int, j: int|
                0 <= i < j < members.len() ==> (#[trigger] members[i]).0 != (#[trigger] members[j]).0
            &&& forall|i: int| 0 <= i < members.len() ==> names_once((#[trigger] members[i]).1)
        },
        _ => true,
    }
}

proof fn lemma_names_differ(tree: Tree, i: int, j: int)
    requires
        names_once(tree),
        tree is Object,
        0 <= i < j < tree->Object_0.len(),
    ensures
        tree->Object_0[i].0 != tree->Object_0[j].0,
        names_once(tree->Object_0[i].1),
{
}

/// Values of different kinds differ, and so do two texts, two truth values, two lists of
/// different lengths, and two objects where one has a name that the other has not.
pub proof fn different_values_differ(a: Tree, b: Tree, i: int)
    requires
        same_tree(a, b),
    ensures
        a is Null <==> b is Null,
        a is Bool <==> b is Bool,
        a is Number <==> b is Number,
        a is Text <==> b is Text,
        a is Array <==> b is Array,
        a is Object <==> b is Object,
        a is Text || a is Bool ==> a == b,
        a is Array ==> a->Array_0.len() == b->Array_0.len(),
        a is Array && 0 <= i < a->Array_0.len() ==> same_tree(a->Array_0[i], b->Array_0[i]),
        a is Object && 0 <= i < a->Object_0.len() ==> (b.at(a->Object_0[i].0) matches Some(other)
            && same_tree(a->Object_0[i].1, other)),
        a is Object ==> a->Object_0.len() == b->Object_0.len(),
{
}

/// A value is read from the first member of its name, and only as what it is.
pub proof fn members_are_read_as_what_they_are(
    value: Json,
    key: &str,
    found: Option<&Json>,
    text: Option<&String>,
    truth: Option<bool>,
    unsigned: Option<u64>,
    signed: Option<i64>,
    i: int,
)
    requires
        call_ensures(Json::get, (&value, key), found),
        call_ensures(Json::get_text, (&value, key), text),
        call_ensures(Json::get_bool, (&value, key), truth),
        call_ensures(Json::get_u64, (&value, key), unsigned),
        call_ensures(Json::get_i64, (&value, key), signed),
        value matches Json::Object(members) ==> 0 <= i < members@.len() && members@[i].0@ == key@
            && forall|j: int| 0 <= j < i ==> (#[trigger] members@[j]).0@ != key@,
    ensures
        value matches Json::Object(members) ==> {
            &&& found matches Some(other) && other.tree() == members@[i].1.tree()
            &&& members@[i].1 matches Json::Text(t) ==> (text matches Some(s) && s@ == t@)
            &&& !(members@[i].1 is Text) ==> text is None
            &&& members@[i].1 matches Json::Bool(b) ==> truth == Some(b)
            &&& !(members@[i].1 is Bool) ==> truth is None
            &&& !(members@[i].1 is Number) ==> unsigned is None && signed is None
        },
        !(value is Object) ==> found is None && text is None && truth is None && unsigned is None
            && signed is None,
{
    if let Json::Object(members) = value {
        let all = value.tree()->Object_0;
        assert(all[i] == (members@[i].0@, members@[i].1.tree()));
        assert forall|j: int| 0 <= j < i implies (#[trigger] all[j]).0 != key@ by {
            assert(all[j] == (members@[j].0@, members@[j].1.tree()));
        }
        assert(holds_at(all, i, key@, members@[i].1.tree()));
        members_are_found_by_name(all, key@, i, members@[i].1.tree());
    }
}

/// A number that is written in digits is read as an integer as far as it fits: without a
/// sign up to 64 bits, and with one as far as 64 bits with a sign go.
pub proof fn integers_are_read_as_far_as_they_fit(
    value: Json,
    key: &str,
    n: nat,
    unsigned: Option<u64>,
    signed: Option<i64>,
)
    requires
        call_ensures(Json::get_u64, (&value, key), unsigned),
        call_ensures(Json::get_i64, (&value, key), signed),
    ensures
        value.tree().at(key@) == Some(Tree::Number(decimal(n))) ==> {
            &&& n < 0x1_0000_0000_0000_0000 ==> unsigned == Some(n as u64)
            &&& n >= 0x1_0000_0000_0000_0000 ==> unsigned is None
            &&& n < 0x8000_0000_0000_0000 ==> signed == Some(n as i64)
            &&& n >= 0x8000_0000_0000_0000 ==> signed is None
        },
        n > 0 && value.tree().at(key@) == Some(Tree::Number(seq!['-'] + decimal(n))) ==> {
            &&& unsigned is None
            &&& n <= 0x8000_0000_0000_0000 ==> signed == Some((-n) as i64)
            &&& n > 0x8000_0000_0000_0000 ==> signed is None
        },
{
    if let Some(found) = value.tree().at(key@) {
        values_are_read_by_their_kind(value.tree(), key@, found);
    }
}

/// Two objects are equal wherever they have the same members, in whatever order.
pub proof fn the_order_of_members_does_not_matter(
    xs: Seq<(Seq<char>, Tree)>,
    ys: Seq<(Seq<char>, Tree)>,
)
    requires
        names_once(Tree::Object(xs)),
        names_once(Tree::Object(ys)),
        xs.len() == ys.len(),
        forall|i: int| 0 <= i < xs.len() ==> ys.contains(#[trigger] xs[i]),
    ensures
        same_tree(Tree::Object(xs), Tree::Object(ys)),
{
    assert forall|i: int| 0 <= i < xs.len() implies (member(ys, (#[trigger] xs[i]).0) matches Some(
        y,
    ) && same_tree(xs[i].1, y)) by {
        let j = choose|j: int| 0 <= j < ys.len() && ys[j] == xs[i];
        assert forall|k: int| 0 <= k < j implies (#[trigger] ys[k]).0 != xs[i].0 by {
            lemma_names_differ(Tree::Object(ys), k, j);
        }
        assert(holds_at(ys, j, xs[i].0, xs[i].1));
        members_are_found_by_name(ys, xs[i].0, j, xs[i].1);
        assert(names_once(xs[i].1));
        every_value_equals_itself(xs[i].1);
    }
}

/// Comparing two values says whether they are equal as documents: a copy is equal to what
/// it was made from, and values of different kinds never are.
pub proof fn copies_are_equal(value: Json, copied: Json, other: Json, same: bool, differs: bool)
    requires
        call_ensures(Json::copy, (&value,), copied),
        call_ensures(Json::same, (&value, &copied), same),
        call_ensures(Json::same, (&value, &other), differs),
    ensures
        names_once(value.tree()) ==> same,
        value is Null && !(other is Null) ==> !differs,
        value is Text && !(other is Text) ==> !differs,
        value is Number && !(other is Number) ==> !differs,
        value is Array && !(other is Array) ==> !differs,
        value is Object && !(other is Object) ==> !differs,
        value matches Json::Bool(a) ==> (differs <==> other == Json::Bool(a)),
        value matches Json::Text(a) ==> (other matches Json::Text(b) ==> (differs <==> a@ == b@)),
        value matches Json::Number(a) ==> (other matches Json::Number(b) ==> (a@ == b@ ==> differs)),
{
    if names_once(value.tree()) {
        every_value_equals_itself(value.tree());
    }
}

} // verus!
