//! JSON values: a tree of plain values, its mathematical form, and reading.

use crate::text::same;
use vstd::prelude::*;

verus! {

/// `serde_json`'s own tree.
#[verifier::external_type_specification]
#[verifier::external_body]
pub struct ExValue(serde_json::Value);

/// A JSON value as mathematics.
pub enum Json {
    Null,
    Bool(bool),
    /// A number: its value where that is a whole number from 0 to 2^64 - 1,
    /// and how it is written.
    Number(Option<nat>, Seq<char>),
    Text(Seq<char>),
    Array(Seq<Json>),
    /// The members in their order.
    Object(Seq<(Seq<char>, Json)>),
}

/// A JSON value.
#[derive(Debug)]
pub enum JsonValue {
    Null,
    Bool(bool),
    Number(Option<u64>, String),
    Text(String),
    Array(Vec<JsonValue>),
    Object(Vec<(String, JsonValue)>),
}

/// One level of a value of `serde_json`.
pub enum JsonNode {
    Null,
    Bool(bool),
    Number(Option<u64>, String),
    Text(String),
    Array(Vec<serde_json::Value>),
    Object(Vec<(String, serde_json::Value)>),
}

/// What a value of `serde_json` holds.
pub uninterp spec fn json_contents(value: serde_json::Value) -> Json;

/// What `serde_json::from_str` reads in a text: a value, or the words of the
/// error.
pub uninterp spec fn json_read(text: Seq<char>) -> Result<Json, Seq<char>>;

/// What `serde_json::to_string` writes for a string: the string in quotes,
/// with its escapes.
pub uninterp spec fn json_quoted(text: Seq<char>) -> Seq<char>;

/// The whole number of an optional machine number.
pub open spec fn opt_nat(value: Option<u64>) -> Option<nat> {
    match value {
        Some(value) => Some(value as nat),
        None => None,
    }
}

/// What one level holds, with what each child holds.
pub open spec fn node_contents(node: JsonNode) -> Json {
    match node {
        JsonNode::Null => Json::Null,
        JsonNode::Bool(value) => Json::Bool(value),
        JsonNode::Number(whole, text) => Json::Number(opt_nat(whole), text@),
        JsonNode::Text(text) => Json::Text(text@),
        JsonNode::Array(items) => Json::Array(
            items@.map_values(|item: serde_json::Value| json_contents(item)),
        ),
        JsonNode::Object(members) => Json::Object(
            members@.map_values(
                |member: (String, serde_json::Value)| (member.0@, json_contents(member.1)),
            ),
        ),
    }
}

/// Calls `serde_json::from_str` for a `Value`, and writes its error out.
#[verifier::external_body]
fn read_value(text: &str) -> (outcome: Result<serde_json::Value, String>)
    ensures
        match outcome {
            Ok(value) => json_read(text@) == Ok::<Json, Seq<char>>(json_contents(value)),
            Err(message) => json_read(text@) == Err::<Json, Seq<char>>(message@),
        },
{
    serde_json::from_str(text).map_err(|error| error.to_string())
}

/// Takes one level of a `serde_json::Value` apart: its variant and what the
/// variant holds. A number is given by `Number::as_u64` and its `Display`; the
/// members of an object come in the order of `serde_json::Map`.
#[verifier::external_body]
fn open_value(value: serde_json::Value) -> (node: JsonNode)
    ensures
        node_contents(node) == json_contents(value),
{
    match value {
        serde_json::Value::Null => JsonNode::Null,
        serde_json::Value::Bool(value) => JsonNode::Bool(value),
        serde_json::Value::Number(number) => JsonNode::Number(number.as_u64(), number.to_string()),
        serde_json::Value::String(text) => JsonNode::Text(text),
        serde_json::Value::Array(items) => JsonNode::Array(items),
        serde_json::Value::Object(members) => JsonNode::Object(members.into_iter().collect()),
    }
}

/// Calls `serde_json::to_string` on a string.
#[verifier::external_body]
pub(crate) fn quote(text: &str) -> (quoted: String)
    ensures
        quoted@ == json_quoted(text@),
{
    serde_json::to_string(text).unwrap_or_default()
}

impl JsonValue {
    /// The value as mathematics.
    pub open spec fn model(self) -> Json
        decreases self,
    {
        match self {
            JsonValue::Null => Json::Null,
            JsonValue::Bool(value) => Json::Bool(value),
            JsonValue::Number(whole, text) => Json::Number(opt_nat(whole), text@),
            JsonValue::Text(text) => Json::Text(text@),
            JsonValue::Array(items) => Json::Array(
                Seq::new(
                    items@.len(),
                    |i: int|
                        if 0 <= i < items@.len() {
                            items@[i].model()
                        } else {
                            Json::Null
                        },
                ),
            ),
            JsonValue::Object(members) => Json::Object(
                Seq::new(
                    members@.len(),
                    |i: int|
                        if 0 <= i < members@.len() {
                            (members@[i].0@, members@[i].1.model())
                        } else {
                            (seq![], Json::Null)
                        },
                ),
            ),
        }
    }
}

fn tree_of(value: serde_json::Value) -> (tree: JsonValue)
    ensures
        tree.model() == json_contents(value),
    decreases json_contents(value),
{
    match open_value(value) {
        JsonNode::Null => JsonValue::Null,
        JsonNode::Bool(value) => JsonValue::Bool(value),
        JsonNode::Number(whole, text) => JsonValue::Number(whole, text),
        JsonNode::Text(text) => JsonValue::Text(text),
        JsonNode::Array(items) => {
            let ghost all = items@;
            let mut rest = items;
            let mut trees: Vec<JsonValue> = Vec::new();
            assert(all.skip(0) == all);
            while rest.len() > 0
                invariant
                    trees@.len() + rest@.len() == all.len(),
                    rest@ == all.skip(trees@.len() as int),
                    json_contents(value) == Json::Array(
                        all.map_values(|item: serde_json::Value| json_contents(item)),
                    ),
                    forall|i: int|
                        0 <= i < trees@.len() ==> (#[trigger] trees@[i]).model() == json_contents(
                            all[i],
                        ),
                decreases rest@.len(),
            {
                let ghost at = trees@.len() as int;
                let item = rest.remove(0);
                assert(item == all[at]);
                assert(json_contents(value)->Array_0[at] == json_contents(item));
                let tree = tree_of(item);
                trees.push(tree);
                assert(rest@ == all.skip(at + 1));
            }
            let tree = JsonValue::Array(trees);
            assert(tree.model()->Array_0 == json_contents(value)->Array_0);
            tree
        },
        JsonNode::Object(members) => {
            let ghost all = members@;
            let mut rest = members;
            let mut trees: Vec<(String, JsonValue)> = Vec::new();
            assert(all.skip(0) == all);
            while rest.len() > 0
                invariant
                    trees@.len() + rest@.len() == all.len(),
                    rest@ == all.skip(trees@.len() as int),
                    json_contents(value) == Json::Object(
                        all.map_values(
                            |member: (String, serde_json::Value)|
                                (member.0@, json_contents(member.1)),
                        ),
                    ),
                    forall|i: int|
                        0 <= i < trees@.len() ==> (#[trigger] trees@[i]).1.model()
                            == json_contents(all[i].1) && trees@[i].0@ == all[i].0@,
                decreases rest@.len(),
            {
                let ghost at = trees@.len() as int;
                let member = rest.remove(0);
                assert(member == all[at]);
                assert(json_contents(value)->Object_0[at] == (
                    member.0@,
                    json_contents(member.1),
                ));
                let ghost pair = json_contents(value)->Object_0[at];
                assert(decreases_to!(json_contents(value) => pair));
                assert(decreases_to!(pair => pair.1));
                let tree = tree_of(member.1);
                trees.push((member.0, tree));
                assert(rest@ == all.skip(at + 1));
            }
            let tree = JsonValue::Object(trees);
            assert(tree.model()->Object_0 == json_contents(value)->Object_0);
            tree
        },
    }
}

/// Reads a JSON text.
pub fn parse_json(text: &str) -> (outcome: Result<JsonValue, String>)
    ensures
        match outcome {
            Ok(value) => json_read(text@) == Ok::<Json, Seq<char>>(value.model()),
            Err(message) => json_read(text@) == Err::<Json, Seq<char>>(message@),
        },
{
    match read_value(text) {
        Ok(value) => Ok(tree_of(value)),
        Err(message) => Err(message),
    }
}

/// The first member of this name.
pub open spec fn member(members: Seq<(Seq<char>, Json)>, key: Seq<char>) -> Option<Json>
    decreases members.len(),
{
    if members.len() == 0 {
        None
    } else if members[0].0 == key {
        Some(members[0].1)
    } else {
        member(members.skip(1), key)
    }
}

/// What stands under a name in a value, where the value is an object.
pub open spec fn json_member(value: Json, key: Seq<char>) -> Option<Json> {
    match value {
        Json::Object(members) => member(members, key),
        _ => None,
    }
}

/// The characters of a value, where it is a text.
pub open spec fn json_text(value: Json) -> Option<Seq<char>> {
    match value {
        Json::Text(text) => Some(text),
        _ => None,
    }
}

impl JsonValue {
    /// A text value.
    pub fn text(text: &str) -> (value: JsonValue)
        ensures
            value.model() == Json::Text(text@),
    {
        JsonValue::Text(text.to_owned())
    }

    /// What stands under a name, where this is an object.
    pub fn get(&self, key: &str) -> (value: Option<&JsonValue>)
        ensures
            match value {
                Some(value) => json_member(self.model(), key@) == Some(value.model()),
                None => json_member(self.model(), key@) is None,
            },
    {
        match self {
            JsonValue::Object(members) => {
                let ghost all = self.model()->Object_0;
                let mut i: usize = 0;
                assert(all.skip(0) == all);
                while i < members.len()
                    invariant
                        i <= members.len(),
                        *self == JsonValue::Object(*members),
                        all == self.model()->Object_0,
                        all.len() == members.len(),
                        member(all.skip(i as int), key@) == member(all, key@),
                    decreases members.len() - i,
                {
                    assert(all.skip(i as int).skip(1) == all.skip(i + 1));
                    assert(all[i as int] == (
                        members@[i as int].0@,
                        members@[i as int].1.model(),
                    ));
                    if same(members[i].0.as_str(), key) {
                        return Some(&members[i].1);
                    }
                    i = i + 1;
                }
                None
            },
            _ => None,
        }
    }

    /// The characters, where this is a text.
    pub fn as_str(&self) -> (text: Option<&str>)
        ensures
            match text {
                Some(text) => json_text(self.model()) == Some(text@),
                None => json_text(self.model()) is None,
            },
    {
        match self {
            JsonValue::Text(text) => Some(text.as_str()),
            _ => None,
        }
    }
}

// ---------------------------------------------------------------------------
// Building
// ---------------------------------------------------------------------------

/// What the members of a list hold.
pub open spec fn member_models(members: Seq<(String, JsonValue)>) -> Seq<(Seq<char>, Json)> {
    members.map_values(|member: (String, JsonValue)| (member.0@, member.1.model()))
}

/// What the values of a list hold.
pub open spec fn value_models(values: Seq<JsonValue>) -> Seq<Json> {
    values.map_values(|value: JsonValue| value.model())
}

/// A whole number as a JSON value.
pub open spec fn json_number(n: nat) -> Json {
    Json::Number(Some(n), crate::text::decimal(n))
}

/// A text where there is one, else null.
pub open spec fn json_opt_text(text: Option<Seq<char>>) -> Json {
    match text {
        Some(text) => Json::Text(text),
        None => Json::Null,
    }
}

/// Texts as a JSON array.
pub open spec fn json_texts(texts: Seq<Seq<char>>) -> Json {
    Json::Array(texts.map_values(|text: Seq<char>| Json::Text(text)))
}

/// An object that is being built.
pub struct ObjectBuilder {
    pub members: Vec<(String, JsonValue)>,
}

impl View for ObjectBuilder {
    type V = Seq<(Seq<char>, Json)>;

    open spec fn view(&self) -> Seq<(Seq<char>, Json)> {
        member_models(self.members@)
    }
}

impl ObjectBuilder {
    /// An object without members.
    pub fn new() -> (object: ObjectBuilder)
        ensures
            object@ == Seq::<(Seq<char>, Json)>::empty(),
    {
        let object = ObjectBuilder { members: Vec::new() };
        assert(object@ == Seq::<(Seq<char>, Json)>::empty());
        object
    }

    /// Adds a member.
    pub fn put(&mut self, key: &str, value: JsonValue)
        ensures
            final(self)@ == old(self)@.push((key@, value.model())),
    {
        let ghost before = self@;
        self.members.push((key.to_owned(), value));
        assert(self@ == before.push((key@, value.model())));
    }

    /// Adds a text.
    pub fn put_text(&mut self, key: &str, text: &str)
        ensures
            final(self)@ == old(self)@.push((key@, Json::Text(text@))),
    {
        self.put(key, JsonValue::Text(text.to_owned()));
    }

    /// Adds a text or null.
    pub fn put_opt_text(&mut self, key: &str, text: &Option<String>)
        ensures
            final(self)@ == old(self)@.push(
                (key@, json_opt_text(crate::text::opt_text(*text))),
            ),
    {
        match text {
            Some(text) => self.put(key, JsonValue::Text(text.clone())),
            None => self.put(key, JsonValue::Null),
        }
    }

    /// Adds a truth value.
    pub fn put_bool(&mut self, key: &str, value: bool)
        ensures
            final(self)@ == old(self)@.push((key@, Json::Bool(value))),
    {
        self.put(key, JsonValue::Bool(value));
    }

    /// Adds a whole number.
    pub fn put_number(&mut self, key: &str, value: u64)
        ensures
            final(self)@ == old(self)@.push((key@, json_number(value as nat))),
    {
        self.put(key, JsonValue::number(value));
    }

    /// The object.
    pub fn build(self) -> (value: JsonValue)
        ensures
            value.model() == Json::Object(self@),
    {
        let ghost members = self@;
        let value = JsonValue::Object(self.members);
        assert(value.model()->Object_0 == members);
        value
    }
}

impl JsonValue {
    /// A whole number.
    pub fn number(value: u64) -> (json: JsonValue)
        ensures
            json.model() == json_number(value as nat),
    {
        JsonValue::Number(Some(value), crate::text::decimal_text(value))
    }

    /// An array of these values.
    pub fn array(values: Vec<JsonValue>) -> (json: JsonValue)
        ensures
            json.model() == Json::Array(value_models(values@)),
    {
        let json = JsonValue::Array(values);
        assert(json.model()->Array_0 == value_models(values@));
        json
    }

    /// An array of texts.
    pub fn text_array(texts: &Vec<String>) -> (json: JsonValue)
        ensures
            json.model() == json_texts(crate::text::texts(texts@)),
    {
        let mut values: Vec<JsonValue> = Vec::new();
        let mut i: usize = 0;
        while i < texts.len()
            invariant
                i <= texts.len(),
                values.len() == i,
                forall|j: int|
                    0 <= j < i ==> (#[trigger] values@[j]).model() == Json::Text(texts@[j]@),
            decreases texts.len() - i,
        {
            values.push(JsonValue::Text(texts[i].clone()));
            i = i + 1;
        }
        let json = JsonValue::array(values);
        assert(value_models(values@) == json_texts(crate::text::texts(texts@))->Array_0);
        json
    }
}

} // verus!
