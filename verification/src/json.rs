//! JSON documents as the steward reads them.
use vstd::prelude::*;

use crate::text::{opt_ref_view, opt_view, str_eq, views};

verus! {

/// A JSON document.
#[derive(Debug)]
pub enum Json {
    Null,
    Bool(bool),
    /// A number, with its value where it is an integer that fits in 64 bits.
    Number(Option<u64>),
    Text(String),
    Array(Vec<Json>),
    Object(Vec<(String, Json)>),
}

/// What a JSON document says.
pub enum JsonTree {
    Null,
    Bool(bool),
    Number(Option<u64>),
    Text(Seq<char>),
    Array(Seq<JsonTree>),
    Object(Seq<(Seq<char>, JsonTree)>),
}

/// What a JSON document says.
pub open spec fn tree(j: Json) -> JsonTree
    decreases j,
{
    match j {
        Json::Null => JsonTree::Null,
        Json::Bool(b) => JsonTree::Bool(b),
        Json::Number(n) => JsonTree::Number(n),
        Json::Text(s) => JsonTree::Text(s@),
        Json::Array(items) => JsonTree::Array(
            Seq::new(
                items@.len(),
                |i: int|
                    if 0 <= i < items@.len() {
                        tree(items@[i])
                    } else {
                        JsonTree::Null
                    },
            ),
        ),
        Json::Object(entries) => JsonTree::Object(
            Seq::new(
                entries@.len(),
                |i: int|
                    if 0 <= i < entries@.len() {
                        (entries@[i].0@, tree(entries@[i].1))
                    } else {
                        (Seq::empty(), JsonTree::Null)
                    },
            ),
        ),
    }
}

impl View for Json {
    type V = JsonTree;

    open spec fn view(&self) -> JsonTree {
        tree(*self)
    }
}

/// The value of the first entry with a key.
pub open spec fn lookup(entries: Seq<(Seq<char>, JsonTree)>, key: Seq<char>) -> Option<JsonTree>
    decreases entries.len(),
{
    if entries.len() == 0 {
        None
    } else if entries[0].0 == key {
        Some(entries[0].1)
    } else {
        lookup(entries.drop_first(), key)
    }
}

impl JsonTree {
    /// A member of an object.
    pub open spec fn field(self, key: Seq<char>) -> Option<JsonTree> {
        match self {
            JsonTree::Object(entries) => lookup(entries, key),
            _ => None,
        }
    }

    /// The text that the document is.
    pub open spec fn text(self) -> Option<Seq<char>> {
        match self {
            JsonTree::Text(s) => Some(s),
            _ => None,
        }
    }

    /// The 64-bit number that the document is.
    pub open spec fn number(self) -> Option<u64> {
        match self {
            JsonTree::Number(n) => n,
            _ => None,
        }
    }

    /// The truth value that the document is.
    pub open spec fn boolean(self) -> Option<bool> {
        match self {
            JsonTree::Bool(b) => Some(b),
            _ => None,
        }
    }

    /// The items of the array that the document is.
    pub open spec fn items(self) -> Option<Seq<JsonTree>> {
        match self {
            JsonTree::Array(items) => Some(items),
            _ => None,
        }
    }

    /// The text of a member.
    pub open spec fn text_at(self, key: Seq<char>) -> Option<Seq<char>> {
        match self.field(key) {
            Some(v) => v.text(),
            None => None,
        }
    }

    /// The number of a member.
    pub open spec fn number_at(self, key: Seq<char>) -> Option<u64> {
        match self.field(key) {
            Some(v) => v.number(),
            None => None,
        }
    }

    /// The truth value of a member.
    pub open spec fn boolean_at(self, key: Seq<char>) -> Option<bool> {
        match self.field(key) {
            Some(v) => v.boolean(),
            None => None,
        }
    }

    /// The items of a member.
    pub open spec fn items_at(self, key: Seq<char>) -> Option<Seq<JsonTree>> {
        match self.field(key) {
            Some(v) => v.items(),
            None => None,
        }
    }

    /// What is found by following members from the document inwards.
    pub open spec fn at(self, path: Seq<Seq<char>>) -> Option<JsonTree>
        decreases path.len(),
    {
        if path.len() == 0 {
            Some(self)
        } else {
            match self.field(path[0]) {
                Some(v) => v.at(path.drop_first()),
                None => None,
            }
        }
    }
}

/// The text of a member of a document that may be absent.
pub open spec fn text_in(o: Option<JsonTree>, key: Seq<char>) -> Option<Seq<char>> {
    match o {
        Some(t) => t.text_at(key),
        None => None,
    }
}

/// The number of a member of a document that may be absent.
pub open spec fn number_in(o: Option<JsonTree>, key: Seq<char>) -> Option<u64> {
    match o {
        Some(t) => t.number_at(key),
        None => None,
    }
}

/// The truth value of a member of a document that may be absent.
pub open spec fn boolean_in(o: Option<JsonTree>, key: Seq<char>) -> Option<bool> {
    match o {
        Some(t) => t.boolean_at(key),
        None => None,
    }
}

/// The items of a member of a document that may be absent.
pub open spec fn items_in(o: Option<JsonTree>, key: Seq<char>) -> Option<Seq<JsonTree>> {
    match o {
        Some(t) => t.items_at(key),
        None => None,
    }
}

/// What an optional document says.
pub open spec fn opt_tree(o: Option<&Json>) -> Option<JsonTree> {
    match o {
        Some(j) => Some(j@),
        None => None,
    }
}

/// What a list of documents says.
pub open spec fn trees(items: Seq<Json>) -> Seq<JsonTree> {
    Seq::new(items.len(), |i: int| tree(items[i]))
}

/// The items of an optional array.
pub open spec fn opt_items(o: Option<&Vec<Json>>) -> Option<Seq<JsonTree>> {
    match o {
        Some(v) => Some(trees(v@)),
        None => None,
    }
}

impl Json {
    /// A member of an object.
    pub fn get(&self, key: &str) -> (r: Option<&Json>)
        ensures
            opt_tree(r) == self@.field(key@),
    {
        match self {
            Json::Object(entries) => {
                let ghost all = self@->Object_0;
                let mut i: usize = 0;
                proof {
                    assert(all.skip(0) =~= all);
                }
                while i < entries.len()
                    invariant
                        i <= entries.len(),
                        self@ == JsonTree::Object(all),
                        all.len() == entries@.len(),
                        forall|k: int|
                            0 <= k < entries@.len() ==> #[trigger] all[k] == (
                                entries@[k].0@,
                                tree(entries@[k].1),
                            ),
                        lookup(all, key@) == lookup(all.skip(i as int), key@),
                    decreases entries.len() - i,
                {
                    proof {
                        assert(all.skip(i as int)[0] == all[i as int]);
                        assert(all.skip(i as int).drop_first() =~= all.skip(i + 1));
                    }
                    if str_eq(entries[i].0.as_str(), key) {
                        return Some(&entries[i].1);
                    }
                    i = i + 1;
                }
                None
            },
            _ => None,
        }
    }

    /// The text that the document is.
    pub fn as_str(&self) -> (r: Option<&String>)
        ensures
            opt_ref_view(r) == self@.text(),
    {
        match self {
            Json::Text(s) => Some(s),
            _ => None,
        }
    }

    /// The 64-bit number that the document is.
    pub fn as_u64(&self) -> (r: Option<u64>)
        ensures
            r == self@.number(),
    {
        match self {
            Json::Number(n) => *n,
            _ => None,
        }
    }

    /// The truth value that the document is.
    pub fn as_bool(&self) -> (r: Option<bool>)
        ensures
            r == self@.boolean(),
    {
        match self {
            Json::Bool(b) => Some(*b),
            _ => None,
        }
    }

    /// The items of the array that the document is.
    pub fn as_array(&self) -> (r: Option<&Vec<Json>>)
        ensures
            opt_items(r) == self@.items(),
    {
        match self {
            Json::Array(items) => {
                proof {
                    assert(self@->Array_0 =~= trees(items@));
                }
                Some(items)
            },
            _ => None,
        }
    }

    /// Whether the document is null.
    pub fn is_null(&self) -> (r: bool)
        ensures
            r == (self@ is Null),
    {
        matches!(self, Json::Null)
    }

    /// The text of a member.
    pub fn text_field(&self, key: &str) -> (r: Option<&String>)
        ensures
            opt_ref_view(r) == self@.text_at(key@),
    {
        match self.get(key) {
            Some(v) => v.as_str(),
            None => None,
        }
    }

    /// The number of a member.
    pub fn u64_field(&self, key: &str) -> (r: Option<u64>)
        ensures
            r == self@.number_at(key@),
    {
        match self.get(key) {
            Some(v) => v.as_u64(),
            None => None,
        }
    }

    /// The truth value of a member.
    pub fn bool_field(&self, key: &str) -> (r: Option<bool>)
        ensures
            r == self@.boolean_at(key@),
    {
        match self.get(key) {
            Some(v) => v.as_bool(),
            None => None,
        }
    }

    /// The items of a member.
    pub fn array_field(&self, key: &str) -> (r: Option<&Vec<Json>>)
        ensures
            opt_items(r) == self@.items_at(key@),
    {
        match self.get(key) {
            Some(v) => v.as_array(),
            None => None,
        }
    }

    /// The member of a member.
    pub fn get2(&self, first: &str, second: &str) -> (r: Option<&Json>)
        ensures
            opt_tree(r) == self@.at(seq![first@, second@]),
    {
        proof {
            reveal_with_fuel(JsonTree::at, 3);
            assert(seq![first@, second@].drop_first() =~= seq![second@]);
            assert(seq![second@].drop_first() =~= Seq::<Seq<char>>::empty());
        }
        match self.get(first) {
            Some(v) => v.get(second),
            None => None,
        }
    }

    /// Three members, one inside the other.
    pub fn get3(&self, first: &str, second: &str, third: &str) -> (r: Option<&Json>)
        ensures
            opt_tree(r) == self@.at(seq![first@, second@, third@]),
    {
        proof {
            reveal_with_fuel(JsonTree::at, 2);
            assert(seq![first@, second@, third@].drop_first() =~= seq![second@, third@]);
        }
        match self.get(first) {
            Some(v) => v.get2(second, third),
            None => None,
        }
    }
}

/// The document in `serde_json`'s own form.
#[verifier::external_type_specification]
#[verifier::external_body]
pub struct ExValue(serde_json::Value);

/// What a document in `serde_json`'s own form says.
pub uninterp spec fn value_tree(value: serde_json::Value) -> JsonTree;

/// What `serde_json::from_str` makes of a text: the document, or the message of
/// the error.
pub uninterp spec fn json_of(text: Seq<char>) -> Result<JsonTree, Seq<char>>;

/// `serde_json::from_str`, read as a document: the result is a function of the
/// text alone, and an error is kept as its message.
#[verifier::external_body]
fn parse_value(text: &str) -> (r: Result<serde_json::Value, String>)
    ensures
        match r {
            Ok(value) => json_of(text@) == Ok::<JsonTree, Seq<char>>(value_tree(value)),
            Err(message) => json_of(text@) == Err::<JsonTree, Seq<char>>(message@),
        },
{
    serde_json::from_str::<serde_json::Value>(text).map_err(|error| error.to_string())
}

/// A document in `serde_json`'s own form, opened by one level.
enum Opened {
    Null,
    Bool(bool),
    Number(Option<u64>),
    Text(String),
    Array(Vec<serde_json::Value>),
    Object(Vec<(String, serde_json::Value)>),
}

/// What the items of an array in `serde_json`'s own form say.
spec fn value_trees(items: Seq<serde_json::Value>) -> Seq<JsonTree> {
    Seq::new(items.len(), |i: int| value_tree(items[i]))
}

/// What the members of an object in `serde_json`'s own form say.
spec fn member_trees(members: Seq<(String, serde_json::Value)>) -> Seq<(Seq<char>, JsonTree)> {
    Seq::new(members.len(), |i: int| (members[i].0@, value_tree(members[i].1)))
}

/// The variants of `serde_json::Value`, one for one. A number keeps what
/// `serde_json::Number::as_u64` makes of it; the members of an object come in
/// the order of `serde_json::Map`'s own walk.
#[verifier::external_body]
fn open_value(value: serde_json::Value) -> (r: Opened)
    ensures
        value_tree(value) == match r {
            Opened::Null => JsonTree::Null,
            Opened::Bool(b) => JsonTree::Bool(b),
            Opened::Number(n) => JsonTree::Number(n),
            Opened::Text(s) => JsonTree::Text(s@),
            Opened::Array(items) => JsonTree::Array(value_trees(items@)),
            Opened::Object(members) => JsonTree::Object(member_trees(members@)),
        },
{
    match value {
        serde_json::Value::Null => Opened::Null,
        serde_json::Value::Bool(b) => Opened::Bool(b),
        serde_json::Value::Number(n) => Opened::Number(n.as_u64()),
        serde_json::Value::String(s) => Opened::Text(s),
        serde_json::Value::Array(items) => Opened::Array(items),
        serde_json::Value::Object(map) => Opened::Object(map.into_iter().collect()),
    }
}

/// A document in the library's form.
fn convert_value(value: serde_json::Value) -> (r: Json)
    ensures
        r@ == value_tree(value),
    decreases value_tree(value),
{
    let ghost whole = value_tree(value);
    match open_value(value) {
        Opened::Null => Json::Null,
        Opened::Bool(b) => Json::Bool(b),
        Opened::Number(n) => Json::Number(n),
        Opened::Text(s) => Json::Text(s),
        Opened::Array(items) => {
            let ghost all = value_trees(items@);
            let mut rest = items;
            let mut out: Vec<Json> = Vec::new();
            while rest.len() > 0
                invariant
                    whole == value_tree(value),
                    whole == JsonTree::Array(all),
                    rest@.len() <= all.len(),
                    out@.len() + rest@.len() == all.len(),
                    forall|k: int|
                        0 <= k < rest@.len() ==> value_tree(#[trigger] rest@[k])
                            == all[out@.len() + k],
                    forall|k: int| 0 <= k < out@.len() ==> tree(#[trigger] out@[k]) == all[k],
                decreases rest.len(),
            {
                let ghost n = out@.len() as int;
                let next = rest.remove(0);
                proof {
                    assert(decreases_to!(whole => whole->Array_0));
                    assert(decreases_to!(whole->Array_0 => whole->Array_0[n]));
                    assert(decreases_to!(whole => all[n]));
                }
                out.push(convert_value(next));
            }
            let r = Json::Array(out);
            proof {
                assert(r@->Array_0 =~= all);
            }
            r
        },
        Opened::Object(members) => {
            let ghost all = member_trees(members@);
            let mut rest = members;
            let mut out: Vec<(String, Json)> = Vec::new();
            while rest.len() > 0
                invariant
                    whole == value_tree(value),
                    whole == JsonTree::Object(all),
                    out@.len() + rest@.len() == all.len(),
                    forall|k: int|
                        0 <= k < rest@.len() ==> (
                            (#[trigger] rest@[k]).0@,
                            value_tree(rest@[k].1),
                        ) == all[out@.len() + k],
                    forall|k: int|
                        0 <= k < out@.len() ==> ((#[trigger] out@[k]).0@, tree(out@[k].1))
                            == all[k],
                decreases rest.len(),
            {
                let ghost n = out@.len() as int;
                let (key, next) = rest.remove(0);
                proof {
                    assert(decreases_to!(whole => whole->Object_0));
                    assert(decreases_to!(whole->Object_0 => whole->Object_0[n]));
                    assert(decreases_to!(whole => all[n]));
                    assert(decreases_to!(whole => all[n].1));
                }
                out.push((key, convert_value(next)));
            }
            let r = Json::Object(out);
            proof {
                assert(r@->Object_0 =~= all);
            }
            r
        },
    }
}

/// Reads a text as a JSON document.
pub fn parse_json(text: &str) -> (r: Result<Json, String>)
    ensures
        match r {
            Ok(document) => json_of(text@) == Ok::<JsonTree, Seq<char>>(document@),
            Err(message) => json_of(text@) == Err::<JsonTree, Seq<char>>(message@),
        },
{
    match parse_value(text) {
        Ok(value) => Ok(convert_value(value)),
        Err(message) => Err(message),
    }
}

/// What `serde_json::from_str` makes of a text that is to be a list of
/// documents: their trees, or the message of the error.
pub uninterp spec fn json_list_of(text: Seq<char>) -> Result<Seq<JsonTree>, Seq<char>>;

/// `serde_json::from_str`, read as a list of documents: the result is a function
/// of the text alone, and an error is kept as its message.
#[verifier::external_body]
fn parse_values(text: &str) -> (r: Result<Vec<serde_json::Value>, String>)
    ensures
        match r {
            Ok(values) => json_list_of(text@) == Ok::<Seq<JsonTree>, Seq<char>>(
                value_trees(values@),
            ),
            Err(message) => json_list_of(text@) == Err::<Seq<JsonTree>, Seq<char>>(message@),
        },
{
    serde_json::from_str::<Vec<serde_json::Value>>(text).map_err(|error| error.to_string())
}

/// Reads a text as a list of JSON documents.
pub fn parse_json_list(text: &str) -> (r: Result<Vec<Json>, String>)
    ensures
        match r {
            Ok(documents) => json_list_of(text@) == Ok::<Seq<JsonTree>, Seq<char>>(
                trees(documents@),
            ),
            Err(message) => json_list_of(text@) == Err::<Seq<JsonTree>, Seq<char>>(message@),
        },
{
    let values = match parse_values(text) {
        Ok(values) => values,
        Err(message) => return Err(message),
    };
    let ghost all = value_trees(values@);
    let mut rest = values;
    let mut out: Vec<Json> = Vec::new();
    while rest.len() > 0
        invariant
            out@.len() + rest@.len() == all.len(),
            forall|k: int|
                0 <= k < rest@.len() ==> value_tree(#[trigger] rest@[k]) == all[out@.len() + k],
            forall|k: int| 0 <= k < out@.len() ==> tree(#[trigger] out@[k]) == all[k],
        decreases rest.len(),
    {
        let next = rest.remove(0);
        out.push(convert_value(next));
    }
    proof {
        assert(trees(out@) =~= all);
    }
    Ok(out)
}

/// The members of an object.
pub open spec fn members_of(members: Seq<(String, Json)>) -> Seq<(Seq<char>, JsonTree)> {
    Seq::new(members.len(), |i: int| (members[i].0@, tree(members[i].1)))
}

/// The object with the given members.
pub fn object(members: Vec<(String, Json)>) -> (r: Json)
    ensures
        r@ == JsonTree::Object(members_of(members@)),
{
    let ghost listed = members_of(members@);
    let r = Json::Object(members);
    proof {
        assert(r@->Object_0 =~= listed);
    }
    r
}

/// A text, or null where there is none.
pub open spec fn text_or_null(text: Option<Seq<char>>) -> JsonTree {
    match text {
        Some(s) => JsonTree::Text(s),
        None => JsonTree::Null,
    }
}

/// A text, or null where there is none.
pub fn optional_text(text: Option<String>) -> (r: Json)
    ensures
        r@ == text_or_null(opt_view(text)),
{
    match text {
        Some(s) => Json::Text(s),
        None => Json::Null,
    }
}

/// The array of the given texts.
pub fn text_array(items: &Vec<String>) -> (r: Json)
    ensures
        r@ == JsonTree::Array(Seq::new(views(items@).len(), |i: int| JsonTree::Text(views(items@)[i]))),
{
    let mut out: Vec<Json> = Vec::new();
    let mut i: usize = 0;
    while i < items.len()
        invariant
            i <= items.len(),
            out@.len() == i,
            forall|k: int| 0 <= k < i ==> tree(#[trigger] out@[k]) == JsonTree::Text(items@[k]@),
        decreases items.len() - i,
    {
        out.push(Json::Text(items[i].clone()));
        i = i + 1;
    }
    let r = Json::Array(out);
    proof {
        assert(r@->Array_0 =~= Seq::new(
            views(items@).len(),
            |i: int| JsonTree::Text(views(items@)[i]),
        ));
    }
    r
}

/// An array of numbers.
pub fn number_array(list: &Vec<u64>) -> (r: Json)
    ensures
        r@ == JsonTree::Array(Seq::new(list@.len(), |i: int| JsonTree::Number(Some(list@[i])))),
{
    let mut out: Vec<Json> = Vec::new();
    let mut i: usize = 0;
    while i < list.len()
        invariant
            i <= list.len(),
            out@.len() == i,
            forall|k: int|
                0 <= k < i ==> tree(#[trigger] out@[k]) == JsonTree::Number(Some(list@[k])),
        decreases list.len() - i,
    {
        out.push(Json::Number(Some(list[i])));
        i = i + 1;
    }
    let r = Json::Array(out);
    proof {
        assert(r@->Array_0 =~= Seq::new(list@.len(), |i: int| JsonTree::Number(Some(list@[i]))));
    }
    r
}

} // verus!
