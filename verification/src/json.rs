//! JSON documents: the tree that a document is, and the value type that the client works on.
use crate::bindings::{
    close_value, json_parsed, json_read, json_text, number_from_u64, number_value, open_value,
    set_entry, value_from_bytes, value_from_text, value_to_text, value_tree, Layer,
};
use vstd::prelude::*;
use vstd::utf8::encode_utf8;

verus! {

/// A JSON number: an integer, or a fraction identified by some integer that stands for it.
pub enum NumberValue {
    Int(int),
    Fraction(int),
}

impl NumberValue {
    /// The number as a `u64`, where it is an integer in that range.
    pub open spec fn as_u64(self) -> Option<u64> {
        match self {
            NumberValue::Int(n) if 0 <= n <= u64::MAX => Some(n as u64),
            _ => None,
        }
    }

    /// The number as an `i64`, where it is an integer in that range.
    pub open spec fn as_i64(self) -> Option<i64> {
        match self {
            NumberValue::Int(n) if i64::MIN <= n <= i64::MAX => Some(n as i64),
            _ => None,
        }
    }
}

/// A JSON document as a mathematical value. The order of an object's entries means nothing.
pub enum JsonTree {
    Null,
    Bool(bool),
    Number(NumberValue),
    String(Seq<char>),
    Array(Seq<JsonTree>),
    Object(Map<Seq<char>, JsonTree>),
}

impl JsonTree {
    /// The entry of an object under a key; other documents have no entries.
    pub open spec fn field(self, key: Seq<char>) -> Option<JsonTree> {
        match self {
            JsonTree::Object(entries) if entries.dom().contains(key) => Some(entries[key]),
            _ => None,
        }
    }

    /// The text of a string.
    pub open spec fn as_str(self) -> Option<Seq<char>> {
        match self {
            JsonTree::String(s) => Some(s),
            _ => None,
        }
    }

    /// The number as a `u64`, where the document is an integer in that range.
    pub open spec fn as_u64(self) -> Option<u64> {
        match self {
            JsonTree::Number(n) => n.as_u64(),
            _ => None,
        }
    }

    /// The number as an `i64`, where the document is an integer in that range.
    pub open spec fn as_i64(self) -> Option<i64> {
        match self {
            JsonTree::Number(n) => n.as_i64(),
            _ => None,
        }
    }

    /// Every number in the document is an integer.
    pub open spec fn has_integers_only(self) -> bool
        decreases self,
    {
        match self {
            JsonTree::Number(n) => n is Int,
            JsonTree::Array(items) => forall|i: int|
                0 <= i < items.len() ==> (#[trigger] items[i]).has_integers_only(),
            JsonTree::Object(entries) => entries.dom().finite() && forall|key: Seq<char>|
                entries.dom().contains(key) ==> (#[trigger] entries[key]).has_integers_only(),
            _ => true,
        }
    }

    /// Arrays and objects are nested at most `depth` deep.
    pub open spec fn nests_within(self, depth: nat) -> bool
        decreases depth,
    {
        match self {
            JsonTree::Array(items) => depth > 0 && forall|i: int|
                0 <= i < items.len() ==> (#[trigger] items[i]).nests_within((depth - 1) as nat),
            JsonTree::Object(entries) => depth > 0 && forall|key: Seq<char>|
                entries.dom().contains(key) ==> (#[trigger] entries[key]).nests_within(
                    (depth - 1) as nat,
                ),
            _ => true,
        }
    }
}

/// The documents that a sequence of values holds.
pub open spec fn values_tree(values: Seq<serde_json::Value>) -> Seq<JsonTree> {
    values.map_values(|value: serde_json::Value| value_tree(value))
}

/// The object that a sequence of entries makes: of two entries with one key the later counts.
pub open spec fn entries_tree(entries: Seq<(String, serde_json::Value)>) -> Map<
    Seq<char>,
    JsonTree,
>
    decreases entries.len(),
{
    if entries.len() == 0 {
        Map::empty()
    } else {
        entries_tree(entries.drop_last()).insert(entries.last().0@, value_tree(entries.last().1))
    }
}

/// No key occurs twice among the entries.
pub open spec fn distinct_keys(entries: Seq<(String, serde_json::Value)>) -> bool {
    forall|i: int, j: int|
        0 <= i < j < entries.len() ==> (#[trigger] entries[i]).0@ != (#[trigger] entries[j]).0@
}

/// A JSON document in memory. An object is a list of entries, of which the last with a key counts.
#[derive(Debug, PartialEq)]
pub enum Json {
    Null,
    Bool(bool),
    Number(serde_json::Number),
    String(String),
    Array(Vec<Json>),
    Object(Vec<(String, Json)>),
}

/// The documents that a list of values is.
pub open spec fn items_tree(items: Seq<Json>) -> Seq<JsonTree>
    decreases items,
{
    if items.len() == 0 {
        seq![]
    } else {
        items_tree(items.drop_last()).push(items.last().tree())
    }
}

/// The object that a list of entries is.
pub open spec fn fields_tree(fields: Seq<(String, Json)>) -> Map<Seq<char>, JsonTree>
    decreases fields,
{
    if fields.len() == 0 {
        Map::empty()
    } else {
        fields_tree(fields.drop_last()).insert(fields.last().0@, fields.last().1.tree())
    }
}

impl Json {
    /// The document that the value is.
    pub open spec fn tree(self) -> JsonTree
        decreases self,
    {
        match self {
            Json::Null => JsonTree::Null,
            Json::Bool(b) => JsonTree::Bool(b),
            Json::Number(n) => JsonTree::Number(number_value(n)),
            Json::String(s) => JsonTree::String(s@),
            Json::Array(items) => JsonTree::Array(items_tree(items@)),
            Json::Object(fields) => JsonTree::Object(fields_tree(fields@)),
        }
    }
}

impl View for Json {
    type V = JsonTree;

    open spec fn view(&self) -> JsonTree {
        self.tree()
    }
}

/// What the lists of values and of their documents have in common.
pub proof fn lemma_items_tree(items: Seq<Json>)
    ensures
        items_tree(items).len() == items.len(),
        forall|i: int| 0 <= i < items.len() ==> #[trigger] items_tree(items)[i] == items[i].tree(),
    decreases items.len(),
{
    if items.len() > 0 {
        lemma_items_tree(items.drop_last());
    }
}

/// Every entry of a list with distinct keys is an entry of the object.
proof fn lemma_entries_tree(entries: Seq<(String, serde_json::Value)>)
    requires
        distinct_keys(entries),
    ensures
        entries_tree(entries).dom().finite(),
        forall|i: int|
            0 <= i < entries.len() ==> entries_tree(entries).dom().contains(
                (#[trigger] entries[i]).0@,
            ) && entries_tree(entries)[entries[i].0@] == value_tree(entries[i].1),
    decreases entries.len(),
{
    if entries.len() > 0 {
        let rest = entries.drop_last();
        assert forall|i: int, j: int| 0 <= i < j < rest.len() implies (#[trigger] rest[i]).0@ != (
        #[trigger] rest[j]).0@ by {
            assert(rest[i] == entries[i] && rest[j] == entries[j]);
        }
        lemma_entries_tree(rest);
        assert forall|i: int| 0 <= i < entries.len() implies entries_tree(entries).dom().contains(
            (#[trigger] entries[i]).0@,
        ) && entries_tree(entries)[entries[i].0@] == value_tree(entries[i].1) by {
            if i < rest.len() {
                assert(rest[i] == entries[i]);
                assert(entries[i].0@ != entries[entries.len() - 1].0@);
            }
        }
    }
}

/// The document in a `serde_json::Value`, as a value of the library.
fn from_value(value: serde_json::Value) -> (json: Json)
    ensures
        json@ == value_tree(value),
    decreases value_tree(value),
{
    let ghost whole = value_tree(value);
    match open_value(value) {
        Layer::Null => Json::Null,
        Layer::Bool(b) => Json::Bool(b),
        Layer::Number(n) => Json::Number(n),
        Layer::String(s) => Json::String(s),
        Layer::Array(items) => {
            let ghost all = items@;
            let mut done: Vec<Json> = Vec::new();
            for item in rest: items
                invariant
                    rest.seq() == all,
                    whole == value_tree(value),
                    whole == JsonTree::Array(values_tree(all)),
                    done.len() == rest.index(),
                    items_tree(done@) =~= values_tree(all).take(done.len() as int),
            {
                let ghost at = done.len() as int;
                assert(decreases_to!(whole => whole->Array_0));
                assert(decreases_to!(whole->Array_0 => whole->Array_0[at]));
                let converted = from_value(item);
                let ghost before = done@;
                done.push(converted);
                assert(done@.drop_last() == before);
            }
            assert(items_tree(done@) =~= values_tree(all));
            Json::Array(done)
        },
        Layer::Object(entries) => {
            let ghost all = entries@;
            let mut done: Vec<(String, Json)> = Vec::new();
            proof {
                lemma_entries_tree(all);
            }
            for entry in rest: entries
                invariant
                    rest.seq() == all,
                    whole == value_tree(value),
                    whole == JsonTree::Object(entries_tree(all)),
                    entries_tree(all).dom().finite(),
                    forall|i: int|
                        0 <= i < all.len() ==> entries_tree(all).dom().contains(
                            (#[trigger] all[i]).0@,
                        ) && entries_tree(all)[all[i].0@] == value_tree(all[i].1),
                    done.len() == rest.index(),
                    fields_tree(done@) =~= entries_tree(all.take(done.len() as int)),
            {
                let ghost at = done.len() as int;
                let (key, part) = entry;
                assert((key, part) == all[at]);
                assert(decreases_to!(whole => whole->Object_0));
                assert(decreases_to!(whole->Object_0 => whole->Object_0[all[at].0@]));
                let converted = from_value(part);
                let ghost before = done@;
                done.push((key, converted));
                assert(done@.drop_last() == before);
                assert(all.take(at + 1).drop_last() =~= all.take(at));
            }
            assert(all.take(all.len() as int) =~= all);
            Json::Object(done)
        },
    }
}

/// The document as a `serde_json::Value`.
fn to_value(json: &Json) -> (value: serde_json::Value)
    ensures
        value_tree(value) == json@,
    decreases json,
{
    match json {
        Json::Null => close_value(Layer::Null),
        Json::Bool(b) => close_value(Layer::Bool(*b)),
        Json::Number(n) => close_value(Layer::Number(n.clone())),
        Json::String(s) => close_value(Layer::String(s.clone())),
        Json::Array(items) => {
            let mut values: Vec<serde_json::Value> = Vec::new();
            for i in 0..items.len()
                invariant
                    values.len() == i,
                    json == Json::Array(*items),
                    forall|j: int| 0 <= j < i ==> value_tree(#[trigger] values[j]) == items[j]@,
            {
                assert(decreases_to!(*json => json->Array_0));
                assert(decreases_to!(json->Array_0 => items@));
                assert(decreases_to!(items@ => items@[i as int]));
                values.push(to_value(&items[i]));
            }
            proof {
                lemma_items_tree(items@);
                assert(values_tree(values@) =~= items_tree(items@));
            }
            close_value(Layer::Array(values))
        },
        Json::Object(fields) => {
            let mut value = close_value(Layer::Object(Vec::new()));
            for i in 0..fields.len()
                invariant
                    json == Json::Object(*fields),
                    value_tree(value) == JsonTree::Object(fields_tree(fields@.take(i as int))),
            {
                assert(decreases_to!(*json => json->Object_0));
                assert(decreases_to!(json->Object_0 => fields@));
                assert(decreases_to!(fields@ => fields@[i as int]));
                assert(decreases_to!(fields@[i as int] => fields@[i as int].1));
                set_entry(&mut value, fields[i].0.as_str(), to_value(&fields[i].1));
                assert(fields@.take(i + 1).drop_last() =~= fields@.take(i as int));
            }
            assert(fields@.take(fields.len() as int) =~= fields@);
            value
        },
    }
}

/// What is known of the last entry with a key once those behind `at` are seen not to have it.
proof fn lemma_last_field(fields: Seq<(String, Json)>, at: int, key: Seq<char>)
    requires
        -1 <= at < fields.len(),
        forall|j: int| at < j < fields.len() ==> (#[trigger] fields[j]).0@ != key,
    ensures
        at >= 0 && fields[at].0@ == key ==> fields_tree(fields).dom().contains(key)
            && fields_tree(fields)[key] == fields[at].1@,
        at == -1 ==> !fields_tree(fields).dom().contains(key),
    decreases fields.len(),
{
    if fields.len() > 0 && at < fields.len() - 1 {
        let rest = fields.drop_last();
        assert forall|j: int| at < j < rest.len() implies (#[trigger] rest[j]).0@ != key by {
            assert(rest[j] == fields[j]);
        }
        assert(fields[fields.len() - 1].0@ != key);
        lemma_last_field(rest, at, key);
    }
}

impl Json {
    /// Reads a document from its text.
    pub fn parse(text: &str) -> (result: Result<Json, String>)
        ensures
            match result {
                Ok(json) => json_parsed(text@) is Ok && json_parsed(text@)->Ok_0 == json@,
                Err(message) => json_parsed(text@) is Err && json_parsed(text@)->Err_0 == message@,
            },
    {
        match value_from_text(text) {
            Ok(value) => Ok(from_value(value)),
            Err(message) => Err(message),
        }
    }

    /// Reads a document from the bytes of its text.
    pub fn read(bytes: &[u8]) -> (result: Result<Json, String>)
        ensures
            match result {
                Ok(json) => json_read(bytes@) is Ok && json_read(bytes@)->Ok_0 == json@,
                Err(message) => json_read(bytes@) is Err && json_read(bytes@)->Err_0 == message@,
            },
    {
        match value_from_bytes(bytes) {
            Ok(value) => Ok(from_value(value)),
            Err(message) => Err(message),
        }
    }

    /// Writes the document as compact text. A document without fractional numbers that is nested
    /// at most 127 deep is read back from the text and from its bytes.
    pub fn render(&self) -> (text: String)
        ensures
            text@ == json_text(self@),
            self@ is Array ==> text@.len() > 0 && text@[0] == '[',
            self@.has_integers_only() && self@.nests_within(127) ==> json_parsed(text@) is Ok
                && json_parsed(text@)->Ok_0 == self@ && json_read(encode_utf8(text@)) is Ok
                && json_read(encode_utf8(text@))->Ok_0 == self@,
    {
        value_to_text(&to_value(self))
    }

    /// A string.
    pub fn string(text: &str) -> (json: Json)
        ensures
            json@ == JsonTree::String(text@),
    {
        Json::String(text.to_owned())
    }

    /// An integer.
    pub fn integer(n: u64) -> (json: Json)
        ensures
            json@ == JsonTree::Number(NumberValue::Int(n as int)),
    {
        Json::Number(number_from_u64(n))
    }

    /// The object without entries.
    pub fn object() -> (json: Json)
        ensures
            json@ == JsonTree::Object(Map::empty()),
    {
        Json::Object(Vec::new())
    }

    /// The object with one more entry, which replaces an earlier one under its key.
    pub fn with(self, key: &str, value: Json) -> (json: Json)
        requires
            self@ is Object,
        ensures
            json@ == JsonTree::Object(self@->Object_0.insert(key@, value@)),
    {
        match self {
            Json::Object(fields) => {
                let mut fields: Vec<(String, Json)> = fields;
                let ghost before = fields@;
                fields.push((key.to_owned(), value));
                assert(fields@.drop_last() == before);
                Json::Object(fields)
            },
            other => other,
        }
    }

    /// The position of the last entry under a key.
    fn position(&self, key: &str) -> (found: Option<usize>)
        ensures
            match found {
                Some(at) => self matches Json::Object(fields) && at < fields.len() && self@.field(
                    key@,
                ) == Some(fields[at as int].1@),
                None => self@.field(key@) is None,
            },
    {
        match self {
            Json::Object(fields) => {
                let wanted = key.to_owned();
                let mut at: usize = fields.len();
                while at > 0
                    invariant
                        at <= fields.len(),
                        wanted@ == key@,
                        self == Json::Object(*fields),
                        forall|j: int| at <= j < fields.len() ==> (#[trigger] fields[j]).0@ != key@,
                    decreases at,
                {
                    at = at - 1;
                    if fields[at].0 == wanted {
                        proof {
                            lemma_last_field(fields@, at as int, key@);
                        }
                        return Some(at);
                    }
                }
                proof {
                    lemma_last_field(fields@, -1, key@);
                }
                None
            },
            _ => None,
        }
    }

    /// The entry of an object under a key.
    pub fn get(&self, key: &str) -> (found: Option<&Json>)
        ensures
            match found {
                Some(json) => self@.field(key@) == Some(json@),
                None => self@.field(key@) is None,
            },
    {
        match (self, self.position(key)) {
            (Json::Object(fields), Some(at)) => Some(&fields[at].1),
            _ => None,
        }
    }

    /// The entry of an object under a key, without the rest of the object.
    pub fn into_field(self, key: &str) -> (found: Option<Json>)
        ensures
            match found {
                Some(json) => self@.field(key@) == Some(json@),
                None => self@.field(key@) is None,
            },
    {
        match self.position(key) {
            Some(at) => match self {
                Json::Object(fields) => {
                    let mut fields: Vec<(String, Json)> = fields;
                    Some(fields.swap_remove(at).1)
                },
                _ => None,
            },
            None => None,
        }
    }

    /// The text of a string.
    pub fn as_str(&self) -> (text: Option<&str>)
        ensures
            match text {
                Some(s) => self@.as_str() == Some(s@),
                None => self@.as_str() is None,
            },
    {
        match self {
            Json::String(s) => Some(s.as_str()),
            _ => None,
        }
    }

    /// The number as a `u64`, where it is an integer in that range.
    pub fn as_u64(&self) -> (number: Option<u64>)
        ensures
            number == self@.as_u64(),
    {
        match self {
            Json::Number(n) => n.as_u64(),
            _ => None,
        }
    }

    /// The number as an `i64`, where it is an integer in that range.
    pub fn as_i64(&self) -> (number: Option<i64>)
        ensures
            number == self@.as_i64(),
    {
        match self {
            Json::Number(n) => n.as_i64(),
            _ => None,
        }
    }
}

/// An object has under a key what was put there; nothing else has entries.
pub proof fn law_entries_are_found_by_their_key(
    entries: Map<Seq<char>, JsonTree>,
    key: Seq<char>,
    value: JsonTree,
    other: JsonTree,
)
    ensures
        JsonTree::Object(entries.insert(key, value)).field(key) == Some(value),
        JsonTree::Object(entries.remove(key)).field(key) is None,
        entries.dom().contains(key) ==> JsonTree::Object(entries).field(key) == Some(entries[key]),
        !(other is Object) ==> other.field(key) is None,
{
}

/// A string has its whole text, and an integer its value as far as the type holds it; nothing else
/// has a text or a value.
pub proof fn law_scalars_have_their_value(text: Seq<char>, n: int, other: JsonTree)
    ensures
        JsonTree::String(text).as_str() == Some(text),
        !(other is String) ==> other.as_str() is None,
        0 <= n <= u64::MAX ==> JsonTree::Number(NumberValue::Int(n)).as_u64() == Some(n as u64),
        !(0 <= n <= u64::MAX) ==> JsonTree::Number(NumberValue::Int(n)).as_u64() is None,
        i64::MIN <= n <= i64::MAX ==> JsonTree::Number(NumberValue::Int(n)).as_i64() == Some(
            n as i64,
        ),
        !(i64::MIN <= n <= i64::MAX) ==> JsonTree::Number(NumberValue::Int(n)).as_i64() is None,
        JsonTree::Number(NumberValue::Fraction(n)).as_u64() is None,
        JsonTree::Number(NumberValue::Fraction(n)).as_i64() is None,
        !(other is Number) ==> other.as_u64() is None && other.as_i64() is None,
{
}

/// A document in memory is what its parts are: an array has each of them, in order, and of the
/// entries of an object the last under a key counts.
pub proof fn law_documents_are_made_of_their_parts(
    flag: bool,
    number: serde_json::Number,
    text: String,
    items: Vec<Json>,
    fields: Vec<(String, Json)>,
    front: Seq<(String, Json)>,
    last: (String, Json),
)
    ensures
        Json::Null@ == JsonTree::Null,
        Json::Bool(flag)@ == JsonTree::Bool(flag),
        Json::Number(number)@ == JsonTree::Number(number_value(number)),
        Json::String(text)@ == JsonTree::String(text@),
        Json::Array(items)@ == JsonTree::Array(
            Seq::new(items@.len(), |i: int| items@[i]@),
        ),
        Json::Object(fields)@ == JsonTree::Object(fields_tree(fields@)),
        fields_tree(seq![]) == Map::<Seq<char>, JsonTree>::empty(),
        fields_tree(front.push(last)) == fields_tree(front).insert(last.0@, last.1@),
{
    lemma_items_tree(items@);
    assert(items_tree(items@) =~= Seq::new(items@.len(), |i: int| items@[i]@));
    assert(front.push(last).drop_last() =~= front);
}

} // verus!
