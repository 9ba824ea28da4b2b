//! JSON values: a type of plain data, and the way to and from JSON text.
use vstd::prelude::*;

verus! {

/// A JSON value of `serde_json`.
#[verifier::external_type_specification]
#[verifier::external_body]
pub struct ExValue(serde_json::Value);

/// A JSON object of `serde_json`.
#[verifier::external_type_specification]
#[verifier::external_body]
#[verifier::reject_recursive_types(K)]
#[verifier::reject_recursive_types(V)]
pub struct ExMap<K, V>(serde_json::Map<K, V>);

/// What a JSON value says. Of a number that is no integer only that is kept.
pub enum JsonTree {
    Null,
    Bool(bool),
    Integer(int),
    Float,
    Text(Seq<char>),
    Array(Seq<JsonTree>),
    Object(Map<Seq<char>, JsonTree>),
}

impl JsonTree {
    /// The value behind `key`: null where there is no such key, or no object.
    pub open spec fn member(self, key: Seq<char>) -> JsonTree {
        match self {
            JsonTree::Object(members) if members.dom().contains(key) => members[key],
            _ => JsonTree::Null,
        }
    }

    /// The value at position `i`: null where there is no such position, or no array.
    pub open spec fn element(self, i: int) -> JsonTree {
        match self {
            JsonTree::Array(items) if 0 <= i < items.len() => items[i],
            _ => JsonTree::Null,
        }
    }

    /// The text, where the value is one.
    pub open spec fn text(self) -> Option<Seq<char>> {
        match self {
            JsonTree::Text(text) => Some(text),
            _ => None,
        }
    }

    /// The integer, where the value is one that fits in 64 bits with a sign.
    pub open spec fn integer(self) -> Option<i64> {
        match self {
            JsonTree::Integer(n) if i64::MIN <= n <= i64::MAX => Some(n as i64),
            _ => None,
        }
    }
}

/// The object that a list of entries makes: of two entries with one key the later counts.
pub open spec fn object_of(entries: Seq<(Seq<char>, JsonTree)>) -> Map<Seq<char>, JsonTree>
    decreases entries.len(),
{
    if entries.len() == 0 {
        Map::empty()
    } else {
        object_of(entries.drop_last()).insert(entries.last().0, entries.last().1)
    }
}

/// The last entry with a key decides what the object holds under it.
proof fn lemma_object_of_last(entries: Seq<(Seq<char>, JsonTree)>, i: int)
    requires
        0 <= i < entries.len(),
        forall|k: int| i < k < entries.len() ==> entries[k].0 != entries[i].0,
    ensures
        object_of(entries).dom().contains(entries[i].0),
        object_of(entries)[entries[i].0] == entries[i].1,
    decreases entries.len(),
{
    if i < entries.len() - 1 {
        let rest = entries.drop_last();
        assert(rest[i] == entries[i]);
        assert forall|k: int| i < k < rest.len() implies rest[k].0 != rest[i].0 by {
            assert(rest[k] == entries[k]);
        }
        lemma_object_of_last(rest, i);
        assert(entries[entries.len() - 1].0 != entries[i].0);
    }
}

/// A key of no entry is a key of no member.
proof fn lemma_object_of_none(entries: Seq<(Seq<char>, JsonTree)>, key: Seq<char>)
    requires
        forall|k: int| 0 <= k < entries.len() ==> entries[k].0 != key,
    ensures
        !object_of(entries).dom().contains(key),
    decreases entries.len(),
{
    if entries.len() > 0 {
        let rest = entries.drop_last();
        assert forall|k: int| 0 <= k < rest.len() implies rest[k].0 != key by {
            assert(rest[k] == entries[k]);
        }
        lemma_object_of_none(rest, key);
        assert(entries[entries.len() - 1].0 != key);
    }
}

proof fn lemma_object_of_finite(entries: Seq<(Seq<char>, JsonTree)>)
    ensures
        object_of(entries).dom().finite(),
    decreases entries.len(),
{
    if entries.len() > 0 {
        lemma_object_of_finite(entries.drop_last());
    }
}

/// A JSON value. Of a number that is no integer only that is kept.
#[derive(Debug)]
pub enum Json {
    Null,
    Bool(bool),
    Integer(i128),
    Float,
    Text(String),
    Array(Vec<Json>),
    Object(Vec<(String, Json)>),
}

/// What the values of a list say.
pub open spec fn item_trees(items: Seq<Json>) -> Seq<JsonTree>
    decreases items,
{
    if items.len() == 0 {
        Seq::empty()
    } else {
        item_trees(items.drop_last()).push(items.last().tree())
    }
}

/// What the entries of a list say.
pub open spec fn entry_trees(entries: Seq<(String, Json)>) -> Seq<(Seq<char>, JsonTree)>
    decreases entries,
{
    if entries.len() == 0 {
        Seq::empty()
    } else {
        entry_trees(entries.drop_last()).push((entries.last().0@, entries.last().1.tree()))
    }
}

proof fn lemma_item_trees(items: Seq<Json>)
    ensures
        item_trees(items).len() == items.len(),
        forall|i: int| 0 <= i < items.len() ==> #[trigger] item_trees(items)[i] == items[i]@,
    decreases items.len(),
{
    if items.len() > 0 {
        lemma_item_trees(items.drop_last());
        assert forall|i: int| 0 <= i < items.len() implies #[trigger] item_trees(items)[i]
            == items[i]@ by {
            if i < items.len() - 1 {
                assert(item_trees(items.drop_last())[i] == items.drop_last()[i]@);
            }
        }
    }
}

proof fn lemma_entry_trees(entries: Seq<(String, Json)>)
    ensures
        entry_trees(entries).len() == entries.len(),
        forall|i: int|
            0 <= i < entries.len() ==> #[trigger] entry_trees(entries)[i] == (
                entries[i].0@,
                entries[i].1@,
            ),
    decreases entries.len(),
{
    if entries.len() > 0 {
        lemma_entry_trees(entries.drop_last());
        assert forall|i: int| 0 <= i < entries.len() implies #[trigger] entry_trees(entries)[i] == (
            entries[i].0@,
            entries[i].1@,
        ) by {
            if i < entries.len() - 1 {
                assert(entry_trees(entries.drop_last())[i] == (
                    entries.drop_last()[i].0@,
                    entries.drop_last()[i].1@,
                ));
            }
        }
    }
}

impl View for Json {
    type V = JsonTree;

    open spec fn view(&self) -> JsonTree {
        self.tree()
    }
}

impl Json {
    /// What the value says.
    pub open spec fn tree(self) -> JsonTree
        decreases self,
    {
        match self {
            Json::Null => JsonTree::Null,
            Json::Bool(b) => JsonTree::Bool(b),
            Json::Integer(n) => JsonTree::Integer(n as int),
            Json::Float => JsonTree::Float,
            Json::Text(text) => JsonTree::Text(text@),
            Json::Array(items) => JsonTree::Array(item_trees(items@)),
            Json::Object(entries) => JsonTree::Object(object_of(entry_trees(entries@))),
        }
    }

    /// The value behind `key`: null where there is no such key, or no object.
    pub fn member(&self, key: &str) -> (value: &Json)
        ensures
            value@ == self@.member(key@),
    {
        if let Json::Object(entries) = self {
            let ghost pairs = entry_trees(entries@);
            proof {
                lemma_entry_trees(entries@);
            }
            let wanted = key.to_owned();
            let mut i: usize = entries.len();
            while i > 0
                invariant
                    i <= entries.len(),
                    wanted@ == key@,
                    pairs.len() == entries@.len(),
                    forall|k: int| 0 <= k < pairs.len() ==> #[trigger] pairs[k] == (
                        entries@[k].0@,
                        entries@[k].1@,
                    ),
                    forall|k: int| i <= k < pairs.len() ==> (#[trigger] pairs[k]).0 != key@,
                    self@ == JsonTree::Object(object_of(pairs)),
                decreases i,
            {
                i -= 1;
                assert(pairs[i as int] == (entries@[i as int].0@, entries@[i as int].1@));
                if entries[i].0 == wanted {
                    proof {
                        lemma_object_of_last(pairs, i as int);
                    }
                    return &entries[i].1;
                }
            }
            proof {
                lemma_object_of_none(pairs, key@);
            }
        }
        &Json::Null
    }

    /// The value at position `i`: null where there is no such position, or no array.
    pub fn element(&self, i: usize) -> (value: &Json)
        ensures
            value@ == self@.element(i as int),
    {
        if let Json::Array(items) = self {
            proof {
                lemma_item_trees(items@);
            }
            if i < items.len() {
                return &items[i];
            }
        }
        &Json::Null
    }

    /// The text, where the value is one.
    pub fn as_str(&self) -> (text: Option<&str>)
        ensures
            match text {
                Some(t) => self@.text() == Some(t@),
                None => self@.text() is None,
            },
    {
        if let Json::Text(text) = self {
            Some(text.as_str())
        } else {
            None
        }
    }

    /// The integer, where the value is one that fits in 64 bits with a sign.
    pub fn as_i64(&self) -> (n: Option<i64>)
        ensures
            n == self@.integer(),
    {
        if let Json::Integer(n) = self {
            if i64::MIN as i128 <= *n && *n <= i64::MAX as i128 {
                return Some(*n as i64);
            }
        }
        None
    }
}

/// What a `serde_json::Value` holds.
pub uninterp spec fn json_of(value: serde_json::Value) -> JsonTree;

/// What `serde_json::from_str` reads out of a text as a `serde_json::Value`, where it does
/// not fail.
pub uninterp spec fn json_parsed(text: Seq<char>) -> Option<JsonTree>;

/// The outermost layer of a `serde_json::Value`. A number is given as the integer it is
/// without and with a sign, where it is one.
enum Layer<'a> {
    Null,
    Bool(bool),
    Number(Option<u64>, Option<i64>),
    Text(&'a String),
    Array(&'a Vec<serde_json::Value>),
    Object(Vec<(&'a String, &'a serde_json::Value)>),
}

/// Whether a layer is the outermost one of a tree.
spec fn outermost(layer: Layer, tree: JsonTree) -> bool {
    match layer {
        Layer::Null => tree == JsonTree::Null,
        Layer::Bool(b) => tree == JsonTree::Bool(b),
        Layer::Number(unsigned, signed) => match tree {
            JsonTree::Integer(n) => if n >= 0 {
                unsigned == Some(n as u64) && n <= u64::MAX && (signed == if n <= i64::MAX {
                    Some(n as i64)
                } else {
                    None
                })
            } else {
                unsigned is None && n >= i64::MIN && signed == Some(n as i64)
            },
            JsonTree::Float => unsigned is None && signed is None,
            _ => false,
        },
        Layer::Text(text) => tree == JsonTree::Text(text@),
        Layer::Array(items) => tree == JsonTree::Array(
            items@.map_values(|v: serde_json::Value| json_of(v)),
        ),
        Layer::Object(entries) => {
            &&& tree == JsonTree::Object(object_of(member_trees(entries@)))
            &&& forall|i: int, j: int|
                0 <= i < j < entries.len() ==> (#[trigger] entries@[i]).0@ != (
                #[trigger] entries@[j]).0@
        },
    }
}

spec fn member_trees(entries: Seq<(&String, &serde_json::Value)>) -> Seq<(Seq<char>, JsonTree)> {
    entries.map_values(|e: (&String, &serde_json::Value)| (e.0@, json_of(*e.1)))
}

/// Takes the outermost layer off a `serde_json::Value`: which of its variants it is, with
/// the variant's fields. A number is asked with `as_u64` and `as_i64`: an integer is kept
/// without a sign where it is not negative and with one where it is, any other number
/// answers neither. A `serde_json::Map` holds each key once.
#[verifier::external_body]
fn layer_of<'a>(value: &'a serde_json::Value) -> (layer: Layer<'a>)
    ensures
        outermost(layer, json_of(*value)),
{
    match value {
        serde_json::Value::Null => Layer::Null,
        serde_json::Value::Bool(b) => Layer::Bool(*b),
        serde_json::Value::Number(n) => Layer::Number(n.as_u64(), n.as_i64()),
        serde_json::Value::String(text) => Layer::Text(text),
        serde_json::Value::Array(items) => Layer::Array(items),
        serde_json::Value::Object(members) => Layer::Object(members.iter().collect()),
    }
}

/// Calls `serde_json::from_str` for a `serde_json::Value`. Success and value depend on the
/// text alone.
#[verifier::external_body]
fn value_from_text(text: &str) -> (value: Option<serde_json::Value>)
    ensures
        match value {
            Some(v) => json_parsed(text@) == Some(json_of(v)),
            None => json_parsed(text@) is None,
        },
{
    serde_json::from_str(text).ok()
}

/// Copies a `serde_json::Value` layer by layer.
fn json_from_value(value: &serde_json::Value) -> (json: Json)
    ensures
        json@ == json_of(*value),
    decreases json_of(*value),
{
    match layer_of(value) {
        Layer::Null => Json::Null,
        Layer::Bool(b) => Json::Bool(b),
        Layer::Number(Some(n), _) => Json::Integer(n as i128),
        Layer::Number(None, Some(n)) => Json::Integer(n as i128),
        Layer::Number(None, None) => Json::Float,
        Layer::Text(text) => Json::Text(text.clone()),
        Layer::Array(values) => {
            let mut items: Vec<Json> = Vec::new();
            let mut i: usize = 0;
            let ghost trees = values@.map_values(|v: serde_json::Value| json_of(v));
            while i < values.len()
                invariant
                    i <= values.len(),
                    i == items.len(),
                    json_of(*value) == JsonTree::Array(trees),
                    trees == values@.map_values(|v: serde_json::Value| json_of(v)),
                    forall|k: int| 0 <= k < i ==> (#[trigger] items@[k])@ == trees[k],
                decreases values.len() - i,
            {
                assert(trees[i as int] == json_of(values@[i as int]));
                assert(decreases_to!(json_of(*value) => json_of(*value)->Array_0));
                assert(decreases_to!(trees => trees[i as int]));
                let item = json_from_value(&values[i]);
                items.push(item);
                i += 1;
            }
            proof {
                lemma_item_trees(items@);
                assert(item_trees(items@) =~= trees);
            }
            Json::Array(items)
        },
        Layer::Object(members) => {
            let mut entries: Vec<(String, Json)> = Vec::new();
            let mut i: usize = 0;
            let ghost pairs = member_trees(members@);
            while i < members.len()
                invariant
                    i <= members.len(),
                    i == entries.len(),
                    json_of(*value) == JsonTree::Object(object_of(pairs)),
                    pairs == member_trees(members@),
                    forall|a: int, b: int|
                        0 <= a < b < members.len() ==> (#[trigger] members@[a]).0@ != (
                        #[trigger] members@[b]).0@,
                    forall|k: int| 0 <= k < i ==> ((#[trigger] entries@[k]).0@, entries@[k].1@)
                        == pairs[k],
                decreases members.len() - i,
            {
                let (key, member) = members[i];
                proof {
                    assert(pairs[i as int] == (key@, json_of(*member)));
                    assert forall|k: int| i < k < pairs.len() implies pairs[k].0
                        != pairs[i as int].0 by {
                        assert(pairs[k].0 == members@[k].0@);
                        assert(members@[i as int].0@ != members@[k].0@);
                    }
                    lemma_object_of_last(pairs, i as int);
                    lemma_object_of_finite(pairs);
                    let object = object_of(pairs);
                    assert(decreases_to!(object => object[key@]));
                    assert(decreases_to!(json_of(*value) => json_of(*value)->Object_0));
                }
                let copy = json_from_value(member);
                entries.push((key.clone(), copy));
                i += 1;
            }
            proof {
                lemma_entry_trees(entries@);
                assert(entry_trees(entries@) =~= pairs);
            }
            Json::Object(entries)
        },
    }
}

/// Reads a JSON value out of a text, where the text is one.
pub fn parse_json(text: &str) -> (json: Option<Json>)
    ensures
        match json {
            Some(value) => json_parsed(text@) == Some(value@),
            None => json_parsed(text@) is None,
        },
{
    match value_from_text(text) {
        Some(value) => Some(json_from_value(&value)),
        None => None,
    }
}

/// What a `serde_json::Map` holds.
pub uninterp spec fn members_of(
    map: serde_json::Map<String, serde_json::Value>,
) -> Map<Seq<char>, JsonTree>;

/// The text that `serde_json::to_string` writes for an object of texts and integers.
pub uninterp spec fn object_written(members: Map<Seq<char>, JsonTree>) -> Seq<char>;

/// Whether every member is a text or an integer.
pub open spec fn flat(members: Map<Seq<char>, JsonTree>) -> bool {
    forall|key: Seq<char>| #[trigger]
        members.dom().contains(key) ==> members[key] is Text || members[key] is Integer
}

/// Calls `serde_json::Map::new`: an object without members.
#[verifier::external_body]
pub(crate) fn new_object() -> (map: serde_json::Map<String, serde_json::Value>)
    ensures
        (members_of(map) == Map::<Seq<char>, JsonTree>::empty()),
{
    serde_json::Map::new()
}

/// Calls `serde_json::Map::insert`: from then on the value stands under the key, and all
/// else is as before.
#[verifier::external_body]
pub(crate) fn insert_member(
    map: &mut serde_json::Map<String, serde_json::Value>,
    key: &str,
    value: serde_json::Value,
)
    ensures
        members_of(*final(map)) == members_of(*old(map)).insert(key@, json_of(value)),
{
    map.insert(key.to_string(), value);
}

/// Calls `From<&str>` of `serde_json::Value`: the value is the text.
#[verifier::external_body]
pub(crate) fn text_value(text: &str) -> (value: serde_json::Value)
    ensures
        json_of(value) == JsonTree::Text(text@),
{
    serde_json::Value::from(text)
}

/// Calls `From<u64>` of `serde_json::Value`: the value is the integer.
#[verifier::external_body]
pub(crate) fn unsigned_value(n: u64) -> (value: serde_json::Value)
    ensures
        json_of(value) == JsonTree::Integer(n as int),
{
    serde_json::Value::from(n)
}

/// Calls `From<i64>` of `serde_json::Value`: the value is the integer.
#[verifier::external_body]
pub(crate) fn integer_value(n: i64) -> (value: serde_json::Value)
    ensures
        json_of(value) == JsonTree::Integer(n as int),
{
    serde_json::Value::from(n)
}

/// Calls `serde_json::to_string` for an object of texts and integers, which does not fail.
/// The text depends on the members alone, and `serde_json::from_str` reads the same members
/// back out of it.
#[verifier::external_body]
pub(crate) fn object_text(map: &serde_json::Map<String, serde_json::Value>) -> (text: String)
    requires
        flat(members_of(*map)),
    ensures
        text@ == object_written(members_of(*map)),
        json_parsed(text@) == Some(JsonTree::Object(members_of(*map))),
{
    serde_json::to_string(map).unwrap()
}

/// What stands in an object is found under its key, what stands in an array at its
/// position, and nowhere else is anything found.
pub proof fn law_values_are_found_where_they_stand(
    tree: JsonTree,
    members: Map<Seq<char>, JsonTree>,
    key: Seq<char>,
    items: Seq<JsonTree>,
    i: int,
)
    ensures
        members.dom().contains(key) ==> JsonTree::Object(members).member(key) == members[key],
        !members.dom().contains(key) ==> JsonTree::Object(members).member(key) == JsonTree::Null,
        !(tree is Object) ==> tree.member(key) == JsonTree::Null,
        0 <= i < items.len() ==> JsonTree::Array(items).element(i) == items[i],
        !(0 <= i < items.len()) ==> JsonTree::Array(items).element(i) == JsonTree::Null,
        !(tree is Array) ==> tree.element(i) == JsonTree::Null,
{
}

/// A text is a text and an integer an integer, where it fits in 64 bits with a sign; no other
/// value is one.
pub proof fn law_only_texts_and_integers_are_some(tree: JsonTree, text: Seq<char>, n: i64)
    ensures
        JsonTree::Text(text).text() == Some(text),
        !(tree is Text) ==> tree.text() is None,
        JsonTree::Integer(n as int).integer() == Some(n),
        tree.integer() == Some(n) ==> tree == JsonTree::Integer(n as int),
        tree.integer() is Some <==> (tree matches JsonTree::Integer(m) && -0x8000_0000_0000_0000
            <= m <= 0x7fff_ffff_ffff_ffff),
{
}

/// A value says what it is made of.
pub proof fn law_value_says_what_it_holds(b: bool, n: i128, text: String, items: Vec<Json>)
    ensures
        Json::Null@ == JsonTree::Null,
        Json::Bool(b)@ == JsonTree::Bool(b),
        Json::Integer(n)@ == JsonTree::Integer(n as int),
        Json::Float@ == JsonTree::Float,
        Json::Text(text)@ == JsonTree::Text(text@),
        Json::Array(items)@ matches JsonTree::Array(trees) && trees.len() == items@.len() && (
        forall|i: int| 0 <= i < items@.len() ==> #[trigger] trees[i] == items@[i]@),
{
    lemma_item_trees(items@);
}

/// An object says under a key what its last entry with the key says.
pub proof fn law_last_entry_counts(entries: Vec<(String, Json)>, i: int)
    requires
        0 <= i < entries@.len(),
        forall|k: int| i < k < entries@.len() ==> (#[trigger] entries@[k]).0@ != entries@[i].0@,
    ensures
        Json::Object(entries)@ matches JsonTree::Object(members) && members.dom().contains(
            entries@[i].0@,
        ) && members[entries@[i].0@] == entries@[i].1@,
{
    let pairs = entry_trees(entries@);
    lemma_entry_trees(entries@);
    assert(pairs[i] == (entries@[i].0@, entries@[i].1@));
    assert forall|k: int| i < k < pairs.len() implies pairs[k].0 != pairs[i].0 by {
        assert(pairs[k] == (entries@[k].0@, entries@[k].1@));
    }
    lemma_object_of_last(pairs, i);
}

/// An object says nothing under a key that no entry has.
pub proof fn law_key_without_entry_has_no_member(entries: Vec<(String, Json)>, key: Seq<char>)
    requires
        forall|k: int| 0 <= k < entries@.len() ==> (#[trigger] entries@[k]).0@ != key,
    ensures
        Json::Object(entries)@ matches JsonTree::Object(members) && !members.dom().contains(key),
{
    let pairs = entry_trees(entries@);
    lemma_entry_trees(entries@);
    assert forall|k: int| 0 <= k < pairs.len() implies pairs[k].0 != key by {
        assert(pairs[k] == (entries@[k].0@, entries@[k].1@));
    }
    lemma_object_of_none(pairs, key);
}

/// Looking into a value gives what stands there.
pub proof fn law_looking_gives_what_stands_there(
    json: &Json,
    key: &str,
    i: usize,
    member: &Json,
    element: &Json,
    text: Option<&str>,
    n: Option<i64>,
)
    requires
        call_ensures(Json::member, (json, key), member),
        call_ensures(Json::element, (json, i), element),
        call_ensures(Json::as_str, (json,), text),
        call_ensures(Json::as_i64, (json,), n),
    ensures
        match json@ {
            JsonTree::Object(members) => member@ == (if members.dom().contains(key@) {
                members[key@]
            } else {
                JsonTree::Null
            }),
            _ => member@ == JsonTree::Null,
        },
        match json@ {
            JsonTree::Array(items) => element@ == (if i < items.len() {
                items[i as int]
            } else {
                JsonTree::Null
            }),
            _ => element@ == JsonTree::Null,
        },
        match json@ {
            JsonTree::Text(t) => text matches Some(found) && found@ == t,
            _ => text is None,
        },
        match json@ {
            JsonTree::Integer(m) => n == (if -0x8000_0000_0000_0000 <= m <= 0x7fff_ffff_ffff_ffff {
                Some(m as i64)
            } else {
                None
            }),
            _ => n is None,
        },
{
}

/// A text is read as the value that it is.
pub proof fn law_text_is_read_as_its_value(text: &str, json: Option<Json>)
    requires
        call_ensures(parse_json, (text,), json),
    ensures
        match json_parsed(text@) {
            Some(tree) => json matches Some(value) && value@ == tree,
            None => json is None,
        },
{
}

} // verus!
