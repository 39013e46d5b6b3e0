//! JSON values: the tree that a `serde_json::Value` holds, and the calls into `serde_json`.
use vstd::prelude::*;

verus! {

/// A JSON value of the `serde_json` crate: a tree of arrays and objects over plain values.
#[verifier::external_type_specification]
#[verifier::external_body]
pub struct ExJsonValue(serde_json::Value);

/// A JSON tree in mathematical form. A number is held as the text that stands for it.
pub enum JsonModel {
    Null,
    Bool(bool),
    Number(Seq<char>),
    Text(Seq<char>),
    Array(Seq<JsonModel>),
    Object(Map<Seq<char>, JsonModel>),
}

/// The tree that a JSON value holds.
pub uninterp spec fn json_of(value: serde_json::Value) -> JsonModel;

/// What `serde_json::from_str` reads in a text: a tree, or nothing where it refuses the text.
pub uninterp spec fn json_parsed(text: Seq<char>) -> Option<JsonModel>;

/// The text that `serde_json::to_string` writes for a tree, where it writes one.
pub uninterp spec fn json_text(tree: JsonModel) -> Option<Seq<char>>;

/// The trees of a list of JSON values.
pub open spec fn json_list(values: Seq<serde_json::Value>) -> Seq<JsonModel> {
    Seq::new(values.len(), |i: int| json_of(values[i]))
}

/// The members of an object whose keys are all different.
pub open spec fn json_members(members: Seq<(String, serde_json::Value)>) -> Map<
    Seq<char>,
    JsonModel,
>
    decreases members.len(),
{
    if members.len() == 0 {
        Map::empty()
    } else {
        json_members(members.drop_last()).insert(members.last().0@, json_of(members.last().1))
    }
}

/// The JSON object with one member.
pub open spec fn object_1(key: Seq<char>, value: JsonModel) -> JsonModel {
    JsonModel::Object(Map::empty().insert(key, value))
}

/// The JSON object with two members.
pub open spec fn object_2(
    key_a: Seq<char>,
    a: JsonModel,
    key_b: Seq<char>,
    b: JsonModel,
) -> JsonModel {
    JsonModel::Object(Map::empty().insert(key_a, a).insert(key_b, b))
}

/// The JSON object with three members.
pub open spec fn object_3(
    key_a: Seq<char>,
    a: JsonModel,
    key_b: Seq<char>,
    b: JsonModel,
    key_c: Seq<char>,
    c: JsonModel,
) -> JsonModel {
    JsonModel::Object(Map::empty().insert(key_a, a).insert(key_b, b).insert(key_c, c))
}

/// The tree of an optional JSON value.
pub open spec fn json_option(value: Option<serde_json::Value>) -> Option<JsonModel> {
    match value {
        Some(v) => Some(json_of(v)),
        None => None,
    }
}

/// The member `key` of a tree, where it is an object that has one.
pub open spec fn json_member(tree: JsonModel, key: Seq<char>) -> Option<JsonModel> {
    match tree {
        JsonModel::Object(members) => if members.contains_key(key) {
            Some(members[key])
        } else {
            None
        },
        _ => None,
    }
}

/// The characters of a tree that is a string.
pub open spec fn json_string_of(tree: JsonModel) -> Option<Seq<char>> {
    match tree {
        JsonModel::Text(s) => Some(s),
        _ => None,
    }
}

/// The characters of the member `key`, where it is a string.
pub open spec fn json_member_string(tree: JsonModel, key: Seq<char>) -> Option<Seq<char>> {
    match json_member(tree, key) {
        Some(member) => json_string_of(member),
        None => None,
    }
}

/// `serde_json::from_str` into a value: what it reads is a function of the text alone.
/// Which texts it reads, and as what, is left unsaid.
#[verifier::external_body]
pub(crate) fn json_parse(text: &str) -> (parsed: Option<serde_json::Value>)
    ensures
        json_option(parsed) == json_parsed(text@),
{
    serde_json::from_str(text).ok()
}

/// `a` comes before `b` where it does so at the first character in which they differ, or where
/// it is a proper beginning of `b`.
pub open spec fn text_before(a: Seq<char>, b: Seq<char>) -> bool
    decreases a.len(),
{
    if b.len() == 0 {
        false
    } else if a.len() == 0 {
        true
    } else if a[0] == b[0] {
        text_before(a.skip(1), b.skip(1))
    } else {
        a[0] < b[0]
    }
}

/// The first key of an object, in the order of the keys, is not this one.
pub open spec fn does_not_start_with(
    members: Map<Seq<char>, JsonModel>,
    key: Seq<char>,
) -> bool {
    members.contains_key(key) ==> exists|other: Seq<char>| #[trigger]
        members.contains_key(other) && text_before(other, key)
}

/// The numbers of the tree are integers of 64 bits, no object starts with the key that
/// `serde_json` keeps for raw values, and the tree is nested no deeper than `nesting`.
pub open spec fn is_plain_tree(tree: JsonModel, nesting: nat) -> bool
    decreases nesting,
{
    match tree {
        JsonModel::Null | JsonModel::Bool(_) | JsonModel::Text(_) => true,
        JsonModel::Number(text) => exists|n: int|
            i64::MIN <= n <= u64::MAX && text == #[trigger] integer_text(n),
        JsonModel::Array(elements) => nesting > 0 && forall|i: int|
            0 <= i < elements.len() ==> is_plain_tree(
                #[trigger] elements[i],
                (nesting - 1) as nat,
            ),
        JsonModel::Object(members) => {
            &&& nesting > 0
            &&& does_not_start_with(members, "$serde_json::private::RawValue"@)
            &&& forall|key: Seq<char>| #[trigger]
                members.contains_key(key) ==> is_plain_tree(members[key], (nesting - 1) as nat)
        },
    }
}

/// A tree that survives being written and read: it is nested no deeper than a text that is
/// read may be.
pub open spec fn is_plain(tree: JsonModel) -> bool {
    is_plain_tree(tree, 127)
}

/// There is a text, and what it says is the tree.
pub open spec fn reads_back(text: Option<Seq<char>>, tree: JsonModel) -> bool {
    text matches Some(t) && json_parsed(t) == Some(tree)
}

/// `serde_json::to_string` of a value: what it writes is a function of the tree alone, and
/// `serde_json::from_str` reads a plain tree back from it. What the text looks like is left
/// unsaid, and so is what becomes of a tree that is not plain: of its fractions, of an object
/// that starts with the key for raw values, and of what is nested too deep.
#[verifier::external_body]
pub(crate) fn json_write(value: &serde_json::Value) -> (text: Option<String>)
    ensures
        text.deep_view() == json_text(json_of(*value)),
        is_plain(json_of(*value)) ==> reads_back(
            text.deep_view(),
            json_of(*value),
        ),
{
    serde_json::to_string(value).ok()
}

/// `serde_json::Value::get` with a string: the member of an object, and nothing where the
/// value is no object or has no such member.
#[verifier::external_body]
pub(crate) fn json_get<'a>(value: &'a serde_json::Value, key: &str) -> (member: Option<
    &'a serde_json::Value,
>)
    ensures
        member is Some == json_member(json_of(*value), key@) is Some,
        member matches Some(m) ==> json_member(json_of(*value), key@) == Some(json_of(*m)),
{
    value.get(key)
}

/// `serde_json::Value::as_str`: the characters of a string, and nothing of any other value.
#[verifier::external_body]
pub(crate) fn json_as_str<'a>(value: &'a serde_json::Value) -> (text: Option<&'a str>)
    ensures
        text is Some == json_string_of(json_of(*value)) is Some,
        text matches Some(t) ==> json_string_of(json_of(*value)) == Some(t@),
{
    value.as_str()
}

/// `serde_json::Value::as_array`: the elements of an array, and nothing of any other value.
#[verifier::external_body]
pub(crate) fn json_as_array<'a>(value: &'a serde_json::Value) -> (elements: Option<
    &'a Vec<serde_json::Value>,
>)
    ensures
        elements is Some == json_of(*value) is Array,
        elements matches Some(e) ==> json_of(*value) == JsonModel::Array(json_list(e@)),
{
    value.as_array()
}

/// `clone` of a `serde_json::Value`: the copy holds the same tree.
pub assume_specification[ <serde_json::Value as Clone>::clone ](value: &serde_json::Value) -> (copy:
    serde_json::Value)
    ensures
        json_of(copy) == json_of(*value),
;

/// `serde_json::Value::Null`.
#[verifier::external_body]
pub(crate) fn json_null() -> (value: serde_json::Value)
    ensures
        json_of(value) == JsonModel::Null,
{
    serde_json::Value::Null
}

/// `serde_json::Value::Bool`.
#[verifier::external_body]
pub(crate) fn json_bool(b: bool) -> (value: serde_json::Value)
    ensures
        json_of(value) == JsonModel::Bool(b),
{
    serde_json::Value::Bool(b)
}

/// `serde_json::Value::String`.
#[verifier::external_body]
pub(crate) fn json_string(s: String) -> (value: serde_json::Value)
    ensures
        json_of(value) == JsonModel::Text(s@),
{
    serde_json::Value::String(s)
}

/// `serde_json::Value::Array`.
#[verifier::external_body]
pub(crate) fn json_array(elements: Vec<serde_json::Value>) -> (value: serde_json::Value)
    ensures
        json_of(value) == JsonModel::Array(json_list(elements@)),
{
    serde_json::Value::Array(elements)
}

/// The decimal notation of an integer, with a minus sign below zero.
pub open spec fn integer_text(n: int) -> Seq<char> {
    if n < 0 {
        seq!['-'] + crate::text::decimal((-n) as nat)
    } else {
        crate::text::decimal(n as nat)
    }
}

/// `serde_json::Value::from` an integer: the number is written in decimal notation.
#[verifier::external_body]
pub(crate) fn json_integer(n: i64) -> (value: serde_json::Value)
    ensures
        json_of(value) == JsonModel::Number(integer_text(n as int)),
{
    serde_json::Value::from(n)
}

/// `serde_json::Map::from_iter`, wrapped in `serde_json::Value::Object`: an object with the
/// given members, where no two have the same key.
#[verifier::external_body]
pub(crate) fn json_object(members: Vec<(String, serde_json::Value)>) -> (value: serde_json::Value)
    requires
        forall|i: int, j: int|
            0 <= i < j < members@.len() ==> (#[trigger] members@[i]).0@ != (#[trigger] members@[j]).0@,
    ensures
        json_of(value) == JsonModel::Object(json_members(members@)),
{
    serde_json::Value::Object(members.into_iter().collect())
}

/// The string member `key` of a value.
pub(crate) fn json_get_str<'a>(value: &'a serde_json::Value, key: &str) -> (text: Option<&'a str>)
    ensures
        text is Some == json_member_string(json_of(*value), key@) is Some,
        text matches Some(t) ==> json_member_string(json_of(*value), key@) == Some(t@),
{
    match json_get(value, key) {
        Some(member) => json_as_str(member),
        None => None,
    }
}

/// An object with one member.
pub(crate) fn json_object_1(key: &str, value: serde_json::Value) -> (object: serde_json::Value)
    ensures
        json_of(object) == object_1(key@, json_of(value)),
{
    let mut members: Vec<(String, serde_json::Value)> = Vec::new();
    members.push((key.to_owned(), value));
    proof {
        assert(members@.drop_last() =~= Seq::empty());
        reveal_with_fuel(json_members, 2);
    }
    json_object(members)
}

/// An object with two members.
pub(crate) fn json_object_2(
    key_a: &str,
    a: serde_json::Value,
    key_b: &str,
    b: serde_json::Value,
) -> (object: serde_json::Value)
    requires
        key_a@ != key_b@,
    ensures
        json_of(object) == object_2(key_a@, json_of(a), key_b@, json_of(b)),
{
    let mut members: Vec<(String, serde_json::Value)> = Vec::new();
    members.push((key_a.to_owned(), a));
    members.push((key_b.to_owned(), b));
    proof {
        assert(members@.drop_last().drop_last() =~= Seq::empty());
        reveal_with_fuel(json_members, 3);
    }
    json_object(members)
}

/// An object with three members.
pub(crate) fn json_object_3(
    key_a: &str,
    a: serde_json::Value,
    key_b: &str,
    b: serde_json::Value,
    key_c: &str,
    c: serde_json::Value,
) -> (object: serde_json::Value)
    requires
        key_a@ != key_b@,
        key_a@ != key_c@,
        key_b@ != key_c@,
    ensures
        json_of(object) == object_3(
            key_a@,
            json_of(a),
            key_b@,
            json_of(b),
            key_c@,
            json_of(c),
        ),
{
    let mut members: Vec<(String, serde_json::Value)> = Vec::new();
    members.push((key_a.to_owned(), a));
    members.push((key_b.to_owned(), b));
    members.push((key_c.to_owned(), c));
    proof {
        assert(members@.drop_last().drop_last().drop_last() =~= Seq::empty());
        reveal_with_fuel(json_members, 4);
    }
    json_object(members)
}

} // verus!
