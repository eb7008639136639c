//! JSON that others send: what it says.
use vstd::prelude::*;

use crate::text;

verus! {

/// A JSON value, as the `serde_json` crate holds it.
#[verifier::external_type_specification]
#[verifier::external_body]
pub struct ExValue(serde_json::Value);

/// What a JSON value says.
pub ghost enum JsonView {
    Null,
    Bool(bool),
    /// A number that was written as a whole one and fits 64 bits.
    Int(int),
    /// Any other number, by its bits.
    Float(u64),
    Str(Seq<char>),
    Arr(Seq<JsonView>),
    Obj(Map<Seq<char>, JsonView>),
}

/// What a JSON value says.
pub uninterp spec fn json_of(v: &serde_json::Value) -> JsonView;

/// What some bytes say as JSON, or what is wrong with them.
pub uninterp spec fn json_read(bytes: Seq<u8>) -> Result<JsonView, Seq<char>>;

/// What a JSON reader made of some bytes.
pub open spec fn read_of(r: Result<serde_json::Value, String>) -> Result<JsonView, Seq<char>> {
    match r {
        Ok(v) => Ok(json_of(&v)),
        Err(e) => Err(e@),
    }
}

/// `serde_json::from_slice` into a `serde_json::Value`. The outcome is a function of the
/// bytes; what they say by the grammar of JSON is not spelled out here.
#[verifier::external_body]
pub(crate) fn read(bytes: &[u8]) -> (r: Result<serde_json::Value, String>)
    ensures
        read_of(r) == json_read(bytes@),
{
    serde_json::from_slice(bytes).map_err(|e: serde_json::Error| e.to_string())
}

/// The member of an object.
pub open spec fn member(v: JsonView, key: Seq<char>) -> Option<JsonView> {
    match v {
        JsonView::Obj(m) => if m.dom().contains(key) {
            Some(m[key])
        } else {
            None
        },
        _ => None,
    }
}

/// What an optional value says.
pub open spec fn opt_json(v: Option<&serde_json::Value>) -> Option<JsonView> {
    match v {
        Some(x) => Some(json_of(x)),
        None => None,
    }
}

/// `serde_json::Value::get` with a string: the member of an object, nothing for any
/// other value or a missing key.
#[verifier::external_body]
pub(crate) fn get<'a>(v: &'a serde_json::Value, key: &str) -> (r: Option<&'a serde_json::Value>)
    ensures
        opt_json(r) == member(json_of(v), key@),
{
    v.get(key)
}

/// The text of a string.
pub open spec fn str_in(v: JsonView) -> Option<Seq<char>> {
    match v {
        JsonView::Str(s) => Some(s),
        _ => None,
    }
}

/// `serde_json::Value::as_str`: the text of a string, nothing for any other value.
#[verifier::external_body]
pub(crate) fn as_str(v: &serde_json::Value) -> (r: Option<String>)
    ensures
        text::opt_text(r) == str_in(json_of(v)),
{
    v.as_str().map(|s| s.to_string())
}

/// The truth of a Boolean.
pub open spec fn bool_in(v: JsonView) -> Option<bool> {
    match v {
        JsonView::Bool(b) => Some(b),
        _ => None,
    }
}

/// `serde_json::Value::as_bool`: the truth of a Boolean, nothing for any other value.
#[verifier::external_body]
pub(crate) fn as_bool(v: &serde_json::Value) -> (r: Option<bool>)
    ensures
        r == bool_in(json_of(v)),
{
    v.as_bool()
}

/// A whole number of 64 bits without a sign.
pub open spec fn u64_in(v: JsonView) -> Option<u64> {
    match v {
        JsonView::Int(n) => if 0 <= n <= u64::MAX {
            Some(n as u64)
        } else {
            None
        },
        _ => None,
    }
}

/// `serde_json::Value::as_u64`: a whole number from zero on, nothing for any other
/// value.
#[verifier::external_body]
pub(crate) fn as_u64(v: &serde_json::Value) -> (r: Option<u64>)
    ensures
        r == u64_in(json_of(v)),
{
    v.as_u64()
}

/// A whole number of 64 bits with a sign.
pub open spec fn i64_in(v: JsonView) -> Option<i64> {
    match v {
        JsonView::Int(n) => if i64::MIN <= n <= i64::MAX {
            Some(n as i64)
        } else {
            None
        },
        _ => None,
    }
}

/// `serde_json::Value::as_i64`: a whole number that fits, nothing for any other value.
#[verifier::external_body]
pub(crate) fn as_i64(v: &serde_json::Value) -> (r: Option<i64>)
    ensures
        r == i64_in(json_of(v)),
{
    v.as_i64()
}

/// The elements of an array.
pub open spec fn arr_in(v: JsonView) -> Option<Seq<JsonView>> {
    match v {
        JsonView::Arr(a) => Some(a),
        _ => None,
    }
}

/// What some values say.
pub open spec fn all_json(a: Seq<serde_json::Value>) -> Seq<JsonView> {
    a.map_values(|v: serde_json::Value| json_of(&v))
}

/// What an optional list of values says.
pub open spec fn opt_all(a: Option<&Vec<serde_json::Value>>) -> Option<Seq<JsonView>> {
    match a {
        Some(v) => Some(all_json(v@)),
        None => None,
    }
}

/// `serde_json::Value::as_array`: the elements of an array, nothing for any other value.
#[verifier::external_body]
pub(crate) fn as_array(v: &serde_json::Value) -> (r: Option<&Vec<serde_json::Value>>)
    ensures
        opt_all(r) == arr_in(json_of(v)),
{
    v.as_array()
}

/// A text comes before another in the order of their code points.
pub open spec fn precedes(a: Seq<char>, b: Seq<char>) -> bool
    decreases a.len(),
{
    if b.len() == 0 {
        false
    } else if a.len() == 0 {
        true
    } else if a[0] != b[0] {
        a[0] < b[0]
    } else {
        precedes(a.skip(1), b.skip(1))
    }
}

/// `keys` lists each of some texts once, in order.
pub open spec fn lists(keys: Seq<Seq<char>>, all: Set<Seq<char>>) -> bool {
    &&& forall|i: int| 0 <= i < keys.len() ==> all.contains(#[trigger] keys[i])
    &&& forall|k: Seq<char>| #[trigger] all.contains(k) ==> keys.contains(k)
    &&& forall|i: int, j: int|
        0 <= i < j < keys.len() ==> precedes(#[trigger] keys[i], #[trigger] keys[j])
}

/// `keys` are those of an object; nothing for any other value.
pub open spec fn are_keys(keys: Option<Vec<String>>, v: JsonView) -> bool {
    match keys {
        Some(k) => v matches JsonView::Obj(m) && lists(text::texts(k@), m.dom()),
        None => !(v is Obj),
    }
}

/// `serde_json::Value::as_object` and the keys of its `Map`: those of an object, nothing
/// for any other value. The map is a `BTreeMap` unless the crate's `preserve_order` is
/// switched on, which it is not: its keys come in the order of strings, each once.
#[verifier::external_body]
pub(crate) fn object_keys(v: &serde_json::Value) -> (r: Option<Vec<String>>)
    ensures
        are_keys(r, json_of(v)),
{
    v.as_object().map(|m| m.keys().cloned().collect())
}

proof fn lemma_precedes_one_way(a: Seq<char>, b: Seq<char>)
    requires
        precedes(a, b),
    ensures
        !precedes(b, a),
    decreases a.len(),
{
    if a.len() > 0 && a[0] == b[0] {
        lemma_precedes_one_way(a.skip(1), b.skip(1));
    }
}

/// The keys of an object are listed in one way only.
pub proof fn law_keys_are_listed_one_way(
    a: Seq<Seq<char>>,
    b: Seq<Seq<char>>,
    all: Set<Seq<char>>,
)
    requires
        lists(a, all),
        lists(b, all),
    ensures
        a == b,
    decreases a.len(),
{
    if a.len() == 0 {
        if b.len() > 0 {
            assert(all.contains(b[0]));
        }
    } else {
        assert(all.contains(a[0]) && b.contains(a[0]));
        assert(all.contains(b[0]) && a.contains(b[0]));
        let j = choose|j: int| 0 <= j < b.len() && b[j] == a[0];
        let i = choose|i: int| 0 <= i < a.len() && a[i] == b[0];
        if a[0] != b[0] {
            assert(precedes(b[0], b[j]) && precedes(a[0], a[i]));
            lemma_precedes_one_way(a[0], b[0]);
        }
        let (ra, rb, rest) = (a.skip(1), b.skip(1), all.remove(a[0]));
        lemma_listed_rest(a, all);
        lemma_listed_rest(b, all);
        law_keys_are_listed_one_way(ra, rb, rest);
        assert(a =~= seq![a[0]] + ra);
        assert(b =~= seq![b[0]] + rb);
    }
}

proof fn lemma_listed_rest(a: Seq<Seq<char>>, all: Set<Seq<char>>)
    requires
        lists(a, all),
        a.len() > 0,
    ensures
        lists(a.skip(1), all.remove(a[0])),
{
    let (rest, left) = (a.skip(1), all.remove(a[0]));
    assert forall|i: int| 0 <= i < rest.len() implies left.contains(#[trigger] rest[i]) by {
        assert(all.contains(a[i + 1]));
        assert(precedes(a[0], a[i + 1]));
        if a[i + 1] == a[0] {
            lemma_precedes_one_way(a[0], a[0]);
        }
    }
    assert forall|k: Seq<char>| #[trigger] left.contains(k) implies rest.contains(k) by {
        assert(all.contains(k));
        let i = choose|i: int| 0 <= i < a.len() && a[i] == k;
        assert(rest[i - 1] == k);
    }
    assert forall|i: int, j: int| 0 <= i < j < rest.len() implies precedes(
        #[trigger] rest[i],
        #[trigger] rest[j],
    ) by {
        assert(precedes(a[i + 1], a[j + 1]));
    }
}

/// `serde_json::Value::is_null`: whether the value is the null.
#[verifier::external_body]
pub(crate) fn is_null(v: &serde_json::Value) -> (r: bool)
    ensures
        r == (json_of(v) is Null),
{
    v.is_null()
}

/// `serde_json::Value::Bool`: a Boolean.
#[verifier::external_body]
pub(crate) fn of_bool(b: bool) -> (r: serde_json::Value)
    ensures
        json_of(&r) == JsonView::Bool(b),
{
    serde_json::Value::Bool(b)
}

/// `serde_json::Value::String`: a string.
#[verifier::external_body]
pub(crate) fn of_str(s: &str) -> (r: serde_json::Value)
    ensures
        json_of(&r) == JsonView::Str(s@),
{
    serde_json::Value::String(s.to_string())
}

/// `serde_json::Value::Array`: an array of some values.
#[verifier::external_body]
pub(crate) fn of_vec(items: Vec<serde_json::Value>) -> (r: serde_json::Value)
    ensures
        json_of(&r) == JsonView::Arr(all_json(items@)),
{
    serde_json::Value::Array(items)
}

/// `serde_json::Value::Null`.
#[verifier::external_body]
pub(crate) fn null() -> (r: serde_json::Value)
    ensures
        json_of(&r) == JsonView::Null,
{
    serde_json::Value::Null
}

/// `serde_json::Value::clone`: a value that says the same.
#[verifier::external_body]
pub(crate) fn copy(v: &serde_json::Value) -> (r: serde_json::Value)
    ensures
        json_of(&r) == json_of(v),
{
    v.clone()
}

/// An object with a member put in place; null counts as an object without any.
pub open spec fn with_member(v: JsonView, key: Seq<char>, x: JsonView) -> JsonView {
    match v {
        JsonView::Obj(m) => JsonView::Obj(m.insert(key, x)),
        _ => JsonView::Obj(Map::empty().insert(key, x)),
    }
}

/// A member can be put in place: only into an object, or null.
pub open spec fn takes_members(v: JsonView) -> bool {
    v is Obj || v is Null
}

/// `IndexMut` of `serde_json::Value` with a string, and an assignment: the member is put
/// in place, over one of that key. It panics for a value that is no object nor null.
#[verifier::external_body]
pub(crate) fn set(v: &mut serde_json::Value, key: &str, x: serde_json::Value)
    requires
        takes_members(json_of(old(v))),
    ensures
        json_of(final(v)) == with_member(json_of(old(v)), key@, json_of(&x)),
{
    v[key] = x;
}

/// A JSON value as text.
pub uninterp spec fn json_text(v: JsonView) -> Seq<char>;

/// `serde_json::Value::to_string`: the value in compact form, the members of an object in
/// the order of their keys. The text is a function of what the value says; the grammar of
/// JSON is not spelled out here.
#[verifier::external_body]
pub(crate) fn write(v: &serde_json::Value) -> (r: String)
    ensures
        r@ == json_text(json_of(v)),
{
    v.to_string()
}

/// The text of a string member.
pub open spec fn str_member(v: JsonView, key: Seq<char>) -> Option<Seq<char>> {
    match member(v, key) {
        Some(x) => str_in(x),
        None => None,
    }
}

/// The text of a string member.
pub(crate) fn get_str(v: &serde_json::Value, key: &str) -> (r: Option<String>)
    ensures
        text::opt_text(r) == str_member(json_of(v), key@),
{
    match get(v, key) {
        Some(x) => as_str(x),
        None => None,
    }
}

/// The truth of a Boolean member.
pub open spec fn bool_member(v: JsonView, key: Seq<char>) -> Option<bool> {
    match member(v, key) {
        Some(x) => bool_in(x),
        None => None,
    }
}

/// The truth of a Boolean member.
pub(crate) fn get_bool(v: &serde_json::Value, key: &str) -> (r: Option<bool>)
    ensures
        r == bool_member(json_of(v), key@),
{
    match get(v, key) {
        Some(x) => as_bool(x),
        None => None,
    }
}

/// A member that is a whole number from zero on.
pub open spec fn u64_member(v: JsonView, key: Seq<char>) -> Option<u64> {
    match member(v, key) {
        Some(x) => u64_in(x),
        None => None,
    }
}

/// A member that is a whole number from zero on.
pub(crate) fn get_u64(v: &serde_json::Value, key: &str) -> (r: Option<u64>)
    ensures
        r == u64_member(json_of(v), key@),
{
    match get(v, key) {
        Some(x) => as_u64(x),
        None => None,
    }
}

/// A member that is a whole number.
pub open spec fn i64_member(v: JsonView, key: Seq<char>) -> Option<i64> {
    match member(v, key) {
        Some(x) => i64_in(x),
        None => None,
    }
}

/// A member that is a whole number.
pub(crate) fn get_i64(v: &serde_json::Value, key: &str) -> (r: Option<i64>)
    ensures
        r == i64_member(json_of(v), key@),
{
    match get(v, key) {
        Some(x) => as_i64(x),
        None => None,
    }
}

} // verus!
