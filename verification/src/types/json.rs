//! JSON values as carried through the kernel: resource inputs and
//! outputs, stored database values, published tool schemas. The kernel
//! never looks inside a value except through the reads below.

use vstd::prelude::*;
use serde_json::Value;

verus! {

#[verifier::external_type_specification]
#[verifier::external_body]
pub struct ExValue(serde_json::Value);

/// `serde_json::Value::clone`: a clone of a JSON value is the same
/// value (`Value`'s `Clone` is derived and copies the whole tree).
pub assume_specification[ <serde_json::Value as Clone>::clone ](v: &Value) -> (r: Value)
    ensures
        r == *v,
;


/// The keys of `v`, in the map's iteration order, when `v` is an
/// object; `None` for any other value.
pub uninterp spec fn object_keys(v: Value) -> Option<Seq<Seq<char>>>;

/// The string at `key` of `v`, when `v` is an object holding a string
/// there; `None` otherwise.
pub open spec fn str_field(v: Value, key: Seq<char>) -> Option<Seq<char>> {
    match field_of(v, key) {
        Some(x) => str_value(x),
        None => None,
    }
}

/// `Value::as_object` followed by the map's keys: the keys of an
/// object, in the map's order, or `None` for a non-object. The result
/// is named (`object_keys`); nothing more is stated of it.
#[verifier::external_body]
pub(crate) fn json_object_keys(v: &Value) -> (r: Option<Vec<String>>)
    ensures
        match r {
            Some(ks) => object_keys(*v) == Some(ks@.map_values(|k: String| k@)),
            None => object_keys(*v) is None,
        },
{
    v.as_object().map(|m| m.keys().cloned().collect())
}

/// `Value::get(key)` then `Value::as_str`: the string stored at `key`
/// of an object (see `str_field`).
#[verifier::external_body]
pub(crate) fn json_str_field(v: &Value, key: &str) -> (r: Option<String>)
    ensures
        match r {
            Some(s) => str_field(*v, key@) == Some(s@),
            None => str_field(*v, key@) is None,
        },
{
    v.get(key).and_then(Value::as_str).map(String::from)
}


/// The value at `key` of `v`, when `v` is an object holding `key`.
pub uninterp spec fn field_of(v: Value, key: Seq<char>) -> Option<Value>;

/// The compact JSON text of `v`.
pub uninterp spec fn json_text(v: Value) -> Seq<char>;

/// The `Debug` rendering of a string: quoted, with escapes.
pub uninterp spec fn debug_quoted(s: Seq<char>) -> Seq<char>;


/// `Value::get(key)` then `clone`: the value at `key` of an object.
/// The result is named (`field_of`); nothing more is stated of it.
#[verifier::external_body]
pub(crate) fn json_field(v: &Value, key: &str) -> (r: Option<Value>)
    ensures
        r == field_of(*v, key@),
{
    v.get(key).cloned()
}

/// `Value`'s `Display`: its compact JSON text. The result is named
/// (`json_text`).
#[verifier::external_body]
pub(crate) fn json_to_text(v: &Value) -> (r: String)
    ensures
        r@ == json_text(*v),
{
    v.to_string()
}

/// `str`'s `Debug` rendering, through `format!`. The result is named
/// (`debug_quoted`).
#[verifier::external_body]
pub(crate) fn debug_str(s: &str) -> (r: String)
    ensures
        r@ == debug_quoted(s@),
{
    format!("{s:?}")
}




/// The items of the array at `key` of `v`, when `v` is an object
/// holding an array there.
pub uninterp spec fn array_items(v: Value, key: Seq<char>) -> Option<Seq<Value>>;

/// The text of `v` when it is a JSON string.
pub uninterp spec fn str_value(v: Value) -> Option<Seq<char>>;





/// The JSON value `text` parses to, if it is valid JSON.
pub uninterp spec fn parsed_json(text: Seq<char>) -> Option<Value>;

/// The value at `key` of `v`, or `null` when there is none.
pub uninterp spec fn field_or_null(v: Value, key: Seq<char>) -> Value;

/// The JSON string value holding `s`.
pub uninterp spec fn string_value(s: Seq<char>) -> Value;


/// `serde_json::from_str::<Value>`: the value `text` parses to, or
/// `None` when it is not valid JSON. The result is named
/// (`parsed_json`).
#[verifier::external_body]
pub(crate) fn json_parse(text: &str) -> (r: Option<Value>)
    ensures
        r == parsed_json(text@),
{
    serde_json::from_str::<Value>(text).ok()
}

/// `Value::get(key)`, cloned, or `Value::Null` when absent. The result
/// is named (`field_or_null`).
#[verifier::external_body]
pub(crate) fn json_field_or_null(v: &Value, key: &str) -> (r: Value)
    ensures
        r == field_or_null(*v, key@),
{
    v.get(key).cloned().unwrap_or(Value::Null)
}

/// `Value::String(s)`. The result is named (`string_value`); it reads
/// back (`as_str`) as `s`.
#[verifier::external_body]
pub(crate) fn json_string(s: String) -> (r: Value)
    ensures
        r == string_value(s@),
        str_value(r) == Some(s@),
{
    Value::String(s)
}



/// The first item of the array at `key` of `v`, when there is one.
pub uninterp spec fn first_item(v: Value, key: Seq<char>) -> Option<Value>;

/// `Value::get(key)`, `Value::as_array`, then the first item, cloned.
/// The result is named (`first_item`).
#[verifier::external_body]
pub(crate) fn json_first_item(v: &Value, key: &str) -> (r: Option<Value>)
    ensures
        r == first_item(*v, key@),
{
    v.get(key).and_then(Value::as_array).and_then(|a| a.first()).cloned()
}


/// The unsigned integer at `key` of `v`, when `v` is an object holding
/// one that fits in `u64`.
pub uninterp spec fn u64_field(v: Value, key: Seq<char>) -> Option<u64>;


/// `Value::get(key)` then `Value::as_u64`. The result is named
/// (`u64_field`).
#[verifier::external_body]
pub(crate) fn json_u64_field(v: &Value, key: &str) -> (r: Option<u64>)
    ensures
        r == u64_field(*v, key@),
{
    v.get(key).and_then(Value::as_u64)
}



/// The JSON object whose members are `members`, inserted in order (a
/// later member replaces an earlier one with the same key).
pub uninterp spec fn object_of(members: Seq<(Seq<char>, Value)>) -> Value;

/// The members of an object, as key text and value.
pub open spec fn member_views(members: Seq<(String, Value)>) -> Seq<(Seq<char>, Value)> {
    members.map_values(|m: (String, Value)| (m.0@, m.1))
}

/// The value the last of `ms` with key `k` holds, if any.
pub open spec fn member_value(ms: Seq<(Seq<char>, Value)>, k: Seq<char>) -> Option<Value>
    decreases ms.len(),
{
    if ms.len() == 0 {
        None
    } else if ms.last().0 == k {
        Some(ms.last().1)
    } else {
        member_value(ms.drop_last(), k)
    }
}

/// `serde_json::Map::from_iter` over the members, as a
/// `Value::Object`. The result is named (`object_of`); reading a key of
/// it gives the value of the last member with that key (the map inserts
/// the members in order, a later one replacing an earlier one).
#[verifier::external_body]
pub(crate) fn json_object(members: Vec<(String, Value)>) -> (r: Value)
    ensures
        r == object_of(member_views(members@)),
        forall|k: Seq<char>| #[trigger] field_of(r, k) == member_value(member_views(members@), k),
{
    Value::Object(serde_json::Map::from_iter(members))
}

/// The JSON array holding `items`, in order.
pub uninterp spec fn array_of(items: Seq<Value>) -> Value;

/// `Value::Array(items)`. The result is named (`array_of`).
#[verifier::external_body]
pub(crate) fn json_array(items: Vec<Value>) -> (r: Value)
    ensures
        r == array_of(items@),
{
    Value::Array(items)
}

/// The JSON number `n`.
pub uninterp spec fn u64_value(n: u64) -> Value;

/// `Value::from(n)` for an unsigned integer. The result is named
/// (`u64_value`).
#[verifier::external_body]
pub(crate) fn json_u64(n: u64) -> (r: Value)
    ensures
        r == u64_value(n),
{
    Value::from(n)
}

/// The JSON boolean `b`.
pub uninterp spec fn bool_value(b: bool) -> Value;

/// `Value::Bool(b)`. The result is named (`bool_value`).
#[verifier::external_body]
pub(crate) fn json_bool(b: bool) -> (r: Value)
    ensures
        r == bool_value(b),
{
    Value::Bool(b)
}


/// Whether `v` is the JSON `null`.
pub uninterp spec fn is_json_null(v: Value) -> bool;

/// `Value::is_null`. The result is named (`is_json_null`).
#[verifier::external_body]
pub(crate) fn json_is_null(v: &Value) -> (r: bool)
    ensures
        r == is_json_null(*v),
{
    v.is_null()
}

/// `Value::get(key)`, `Value::as_array`, cloned: the items of the array
/// at `key` of an object. The result is named (`array_items`).
#[verifier::external_body]
pub(crate) fn json_array_items(v: &Value, key: &str) -> (r: Option<Vec<Value>>)
    ensures
        match r {
            Some(items) => array_items(*v, key@) == Some(items@),
            None => array_items(*v, key@) is None,
        },
{
    v.get(key).and_then(Value::as_array).cloned()
}

/// `Value::as_str`: the text of a JSON string. The result is named
/// (`str_value`).
#[verifier::external_body]
pub(crate) fn json_as_str(v: &Value) -> (r: Option<String>)
    ensures
        match r {
            Some(t) => str_value(*v) == Some(t@),
            None => str_value(*v) is None,
        },
{
    v.as_str().map(String::from)
}

/// The object `{"ok": b}`.
pub open spec fn ok_object(b: bool) -> Value {
    object_of(seq![("ok"@, bool_value(b))])
}

/// The object `{"ok": true, "value": v}`.
pub open spec fn ok_value_object(v: Value) -> Value {
    object_of(seq![("ok"@, bool_value(true)), ("value"@, v)])
}

/// The object `{key: s}` with one string member.
pub open spec fn string_member_object(key: Seq<char>, s: Seq<char>) -> Value {
    object_of(seq![(key, string_value(s))])
}

/// The numbers `order` as JSON numbers.
pub open spec fn index_values(order: Seq<usize>) -> Seq<Value> {
    order.map_values(|i: usize| u64_value(i as u64))
}

/// The object `{"order": [i, ...]}`.
pub open spec fn order_object(order: Seq<usize>) -> Value {
    object_of(seq![("order"@, array_of(index_values(order)))])
}

/// The object `{"text": text, "index": index}`.
pub open spec fn text_index_object(text: Seq<char>, index: u64) -> Value {
    object_of(seq![("text"@, string_value(text)), ("index"@, u64_value(index))])
}

/// The texts of the string items of `items`, in order; other items are
/// skipped.
pub open spec fn strings_of(items: Seq<Value>) -> Seq<Seq<char>>
    decreases items.len(),
{
    if items.len() == 0 {
        Seq::empty()
    } else {
        strings_of(items.drop_last()) + match str_value(items.last()) {
            Some(t) => seq![t],
            None => Seq::<Seq<char>>::empty(),
        }
    }
}

/// The strings of the array at `key` of `v` (other items skipped), when
/// `v` is an object holding an array there.
pub open spec fn str_items(v: Value, key: Seq<char>) -> Option<Seq<Seq<char>>> {
    match array_items(v, key) {
        Some(items) => Some(strings_of(items)),
        None => None,
    }
}

/// The object `{"ok": b}`.
pub fn json_ok(b: bool) -> (r: Value)
    ensures
        r == ok_object(b),
        field_of(r, "ok"@) == Some(bool_value(b)),
{
    let ms = vec![(String::from_str("ok"), json_bool(b))];
    proof {
        assert(member_views(ms@) =~= seq![("ok"@, bool_value(b))]);
    }
    json_object(ms)
}

/// The object `{"ok": true, "value": v}`.
pub fn json_ok_value(v: Value) -> (r: Value)
    ensures
        r == ok_value_object(v),
        field_of(r, "ok"@) == Some(bool_value(true)),
        field_of(r, "value"@) == Some(v),
{
    let ms = vec![(String::from_str("ok"), json_bool(true)), (String::from_str("value"), v)];
    proof {
        assert(member_views(ms@) =~= seq![("ok"@, bool_value(true)), ("value"@, v)]);
        reveal_strlit("ok");
        reveal_strlit("value");
        assert("ok"@.len() == 2 && "value"@.len() == 5);
        assert("ok"@ != "value"@);
        let mv = member_views(ms@);
        assert(mv.drop_last() =~= seq![("ok"@, bool_value(true))]);
        assert(member_value(mv.drop_last(), "ok"@) == Some(bool_value(true)));
        assert(mv.last().0 != "ok"@);
        assert(member_value(mv, "ok"@) == Some(bool_value(true)));
    }
    json_object(ms)
}

/// The object `{key: s}`.
pub fn json_string_member(key: &str, s: String) -> (r: Value)
    ensures
        r == string_member_object(key@, s@),
        str_field(r, key@) == Some(s@),
{
    let ghost sv = s@;
    let ms = vec![(String::from_str(key), json_string(s))];
    proof {
        assert(member_views(ms@) =~= seq![(key@, string_value(sv))]);
    }
    json_object(ms)
}

/// The object `{"order": order}`.
pub fn json_order(order: Vec<usize>) -> (r: Value)
    ensures
        r == order_object(order@),
{
    let mut items: Vec<Value> = Vec::new();
    let mut i: usize = 0;
    while i < order.len()
        invariant
            i <= order@.len(),
            items@ == index_values(order@.take(i as int)),
        decreases order@.len() - i,
    {
        items.push(json_u64(order[i] as u64));
        proof {
            assert(order@.take(i + 1) =~= order@.take(i as int).push(order@[i as int]));
            assert(items@ =~= index_values(order@.take(i + 1)));
        }
        i = i + 1;
    }
    proof {
        assert(order@.take(order@.len() as int) =~= order@);
    }
    let arr = json_array(items);
    let ms = vec![(String::from_str("order"), arr)];
    proof {
        assert(member_views(ms@) =~= seq![("order"@, array_of(index_values(order@)))]);
    }
    json_object(ms)
}

/// The object `{"text": text, "index": index}`.
pub fn json_text_index(text: &str, index: u64) -> (r: Value)
    ensures
        r == text_index_object(text@, index),
{
    let ms = vec![
        (String::from_str("text"), json_string(String::from_str(text))),
        (String::from_str("index"), json_u64(index)),
    ];
    proof {
        assert(member_views(ms@) =~= seq![("text"@, string_value(text@)), ("index"@, u64_value(index))]);
    }
    json_object(ms)
}

/// The strings of the array at `key` of `v`, other items skipped.
pub fn json_str_items(v: &Value, key: &str) -> (r: Option<Vec<String>>)
    ensures
        match r {
            Some(items) => str_items(*v, key@) == Some(items@.map_values(|s: String| s@)),
            None => str_items(*v, key@) is None,
        },
{
    let items = match json_array_items(v, key) {
        None => {
            return None;
        },
        Some(items) => items,
    };
    let mut out: Vec<String> = Vec::new();
    let mut i: usize = 0;
    while i < items.len()
        invariant
            i <= items@.len(),
            out@.map_values(|s: String| s@) == strings_of(items@.take(i as int)),
        decreases items@.len() - i,
    {
        proof {
            assert(items@.take(i + 1).drop_last() =~= items@.take(i as int));
        }
        match json_as_str(&items[i]) {
            Some(t) => {
                out.push(t);
            },
            None => {},
        }
        proof {
            assert(out@.map_values(|s: String| s@) =~= strings_of(items@.take(i + 1)));
        }
        i = i + 1;
    }
    proof {
        assert(items@.take(items@.len() as int) =~= items@);
    }
    Some(out)
}
} // verus!
