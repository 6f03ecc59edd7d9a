//! The JSON documents of the service, as `serde_json` holds them, and the
//! few reads that decoding makes of them.

use vstd::prelude::*;
use crate::error::Field;

verus! {

/// What a JSON value holds.
pub enum JsonTree {
    Null,
    Bool(bool),
    /// A number that is held as an integer.
    Integer(int),
    /// A number that is held in floating point; its value is not modelled.
    Float,
    Text(Seq<char>),
    Array(Seq<JsonTree>),
    Object(Map<Seq<char>, JsonTree>),
}

impl JsonTree {
    /// The member of an object under `key`; `Null` where the value is no
    /// object or has no such member.
    pub open spec fn member(self, key: Seq<char>) -> JsonTree {
        match self {
            JsonTree::Object(members) if members.contains_key(key) => members[key],
            _ => JsonTree::Null,
        }
    }

    /// The text under `field`, or the field as the one that is missing.
    pub open spec fn text_field(self, field: Field) -> Result<Seq<char>, Field> {
        match self.member(field.spec_key()) {
            JsonTree::Text(text) => Ok(text),
            _ => Err(field),
        }
    }

    /// The text under `field` where it is not empty, or the field as the one
    /// that is missing.
    pub open spec fn nonempty_text_field(self, field: Field) -> Result<Seq<char>, Field> {
        match self.member(field.spec_key()) {
            JsonTree::Text(text) if text.len() > 0 => Ok(text),
            _ => Err(field),
        }
    }

    /// The unsigned 32-bit integer under `field`, or the field as the one
    /// that is missing: a number in floating point or out of range is none.
    pub open spec fn u32_field(self, field: Field) -> Result<u32, Field> {
        match self.member(field.spec_key()) {
            JsonTree::Integer(n) if 0 <= n <= u32::MAX => Ok(n as u32),
            _ => Err(field),
        }
    }

    /// The elements of the array under `field`, or the field as the one that
    /// is missing.
    pub open spec fn array_field(self, field: Field) -> Result<Seq<JsonTree>, Field> {
        match self.member(field.spec_key()) {
            JsonTree::Array(items) => Ok(items),
            _ => Err(field),
        }
    }
}

/// `serde_json::Value`, a JSON document in memory.
#[verifier::external_type_specification]
#[verifier::external_body]
pub struct ExValue(serde_json::Value);

/// What a `serde_json::Value` holds: its variant, and under it the boolean,
/// the integer, the characters of the string, the elements of the array in
/// their order, or the members of the object by their keys.
pub uninterp spec fn json_tree(value: serde_json::Value) -> JsonTree;

/// `value[key]` of `serde_json`: the member under `key` where `value` is an
/// object that has one, and a null value in every other case. It does not
/// panic.
#[verifier::external_body]
pub(crate) fn member<'a>(value: &'a serde_json::Value, key: &str) -> (found: &'a serde_json::Value)
    ensures
        json_tree(*found) == json_tree(*value).member(key@),
{
    &value[key]
}

/// `Value::as_str`: the string's characters where `value` is a string, and
/// `None` for every other variant.
#[verifier::external_body]
pub(crate) fn as_text<'a>(value: &'a serde_json::Value) -> (text: Option<&'a str>)
    ensures
        match json_tree(*value) {
            JsonTree::Text(chars) => text is Some && text->Some_0@ == chars,
            _ => text is None,
        },
{
    value.as_str()
}

/// `Value::as_i64`: the number where `value` is one that is held as an
/// integer and fits `i64`, and `None` otherwise.
#[verifier::external_body]
pub(crate) fn as_integer(value: &serde_json::Value) -> (number: Option<i64>)
    ensures
        match json_tree(*value) {
            JsonTree::Integer(n) if i64::MIN <= n <= i64::MAX => number == Some(n as i64),
            _ => number is None,
        },
{
    value.as_i64()
}

/// `Value::as_array`: the vector of elements where `value` is an array, each
/// in its place, and `None` for every other variant.
#[verifier::external_body]
pub(crate) fn as_items<'a>(value: &'a serde_json::Value) -> (items: Option<&'a Vec<serde_json::Value>>)
    ensures
        match json_tree(*value) {
            JsonTree::Array(elements) => items is Some && trees_of(items->Some_0@) == elements,
            _ => items is None,
        },
{
    value.as_array()
}

/// What each value of a sequence holds, in the same order.
pub open spec fn trees_of(values: Seq<serde_json::Value>) -> Seq<JsonTree> {
    values.map_values(|value: serde_json::Value| json_tree(value))
}

/// Reads the string under `field` of a JSON object.
pub fn str_from_value(data: &serde_json::Value, field: Field) -> (text: Result<String, Field>)
    ensures
        match json_tree(*data).text_field(field) {
            Ok(chars) => text is Ok && text->Ok_0@ == chars,
            Err(missing) => text == Err::<String, Field>(missing),
        },
{
    match as_text(member(data, field.key())) {
        Some(text) => Ok(text.to_owned()),
        None => Err(field),
    }
}

/// Reads the string under `field` of a JSON object, and takes an empty one
/// for a missing one.
pub fn nonempty_str_from_value(data: &serde_json::Value, field: Field) -> (text: Result<
    String,
    Field,
>)
    ensures
        match json_tree(*data).nonempty_text_field(field) {
            Ok(chars) => text is Ok && text->Ok_0@ == chars,
            Err(missing) => text == Err::<String, Field>(missing),
        },
{
    match as_text(member(data, field.key())) {
        Some(text) => {
            if text.is_empty() {
                Err(field)
            } else {
                Ok(text.to_owned())
            }
        },
        None => Err(field),
    }
}

/// Reads the unsigned 32-bit integer under `field` of a JSON object.
pub fn u32_from_value(data: &serde_json::Value, field: Field) -> (number: Result<u32, Field>)
    ensures
        number == json_tree(*data).u32_field(field),
{
    match as_integer(member(data, field.key())) {
        Some(n) => {
            if 0 <= n && n <= 0xffff_ffff {
                Ok(n as u32)
            } else {
                Err(field)
            }
        },
        None => Err(field),
    }
}

/// Reads the array under `field` of a JSON object.
pub fn items_from_value<'a>(data: &'a serde_json::Value, field: Field) -> (items: Result<
    &'a Vec<serde_json::Value>,
    Field,
>)
    ensures
        match json_tree(*data).array_field(field) {
            Ok(elements) => items is Ok && trees_of(items->Ok_0@) == elements,
            Err(missing) => items == Err::<&Vec<serde_json::Value>, Field>(missing),
        },
{
    match as_items(member(data, field.key())) {
        Some(items) => Ok(items),
        None => Err(field),
    }
}

/// Decodes the elements of an array in their order: the decoded elements
/// where every one decodes, else the failure of the first that does not.
pub open spec fn decode_each<T>(
    items: Seq<JsonTree>,
    decode: spec_fn(JsonTree) -> Result<T, Field>,
) -> Result<Seq<T>, Field>
    decreases items.len(),
{
    if items.len() == 0 {
        Ok(Seq::empty())
    } else {
        match decode_each(items.drop_last(), decode) {
            Err(missing) => Err(missing),
            Ok(decoded) => match decode(items.last()) {
                Ok(item) => Ok(decoded.push(item)),
                Err(missing) => Err(missing),
            },
        }
    }
}

/// Decoding one element more extends what the elements before it gave.
pub proof fn lemma_decode_each_step<T>(
    items: Seq<JsonTree>,
    decode: spec_fn(JsonTree) -> Result<T, Field>,
    i: int,
)
    requires
        0 <= i < items.len(),
    ensures
        decode_each(items.take(i + 1), decode) == match decode_each(items.take(i), decode) {
            Err(missing) => Err::<Seq<T>, Field>(missing),
            Ok(decoded) => match decode(items[i]) {
                Ok(item) => Ok(decoded.push(item)),
                Err(missing) => Err(missing),
            },
        },
{
    assert(items.take(i + 1).drop_last() =~= items.take(i));
    assert(items.take(i + 1).last() == items[i]);
}

/// A failure among the first `i` elements is the failure of the whole array.
pub proof fn lemma_decode_each_fails<T>(
    items: Seq<JsonTree>,
    decode: spec_fn(JsonTree) -> Result<T, Field>,
    i: int,
)
    requires
        0 <= i <= items.len(),
        decode_each(items.take(i), decode) is Err,
    ensures
        decode_each(items, decode) == decode_each(items.take(i), decode),
    decreases items.len() - i,
{
    if i == items.len() {
        assert(items.take(i) =~= items);
    } else {
        lemma_decode_each_step(items, decode, i);
        lemma_decode_each_fails(items, decode, i + 1);
    }
}

/// Every element decodes exactly when the array does, and then each decoded
/// element stands where the element it was decoded from stood.
pub proof fn lemma_decode_each_keeps_order<T>(
    items: Seq<JsonTree>,
    decode: spec_fn(JsonTree) -> Result<T, Field>,
)
    ensures
        decode_each(items, decode) is Ok <==> forall|i: int|
            0 <= i < items.len() ==> (#[trigger] decode(items[i])) is Ok,
        decode_each(items, decode) matches Ok(decoded) ==> decoded.len() == items.len()
            && forall|i: int|
            0 <= i < items.len() ==> Ok::<T, Field>(#[trigger] decoded[i]) == decode(items[i]),
    decreases items.len(),
{
    if items.len() > 0 {
        let front = items.drop_last();
        lemma_decode_each_keeps_order(front, decode);
        assert forall|i: int| 0 <= i < front.len() implies front[i] == items[i] by {}
        if decode_each(items, decode) is Ok {
            assert forall|i: int| 0 <= i < items.len() implies (#[trigger] decode(items[i])) is Ok by {
                if i < front.len() {
                    assert(decode(front[i]) is Ok);
                }
            }
        }
        if forall|i: int| 0 <= i < items.len() ==> (#[trigger] decode(items[i])) is Ok {
            assert forall|i: int| 0 <= i < front.len() implies (#[trigger] decode(front[i])) is Ok by {
                assert(decode(items[i]) is Ok);
            }
            assert(decode(items.last()) is Ok);
        }
    }
}

/// The failure of an array that does not decode is that of its first
/// element that does not.
pub proof fn lemma_decode_each_first_failure<T>(
    items: Seq<JsonTree>,
    decode: spec_fn(JsonTree) -> Result<T, Field>,
    i: int,
)
    requires
        0 <= i < items.len(),
        decode(items[i]) is Err,
        forall|j: int| 0 <= j < i ==> (#[trigger] decode(items[j])) is Ok,
    ensures
        decode_each(items, decode) == Err::<Seq<T>, Field>(decode(items[i])->Err_0),
{
    let front = items.take(i);
    assert forall|j: int| 0 <= j < front.len() implies (#[trigger] decode(front[j])) is Ok by {
        assert(decode(items[j]) is Ok);
    }
    lemma_decode_each_keeps_order(front, decode);
    lemma_decode_each_step(items, decode, i);
    lemma_decode_each_fails(items, decode, i + 1);
}

} // verus!
