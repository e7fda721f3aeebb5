//! Decoded data: an array of JSON values, and the fields read from each.

use vstd::prelude::*;

verus! {

/// `serde_json::Value`, a decoded JSON value. Nothing inside it is seen
/// here; what it holds is read through `number_field` and `string_field`.
#[verifier::external_type_specification]
#[verifier::external_body]
pub struct ExValue(serde_json::Value);

/// `serde_json::Error`, the reason for which a text does not decode.
#[verifier::external_type_specification]
#[verifier::external_body]
pub struct ExDecodeError(serde_json::Error);

/// The numbers that a decoded value holds: for each key of an object under
/// which a number stands, the bit pattern of that number as binary64. Empty
/// for a value that is no object.
pub uninterp spec fn number_fields(value: serde_json::Value) -> Map<Seq<char>, u64>;

/// The strings that a decoded value holds: for each key of an object under
/// which a string stands, that string. Empty for a value that is no object.
pub uninterp spec fn string_fields(value: serde_json::Value) -> Map<Seq<char>, Seq<char>>;

/// What `text` decodes to as a JSON array: for each element its numbers and
/// its strings. `None` where `text` is no JSON array.
pub uninterp spec fn decoded_array(text: Seq<char>) -> Option<
    Seq<(Map<Seq<char>, u64>, Map<Seq<char>, Seq<char>>)>,
>;

/// Decodes `text` with `serde_json::from_str` as a vector of values.
///
/// Trusted: the outcome is a function of `text` alone; on success the
/// elements are those of the array that `text` writes, in order.
#[verifier::external_body]
pub(crate) fn decode_array(text: &str) -> (r: Result<Vec<serde_json::Value>, serde_json::Error>)
    ensures
        match r {
            Ok(values) => decoded_array(text@) == Some(
                Seq::new(
                    values@.len(),
                    |i: int| (number_fields(values@[i]), string_fields(values@[i])),
                ),
            ),
            Err(_) => decoded_array(text@) is None,
        },
{
    serde_json::from_str::<Vec<serde_json::Value>>(text)
}

/// Reads `value[key]` with `serde_json::Value::as_f64` and hands out the
/// bits of the number.
///
/// Trusted: indexing by a key gives the member of an object under that key
/// and null otherwise, and `as_f64` gives `Some` exactly for a number.
#[verifier::external_body]
pub(crate) fn number_field(value: &serde_json::Value, key: &str) -> (r: Option<u64>)
    ensures
        r == (if number_fields(*value).dom().contains(key@) {
            Some(number_fields(*value)[key@])
        } else {
            None
        }),
{
    match value[key].as_f64() {
        Some(number) => Some(number.to_bits()),
        None => None,
    }
}

/// Reads `value[key]` with `serde_json::Value::as_str`.
///
/// Trusted: indexing by a key gives the member of an object under that key
/// and null otherwise, and `as_str` gives `Some` exactly for a string.
#[verifier::external_body]
pub(crate) fn string_field(value: &serde_json::Value, key: &str) -> (r: Option<String>)
    ensures
        match r {
            Some(text) => string_fields(*value).dom().contains(key@) && string_fields(*value)[key@]
                == text@,
            None => !string_fields(*value).dom().contains(key@),
        },
{
    match value[key].as_str() {
        Some(text) => Some(text.to_string()),
        None => None,
    }
}

} // verus!
