//! Looking into JSON text.

use serde_json::Value;
use vstd::prelude::*;

verus! {

/// What `serde_json` has against reading the bytes as JSON; nothing if they are JSON.
pub uninterp spec fn json_refusal(body: Seq<u8>) -> Option<Seq<char>>;

/// The unsigned numbers that `serde_json` finds in JSON text: for each path, what the last
/// key leads to if one follows the keys from object to object, where that is a number that
/// fits in a `u64`.
pub uninterp spec fn json_numbers(body: Seq<u8>, paths: Seq<Seq<Seq<char>>>) -> Seq<Option<u64>>;

/// Whether the byte is white space in JSON.
pub open spec fn is_json_space(byte: u8) -> bool {
    byte == 0x20 || byte == 0x09 || byte == 0x0a || byte == 0x0d
}

/// Whether the bytes from `from` to `to` are white space in JSON.
pub open spec fn json_blank(body: Seq<u8>, from: int, to: int) -> bool {
    forall|i: int| from <= i < to ==> is_json_space(#[trigger] body[i])
}

/// Whether `null` stands at a place.
pub open spec fn null_at(body: Seq<u8>, at: int) -> bool {
    &&& 0 <= at
    &&& at + 4 <= body.len()
    &&& body[at] == 0x6e
    &&& body[at + 1] == 0x75
    &&& body[at + 2] == 0x6c
    &&& body[at + 3] == 0x6c
}

/// Whether the bytes are the JSON text `null`, with white space around it or none.
pub open spec fn is_null(body: Seq<u8>) -> bool {
    exists|at: int| #[trigger]
        null_at(body, at) && json_blank(body, 0, at) && json_blank(body, at + 4, body.len() as int)
}

/// The keys of paths as character sequences.
pub open spec fn path_texts(paths: Seq<Vec<&str>>) -> Seq<Seq<Seq<char>>> {
    paths.map_values(|keys: Vec<&str>| crate::page::borrowed_texts(keys@))
}

/// What came of reading the bytes as JSON: a value, or the reason why not.
pub open spec fn reason<T>(outcome: Result<T, String>) -> Option<Seq<char>> {
    match outcome {
        Ok(_) => None,
        Err(e) => Some(e@),
    }
}

/// `serde_json::from_slice` into a `serde_json::Value`, and `serde_json::Value::is_null` of
/// it: whether JSON text is `null`, or the text of the `serde_json::Error` if it is not
/// JSON. The contract names that text, and says that `null` is JSON.
#[verifier::external_body]
pub(crate) fn read_null(body: &[u8]) -> (null: Result<bool, String>)
    ensures
        reason(null) == json_refusal(body@),
        null matches Ok(n) ==> n == is_null(body@),
        is_null(body@) ==> null is Ok,
{
    let value: Value = serde_json::from_slice(body).map_err(|e| e.to_string())?;
    Ok(value.is_null())
}

/// `serde_json::from_slice` into a `serde_json::Value`; in it, for each path, indexing by
/// one key after the other and `serde_json::Value::as_u64` of what is there. If the bytes
/// are not JSON, the text of the `serde_json::Error`. The contract names that text and the
/// numbers found, and says that there is one result for each path.
#[verifier::external_body]
pub(crate) fn read_numbers(body: &[u8], paths: &Vec<Vec<&str>>) -> (numbers: Result<
    Vec<Option<u64>>,
    String,
>)
    ensures
        reason(numbers) == json_refusal(body@),
        numbers matches Ok(n) ==> n@ == json_numbers(body@, path_texts(paths@)),
        numbers matches Ok(n) ==> n@.len() == paths@.len(),
{
    let value: Value = serde_json::from_slice(body).map_err(|e| e.to_string())?;
    let at = |keys: &Vec<&str>| keys.iter().fold(&value, |inner, key| &inner[*key]).as_u64();
    Ok(paths.iter().map(at).collect())
}

/// The JSON text `null` is those four letters, with blanks, tabs, line feeds and carriage
/// returns around them, and nothing else is.
pub proof fn law_null_is_null(body: Seq<u8>, before: Seq<u8>, after: Seq<u8>)
    ensures
        body == before + seq![110u8, 117u8, 108u8, 108u8] + after && (forall|i: int|
            0 <= i < before.len() ==> is_json_space(#[trigger] before[i])) && (forall|i: int|
            0 <= i < after.len() ==> is_json_space(#[trigger] after[i])) ==> is_null(body),
        is_null(body) ==> body.len() >= 4 && forall|i: int|
            0 <= i < body.len() ==> (is_json_space(#[trigger] body[i]) || body[i] == 110
                || body[i] == 117 || body[i] == 108),
        forall|b: u8|
            #[trigger] is_json_space(b) <==> b == 32 || b == 9 || b == 10 || b == 13,
{
    if body == before + seq![110u8, 117u8, 108u8, 108u8] + after && (forall|i: int|
        0 <= i < before.len() ==> is_json_space(#[trigger] before[i])) && (forall|i: int|
        0 <= i < after.len() ==> is_json_space(#[trigger] after[i])) {
        let at = before.len() as int;
        assert forall|i: int| 0 <= i < at implies is_json_space(#[trigger] body[i]) by {
            assert(body[i] == before[i]);
        }
        assert forall|i: int| at + 4 <= i < body.len() implies is_json_space(
            #[trigger] body[i],
        ) by {
            assert(body[i] == after[i - at - 4]);
        }
        assert(null_at(body, at));
    }
    if is_null(body) {
        let at = choose|at: int| #[trigger]
            null_at(body, at) && json_blank(body, 0, at) && json_blank(
                body,
                at + 4,
                body.len() as int,
            );
        assert forall|i: int| 0 <= i < body.len() implies (is_json_space(#[trigger] body[i])
            || body[i] == 110 || body[i] == 117 || body[i] == 108) by {
            if at <= i < at + 4 {
                assert(i == at || i == at + 1 || i == at + 2 || i == at + 3);
            }
        }
    }
}

} // verus!
