//! JSON documents. serde_json reads, holds and prints them; here stands what
//! a document is, and what each of the calls made of serde_json is relied on
//! to do.

use serde_json::Value;
use vstd::prelude::*;
use vstd::utf8::*;

verus! {

/// What a JSON document is.
pub enum Json {
    Null,
    Bool(bool),
    /// A number that is held as an integer.
    Int(int),
    /// A number that is held as floating point, told apart by its bits.
    Real(nat),
    Text(Seq<char>),
    List(Seq<Json>),
    Fields(Map<Seq<char>, Json>),
}

/// What stands under `key`: nothing, that is null, where the document has no
/// fields or none of that name.
pub open spec fn member(document: Json, key: Seq<char>) -> Json {
    match document {
        Json::Fields(fields) => if fields.contains_key(key) {
            fields[key]
        } else {
            Json::Null
        },
        _ => Json::Null,
    }
}

/// The `i64` that the document is, if it is one.
pub open spec fn as_integer(document: Json) -> Option<int> {
    match document {
        Json::Int(n) => if i64::MIN <= n <= i64::MAX {
            Some(n)
        } else {
            None
        },
        _ => None,
    }
}

/// The truth value that the document is, if it is one.
pub open spec fn as_truth(document: Json) -> Option<bool> {
    match document {
        Json::Bool(b) => Some(b),
        _ => None,
    }
}

/// The text that the document is, if it is one.
pub open spec fn as_text(document: Json) -> Option<Seq<char>> {
    match document {
        Json::Text(t) => Some(t),
        _ => None,
    }
}

/// The fields that a list of names and documents makes.
pub open spec fn gathered(entries: Seq<(Seq<char>, Json)>) -> Map<Seq<char>, Json>
    decreases entries.len(),
{
    if entries.len() == 0 {
        Map::empty()
    } else {
        gathered(entries.drop_last()).insert(entries.last().0, entries.last().1)
    }
}

/// Whether the document holds no number but integers and nests at most
/// `depth` lists and objects.
pub open spec fn plain(document: Json, depth: nat) -> bool
    decreases depth,
{
    match document {
        Json::Real(_) => false,
        Json::List(items) => depth > 0 && forall|i: int|
            0 <= i < items.len() ==> plain(#[trigger] items[i], (depth - 1) as nat),
        Json::Fields(fields) => depth > 0 && forall|k: Seq<char>|
            fields.contains_key(k) ==> plain(#[trigger] fields[k], (depth - 1) as nat),
        _ => true,
    }
}

/// How deep a document may nest and still be read: serde_json stops at the
/// next list or object.
pub open spec fn readable_depth() -> nat {
    127
}

/// The documents of a list of values.
pub open spec fn documents(values: Seq<Value>) -> Seq<Json> {
    values.map_values(|v: Value| json_of(v))
}

/// The names and documents of a list of entries.
pub open spec fn entries_of(entries: Seq<(String, Value)>) -> Seq<(Seq<char>, Json)> {
    entries.map_values(|e: (String, Value)| (e.0@, json_of(e.1)))
}

/// A document as serde_json holds it.
#[verifier::external_type_specification]
#[verifier::external_body]
pub struct ExValue(serde_json::Value);

/// Why serde_json could not read a document.
#[verifier::external_type_specification]
#[verifier::external_body]
pub struct ExJsonError(serde_json::Error);

/// What a value of serde_json holds.
pub uninterp spec fn json_of(value: serde_json::Value) -> Json;

/// What serde_json reads out of bytes: a document, or the words in which it
/// says what is wrong with them.
pub uninterp spec fn json_read(bytes: Seq<u8>) -> Result<Json, Seq<char>>;

/// The words in which an error of serde_json says what is wrong.
pub uninterp spec fn error_words(error: serde_json::Error) -> Seq<char>;

/// What serde_json prints for a document.
pub uninterp spec fn json_text(document: Json) -> Seq<char>;

/// Whether `text` is read as `document`.
pub open spec fn reads_as(text: Seq<char>, document: Json) -> bool {
    json_read(encode_utf8(text)) == Ok::<Json, Seq<char>>(document)
}

/// `serde_json::from_slice`, reading any document: what comes back is a
/// function of the bytes, the words of the error included.
#[verifier::external_body]
pub(crate) fn read(bytes: &[u8]) -> (r: Result<Value, serde_json::Error>)
    ensures
        match r {
            Ok(value) => json_read(bytes@) == Ok::<Json, Seq<char>>(json_of(value)),
            Err(error) => json_read(bytes@) == Err::<Json, Seq<char>>(error_words(error)),
        },
{
    serde_json::from_slice(bytes)
}

/// The `Display` text of a `serde_json::Error`, which the error alone
/// decides.
#[verifier::external_body]
pub(crate) fn words_of(error: &serde_json::Error) -> (r: String)
    ensures
        r@ == error_words(*error),
{
    error.to_string()
}

/// The `Display` text of a `serde_json::Value`, which what the value holds
/// alone decides: objects are kept in the order of their names. It is never
/// empty. Read again, it gives the same document. Left out are documents
/// that nest too deep for the reader, where the printer might run out of
/// stack, and those that hold a floating point number, which need not be read
/// back to the bit.
#[verifier::external_body]
pub(crate) fn print(value: &Value) -> (r: String)
    requires
        plain(json_of(*value), readable_depth()),
    ensures
        r@ == json_text(json_of(*value)),
        r@.len() > 0,
        reads_as(r@, json_of(*value)),
{
    value.to_string()
}

/// `serde_json::Value::as_array`: the items where the value is a list.
pub assume_specification[ serde_json::Value::as_array ](value: &serde_json::Value) -> (r: Option<
    &Vec<serde_json::Value>,
>)
    ensures
        match r {
            Some(items) => json_of(*value) == Json::List(documents(items@)),
            None => !(json_of(*value) is List),
        },
;

/// `serde_json::Value::as_i64`: the integer where the value is one that fits.
pub assume_specification[ serde_json::Value::as_i64 ](value: &serde_json::Value) -> (r: Option<i64>)
    ensures
        match r {
            Some(n) => as_integer(json_of(*value)) == Some(n as int),
            None => as_integer(json_of(*value)) is None,
        },
;

/// `serde_json::Value::as_bool`: the truth value where the value is one.
pub assume_specification[ serde_json::Value::as_bool ](value: &serde_json::Value) -> (r: Option<
    bool,
>)
    ensures
        r == as_truth(json_of(*value)),
;

/// `serde_json::Value::as_str`: the text where the value is one.
pub assume_specification[ serde_json::Value::as_str ](value: &serde_json::Value) -> (r: Option<&str>)
    ensures
        match r {
            Some(text) => as_text(json_of(*value)) == Some(text@),
            None => as_text(json_of(*value)) is None,
        },
;

/// Indexing a `serde_json::Value` by a name: what stands under it, and null
/// where nothing does.
#[verifier::external_body]
pub(crate) fn field<'a>(value: &'a Value, key: &str) -> (r: &'a Value)
    ensures
        json_of(*r) == member(json_of(*value), key@),
{
    &value[key]
}

/// `Value::default`, which is null.
#[verifier::external_body]
pub(crate) fn null() -> (r: Value)
    ensures
        json_of(r) == Json::Null,
{
    Value::default()
}

/// `Value::from` an `i64`.
#[verifier::external_body]
pub(crate) fn integer(n: i64) -> (r: Value)
    ensures
        json_of(r) == Json::Int(n as int),
{
    Value::from(n)
}

/// `Value::from` a `bool`.
#[verifier::external_body]
pub(crate) fn truth(b: bool) -> (r: Value)
    ensures
        json_of(r) == Json::Bool(b),
{
    Value::from(b)
}

/// `Value::from` a `&str`.
#[verifier::external_body]
pub(crate) fn text(t: &str) -> (r: Value)
    ensures
        json_of(r) == Json::Text(t@),
{
    Value::from(t)
}

/// `Value::from` a vector of values: a list of them, in their order.
#[verifier::external_body]
pub(crate) fn list(items: Vec<Value>) -> (r: Value)
    ensures
        json_of(r) == Json::List(documents(items@)),
{
    Value::from(items)
}

/// `Value::from_iter` over names and values: an object with one field for
/// each of them. Which of two fields of one name would stay is left open, so
/// no two names may be the same.
#[verifier::external_body]
pub(crate) fn fields(entries: Vec<(String, Value)>) -> (r: Value)
    requires
        forall|i: int, j: int|
            0 <= i < j < entries@.len() ==> (#[trigger] entries@[i]).0@ != (
            #[trigger] entries@[j]).0@,
    ensures
        json_of(r) == Json::Fields(gathered(entries_of(entries@))),
{
    Value::from_iter(entries)
}

} // verus!
