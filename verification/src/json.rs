//! JSON, as serde_json reads and writes it.
//!
//! A parsed document is carried as an opaque value; what the library takes out of it has a name.
//! The objects that the library sends are filled field by field.
use vstd::prelude::*;

verus! {

/// serde_json's `Value`: any JSON value. It is carried without being looked into.
#[verifier::external_type_specification]
#[verifier::external_body]
pub struct ExValue(serde_json::Value);

/// serde_json's `Map`: the fields of a JSON object.
#[verifier::external_type_specification]
#[verifier::external_body]
#[verifier::reject_recursive_types(K)]
#[verifier::reject_recursive_types(V)]
pub struct ExObject<K, V>(serde_json::Map<K, V>);

/// serde_json's `Error`: why a text is no JSON.
#[verifier::external_type_specification]
#[verifier::external_body]
pub struct ExJsonError(serde_json::Error);

/// A JSON object.
pub type Object = serde_json::Map<String, serde_json::Value>;

/// A JSON value without parts.
pub enum Scalar<S> {
    Null,
    Text(S),
    Number(u64),
}

impl View for Scalar<String> {
    type V = Scalar<Seq<char>>;

    open spec fn view(&self) -> Scalar<Seq<char>> {
        match self {
            Scalar::Null => Scalar::Null,
            Scalar::Text(s) => Scalar::Text(s@),
            Scalar::Number(n) => Scalar::Number(*n),
        }
    }
}

/// A text, or null where there is none.
pub open spec fn text_or_null(o: Option<Seq<char>>) -> Scalar<Seq<char>> {
    match o {
        Some(s) => Scalar::Text(s),
        None => Scalar::Null,
    }
}

/// The fields of an object that has none.
pub open spec fn no_fields() -> Map<Seq<char>, Scalar<Seq<char>>> {
    Map::empty()
}

/// The fields of an object that are texts, whole numbers from 0 to `u64::MAX` or nulls.
pub uninterp spec fn object_fields(object: serde_json::Map<String, serde_json::Value>) -> Map<Seq<char>, Scalar<Seq<char>>>;

/// The object holds no other fields than those: no field is a truth value, an array, an object or
/// another number.
pub uninterp spec fn only_scalars(object: serde_json::Map<String, serde_json::Value>) -> bool;

/// What a JSON value holds. Of a number only the whole number from 0 to `u64::MAX` is told, where
/// it is one.
pub enum Json {
    Null,
    Bool(bool),
    Number(Option<u64>),
    Text(Seq<char>),
    Array(Seq<Json>),
    Object(Map<Seq<char>, Json>),
}

/// What a value of serde_json holds.
pub uninterp spec fn json_value(value: serde_json::Value) -> Json;

/// What `serde_json::from_slice` reads from some bytes; none where it refuses them.
pub uninterp spec fn parsed_json(bytes: Seq<u8>) -> Option<Json>;

/// The field of that name, or null where the value is no object or has no such field.
pub open spec fn json_member(value: Json, key: Seq<char>) -> Json {
    match value {
        Json::Object(fields) => if fields.contains_key(key) {
            fields[key]
        } else {
            Json::Null
        },
        _ => Json::Null,
    }
}

/// The text, where the value is one.
pub open spec fn json_text(value: Json) -> Option<Seq<char>> {
    match value {
        Json::Text(s) => Some(s),
        _ => None,
    }
}

/// The number, where the value is a whole number that fits.
pub open spec fn json_number(value: Json) -> Option<u64> {
    match value {
        Json::Number(n) => n,
        _ => None,
    }
}

/// What a document holds, where there is one.
pub open spec fn document(value: Option<serde_json::Value>) -> Option<Json> {
    match value {
        Some(v) => Some(json_value(v)),
        None => None,
    }
}

/// `serde_json::Map::new`: an object without fields.
#[verifier::external_body]
pub(crate) fn new_object() -> (r: Object)
    ensures
        object_fields(r) == no_fields(),
        only_scalars(r),
{
    serde_json::Map::new()
}

/// `serde_json::Map::insert`: sets one field of an object to the value, and leaves the others as
/// they are. A number becomes a JSON number, a text a JSON string. Where the object held only such
/// fields, it still does.
#[verifier::external_body]
pub(crate) fn put(object: &mut Object, key: &str, value: Scalar<String>)
    ensures
        object_fields(*final(object)) == object_fields(*old(object)).insert(key@, value@),
        only_scalars(*old(object)) ==> only_scalars(*final(object)),
{
    let value = match value {
        Scalar::Null => serde_json::Value::Null,
        Scalar::Text(s) => serde_json::Value::String(s),
        Scalar::Number(n) => serde_json::Value::Number(serde_json::Number::from(n)),
    };
    object.insert(key.to_string(), value);
}

/// The text of a JSON object with these fields and no others, as the `Display` of `serde_json::Value` writes it.
pub uninterp spec fn json_line(fields: Map<Seq<char>, Scalar<Seq<char>>>) -> Seq<char>;

/// The `Display` of `serde_json::Value`: the text of an object, where that holds only texts, whole
/// numbers and nulls: a function of its fields, which serde_json writes in the order of their names.
#[verifier::external_body]
pub(crate) fn object_text(object: Object) -> (r: String)
    requires
        only_scalars(object),
    ensures
        r@ == json_line(object_fields(object)),
{
    serde_json::Value::Object(object).to_string()
}

/// `serde_json::from_slice`: reads one JSON value. What it holds is a function of the bytes.
#[verifier::external_body]
pub(crate) fn parse(bytes: &[u8]) -> (r: Result<serde_json::Value, serde_json::Error>)
    ensures
        document(r.ok()) == parsed_json(bytes@),
{
    serde_json::from_slice(bytes)
}

/// Indexing a `serde_json::Value` with a string: the field of that name, or null where the value
/// is no object or has no such field.
#[verifier::external_body]
pub(crate) fn member<'a>(value: &'a serde_json::Value, key: &str) -> (r: &'a serde_json::Value)
    ensures
        json_value(*r) == json_member(json_value(*value), key@),
{
    &value[key]
}

/// `serde_json::Value::as_str`: the text, where the value is a string.
#[verifier::external_body]
pub(crate) fn as_text(value: &serde_json::Value) -> (r: Option<&str>)
    ensures
        (match r {
            Some(s) => Some(s@),
            None => None,
        }) == json_text(json_value(*value)),
{
    value.as_str()
}

/// `serde_json::Value::as_u64`: the number, where the value is a whole number that fits.
#[verifier::external_body]
pub(crate) fn as_number(value: &serde_json::Value) -> (r: Option<u64>)
    ensures
        r == json_number(json_value(*value)),
{
    value.as_u64()
}

/// The text of `document[key]`; none where there is no document.
pub open spec fn text_at(document: Option<Json>, key: Seq<char>) -> Option<Seq<char>> {
    match document {
        Some(v) => json_text(json_member(v, key)),
        None => None,
    }
}

/// The text of `document["data"][key]`; none where there is no document.
pub open spec fn data_text(document: Option<Json>, key: Seq<char>) -> Option<Seq<char>> {
    match document {
        Some(v) => json_text(json_member(json_member(v, "data"@), key)),
        None => None,
    }
}

/// The number of `document["data"][key]`; none where there is no document.
pub open spec fn data_number(document: Option<Json>, key: Seq<char>) -> Option<u64> {
    match document {
        Some(v) => json_number(json_member(json_member(v, "data"@), key)),
        None => None,
    }
}

/// Reads a document; none where the bytes are no JSON.
pub fn read_document(bytes: &[u8]) -> (r: Option<serde_json::Value>)
    ensures
        document(r) == parsed_json(bytes@),
{
    match parse(bytes) {
        Ok(v) => Some(v),
        Err(_) => None,
    }
}

/// The text of `document[key]`.
pub fn read_text(from: &Option<serde_json::Value>, key: &str) -> (r: Option<String>)
    ensures
        crate::text::opt(r) == text_at(document(*from), key@),
{
    match from {
        Some(v) => match as_text(member(v, key)) {
            Some(s) => Some(s.to_string()),
            None => None,
        },
        None => None,
    }
}

/// The text of `document["data"][key]`.
pub fn read_data_text(from: &Option<serde_json::Value>, key: &str) -> (r: Option<String>)
    ensures
        crate::text::opt(r) == data_text(document(*from), key@),
{
    match from {
        Some(v) => match as_text(member(member(v, "data"), key)) {
            Some(s) => Some(s.to_string()),
            None => None,
        },
        None => None,
    }
}

/// The number of `document["data"][key]`.
pub fn read_data_number(from: &Option<serde_json::Value>, key: &str) -> (r: Option<u64>)
    ensures
        r == data_number(document(*from), key@),
{
    match from {
        Some(v) => as_number(member(member(v, "data"), key)),
        None => None,
    }
}

/// Sets a field to a text, or to null where there is none.
pub(crate) fn put_text_or_null(object: &mut Object, key: &str, value: &Option<String>)
    ensures
        object_fields(*final(object)) == object_fields(*old(object)).insert(
            key@,
            text_or_null(crate::text::opt(*value)),
        ),
{
    match value {
        Some(s) => put(object, key, Scalar::Text(s.clone())),
        None => put(object, key, Scalar::Null),
    }
}

/// A field of an object is read as it is; what is no object, or has no such field, gives null there. A text
/// is read only from a text and a number only from a number.
pub proof fn law_fields_are_read(fields: Map<Seq<char>, Json>, key: Seq<char>, text: Seq<char>, n: u64, other: Json)
    ensures
        fields.contains_key(key) ==> json_member(Json::Object(fields), key) == fields[key],
        !fields.contains_key(key) ==> json_member(Json::Object(fields), key) == Json::Null,
        !(other is Object) ==> json_member(other, key) == Json::Null,
        json_text(Json::Text(text)) == Some(text),
        !(other is Text) ==> json_text(other) is None,
        json_number(Json::Number(Some(n))) == Some(n),
        json_number(Json::Number(None)) is None,
        !(other is Number) ==> json_number(other) is None,
{
}

/// A text or a number is read from where it stands in the document, and nothing is read where the document
/// is missing, holds nothing there, or holds something else.
pub proof fn law_document_is_read(
    outer: Map<Seq<char>, Json>,
    data: Map<Seq<char>, Json>,
    key: Seq<char>,
    text: Seq<char>,
    n: u64,
)
    ensures
        text_at(None, key) is None,
        data_text(None, key) is None,
        data_number(None, key) is None,
        outer.contains_key(key) && outer[key] == Json::Text(text) ==> text_at(Some(Json::Object(outer)), key) == Some(
            text,
        ),
        !outer.contains_key(key) || !(outer[key] is Text) ==> text_at(Some(Json::Object(outer)), key) is None,
        outer.contains_key("data"@) && outer["data"@] == Json::Object(data) && data.contains_key(key) ==> {
            &&& data[key] == Json::Text(text) ==> data_text(Some(Json::Object(outer)), key) == Some(text)
            &&& data[key] == Json::Number(Some(n)) ==> data_number(Some(Json::Object(outer)), key) == Some(n)
            &&& !(data[key] is Text) ==> data_text(Some(Json::Object(outer)), key) is None
            &&& !(data[key] is Number) ==> data_number(Some(Json::Object(outer)), key) is None
        },
        outer.contains_key("data"@) && outer["data"@] == Json::Object(data) && !data.contains_key(key) ==> {
            &&& data_text(Some(Json::Object(outer)), key) is None
            &&& data_number(Some(Json::Object(outer)), key) is None
        },
        !outer.contains_key("data"@) ==> {
            &&& data_text(Some(Json::Object(outer)), key) is None
            &&& data_number(Some(Json::Object(outer)), key) is None
        },
{
}

/// A text that may be missing is sent as a text where it is there and as null where it is not; an object
/// has no fields at first.
pub proof fn law_text_or_null(text: Seq<char>, key: Seq<char>, value: Scalar<String>)
    ensures
        text_or_null(Some(text)) == Scalar::Text(text),
        text_or_null(None) == Scalar::<Seq<char>>::Null,
        !no_fields().contains_key(key),
        value is Null ==> value@ == Scalar::<Seq<char>>::Null,
        value is Text ==> value@ == Scalar::Text(value->Text_0@),
        value is Number ==> value@ == Scalar::<Seq<char>>::Number(value->Number_0),
{
}

/// A document that was read holds what its value holds, and none was read where there is no value.
pub proof fn law_documents(value: serde_json::Value)
    ensures
        document(Some(value)) == Some(json_value(value)),
        document(None) is None,
{
}

} // verus!
