//! JSON: the payloads of management calls and the replies to them.

use serde_json::Value;
use vstd::prelude::*;

verus! {

/// A JSON value, which is handed through unread.
#[verifier::external_type_specification]
#[verifier::external_body]
pub struct ExValue(serde_json::Value);

/// The fields of a JSON object.
#[verifier::external_type_specification]
#[verifier::external_body]
#[verifier::reject_recursive_types(K)]
#[verifier::reject_recursive_types(V)]
pub struct ExFields<K, V>(serde_json::Map<K, V>);

/// What `serde_json::from_str` makes of a text: a value, or what its error
/// displays.
pub uninterp spec fn parsed_json(text: Seq<char>) -> Result<Value, Seq<char>>;

/// `serde_json::from_str`, which reads any JSON value.
#[verifier::external_body]
pub(crate) fn parse_json(text: &str) -> (parsed: Result<Value, String>)
    ensures
        match parsed {
            Ok(value) => (parsed_json(text@) matches Ok(read) && read == value),
            Err(error) => (parsed_json(text@) matches Err(shown) && shown == error@),
        },
{
    serde_json::from_str::<Value>(text).map_err(|error| error.to_string())
}

/// The JSON value of a truth value.
pub uninterp spec fn bool_value_of(truth: bool) -> Value;

/// `Value::Bool`.
#[verifier::external_body]
fn bool_value(truth: bool) -> (value: Value)
    ensures
        value == bool_value_of(truth),
{
    Value::Bool(truth)
}

/// The JSON value of a text.
pub uninterp spec fn string_value_of(text: Seq<char>) -> Value;

/// `Value::String`.
#[verifier::external_body]
fn string_value(text: String) -> (value: Value)
    ensures
        value == string_value_of(text@),
{
    Value::String(text)
}

/// The fields that a map holds, by their names.
pub uninterp spec fn fields_of(fields: serde_json::Map<String, Value>) -> Map<Seq<char>, Value>;

/// `serde_json::Map::new`, which holds no field.
#[verifier::external_body]
fn no_fields() -> (fields: serde_json::Map<String, Value>)
    ensures
        (fields_of(fields) == Map::<Seq<char>, Value>::empty()),
{
    serde_json::Map::new()
}

/// `serde_json::Map::insert`, which sets one field and leaves the others.
#[verifier::external_body]
fn set_field(fields: &mut serde_json::Map<String, Value>, name: String, value: Value)
    ensures
        fields_of(*final(fields)) == fields_of(*old(fields)).insert(name@, value),
{
    fields.insert(name, value);
}

/// The compact text of the JSON object with the given fields, in the order of
/// their names.
pub uninterp spec fn object_text_of(fields: Map<Seq<char>, Value>) -> Seq<char>;

/// `Display` of a `Value::Object`. The map keeps its fields in the order of their
/// names, so the text depends on the fields alone.
#[verifier::external_body]
fn object_text(fields: serde_json::Map<String, Value>) -> (text: String)
    ensures
        text@ == object_text_of(fields_of(fields)),
{
    Value::Object(fields).to_string()
}

/// The reply that carries the result of a call.
pub open spec fn success_text(result: Value) -> Seq<char> {
    object_text_of(
        Map::<Seq<char>, Value>::empty().insert("ok"@, bool_value_of(true)).insert(
            "result"@,
            result,
        ),
    )
}

/// The reply that says why a call failed.
pub open spec fn failure_text(error: Seq<char>) -> Seq<char> {
    object_text_of(
        Map::<Seq<char>, Value>::empty().insert("ok"@, bool_value_of(false)).insert(
            "error"@,
            string_value_of(error),
        ),
    )
}

pub fn success_reply(result: Value) -> (reply: String)
    ensures
        reply@ == success_text(result),
{
    let mut fields = no_fields();
    set_field(&mut fields, "ok".to_owned(), bool_value(true));
    set_field(&mut fields, "result".to_owned(), result);
    object_text(fields)
}

pub fn failure_reply(error: &str) -> (reply: String)
    ensures
        reply@ == failure_text(error@),
{
    let mut fields = no_fields();
    set_field(&mut fields, "ok".to_owned(), bool_value(false));
    set_field(&mut fields, "error".to_owned(), string_value(error.to_owned()));
    object_text(fields)
}

/// The reply to a call that succeeded has two fields: `ok`, which is true, and the
/// result as it is.
pub proof fn lemma_success_fields(result: Value)
    ensures
        exists|fields: Map<Seq<char>, Value>|
            {
                &&& success_text(result) == #[trigger] object_text_of(fields)
                &&& fields.dom() == set!["ok"@, "result"@]
                &&& fields["ok"@] == bool_value_of(true)
                &&& fields["result"@] == result
            },
{
    reveal_strlit("ok");
    reveal_strlit("result");
    let fields = map!["ok"@ => bool_value_of(true), "result"@ => result];
    assert(fields.dom() =~= set!["ok"@, "result"@]);
    assert("ok"@.len() != "result"@.len());
    assert(success_text(result) == object_text_of(fields));
}

/// The reply to a call that failed has two fields: `ok`, which is false, and the error's
/// words as they are.
pub proof fn lemma_failure_fields(error: Seq<char>)
    ensures
        exists|fields: Map<Seq<char>, Value>|
            {
                &&& failure_text(error) == #[trigger] object_text_of(fields)
                &&& fields.dom() == set!["ok"@, "error"@]
                &&& fields["ok"@] == bool_value_of(false)
                &&& fields["error"@] == string_value_of(error)
            },
{
    reveal_strlit("ok");
    reveal_strlit("error");
    let fields = map!["ok"@ => bool_value_of(false), "error"@ => string_value_of(error)];
    assert(fields.dom() =~= set!["ok"@, "error"@]);
    assert("ok"@.len() != "error"@.len());
    assert(failure_text(error) == object_text_of(fields));
}

} // verus!
