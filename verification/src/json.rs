use vstd::prelude::*;

use crate::value::{entries_model, entries_wf, TextValue, ValueModel};

verus! {

#[verifier::external_type_specification]
#[verifier::external_body]
pub struct ExValue(serde_json::Value);

#[verifier::external_type_specification]
#[verifier::external_body]
pub struct ExNumber(serde_json::Number);

#[verifier::external_type_specification]
#[verifier::external_body]
pub struct ExJsonError(serde_json::Error);

#[verifier::external_type_specification]
#[verifier::external_body]
pub struct ExIoError(std::io::Error);

/// Relies on serde_json::Number's derived Clone: the clone is the same number.
pub assume_specification[ <serde_json::Number as Clone>::clone ](n: &serde_json::Number) -> (r:
    serde_json::Number)
    ensures
        r == *n,
;

/// Whether a codec number is an integer in the signed 64-bit range.
pub uninterp spec fn num_fits_i64(n: serde_json::Number) -> bool;

/// The signed 64-bit value of a codec number that fits that range.
pub uninterp spec fn num_i64_value(n: serde_json::Number) -> i64;

/// The model a parsed structured value denotes.
pub uninterp spec fn json_model(v: serde_json::Value) -> ValueModel;

/// The locale table a text blob denotes: its entries in source order when the
/// blob is a well-formed object of the codec's grammar, nothing otherwise.
pub uninterp spec fn json_table(s: Seq<char>) -> Option<Seq<(Seq<char>, ValueModel)>>;

/// Relies on serde_json::Number::as_i64: Some exactly when the number is an
/// integer between i64::MIN and i64::MAX, per its documentation.
#[verifier::external_body]
pub(crate) fn number_as_i64(n: &serde_json::Number) -> (r: Option<i64>)
    ensures
        r is Some <==> num_fits_i64(*n),
        r matches Some(i) ==> i == num_i64_value(*n),
{
    n.as_i64()
}

/// Relies on serde_json::Value: each variant is mapped to the matching
/// TextValue variant, recursively; a number in the signed 64-bit range
/// becomes Integer, any other number is carried as Float.
#[verifier::external_body]
pub(crate) fn value_to_text(v: serde_json::Value) -> (r: TextValue)
    ensures
        r@ == json_model(v),
        crate::value::value_wf(r@),
{
    match v {
        serde_json::Value::Null => TextValue::Null,
        serde_json::Value::Bool(b) => TextValue::Boolean(b),
        serde_json::Value::Number(n) => match n.as_i64() {
            Some(i) => TextValue::Integer(i),
            None => TextValue::Float(n),
        },
        serde_json::Value::String(s) => TextValue::Text(s),
        serde_json::Value::Array(a) => TextValue::List(a.into_iter().map(value_to_text).collect()),
        serde_json::Value::Object(o) => {
            TextValue::Object(o.into_iter().map(|(k, w)| (k, value_to_text(w))).collect())
        },
    }
}

/// Relies on serde_json::Value construction: the inverse of value_to_text,
/// variant by variant; a well-formed value maps back to the same model.
#[verifier::external_body]
pub(crate) fn text_to_value(t: &TextValue) -> (r: serde_json::Value)
    requires
        crate::value::value_wf(t@),
    ensures
        json_model(r) == t@,
{
    match t {
        TextValue::Null => serde_json::Value::Null,
        TextValue::Boolean(b) => serde_json::Value::Bool(*b),
        TextValue::Integer(i) => serde_json::Value::Number(serde_json::Number::from(*i)),
        TextValue::Float(n) => serde_json::Value::Number(n.clone()),
        TextValue::Text(s) => serde_json::Value::String(s.clone()),
        TextValue::List(l) => serde_json::Value::Array(l.iter().map(text_to_value).collect()),
        TextValue::Object(o) => {
            serde_json::Value::Object(o.iter().map(|(k, w)| (k.clone(), text_to_value(w))).collect())
        },
    }
}

/// Relies on serde_json::from_str for Map<String, Value>: Ok exactly when the
/// text is one JSON object; its entries come back in source order, a repeated
/// key collapsed to one entry, each value converted as value_to_text does.
#[verifier::external_body]
pub(crate) fn parse_table(s: &str) -> (r: Result<Vec<(String, TextValue)>, serde_json::Error>)
    ensures
        r is Ok <==> json_table(s@) is Some,
        r matches Ok(t) ==> Some(entries_model(t@)) == json_table(s@) && entries_wf(entries_model(t@)),
{
    match serde_json::from_str::<serde_json::Map<String, serde_json::Value>>(s) {
        Ok(m) => Ok(m.into_iter().map(|(k, v)| (k, value_to_text(v))).collect()),
        Err(e) => Err(e),
    }
}

/// Relies on serde_json::to_value: serializes any serializable structure into
/// one structured value, or reports the serializer's own error.
#[verifier::external_body]
pub(crate) fn serialize_value<S: serde::Serialize>(value: S) -> (r: Result<
    serde_json::Value,
    serde_json::Error,
>) {
    serde_json::to_value(value)
}

/// Relies on serde_json::Value's variants: Some exactly for an object, whose
/// entries are converted as value_to_text converts them.
#[verifier::external_body]
pub(crate) fn value_to_entries(v: serde_json::Value) -> (r: Option<Vec<(String, TextValue)>>)
    ensures
        r is Some <==> json_model(v) is Object,
        r matches Some(t) ==> json_model(v) == ValueModel::Object(entries_model(t@))
            && entries_wf(entries_model(t@)),
{
    match v {
        serde_json::Value::Object(o) => Some(o.into_iter().map(|(k, w)| (k, value_to_text(w))).collect()),
        _ => None,
    }
}

impl TextValue {
    /// Build a value from the codec's structured form.
    pub fn from_json_value(v: serde_json::Value) -> (r: TextValue)
        ensures
            r@ == json_model(v),
            crate::value::value_wf(r@),
    {
        value_to_text(v)
    }

    /// Render the value in the codec's structured form.
    pub fn to_json_value(&self) -> (r: serde_json::Value)
        requires
            crate::value::value_wf(self@),
        ensures
            json_model(r) == self@,
    {
        text_to_value(self)
    }

    /// Render the value in the codec's structured form when it is well
    /// formed, and report nothing otherwise.
    pub fn try_to_json_value(&self) -> (r: Option<serde_json::Value>)
        ensures
            r is Some <==> crate::value::value_wf(self@),
            r matches Some(v) ==> json_model(v) == self@,
    {
        if self.is_well_formed() {
            Some(self.to_json_value())
        } else {
            None
        }
    }

    /// Round trip: converting a well-formed value to the codec's structured
    /// form and back reproduces a value with the same model.
    pub fn reencoded(&self) -> (r: TextValue)
        requires
            crate::value::value_wf(self@),
        ensures
            r@ == self@,
            crate::value::value_wf(r@),
    {
        TextValue::from_json_value(self.to_json_value())
    }
}

/// Relies on serde::ser::Error::custom: makes a codec error value that
/// reports a top-level shape other than an object.
#[verifier::external_body]
pub(crate) fn not_an_object_error() -> (r: serde_json::Error) {
    serde::ser::Error::custom("the serialized value is not an object")
}

} // verus!
