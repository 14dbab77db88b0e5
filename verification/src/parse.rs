//! The source deserializer: parses raw text in a given format into the
//! canonical value model. The three parsers are outside crates; each is
//! reached through one trusted wrapper whose result is named.

use vstd::prelude::*;
use crate::error::Error;
use crate::format::FileFormat;
use crate::value::CanonicalValue;

verus! {

/// `serde_json::Value` is the dynamic value type shared by the three parsers
/// (each deserializes into it). It is opaque here; `canon_of` names what it
/// holds.
#[verifier::external_type_specification]
#[verifier::external_body]
pub struct ExValue(serde_json::Value);

/// The canonical reading of a `serde_json::Value`: `Null`, booleans, numbers,
/// strings, arrays and objects map to the matching canonical constructors,
/// with object entries in the value's own iteration order.
pub uninterp spec fn canon_of(v: serde_json::Value) -> CanonicalValue;

/// What `serde_json::from_str::<serde_json::Value>` makes of a document: the
/// canonical reading of the parsed value, or the parser's diagnostic.
pub uninterp spec fn json_doc(s: Seq<char>) -> Result<CanonicalValue, Seq<char>>;

/// What `serde_yaml::from_str::<serde_json::Value>` makes of a document.
pub uninterp spec fn yaml_doc(s: Seq<char>) -> Result<CanonicalValue, Seq<char>>;

/// What `toml::from_str::<serde_json::Value>` makes of a document.
pub uninterp spec fn toml_doc(s: Seq<char>) -> Result<CanonicalValue, Seq<char>>;

/// Relies on `serde_json::from_str`: parsing is a function of the text alone,
/// a parsed document's mappings have pairwise distinct keys, and the error's
/// rendering carries the parser's diagnostic.
#[verifier::external_body]
fn json_from_str(s: &str) -> (r: Result<serde_json::Value, String>)
    ensures
        r is Ok <==> json_doc(s@) is Ok,
        r matches Ok(v) ==> canon_of(v) == json_doc(s@)->Ok_0 && canon_of(v).wf(),
        r matches Err(m) ==> m@ == json_doc(s@)->Err_0,
{
    serde_json::from_str::<serde_json::Value>(s).map_err(|e| e.to_string())
}

/// Relies on `serde_yaml::from_str`, as `json_from_str` relies on
/// `serde_json::from_str`.
#[verifier::external_body]
fn yaml_from_str(s: &str) -> (r: Result<serde_json::Value, String>)
    ensures
        r is Ok <==> yaml_doc(s@) is Ok,
        r matches Ok(v) ==> canon_of(v) == yaml_doc(s@)->Ok_0 && canon_of(v).wf(),
        r matches Err(m) ==> m@ == yaml_doc(s@)->Err_0,
{
    serde_yaml::from_str::<serde_json::Value>(s).map_err(|e| e.to_string())
}

/// Relies on `toml::from_str`, as `json_from_str` relies on
/// `serde_json::from_str`.
#[verifier::external_body]
fn toml_from_str(s: &str) -> (r: Result<serde_json::Value, String>)
    ensures
        r is Ok <==> toml_doc(s@) is Ok,
        r matches Ok(v) ==> canon_of(v) == toml_doc(s@)->Ok_0 && canon_of(v).wf(),
        r matches Err(m) ==> m@ == toml_doc(s@)->Err_0,
{
    toml::from_str::<serde_json::Value>(s).map_err(|e| e.to_string())
}

/// Relies on `serde_json::Value` exposing its variants: moves each variant
/// into the matching canonical constructor, realizing `canon_of`.
#[verifier::external_body]
fn to_canonical(v: serde_json::Value) -> (r: CanonicalValue)
    ensures
        r == canon_of(v),
{
    match v {
        serde_json::Value::Null => CanonicalValue::Null,
        serde_json::Value::Bool(b) => CanonicalValue::Bool(b),
        serde_json::Value::Number(n) => CanonicalValue::Number(n),
        serde_json::Value::String(s) => CanonicalValue::Text(s),
        serde_json::Value::Array(items) => CanonicalValue::Sequence(
            items.into_iter().map(to_canonical).collect(),
        ),
        serde_json::Value::Object(entries) => CanonicalValue::Mapping(
            entries.into_iter().map(|(k, x)| (k, to_canonical(x))).collect(),
        ),
    }
}

/// Relies on `serde_json::Value` construction (entry order is kept by the
/// `preserve_order` map): inverts the canonical reading, so the built value
/// reads back as `*v`. Distinct keys keep the object from collapsing entries.
#[verifier::external_body]
pub(crate) fn from_canonical(v: &CanonicalValue) -> (r: serde_json::Value)
    requires
        v.wf(),
    ensures
        canon_of(r) == *v,
{
    match v {
        CanonicalValue::Null => serde_json::Value::Null,
        CanonicalValue::Bool(b) => serde_json::Value::Bool(*b),
        CanonicalValue::Number(n) => serde_json::Value::Number(n.clone()),
        CanonicalValue::Text(s) => serde_json::Value::String(s.clone()),
        CanonicalValue::Sequence(items) => serde_json::Value::Array(
            items.iter().map(from_canonical).collect(),
        ),
        CanonicalValue::Mapping(entries) => serde_json::Value::Object(
            entries.iter().map(|(k, x)| (k.clone(), from_canonical(x))).collect(),
        ),
    }
}

/// Relies on `serde_json::Value::Object` and the collected `serde_json::Map`
/// (whose `preserve_order` backing keeps entry order): wraps top-level pairs
/// as one object value. Its canonical reading is a mapping; when the keys
/// are pairwise distinct no entry collapses, so the mapping mirrors the
/// pairs exactly, in order.
#[verifier::external_body]
pub(crate) fn object_from_pairs(pairs: Vec<(String, serde_json::Value)>) -> (r: serde_json::Value)
    ensures
        canon_of(r) is Mapping,
        (forall|i: int, j: int| 0 <= i < j < pairs@.len() ==> pairs@[i].0@ != pairs@[j].0@) ==> {
            &&& canon_of(r)->Mapping_0@.len() == pairs@.len()
            &&& forall|i: int|
                0 <= i < pairs@.len() ==> (#[trigger] canon_of(r)->Mapping_0@[i]).0@
                    == pairs@[i].0@ && canon_of(r)->Mapping_0@[i].1 == canon_of(pairs@[i].1)
        },
{
    serde_json::Value::Object(pairs.into_iter().collect())
}

/// What deserializing a document in a given format yields.
pub open spec fn doc_of(format: FileFormat, s: Seq<char>) -> Result<CanonicalValue, Seq<char>> {
    match format {
        FileFormat::Json => json_doc(s),
        FileFormat::Yaml => yaml_doc(s),
        FileFormat::Toml => toml_doc(s),
    }
}

/// Parses `raw` using the grammar of `format` into the canonical value
/// model. Either the full document parses, or the call fails with the
/// format and the parser's own diagnostic; there is no partial result.
pub fn deserialize(format: FileFormat, raw: &str) -> (r: Result<CanonicalValue, Error>)
    ensures
        r is Ok <==> doc_of(format, raw@) is Ok,
        r matches Ok(v) ==> v == doc_of(format, raw@)->Ok_0 && v.wf(),
        r matches Err(e) ==> (e matches Error::Deserialization { format: f, message } && f
            == format && message@ == doc_of(format, raw@)->Err_0),
{
    let parsed = match format {
        FileFormat::Json => json_from_str(raw),
        FileFormat::Yaml => yaml_from_str(raw),
        FileFormat::Toml => toml_from_str(raw),
    };
    match parsed {
        Ok(v) => Ok(to_canonical(v)),
        Err(message) => Err(Error::Deserialization { format, message }),
    }
}

} // verus!
