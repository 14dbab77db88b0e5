//! The canonical value model: the format-agnostic recursive value type that
//! every supported input format deserializes into before merging.

use vstd::prelude::*;

verus! {

/// `serde_json::Number` carries the numeric payload of a canonical value. It
/// is opaque here: the pipeline moves numbers around but never computes with
/// them, so integer and floating representations are both accommodated
/// without loss.
#[verifier::external_type_specification]
#[verifier::external_body]
pub struct ExNumber(serde_json::Number);

/// A value deserialized from any of the supported formats: the common
/// representation that sources are merged in.
#[derive(Debug, PartialEq)]
pub enum CanonicalValue {
    Null,
    Bool(bool),
    Number(serde_json::Number),
    Text(String),
    Sequence(Vec<CanonicalValue>),
    Mapping(Vec<(String, CanonicalValue)>),
}

/// Pairwise distinct keys in a run of mapping entries.
pub open spec fn unique_keys(es: Seq<(String, CanonicalValue)>) -> bool {
    forall|i: int, j: int| 0 <= i < j < es.len() ==> es[i].0@ != es[j].0@
}

impl CanonicalValue {
    /// Well-formedness: every mapping in the value, at any depth, has
    /// pairwise distinct keys, so that it is field-addressable.
    pub open spec fn wf(self) -> bool
        decreases self,
    {
        match self {
            CanonicalValue::Sequence(items) => forall|i: int|
                0 <= i < items@.len() ==> items@[i].wf(),
            CanonicalValue::Mapping(entries) => {
                &&& forall|i: int| 0 <= i < entries@.len() ==> entries@[i].1.wf()
                &&& unique_keys(entries@)
            },
            _ => true,
        }
    }
}

} // verus!
