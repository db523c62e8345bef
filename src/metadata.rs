//! The metadata entity of a token, and the normalisation of a decoded
//! document whose attribute values may be strings or numbers.

use crate::text::{signed_decimal, signed_decimal_string};
use vstd::prelude::*;

verus! {

/// An attribute value as a document holds it: a string or a number.
#[derive(Debug, PartialEq, Eq)]
pub enum RawValue {
    Text(String),
    /// An integer number.
    Integer(i128),
    /// A number with a fraction or an exponent, in the document's rendering.
    Fraction(String),
}

/// An attribute as decoded, before its value is normalised.
pub struct RawAttribute {
    pub trait_type: String,
    pub value: RawValue,
    pub display_type: Option<String>,
}

/// A metadata document as decoded, before normalisation.
pub struct RawMetadata {
    pub name: String,
    pub attributes: Vec<RawAttribute>,
}

/// One typed attribute of a token; its value is always text.
#[derive(Debug, PartialEq, Eq)]
pub struct Attribute {
    pub trait_type: String,
    pub value: String,
    pub display_type: Option<String>,
}

/// A token's name and its attributes, in document order.
#[derive(Debug, PartialEq, Eq)]
pub struct Metadata {
    pub name: String,
    pub attributes: Vec<Attribute>,
}

/// The text a raw value normalises to: a string stays as it is, an integer
/// becomes its decimal rendering.
pub open spec fn value_text(v: RawValue) -> Seq<char> {
    match v {
        RawValue::Text(s) => s@,
        RawValue::Integer(i) => signed_decimal(i as int),
        RawValue::Fraction(s) => s@,
    }
}

pub open spec fn opt_view(o: Option<String>) -> Option<Seq<char>> {
    match o {
        Some(s) => Some(s@),
        None => None,
    }
}

/// `b` is the normalised form of `a`.
pub open spec fn normalizes_to(a: RawAttribute, b: Attribute) -> bool {
    &&& b.trait_type@ == a.trait_type@
    &&& b.value@ == value_text(a.value)
    &&& opt_view(b.display_type) == opt_view(a.display_type)
}

/// `m` is the normalised form of `raw`: same name, and each attribute
/// normalised in place.
pub open spec fn metadata_normalizes_to(raw: RawMetadata, m: Metadata) -> bool {
    &&& m.name@ == raw.name@
    &&& m.attributes@.len() == raw.attributes@.len()
    &&& forall|i: int|
        0 <= i < m.attributes@.len() ==> #[trigger] normalizes_to(raw.attributes@[i], m.attributes@[i])
}

fn clone_opt(o: &Option<String>) -> (r: Option<String>)
    ensures
        opt_view(r) == opt_view(*o),
{
    match o {
        Some(s) => Some(s.clone()),
        None => None,
    }
}

/// The text form of an attribute value.
pub fn normalize_value(v: &RawValue) -> (r: String)
    ensures
        r@ == value_text(*v),
{
    match v {
        RawValue::Text(s) => s.clone(),
        RawValue::Integer(i) => signed_decimal_string(*i),
        RawValue::Fraction(s) => s.clone(),
    }
}

/// An attribute with its value in text form.
pub fn normalize_attribute(a: &RawAttribute) -> (r: Attribute)
    ensures
        normalizes_to(*a, r),
{
    Attribute {
        trait_type: a.trait_type.clone(),
        value: normalize_value(&a.value),
        display_type: clone_opt(&a.display_type),
    }
}

/// A decoded document turned into the metadata entity, every attribute
/// value normalised to text.
pub fn normalize_metadata(raw: &RawMetadata) -> (r: Metadata)
    ensures
        metadata_normalizes_to(*raw, r),
{
    let mut attributes: Vec<Attribute> = Vec::new();
    let mut i: usize = 0;
    while i < raw.attributes.len()
        invariant
            i <= raw.attributes@.len(),
            attributes@.len() == i,
            forall|j: int| 0 <= j < i ==> #[trigger] normalizes_to(raw.attributes@[j], attributes@[j]),
        decreases raw.attributes@.len() - i,
    {
        attributes.push(normalize_attribute(&raw.attributes[i]));
        i = i + 1;
    }
    Metadata { name: raw.name.clone(), attributes }
}

} // verus!
