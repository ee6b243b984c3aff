//! The YAML text format, read and written by `serde_yaml`.

use vstd::prelude::*;
use crate::yaml::{YamlMapping, YamlV, YamlValue};

verus! {

/// `serde_yaml::Value`, converted at the edges of the library.
#[verifier::external_type_specification]
#[verifier::external_body]
pub struct ExValue(serde_yaml::Value);

/// `serde_yaml::Mapping`, converted at the edges of the library.
#[verifier::external_type_specification]
#[verifier::external_body]
pub struct ExMapping(serde_yaml::Mapping);

/// The mapping that `serde_yaml` reads from a YAML text, if the text is a YAML mapping.
pub uninterp spec fn yaml_parse_mapping(text: Seq<char>) -> Option<Seq<(YamlV, YamlV)>>;

/// The YAML text that `serde_yaml` writes for a mapping, if it can write one.
pub uninterp spec fn yaml_emit_mapping(m: Seq<(YamlV, YamlV)>) -> Option<Seq<char>>;

/// Reads a YAML mapping with `serde_yaml::from_str::<serde_yaml::Mapping>`. The
/// contract names the outcome, which depends on the text alone; it says nothing of
/// which texts are mappings. A `serde_yaml::Mapping` holds each key once, and the
/// conversion keeps its entries one for one and in order, so no two keys of the result
/// are the same.
#[verifier::external_body]
pub(crate) fn parse_yaml_mapping(text: &str) -> (r: Option<YamlMapping>)
    ensures
        match r {
            Some(m) => yaml_parse_mapping(text@) == Some(m@),
            None => yaml_parse_mapping(text@) is None,
        },
        r matches Some(m) ==> crate::yaml_ops::unique_keys(m@),
{
    serde_yaml::from_str::<serde_yaml::Mapping>(text).ok().map(|m| mapping_from_outside(&m))
}

/// Writes a mapping as YAML text with `serde_yaml::to_string`. The contract names the
/// outcome, which depends on the mapping alone; it says nothing of the text's shape.
#[verifier::external_body]
pub(crate) fn emit_yaml_mapping(m: &YamlMapping) -> (r: Option<String>)
    ensures
        match r {
            Some(s) => yaml_emit_mapping(m@) == Some(s@),
            None => yaml_emit_mapping(m@) is None,
        },
{
    serde_yaml::to_string(&mapping_to_outside(m)).ok()
}

/// Converts a `serde_yaml::Value` variant by variant; used inside the two functions
/// above, whose contracts cover it.
#[verifier::external_body]
fn value_from_outside(v: &serde_yaml::Value) -> YamlValue {
    match v {
        serde_yaml::Value::Null => YamlValue::Null,
        serde_yaml::Value::Bool(b) => YamlValue::Bool(*b),
        serde_yaml::Value::Number(n) => YamlValue::Number(n.clone()),
        serde_yaml::Value::String(s) => YamlValue::String(s.clone()),
        serde_yaml::Value::Sequence(items) => YamlValue::Sequence(items.iter().map(value_from_outside).collect()),
        serde_yaml::Value::Mapping(m) => YamlValue::Mapping(mapping_from_outside(m)),
        serde_yaml::Value::Tagged(t) => YamlValue::Tagged(t.tag.clone(), Box::new(value_from_outside(&t.value))),
    }
}

/// Converts a `serde_yaml::Mapping` entry by entry, in order.
#[verifier::external_body]
fn mapping_from_outside(m: &serde_yaml::Mapping) -> YamlMapping {
    YamlMapping { entries: m.iter().map(|(k, v)| (value_from_outside(k), value_from_outside(v))).collect() }
}

/// Converts a value into a `serde_yaml::Value` variant by variant.
#[verifier::external_body]
fn value_to_outside(v: &YamlValue) -> serde_yaml::Value {
    match v {
        YamlValue::Null => serde_yaml::Value::Null,
        YamlValue::Bool(b) => serde_yaml::Value::Bool(*b),
        YamlValue::Number(n) => serde_yaml::Value::Number(n.clone()),
        YamlValue::String(s) => serde_yaml::Value::String(s.clone()),
        YamlValue::Sequence(items) => serde_yaml::Value::Sequence(items.iter().map(value_to_outside).collect()),
        YamlValue::Mapping(m) => serde_yaml::Value::Mapping(mapping_to_outside(m)),
        YamlValue::Tagged(t, b) => serde_yaml::Value::Tagged(Box::new(serde_yaml::value::TaggedValue { tag: t.clone(), value: value_to_outside(b) })),
    }
}

/// Converts a mapping into a `serde_yaml::Mapping` entry by entry, in order.
#[verifier::external_body]
fn mapping_to_outside(m: &YamlMapping) -> serde_yaml::Mapping {
    m.entries.iter().map(|(k, v)| (value_to_outside(k), value_to_outside(v))).collect()
}

} // verus!

verus! {

/// The value that `serde_yaml` reads from a YAML text, if the text is YAML.
pub uninterp spec fn yaml_parse_value(text: Seq<char>) -> Option<YamlV>;

/// Reads a YAML value with `serde_yaml::from_str::<serde_yaml::Value>`. The contract
/// names the outcome, which depends on the text alone.
#[verifier::external_body]
pub(crate) fn parse_yaml_value(text: &str) -> (r: Option<YamlValue>)
    ensures
        match r {
            Some(v) => yaml_parse_value(text@) == Some(v@),
            None => yaml_parse_value(text@) is None,
        },
{
    serde_yaml::from_str::<serde_yaml::Value>(text).ok().map(|v| value_from_outside(&v))
}

} // verus!
