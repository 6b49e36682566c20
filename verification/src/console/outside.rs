//! What the console takes from its outside crates: S-expression values for
//! cvars (`serde_lexpr`) and the hash map that indexes command names (`fxhash`).

use vstd::prelude::*;

use fxhash::FxHashMap;
use serde_lexpr::Value;
use std::str::FromStr;

verus! {

#[verifier::external_type_specification]
#[verifier::external_body]
pub struct ExValue(serde_lexpr::Value);

#[verifier::external_type_specification]
#[verifier::external_body]
pub struct ExFxHasher(fxhash::FxHasher);

#[verifier::external_type_specification]
#[verifier::external_body]
#[verifier::reject_recursive_types(H)]
pub struct ExBuildHasherDefault<H>(std::hash::BuildHasherDefault<H>);

/// The hash map that leads from a command name to its slot.
pub type NameMap = FxHashMap<String, usize>;

/// The value that `serde_lexpr` parses from a text, if the text holds one.
pub uninterp spec fn lexpr_parse(s: Seq<char>) -> Option<Value>;

/// The string value `serde_lexpr` holds for a text.
pub uninterp spec fn lexpr_string(s: Seq<char>) -> Value;

/// The S-expression text that `serde_lexpr` prints for a value.
pub uninterp spec fn lexpr_text(v: Value) -> Seq<char>;

/// The names, and the slots they lead to, in a command-name index.
pub uninterp spec fn name_index(m: NameMap) -> Map<Seq<char>, usize>;

/// Calls `<serde_lexpr::Value as FromStr>::from_str`. Claims that the
/// outcome depends on the text alone; which texts parse, and to what, is
/// left to the name `lexpr_parse`.
#[verifier::external_body]
pub(crate) fn parse_value(s: &str) -> (r: Option<Value>)
    ensures
        r == lexpr_parse(s@),
{
    Value::from_str(s).ok()
}

/// Builds `serde_lexpr::Value::String` from a text. Claims only that the
/// value depends on the text alone.
#[verifier::external_body]
pub(crate) fn string_value(s: &str) -> (r: Value)
    ensures
        r == lexpr_string(s@),
{
    Value::String(s.into())
}

/// Builds `serde_lexpr::Value::Nil`. Nothing is claimed of the result.
#[verifier::external_body]
pub(crate) fn nil_value() -> Value {
    Value::Nil
}

/// Calls the derived `Clone` of `serde_lexpr::Value`, which copies the
/// value field by field, so the copy equals the value copied.
#[verifier::external_body]
pub(crate) fn clone_value(v: &Value) -> (r: Value)
    ensures
        r == *v,
{
    v.clone()
}

/// Formats a value with its `Display` implementation, as S-expression
/// text. Claims that the text depends on the value alone; what it is, is
/// left to the name `lexpr_text`.
#[verifier::external_body]
pub(crate) fn value_text(v: &Value) -> (r: String)
    ensures
        r@ == lexpr_text(*v),
{
    format!("{}", v)
}

/// Calls `FxHashMap::default`: a map with no entries.
#[verifier::external_body]
pub(crate) fn index_new() -> (r: NameMap)
    ensures
        name_index(r).dom() == Set::<Seq<char>>::empty(),
{
    FxHashMap::<String, usize>::default()
}

/// Calls `HashMap::get` on a command-name index: the slot stored for the
/// name, if the name is present.
#[verifier::external_body]
pub(crate) fn index_get(m: &NameMap, name: &str) -> (r: Option<usize>)
    ensures
        r is Some == name_index(*m).contains_key(name@),
        r matches Some(i) ==> i == name_index(*m)[name@],
{
    m.get(name).copied()
}

/// Calls `HashMap::insert` on a command-name index: afterwards the name
/// leads to `slot`, and every other name is unchanged.
#[verifier::external_body]
pub(crate) fn index_insert(m: &mut NameMap, name: String, slot: usize)
    ensures
        name_index(*final(m)) == name_index(*old(m)).insert(name@, slot),
{
    m.insert(name, slot);
}

/// Calls `HashMap::remove` on a command-name index: afterwards the name is
/// absent, and every other name is unchanged.
#[verifier::external_body]
pub(crate) fn index_remove(m: &mut NameMap, name: &str)
    ensures
        name_index(*final(m)) == name_index(*old(m)).remove(name@),
{
    m.remove(name);
}

} // verus!
