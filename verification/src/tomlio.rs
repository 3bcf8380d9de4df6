//! The trusted boundary to the `toml` crate. Parsing the TOML grammar is
//! delegated to that crate; everything a parsed document holds, as far as
//! this tool reads it, is modelled by `TomlShape`, and each wrapper below
//! states what its call yields in terms of that model.

use vstd::prelude::*;
use crate::deps::texts_view;

verus! {

/// toml's map type, held opaquely; the library reads it only through the
/// wrappers in this module.
#[verifier::external_type_specification]
#[verifier::external_body]
#[verifier::reject_recursive_types(K)]
#[verifier::reject_recursive_types(V)]
pub struct ExTomlMap<K, V>(toml::map::Map<K, V>);

/// toml's value type; it occurs only as the entry type of the map.
#[verifier::external_type_specification]
#[verifier::external_body]
pub struct ExTomlValue(toml::Value);

/// What one table entry holds, as far as this tool reads it: a string, a
/// boolean, an array of strings, a nested table, or something else.
pub enum TomlShape {
    Text(Seq<char>),
    Flag(bool),
    TextList(Seq<Seq<char>>),
    SubTable(Map<Seq<char>, TomlShape>),
    OtherValue,
}

/// The entries a parsed table holds, keyed by the table's keys.
pub uninterp spec fn table_shape(t: toml::Table) -> Map<Seq<char>, TomlShape>;

/// The document a text parses to, when it is well-formed TOML.
pub uninterp spec fn parsed_doc(s: Seq<char>) -> Option<Map<Seq<char>, TomlShape>>;

/// What a keyed lookup found: no entry under the key, an entry of the
/// wrong kind, or an entry of the asked-for kind.
pub enum Lookup<T> {
    Absent,
    Wrong,
    Found(T),
}

/// Relies on toml::from_str: hands the document table back exactly when
/// the text is well-formed TOML (a key declared twice in one table is
/// among the failures).
#[verifier::external_body]
pub(crate) fn parse_table(s: &str) -> (r: Option<toml::Table>)
    ensures
        r is Some <==> parsed_doc(s@) is Some,
        r matches Some(t) ==> (parsed_doc(s@) matches Some(doc) && table_shape(t) == doc),
{
    toml::from_str::<toml::Table>(s).ok()
}

/// Relies on toml::map::Map::get and toml::Value: hands the payload back
/// when the entry under the key is a TOML string.
#[verifier::external_body]
pub(crate) fn get_text(t: &toml::Table, k: &str) -> (r: Lookup<String>)
    ensures
        r is Absent <==> !table_shape(*t).contains_key(k@),
        r is Wrong <==> (table_shape(*t).contains_key(k@) && !(table_shape(*t)[k@] is Text)),
        r matches Lookup::Found(s) ==> table_shape(*t)[k@] == TomlShape::Text(s@),
{
    match t.get(k) {
        None => Lookup::Absent,
        Some(toml::Value::String(s)) => Lookup::Found(s.clone()),
        Some(_) => Lookup::Wrong,
    }
}

/// Relies on toml::map::Map::get and toml::Value: hands the payload back
/// when the entry under the key is a TOML boolean.
#[verifier::external_body]
pub(crate) fn get_flag(t: &toml::Table, k: &str) -> (r: Lookup<bool>)
    ensures
        r is Absent <==> !table_shape(*t).contains_key(k@),
        r is Wrong <==> (table_shape(*t).contains_key(k@) && !(table_shape(*t)[k@] is Flag)),
        r matches Lookup::Found(b) ==> table_shape(*t)[k@] == TomlShape::Flag(b),
{
    match t.get(k) {
        None => Lookup::Absent,
        Some(toml::Value::Boolean(b)) => Lookup::Found(*b),
        Some(_) => Lookup::Wrong,
    }
}

/// Relies on toml::map::Map::get, toml::Value and Value::as_str: hands the
/// payload back when the entry under the key is an array holding strings
/// only.
#[verifier::external_body]
pub(crate) fn get_texts(t: &toml::Table, k: &str) -> (r: Lookup<Vec<String>>)
    ensures
        r is Absent <==> !table_shape(*t).contains_key(k@),
        r is Wrong <==> (table_shape(*t).contains_key(k@) && !(table_shape(*t)[k@] is TextList)),
        r matches Lookup::Found(v) ==> table_shape(*t)[k@] == TomlShape::TextList(texts_view(v@)),
{
    match t.get(k) {
        None => Lookup::Absent,
        Some(toml::Value::Array(items)) => {
            let mut out: Vec<String> = Vec::new();
            for it in items {
                match it.as_str() {
                    Some(s) => out.push(s.to_owned()),
                    None => return Lookup::Wrong,
                }
            }
            Lookup::Found(out)
        },
        Some(_) => Lookup::Wrong,
    }
}

/// Relies on toml::map::Map::get and toml::Value: hands a copy of the
/// nested table back when the entry under the key is a TOML table.
#[verifier::external_body]
pub(crate) fn get_sub_table(t: &toml::Table, k: &str) -> (r: Lookup<toml::Table>)
    ensures
        r is Absent <==> !table_shape(*t).contains_key(k@),
        r is Wrong <==> (table_shape(*t).contains_key(k@) && !(table_shape(*t)[k@] is SubTable)),
        r matches Lookup::Found(sub) ==> table_shape(*t)[k@] == TomlShape::SubTable(table_shape(sub)),
{
    match t.get(k) {
        None => Lookup::Absent,
        Some(toml::Value::Table(sub)) => Lookup::Found(sub.clone()),
        Some(_) => Lookup::Wrong,
    }
}

/// Relies on toml::map::Map::keys: every key of the table, each exactly
/// once, in an order this contract leaves open.
#[verifier::external_body]
pub(crate) fn table_keys(t: &toml::Table) -> (r: Vec<String>)
    ensures
        forall|i: int, j: int| 0 <= i < j < r@.len() ==> r@[i]@ != r@[j]@,
        forall|i: int| 0 <= i < r@.len() ==> table_shape(*t).contains_key(#[trigger] r@[i]@),
        forall|k: Seq<char>| #[trigger] table_shape(*t).contains_key(k) ==> (exists|i: int|
            0 <= i < r@.len() && r@[i]@ == k),
{
    t.keys().cloned().collect()
}

} // verus!
