//! The trusted boundary around the `toml` crate. The engine's document is
//! rendered to and recovered from TOML text through an untyped table value;
//! this module declares that outside type, gives its contents a ghost model,
//! and wraps the handful of table operations the codec calls.
//!
//! A table's contents are modelled by `table_model` as a map from keys to
//! `TomlNode` trees; the rendered text and the parse result are named by
//! `toml_ser_of` and `toml_parse_of`, both functions of their argument alone.

use vstd::prelude::*;

verus! {

/// The untyped TOML table the codec builds and walks.
pub type TomlTable = toml::map::Map<String, toml::Value>;

#[verifier::external_type_specification]
#[verifier::external_body]
pub struct ExTomlValue(toml::Value);

#[verifier::external_type_specification]
#[verifier::external_body]
#[verifier::reject_recursive_types(K)]
#[verifier::reject_recursive_types(V)]
pub struct ExTomlMap<K, V>(toml::map::Map<K, V>);

/// The ghost shape of one TOML value as far as this crate reads it: a
/// string, a nested table, or any other value kind (`Other` keeps distinct
/// values distinguishable; the codec never produces or accepts one).
pub enum TomlNode {
    Str(Seq<char>),
    Tab(Map<Seq<char>, TomlNode>),
    Other(int),
}

/// What a TOML table holds, keyed by the keys' character sequences.
pub uninterp spec fn table_model(t: TomlTable) -> Map<Seq<char>, TomlNode>;

/// The text that the TOML serializer renders for a table with the given
/// contents, or `None` where serialization fails.
pub uninterp spec fn toml_ser_of(m: Map<Seq<char>, TomlNode>) -> Option<Seq<char>>;

/// The table that the TOML parser recovers from the given text, or `None`
/// where the text is not well-formed TOML.
pub uninterp spec fn toml_parse_of(s: Seq<char>) -> Option<Map<Seq<char>, TomlNode>>;

/// The model of a table with nothing in it.
pub open spec fn empty_table_model() -> Map<Seq<char>, TomlNode> {
    Map::empty()
}

/// Relies on `toml::map::Map::new`: a freshly created table is empty.
#[verifier::external_body]
pub(crate) fn table_new() -> (t: TomlTable)
    ensures
        table_model(t) == empty_table_model(),
{
    toml::map::Map::new()
}

/// Relies on `toml::map::Map::insert`: stores a string value under the key,
/// replacing any earlier entry for it.
#[verifier::external_body]
pub(crate) fn table_insert_str(t: &mut TomlTable, k: &str, v: &String)
    ensures
        table_model(*final(t)) == table_model(*old(t)).insert(k@, TomlNode::Str(v@)),
{
    t.insert(k.to_owned(), toml::Value::String(v.clone()));
}

/// Relies on `toml::map::Map::insert`: stores a nested table under the key,
/// replacing any earlier entry for it.
#[verifier::external_body]
pub(crate) fn table_insert_table(t: &mut TomlTable, k: &str, sub: TomlTable)
    ensures
        table_model(*final(t)) == table_model(*old(t)).insert(k@, TomlNode::Tab(table_model(sub))),
{
    t.insert(k.to_owned(), toml::Value::Table(sub));
}

/// Relies on `toml::map::Map::contains_key`.
#[verifier::external_body]
pub(crate) fn table_contains(t: &TomlTable, k: &str) -> (r: bool)
    ensures
        r == table_model(*t).dom().contains(k@),
{
    t.contains_key(k)
}

/// Relies on `toml::map::Map::get` and `toml::Value::as_str`: the string
/// stored under the key, if the key holds a string.
#[verifier::external_body]
pub(crate) fn table_get_str(t: &TomlTable, k: &str) -> (r: Option<
    String,
>)
    ensures
        match r {
            Some(s) => table_model(*t).dom().contains(k@) && table_model(*t)[k@] == TomlNode::Str(
                s@,
            ),
            None => !(table_model(*t).dom().contains(k@) && table_model(*t)[k@] is Str),
        },
{
    match t.get(k) {
        Some(toml::Value::String(s)) => Some(s.clone()),
        _ => None,
    }
}

/// Relies on `toml::map::Map::get` and `toml::Value::as_table`: the nested
/// table stored under the key, if the key holds a table.
#[verifier::external_body]
pub(crate) fn table_get_table<'a>(
    t: &'a TomlTable,
    k: &str,
) -> (r: Option<&'a toml::map::Map<String, toml::Value>>)
    ensures
        match r {
            Some(sub) => table_model(*t).dom().contains(k@) && table_model(*t)[k@]
                == TomlNode::Tab(table_model(*sub)),
            None => !(table_model(*t).dom().contains(k@) && table_model(*t)[k@] is Tab),
        },
{
    match t.get(k) {
        Some(toml::Value::Table(sub)) => Some(sub),
        _ => None,
    }
}

/// Relies on `toml::map::Map::keys`: every key exactly once.
#[verifier::external_body]
pub(crate) fn table_keys(t: &TomlTable) -> (r: Vec<String>)
    ensures
        r@.map_values(|s: String| s@).to_set() == table_model(*t).dom(),
        r@.map_values(|s: String| s@).no_duplicates(),
{
    t.keys().cloned().collect()
}

/// Relies on `toml::to_string`: renders the table as TOML text; the result
/// is a function of the table's contents alone.
#[verifier::external_body]
pub(crate) fn table_to_text(t: &TomlTable) -> (r: Result<String, String>)
    ensures
        match r {
            Ok(s) => toml_ser_of(table_model(*t)) == Some(s@),
            Err(m) => toml_ser_of(table_model(*t)) is None,
        },
{
    toml::to_string(t).map_err(|e| e.to_string())
}

/// Relies on `str::parse::<toml::Table>`: parses TOML text; the result is a
/// function of the text alone.
#[verifier::external_body]
pub(crate) fn table_parse(s: &String) -> (r: Result<TomlTable, String>)
    ensures
        match r {
            Ok(t) => toml_parse_of(s@) == Some(table_model(t)),
            Err(m) => toml_parse_of(s@) is None,
        },
{
    s.parse::<toml::Table>().map_err(|e| e.to_string())
}

} // verus!
