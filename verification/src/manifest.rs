//! The scripts table of a manifest.
//!
//! A manifest is a TOML document. Its scripts stand in the table
//! `workspace.metadata.scripts` or in the table `package.metadata.scripts`,
//! each script as a name with a string for its body. The `toml` crate reads
//! the document; where the scripts are looked for, and what counts as a
//! scripts table, is decided here.

use vstd::prelude::*;
use vstd::string::*;
use crate::failure::Failure;
use crate::script_table::{declared_names, declared_scripts, lists_keys, ScriptTable};

verus! {

/// A TOML value as the `toml` crate holds it.
#[verifier::external_type_specification]
#[verifier::external_body]
pub struct TomlValue(toml::Value);

/// The error with which the `toml` crate rejects a text.
#[verifier::external_type_specification]
#[verifier::external_body]
pub struct TomlError(toml::de::Error);

/// The document that `toml::from_str` reads from `text`, as a table value;
/// `None` where it rejects the text.
pub uninterp spec fn parsed_document(text: Seq<char>) -> Option<toml::Value>;

/// The value that `toml::Value::get` finds in `value` under `key`; `None`
/// where `value` is no table or holds no such key.
pub uninterp spec fn value_child(value: toml::Value, key: Seq<char>) -> Option<toml::Value>;

/// The entries of `value` where it is a table, in the order in which the
/// table hands them out: each key with the text of its value, or with
/// `None` where that value is no string. `None` where `value` is no table.
pub uninterp spec fn value_entries(value: toml::Value) -> Option<
    Seq<(Seq<char>, Option<Seq<char>>)>,
>;

/// A list of entries as character sequences.
pub open spec fn entry_views(entries: Seq<(String, Option<String>)>) -> Seq<
    (Seq<char>, Option<Seq<char>>),
> {
    Seq::new(
        entries.len(),
        |i: int|
            (
                entries[i].0@,
                match entries[i].1 {
                    Some(text) => Some(text@),
                    None => None,
                },
            ),
    )
}

/// Calls `toml::from_str` to read `text` as a TOML document. The contract
/// claims that the outcome depends on the text alone: an accepted text
/// gives the document that `parsed_document` names, a rejected one gives
/// the crate's error.
#[verifier::external_body]
fn parse_document(text: &str) -> (r: Result<toml::Value, toml::de::Error>)
    ensures
        match r {
            Ok(document) => parsed_document(text@) == Some(document),
            Err(_) => parsed_document(text@) is None,
        },
{
    toml::from_str::<toml::Table>(text).map(toml::Value::Table)
}

/// Calls `toml::Value::get` with a string key. The contract claims that
/// the value found is the one that `value_child` names.
#[verifier::external_body]
fn child<'a>(value: &'a toml::Value, key: &str) -> (r: Option<&'a toml::Value>)
    ensures
        match r {
            Some(found) => value_child(*value, key@) == Some(*found),
            None => value_child(*value, key@) is None,
        },
{
    value.get(key)
}

/// Calls `toml::Value::as_table` and hands out the table's entries, each
/// value through `toml::Value::as_str`. The contract claims that these are
/// the entries that `value_entries` names.
#[verifier::external_body]
fn string_entries(value: &toml::Value) -> (r: Option<Vec<(String, Option<String>)>>)
    ensures
        match r {
            Some(entries) => value_entries(*value) == Some(entry_views(entries@)),
            None => value_entries(*value) is None,
        },
{
    value.as_table().map(
        |table| table.iter().map(|(k, v)| (k.clone(), v.as_str().map(str::to_owned))).collect(),
    )
}

/// Whether every entry has a text.
pub open spec fn all_text(entries: Seq<(Seq<char>, Option<Seq<char>>)>) -> bool {
    forall|i: int| 0 <= i < entries.len() ==> (#[trigger] entries[i]).1 is Some
}

/// The entries with their texts, for entries that all have one.
pub open spec fn name_body_pairs(entries: Seq<(Seq<char>, Option<Seq<char>>)>) -> Seq<
    (Seq<char>, Seq<char>),
> {
    Seq::new(entries.len(), |i: int| (entries[i].0, entries[i].1->0))
}

/// The value at `section.metadata.scripts` of a document.
pub open spec fn scripts_value(document: toml::Value, section: Seq<char>) -> Option<toml::Value> {
    match value_child(document, section) {
        Some(inner) => match value_child(inner, "metadata"@) {
            Some(metadata) => value_child(metadata, "scripts"@),
            None => None,
        },
        None => None,
    }
}

/// The scripts that a document declares under `section`: the entries of
/// the table at `section.metadata.scripts`, where that is a table of
/// strings.
pub open spec fn section_scripts(document: toml::Value, section: Seq<char>) -> Option<
    Seq<(Seq<char>, Seq<char>)>,
> {
    match scripts_value(document, section) {
        Some(value) => match value_entries(value) {
            Some(entries) => if all_text(entries) {
                Some(name_body_pairs(entries))
            } else {
                None
            },
            None => None,
        },
        None => None,
    }
}

/// The scripts that a document declares: those of the workspace where it
/// has a scripts table, else those of the package.
pub open spec fn manifest_scripts(document: toml::Value) -> Option<Seq<(Seq<char>, Seq<char>)>> {
    match section_scripts(document, "workspace"@) {
        Some(pairs) => Some(pairs),
        None => section_scripts(document, "package"@),
    }
}

/// Whether `table` holds exactly the scripts of `pairs`.
pub open spec fn holds_scripts(table: ScriptTable, pairs: Seq<(Seq<char>, Seq<char>)>) -> bool {
    &&& table@ == declared_scripts(pairs)
    &&& table.name_list() == declared_names(pairs)
}

/// Builds the table of a list of entries. Every entry must have a text:
/// a scripts table that holds anything but strings is malformed.
pub fn table_of_entries(entries: Vec<(String, Option<String>)>) -> (r: Result<ScriptTable, Failure>)
    ensures
        match r {
            Ok(table) => all_text(entry_views(entries@)) && holds_scripts(
                table,
                name_body_pairs(entry_views(entries@)),
            ),
            Err(failure) => !all_text(entry_views(entries@)) && failure
                == Failure::ManifestMalformed,
        },
{
    let ghost views = entry_views(entries@);
    let mut table = ScriptTable::new();
    let mut i: usize = 0;
    while i < entries.len()
        invariant
            i <= entries.len(),
            views == entry_views(entries@),
            forall|k: int| 0 <= k < i ==> (#[trigger] views[k]).1 is Some,
            holds_scripts(table, name_body_pairs(views).subrange(0, i as int)),
            lists_keys(table.name_list(), table@),
        decreases entries.len() - i,
    {
        let ghost done = name_body_pairs(views).subrange(0, i as int);
        let ghost next = name_body_pairs(views).subrange(0, i + 1);
        match &entries[i].1 {
            Some(body) => {
                assert(views[i as int].1 == Some(body@));
                assert(next.drop_last() =~= done);
                assert(next.last() == (entries[i as int].0@, body@));
                table.insert(entries[i].0.clone(), body.clone());
            },
            None => {
                assert(views[i as int].1 is None);
                return Err(Failure::ManifestMalformed);
            },
        }
        i += 1;
    }
    assert(name_body_pairs(views).subrange(0, i as int) =~= name_body_pairs(views));
    Ok(table)
}

/// The scripts that a manifest text declares; `None` for a text that is no
/// TOML document or declares no scripts table.
pub open spec fn text_scripts(text: Seq<char>) -> Option<Seq<(Seq<char>, Seq<char>)>> {
    match parsed_document(text) {
        Some(document) => manifest_scripts(document),
        None => None,
    }
}

/// The scripts table under one section of a document, if there is one.
fn section_table(document: &toml::Value, section: &str) -> (r: Option<ScriptTable>)
    ensures
        match r {
            Some(table) => section_scripts(*document, section@) is Some && holds_scripts(
                table,
                section_scripts(*document, section@)->0,
            ),
            None => section_scripts(*document, section@) is None,
        },
{
    let inner = match child(document, section) {
        Some(inner) => inner,
        None => { return None; },
    };
    let metadata = match child(inner, "metadata") {
        Some(metadata) => metadata,
        None => { return None; },
    };
    let scripts = match child(metadata, "scripts") {
        Some(scripts) => scripts,
        None => { return None; },
    };
    let entries = match string_entries(scripts) {
        Some(entries) => entries,
        None => { return None; },
    };
    match table_of_entries(entries) {
        Ok(table) => Some(table),
        Err(_) => None,
    }
}

/// Finds the scripts table of a document that was read: the one of the
/// workspace where there is one, else the one of the package. A document
/// with neither is malformed.
pub fn scripts_in(document: &toml::Value) -> (r: Result<ScriptTable, Failure>)
    ensures
        match r {
            Ok(table) => manifest_scripts(*document) is Some && holds_scripts(
                table,
                manifest_scripts(*document)->0,
            ),
            Err(failure) => manifest_scripts(*document) is None && failure
                == Failure::ManifestMalformed,
        },
{
    match section_table(document, "workspace") {
        Some(table) => Ok(table),
        None => match section_table(document, "package") {
            Some(table) => Ok(table),
            None => Err(Failure::ManifestMalformed),
        },
    }
}

/// Reads the scripts table from the text of a manifest. A text that is no
/// TOML document, or that declares no scripts table, is malformed.
pub fn parse_toml(text: &str) -> (r: Result<ScriptTable, Failure>)
    ensures
        match r {
            Ok(table) => text_scripts(text@) is Some && holds_scripts(
                table,
                text_scripts(text@)->0,
            ),
            Err(failure) => text_scripts(text@) is None && failure == Failure::ManifestMalformed,
        },
{
    match parse_document(text) {
        Ok(document) => scripts_in(&document),
        Err(_) => Err(Failure::ManifestMalformed),
    }
}

} // verus!
