//! Reading a starter's descriptor file (YAML) into a `StarterConfig`.
//!
//! Recognised keys: `description`, `defaultDir`, `mainFile` (strings) and
//! `preview` (a mapping with a `template` string and a `dependencies`
//! mapping of strings to strings). Unknown keys are ignored; a recognised
//! key whose value is not a string counts as absent.

use vstd::prelude::*;
use crate::starter::{PreviewConfig, StarterConfig};

verus! {

/// Whether `serde_yaml::from_str::<serde_yaml::Value>` accepts the text.
pub uninterp spec fn yaml_accepts(text: Seq<char>) -> bool;

/// The string stored under `key` in the top-level mapping of the YAML
/// document `text`; `None` when the text is no YAML, the document is no
/// mapping, the key is missing or its value is not a string.
pub uninterp spec fn yaml_string_at(text: Seq<char>, key: Seq<char>) -> Option<Seq<char>>;

/// Whether the value under `section` in the document `text` is a mapping.
pub uninterp spec fn yaml_section_is_mapping(text: Seq<char>, section: Seq<char>) -> bool;

/// The string stored under `key` in the mapping under `section`.
pub uninterp spec fn yaml_section_string_at(
    text: Seq<char>,
    section: Seq<char>,
    key: Seq<char>,
) -> Option<Seq<char>>;

/// The entries, in document order, of the mapping under `key` in the mapping
/// under `section`, each key and value given as its string when it is one.
pub uninterp spec fn yaml_section_entries_at(
    text: Seq<char>,
    section: Seq<char>,
    key: Seq<char>,
) -> Option<Seq<(Option<Seq<char>>, Option<Seq<char>>)>>;

pub open spec fn opt_string_view(o: Option<String>) -> Option<Seq<char>> {
    match o {
        Some(s) => Some(s@),
        None => None,
    }
}

pub open spec fn raw_entries_view(v: Seq<(Option<String>, Option<String>)>) -> Seq<
    (Option<Seq<char>>, Option<Seq<char>>),
> {
    v.map_values(|e: (Option<String>, Option<String>)| (opt_string_view(e.0), opt_string_view(e.1)))
}

pub open spec fn pairs_view(v: Seq<(String, String)>) -> Seq<(Seq<char>, Seq<char>)> {
    v.map_values(|e: (String, String)| (e.0@, e.1@))
}

/// Relies on serde_yaml::from_str (into serde_yaml::Value) and the Display
/// impl of serde_yaml::Error: the error's message when the text is no YAML
/// document. Whether it is one depends on the text alone.
#[verifier::external_body]
fn yaml_parse_error(text: &str) -> (r: Option<String>)
    ensures
        r is None <==> yaml_accepts(text@),
{
    serde_yaml::from_str::<serde_yaml::Value>(text).err().map(|e| e.to_string())
}

/// Relies on serde_yaml::from_str, serde_yaml::Value::get and
/// serde_yaml::Value::as_str: the string under a top-level key.
#[verifier::external_body]
fn yaml_string_field(text: &str, key: &str) -> (r: Option<String>)
    ensures
        opt_string_view(r) == yaml_string_at(text@, key@),
{
    let doc = serde_yaml::from_str::<serde_yaml::Value>(text).ok()?;
    doc.get(key)?.as_str().map(|s| s.to_string())
}

/// Relies on serde_yaml::from_str, serde_yaml::Value::get and
/// serde_yaml::Value::is_mapping.
#[verifier::external_body]
fn yaml_section_mapping(text: &str, section: &str) -> (r: bool)
    ensures
        r == yaml_section_is_mapping(text@, section@),
{
    match serde_yaml::from_str::<serde_yaml::Value>(text) {
        Ok(doc) => doc.get(section).map_or(false, |v| v.is_mapping()),
        Err(_) => false,
    }
}

/// Relies on serde_yaml::from_str, serde_yaml::Value::get and
/// serde_yaml::Value::as_str: the string under a key of a nested mapping.
#[verifier::external_body]
fn yaml_section_string_field(text: &str, section: &str, key: &str) -> (r: Option<String>)
    ensures
        opt_string_view(r) == yaml_section_string_at(text@, section@, key@),
{
    let doc = serde_yaml::from_str::<serde_yaml::Value>(text).ok()?;
    doc.get(section)?.get(key)?.as_str().map(|s| s.to_string())
}

/// Relies on serde_yaml::from_str, serde_yaml::Value::get,
/// serde_yaml::Value::as_mapping, serde_yaml::Mapping::iter and
/// serde_yaml::Value::as_str: the entries of a nested mapping, in order.
#[verifier::external_body]
fn yaml_section_entries(text: &str, section: &str, key: &str) -> (r: Option<
    Vec<(Option<String>, Option<String>)>,
>)
    ensures
        match r {
            Some(v) => yaml_section_entries_at(text@, section@, key@) == Some(raw_entries_view(v@)),
            None => yaml_section_entries_at(text@, section@, key@) is None,
        },
{
    let doc = serde_yaml::from_str::<serde_yaml::Value>(text).ok()?;
    let m = doc.get(section)?.get(key)?.as_mapping()?;
    let text_of = |v: &serde_yaml::Value| v.as_str().map(|s| s.to_string());
    Some(m.iter().map(|(k, v)| (text_of(k), text_of(v))).collect())
}

/// The entries whose key and value are both strings, in order.
pub open spec fn string_pairs_spec(entries: Seq<(Option<Seq<char>>, Option<Seq<char>>)>) -> Seq<
    (Seq<char>, Seq<char>),
>
    decreases entries.len(),
{
    if entries.len() == 0 {
        Seq::empty()
    } else {
        let init = string_pairs_spec(entries.drop_last());
        match entries.last() {
            (Some(k), Some(v)) => init.push((k, v)),
            _ => init,
        }
    }
}

fn string_pairs(entries: &Vec<(Option<String>, Option<String>)>) -> (r: Vec<(String, String)>)
    ensures
        pairs_view(r@) == string_pairs_spec(raw_entries_view(entries@)),
{
    let ghost all = raw_entries_view(entries@);
    let mut out: Vec<(String, String)> = Vec::new();
    let mut i: usize = 0;
    assert(all.take(0) =~= Seq::<(Option<Seq<char>>, Option<Seq<char>>)>::empty());
    assert(pairs_view(out@) =~= Seq::<(Seq<char>, Seq<char>)>::empty());
    while i < entries.len()
        invariant
            i <= entries.len(),
            all == raw_entries_view(entries@),
            pairs_view(out@) == string_pairs_spec(all.take(i as int)),
        decreases entries.len() - i,
    {
        proof {
            assert(all.take(i + 1).drop_last() =~= all.take(i as int));
            assert(all.take(i + 1).last() == all[i as int]);
        }
        match (&entries[i].0, &entries[i].1) {
            (Some(k), Some(v)) => {
                let ghost before = pairs_view(out@);
                out.push((k.clone(), v.clone()));
                assert(pairs_view(out@) =~= before.push((k@, v@)));
            },
            _ => {},
        }
        i += 1;
    }
    assert(all.take(entries.len() as int) =~= all);
    out
}

/// `c` holds what the YAML document `text` declares.
pub open spec fn describes(c: StarterConfig, text: Seq<char>) -> bool {
    &&& opt_string_view(c.description) == yaml_string_at(text, "description"@)
    &&& opt_string_view(c.default_dir) == yaml_string_at(text, "defaultDir"@)
    &&& opt_string_view(c.main_file) == yaml_string_at(text, "mainFile"@)
    &&& (c.preview is Some <==> yaml_section_is_mapping(text, "preview"@))
    &&& (c.preview matches Some(p) ==> {
        &&& opt_string_view(p.template) == yaml_section_string_at(
            text,
            "preview"@,
            "template"@,
        )
        &&& match p.dependencies {
            Some(d) => yaml_section_entries_at(text, "preview"@, "dependencies"@) matches Some(e)
                && pairs_view(d@) == string_pairs_spec(e),
            None => yaml_section_entries_at(text, "preview"@, "dependencies"@) is None,
        }
    })
}

impl StarterConfig {
    /// Reads a descriptor. It fails, with the YAML error's message, exactly
    /// when the text is not a YAML document; otherwise each field holds what
    /// the document declares under its key.
    pub fn from_str(text: &str) -> (r: Result<StarterConfig, String>)
        ensures
            r is Ok <==> yaml_accepts(text@),
            r matches Ok(c) ==> describes(c, text@),
    {
        if let Some(message) = yaml_parse_error(text) {
            return Err(message);
        }
        let preview = if yaml_section_mapping(text, "preview") {
            let dependencies = match yaml_section_entries(text, "preview", "dependencies") {
                Some(entries) => Some(string_pairs(&entries)),
                None => None,
            };
            Some(
                PreviewConfig {
                    template: yaml_section_string_field(text, "preview", "template"),
                    dependencies,
                },
            )
        } else {
            None
        };
        Ok(
            StarterConfig {
                description: yaml_string_field(text, "description"),
                default_dir: yaml_string_field(text, "defaultDir"),
                main_file: yaml_string_field(text, "mainFile"),
                preview,
            },
        )
    }
}

} // verus!
