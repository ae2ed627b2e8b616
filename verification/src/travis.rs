//! Reading the required toolchain version out of the remote CI
//! configuration document.
//!
//! The document is YAML; its first document carries a `rust` field
//! whose text names the required toolchain line.  The YAML crate does
//! the parsing behind trusted wrappers whose results are named, so the
//! contract pins the outcome for every document: the result is the
//! version token of the first document's `rust` field, and nothing
//! when the text does not parse, has no document, no such field, or a
//! field without a token.

use vstd::prelude::*;

use crate::text::str_eq;
use crate::version::{get_nightly_version, is_token_of};

verus! {

#[verifier::external_type_specification]
#[verifier::external_body]
pub struct ExYaml(yaml_rust::Yaml);

/// The text is a well-formed YAML stream, as the YAML crate's scanner
/// accepts it.
pub uninterp spec fn yaml_wf(text: Seq<char>) -> bool;

/// The documents a well-formed YAML stream parses to, in order.
pub uninterp spec fn yaml_docs_of(text: Seq<char>) -> Seq<yaml_rust::Yaml>;

/// The key/value pairs of a mapping node in document order, and
/// nothing for a node of any other shape.
pub uninterp spec fn yaml_entries_of(doc: yaml_rust::Yaml) -> Option<
    Seq<(yaml_rust::Yaml, yaml_rust::Yaml)>,
>;

/// The payload of a string node, and nothing for a node of any other
/// shape.
pub uninterp spec fn yaml_str_of(node: yaml_rust::Yaml) -> Option<Seq<char>>;

/// The entry at position `i` has a string key equal to `key`.
pub open spec fn is_key_string_at(
    entries: Seq<(yaml_rust::Yaml, yaml_rust::Yaml)>,
    key: Seq<char>,
    i: int,
) -> bool {
    &&& 0 <= i < entries.len()
    &&& yaml_str_of(entries[i].0) == Some(key)
}

/// `i` is the position of the first entry whose string key is `key`.
pub open spec fn first_key_string_at(
    entries: Seq<(yaml_rust::Yaml, yaml_rust::Yaml)>,
    key: Seq<char>,
    i: int,
) -> bool {
    &&& is_key_string_at(entries, key, i)
    &&& forall|j: int| 0 <= j < i ==> !is_key_string_at(entries, key, j)
}

/// `tok` is the version token of a field that may be missing or hold
/// no string: no field, no token; otherwise the field text's token.
pub open spec fn field_token(field: Option<Seq<char>>, tok: Option<Seq<char>>) -> bool {
    match field {
        Some(f) => is_token_of(f, tok),
        None => tok is None,
    }
}

/// Relies on `yaml_rust::YamlLoader::load_from_str`: a well-formed
/// stream parses to its sequence of documents, a deterministic
/// function of the text.
#[verifier::external_body]
fn yaml_load_docs(text: &str) -> (r: Option<Vec<yaml_rust::Yaml>>)
    ensures
        r is Some <==> yaml_wf(text@),
        r is Some ==> r.unwrap()@ == yaml_docs_of(text@),
{
    yaml_rust::YamlLoader::load_from_str(text).ok()
}

/// Relies on `yaml_rust::Yaml::as_hash`: the key/value pairs of a
/// mapping node in its insertion order, and nothing for a node of any
/// other shape.
#[verifier::external_body]
fn yaml_hash_entries(doc: &yaml_rust::Yaml) -> (r: Option<Vec<(yaml_rust::Yaml, yaml_rust::Yaml)>>)
    ensures
        r is Some <==> yaml_entries_of(*doc) is Some,
        r is Some ==> r.unwrap()@ == yaml_entries_of(*doc).unwrap(),
{
    doc.as_hash().map(|h| h.iter().map(|(k, v)| (k.clone(), v.clone())).collect())
}

/// Relies on `yaml_rust::Yaml::as_str`: the payload of a string node,
/// and nothing for a node of any other shape.
#[verifier::external_body]
fn yaml_as_string(node: &yaml_rust::Yaml) -> (r: Option<String>)
    ensures
        r is Some <==> yaml_str_of(*node) is Some,
        r is Some ==> r.unwrap()@ == yaml_str_of(*node).unwrap(),
{
    node.as_str().map(|s| s.to_owned())
}

/// Position of the first entry whose key is the string `key`, if any.
fn yaml_key_index(entries: &Vec<(yaml_rust::Yaml, yaml_rust::Yaml)>, key: &str) -> (r: Option<
    usize,
>)
    ensures
        match r {
            Some(i) => first_key_string_at(entries@, key@, i as int),
            None => forall|j: int| !is_key_string_at(entries@, key@, j),
        },
{
    let n = entries.len();
    let mut i: usize = 0;
    while i < n
        invariant
            n == entries@.len(),
            i <= n,
            forall|j: int| 0 <= j < i ==> !is_key_string_at(entries@, key@, j),
        decreases n - i,
    {
        match yaml_as_string(&entries[i].0) {
            Some(k) => {
                if str_eq(k.as_str(), key) {
                    return Some(i);
                }
            },
            None => {},
        }
        i = i + 1;
    }
    None
}

/// The required toolchain version, read from the CI document: the
/// version token of the `rust` field of the first document.  Nothing
/// comes back exactly when the text does not parse, has no document,
/// its first document is no mapping, no entry's key is the string
/// `rust`, the first such entry's value is no string, or that string
/// holds no token.
pub fn get_zinc_travis_yaml(yaml_text: &str) -> (r: Option<String>)
    ensures
        !yaml_wf(yaml_text@) ==> r is None,
        yaml_wf(yaml_text@) && yaml_docs_of(yaml_text@).len() == 0 ==> r is None,
        yaml_wf(yaml_text@) && yaml_docs_of(yaml_text@).len() > 0 ==> ({
            match yaml_entries_of(yaml_docs_of(yaml_text@)[0]) {
                Some(es) => {
                    &&& ((forall|j: int| !is_key_string_at(es, "rust"@, j)) ==> r is None)
                    &&& (forall|i: int|
                        first_key_string_at(es, "rust"@, i) ==> field_token(
                            yaml_str_of(es[i].1),
                            r.deep_view(),
                        ))
                },
                None => r is None,
            }
        }),
{
    let docs = match yaml_load_docs(yaml_text) {
        Some(d) => d,
        None => {
            return None;
        },
    };
    if docs.len() == 0 {
        return None;
    }
    let entries = match yaml_hash_entries(&docs[0]) {
        Some(es) => es,
        None => {
            return None;
        },
    };
    let at = match yaml_key_index(&entries, "rust") {
        Some(i) => i,
        None => {
            return None;
        },
    };
    proof {
        assert forall|i: int| first_key_string_at(entries@, "rust"@, i) implies i == at by {
            if i < at {
                assert(!is_key_string_at(entries@, "rust"@, i));
            }
            if at < i {
                assert(is_key_string_at(entries@, "rust"@, at as int));
            }
        }
    }
    let field = match yaml_as_string(&entries[at].1) {
        Some(f) => f,
        None => {
            return None;
        },
    };
    get_nightly_version(field.as_str())
}

} // verus!
