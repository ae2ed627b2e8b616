//! The project manifest: parsing, package-name lookup, and the merge
//! of the fixed configuration block.
//!
//! A manifest is held as its sequence of top-level entries, each a key
//! with an opaque TOML value.  Parsing and serialising go through the
//! TOML crate behind trusted wrappers whose results are named, so that
//! every caller's contract is exact; the lookup and the merge — the
//! logic the tool actually depends on — are verified here, with the
//! merge pinned down entry for entry.  On a shared key the original
//! manifest keeps its value: no original key is dropped or
//! overwritten.

use vstd::prelude::*;

use crate::text::str_eq;

verus! {

#[verifier::external_type_specification]
#[verifier::external_body]
pub struct ExTomlValue(toml::Value);

/// The text is a well-formed TOML document, as the TOML crate's parser
/// accepts it.
pub uninterp spec fn toml_table_wf(text: Seq<char>) -> bool;

/// The top-level entries a well-formed TOML document parses to, in the
/// parser's order.
pub uninterp spec fn toml_entries_of(text: Seq<char>) -> Seq<(String, toml::Value)>;

/// The document text the TOML serialiser writes for the given entries.
pub uninterp spec fn rendered_of(entries: Seq<(String, toml::Value)>) -> Seq<char>;

/// The entries of a table value, and nothing for a value of any other
/// shape.
pub uninterp spec fn table_entries_of(v: toml::Value) -> Option<Seq<(String, toml::Value)>>;

/// The payload of a string value, and nothing for a value of any other
/// shape.
pub uninterp spec fn str_value_of(v: toml::Value) -> Option<Seq<char>>;

/// Some entry of the sequence carries the key `k`.
pub open spec fn has_key(entries: Seq<(String, toml::Value)>, k: Seq<char>) -> bool {
    exists|i: int| 0 <= i < entries.len() && entries[i].0@ == k
}

/// No two entries of the sequence carry the same key.
pub open spec fn unique_keys(entries: Seq<(String, toml::Value)>) -> bool {
    forall|i: int, j: int|
        0 <= i < j < entries.len() ==> #[trigger] entries[i].0@ != #[trigger] entries[j].0@
}

/// `i` is the position of the first entry carrying the key `k`.
pub open spec fn first_key_at(entries: Seq<(String, toml::Value)>, k: Seq<char>, i: int) -> bool {
    &&& 0 <= i < entries.len()
    &&& entries[i].0@ == k
    &&& forall|j: int| 0 <= j < i ==> entries[j].0@ != k
}

/// The value stored under the key `k`.
pub open spec fn entry_value(entries: Seq<(String, toml::Value)>, k: Seq<char>) -> toml::Value
    recommends
        has_key(entries, k),
{
    entries[choose|i: int| 0 <= i < entries.len() && entries[i].0@ == k].1
}

/// The string under the `name` key of a package table value: nothing
/// when the value is no table, has no `name` entry, or that entry
/// holds no string.
pub open spec fn package_name_of(v: toml::Value) -> Option<Seq<char>> {
    match table_entries_of(v) {
        Some(es) => if has_key(es, "name"@) {
            str_value_of(entry_value(es, "name"@))
        } else {
            None
        },
        None => None,
    }
}

/// Relies on `toml::Table`'s `FromStr`: a well-formed document parses
/// to its table of top-level entries — a deterministic function of the
/// text — and a table maps each key to one value.
#[verifier::external_body]
fn parse_manifest(text: &str) -> (r: Option<Vec<(String, toml::Value)>>)
    ensures
        r is Some <==> toml_table_wf(text@),
        r is Some ==> r.unwrap()@ == toml_entries_of(text@),
        r is Some ==> unique_keys(r.unwrap()@),
{
    match text.parse::<toml::Table>() {
        Ok(table) => Some(table.into_iter().collect()),
        Err(_) => None,
    }
}

/// Relies on `toml::to_string` and `toml::Table`'s `FromStr`: the
/// serialiser is a deterministic function of the entries; it fails
/// only for non-string keys and unsupported datatypes, which a table
/// of TOML values cannot hold; and its output parses back to the same
/// table, so for entries with distinct keys the reparsed entries are a
/// permutation of the given ones.
#[verifier::external_body]
fn render_manifest(entries: Vec<(String, toml::Value)>) -> (r: Option<String>)
    ensures
        r is Some,
        r.unwrap()@ == rendered_of(entries@),
        unique_keys(entries@) ==> toml_table_wf(r.unwrap()@) && toml_entries_of(
            r.unwrap()@,
        ).to_multiset() == entries@.to_multiset(),
{
    let table: toml::Table = entries.into_iter().collect();
    toml::to_string(&table).ok()
}

/// Relies on `toml::Value::as_table`: the entries of a table value,
/// each key once; nothing for a value of any other shape.
#[verifier::external_body]
fn value_table_entries(v: &toml::Value) -> (r: Option<Vec<(String, toml::Value)>>)
    ensures
        r is Some <==> table_entries_of(*v) is Some,
        r is Some ==> r.unwrap()@ == table_entries_of(*v).unwrap(),
        r is Some ==> unique_keys(r.unwrap()@),
{
    v.as_table().map(|t| t.iter().map(|(k, val)| (k.clone(), val.clone())).collect())
}

/// Relies on `toml::Value::as_str`: the payload of a string value, and
/// nothing for a value of any other shape.
#[verifier::external_body]
fn value_as_str(v: &toml::Value) -> (r: Option<String>)
    ensures
        r is Some <==> str_value_of(*v) is Some,
        r is Some ==> r.unwrap()@ == str_value_of(*v).unwrap(),
{
    v.as_str().map(|s| s.to_owned())
}

/// Position of the first entry carrying `key`, if any.
pub fn key_index(entries: &Vec<(String, toml::Value)>, key: &str) -> (r: Option<usize>)
    ensures
        match r {
            Some(i) => first_key_at(entries@, key@, i as int),
            None => !has_key(entries@, key@),
        },
{
    let n = entries.len();
    let mut i: usize = 0;
    while i < n
        invariant
            n == entries@.len(),
            i <= n,
            forall|j: int| 0 <= j < i ==> entries@[j].0@ != key@,
        decreases n - i,
    {
        if str_eq(entries[i].0.as_str(), key) {
            return Some(i);
        }
        i = i + 1;
    }
    None
}

/// The package name recorded under `package.name`: exactly the string
/// under the `name` key of the first `package` entry's table, when the
/// manifest has one.
pub fn binname(manifest: &Vec<(String, toml::Value)>) -> (r: Option<String>)
    ensures
        !has_key(manifest@, "package"@) ==> r is None,
        forall|i: int|
            first_key_at(manifest@, "package"@, i) ==> r.deep_view() == package_name_of(
                manifest@[i].1,
            ),
{
    let pkg_at = match key_index(manifest, "package") {
        Some(i) => i,
        None => {
            return None;
        },
    };
    proof {
        assert forall|i: int| first_key_at(manifest@, "package"@, i) implies i == pkg_at by {
            if i < pkg_at {
                assert(manifest@[i].0@ != "package"@);
            }
            if pkg_at < i {
                assert(manifest@[pkg_at as int].0@ != "package"@);
            }
        }
    }
    let pkg_entries = match value_table_entries(&manifest[pkg_at].1) {
        Some(es) => es,
        None => {
            return None;
        },
    };
    let name_at = match key_index(&pkg_entries, "name") {
        Some(i) => i,
        None => {
            return None;
        },
    };
    proof {
        let es = table_entries_of(manifest@[pkg_at as int].1).unwrap();
        let w = choose|w: int| 0 <= w < es.len() && es[w].0@ == "name"@;
        assert(w == name_at);
    }
    value_as_str(&pkg_entries[name_at].1)
}

/// The package name recorded under `package.name` of a manifest text:
/// parse the text and look the name up.  Nothing comes back when the
/// text is not a well-formed document or records no name.
pub fn manifest_binname(manifest_text: &str) -> (r: Option<String>)
    ensures
        !toml_table_wf(manifest_text@) ==> r is None,
        toml_table_wf(manifest_text@) && !has_key(toml_entries_of(manifest_text@), "package"@)
            ==> r is None,
        toml_table_wf(manifest_text@) ==> (forall|i: int|
            first_key_at(toml_entries_of(manifest_text@), "package"@, i) ==> r.deep_view()
                == package_name_of(toml_entries_of(manifest_text@)[i].1)),
{
    let entries = match parse_manifest(manifest_text) {
        Some(t) => t,
        None => {
            return None;
        },
    };
    binname(&entries)
}

/// The entries of `from` that survive a merge against `against`: those
/// whose key `against` does not already use, in their original order.
pub open spec fn kept_entries(
    from: Seq<(String, toml::Value)>,
    against: Seq<(String, toml::Value)>,
) -> Seq<(String, toml::Value)>
    decreases from.len(),
{
    if from.len() == 0 {
        Seq::empty()
    } else {
        let rest = kept_entries(from.drop_last(), against);
        if has_key(against, from.last().0@) {
            rest
        } else {
            rest.push(from.last())
        }
    }
}

/// Merge the fixed addition into a manifest: every original entry
/// stays, unchanged and at its place, and behind them come the
/// addition's entries whose keys the original does not already use —
/// no original key is dropped or overwritten.
pub fn merged_manifest(
    base: Vec<(String, toml::Value)>,
    addition: Vec<(String, toml::Value)>,
) -> (r: Vec<(String, toml::Value)>)
    ensures
        r@ == base@ + kept_entries(addition@, base@),
        forall|i: int| 0 <= i < base@.len() ==> r@[i] == base@[i],
        forall|k: Seq<char>|
            #[trigger] has_key(r@, k) <==> (has_key(base@, k) || has_key(addition@, k)),
{
    let ghost base0 = base@;
    let ghost add0 = addition@;
    let n = addition.len();
    let mut rest = addition;
    let mut fresh: Vec<(String, toml::Value)> = Vec::new();
    let mut i: usize = 0;
    while rest.len() > 0
        invariant
            n == add0.len(),
            i <= n,
            base@ == base0,
            rest@ =~= add0.subrange(i as int, add0.len() as int),
            fresh@ == kept_entries(add0.take(i as int), base0),
        decreases rest@.len(),
    {
        let e = rest.remove(0);
        assert(e == add0[i as int]);
        let shadowed = match key_index(&base, e.0.as_str()) {
            Some(_) => true,
            None => false,
        };
        proof {
            assert(add0.take(i + 1).drop_last() =~= add0.take(i as int));
            assert(add0.take(i + 1).last() == add0[i as int]);
        }
        if !shadowed {
            fresh.push(e);
        }
        i = i + 1;
        proof {
            assert(rest@ =~= add0.subrange(i as int, add0.len() as int));
        }
    }
    proof {
        assert(add0.take(add0.len() as int) =~= add0);
    }
    let mut out = base;
    out.append(&mut fresh);
    proof {
        assert(out@ == base0 + kept_entries(add0, base0));
        assert forall|k: Seq<char>|
            #[trigger] has_key(out@, k) <==> (has_key(base0, k) || has_key(add0, k)) by {
            lemma_kept_entries_keys(add0, base0, k);
            lemma_has_key_concat(base0, kept_entries(add0, base0), k);
        }
    }
    out
}

/// A key is in the kept part of a merge exactly when `from` has it and
/// `against` does not.
pub proof fn lemma_kept_entries_keys(
    from: Seq<(String, toml::Value)>,
    against: Seq<(String, toml::Value)>,
    k: Seq<char>,
)
    ensures
        has_key(kept_entries(from, against), k) <==> (has_key(from, k) && !has_key(against, k)),
    decreases from.len(),
{
    if from.len() == 0 {
        assert(!has_key(from, k));
    } else {
        let prev = from.drop_last();
        lemma_kept_entries_keys(prev, against, k);
        let last = from.last();
        assert(has_key(from, k) <==> (has_key(prev, k) || last.0@ == k)) by {
            if has_key(prev, k) {
                let i = choose|i: int| 0 <= i < prev.len() && prev[i].0@ == k;
                assert(from[i].0@ == k);
            }
            if has_key(from, k) {
                let i = choose|i: int| 0 <= i < from.len() && from[i].0@ == k;
                if i < from.len() - 1 {
                    assert(prev[i].0@ == k);
                }
            }
        }
        let rest = kept_entries(prev, against);
        if !has_key(against, last.0@) {
            assert(has_key(rest.push(last), k) <==> (has_key(rest, k) || last.0@ == k)) by {
                if has_key(rest, k) {
                    let i = choose|i: int| 0 <= i < rest.len() && rest[i].0@ == k;
                    assert(rest.push(last)[i].0@ == k);
                }
                assert(rest.push(last)[rest.len() as int] == last);
                if has_key(rest.push(last), k) {
                    let i = choose|i: int|
                        0 <= i < rest.push(last).len() && rest.push(last)[i].0@ == k;
                    if i < rest.len() {
                        assert(rest[i].0@ == k);
                    }
                }
            }
        }
    }
}

/// A key is in a concatenation of entry sequences exactly when one of
/// the halves has it.
pub proof fn lemma_has_key_concat(
    a: Seq<(String, toml::Value)>,
    b: Seq<(String, toml::Value)>,
    k: Seq<char>,
)
    ensures
        has_key(a + b, k) <==> (has_key(a, k) || has_key(b, k)),
{
    if has_key(a, k) {
        let i = choose|i: int| 0 <= i < a.len() && a[i].0@ == k;
        assert((a + b)[i].0@ == k);
    }
    if has_key(b, k) {
        let i = choose|i: int| 0 <= i < b.len() && b[i].0@ == k;
        assert((a + b)[a.len() + i].0@ == k);
    }
    if has_key(a + b, k) {
        let i = choose|i: int| 0 <= i < (a + b).len() && (a + b)[i].0@ == k;
        if i < a.len() {
            assert(a[i].0@ == k);
        } else {
            assert(b[i - a.len()].0@ == k);
        }
    }
}

/// An entry of `from` whose key `against` does not use survives into
/// the kept part, value and all.
pub proof fn lemma_kept_entries_contains(
    from: Seq<(String, toml::Value)>,
    against: Seq<(String, toml::Value)>,
    j: int,
)
    requires
        0 <= j < from.len(),
        !has_key(against, from[j].0@),
    ensures
        kept_entries(from, against).contains(from[j]),
    decreases from.len(),
{
    let kept = kept_entries(from, against);
    if j == from.len() - 1 {
        assert(from.last() == from[j]);
        assert(kept.last() == from[j]);
        assert(kept[kept.len() - 1] == from[j]);
    } else {
        let prev = from.drop_last();
        assert(prev[j] == from[j]);
        lemma_kept_entries_contains(prev, against, j);
        let prev_kept = kept_entries(prev, against);
        let w = choose|w: int| 0 <= w < prev_kept.len() && prev_kept[w] == from[j];
        if has_key(against, from.last().0@) {
            assert(kept[w] == from[j]);
        } else {
            assert(kept == prev_kept.push(from.last()));
            assert(kept[w] == from[j]);
        }
    }
}

/// An addition entry whose key the original manifest does not already
/// use stands in the merged manifest.
pub proof fn lemma_merge_adds_fresh(
    base: Seq<(String, toml::Value)>,
    addition: Seq<(String, toml::Value)>,
    j: int,
)
    requires
        0 <= j < addition.len(),
        !has_key(base, addition[j].0@),
    ensures
        (base + kept_entries(addition, base)).contains(addition[j]),
{
    lemma_kept_entries_contains(addition, base, j);
    let kept = kept_entries(addition, base);
    let w = choose|w: int| 0 <= w < kept.len() && kept[w] == addition[j];
    assert((base + kept)[base.len() + w] == addition[j]);
}

/// The kept part of a merge of uniquely-keyed entries is itself
/// uniquely keyed, and none of its keys is one of `against`.
pub proof fn lemma_kept_entries_unique(
    from: Seq<(String, toml::Value)>,
    against: Seq<(String, toml::Value)>,
)
    requires
        unique_keys(from),
    ensures
        unique_keys(kept_entries(from, against)),
        forall|j: int|
            0 <= j < kept_entries(from, against).len() ==> !has_key(
                against,
                #[trigger] kept_entries(from, against)[j].0@,
            ),
    decreases from.len(),
{
    if from.len() > 0 {
        let prev = from.drop_last();
        assert(unique_keys(prev)) by {
            assert(forall|i: int| 0 <= i < prev.len() ==> prev[i] == from[i]);
        }
        lemma_kept_entries_unique(prev, against);
        let prev_kept = kept_entries(prev, against);
        let last = from.last();
        if !has_key(against, last.0@) {
            let kept = prev_kept.push(last);
            assert(!has_key(prev, last.0@)) by {
                if has_key(prev, last.0@) {
                    let i = choose|i: int| 0 <= i < prev.len() && prev[i].0@ == last.0@;
                    assert(from[i].0@ != from[from.len() - 1].0@);
                }
            }
            lemma_kept_entries_keys(prev, against, last.0@);
            assert(unique_keys(kept)) by {
                assert forall|i: int, j: int| 0 <= i < j < kept.len() implies #[trigger] kept[i].0@
                    != #[trigger] kept[j].0@ by {
                    if j < prev_kept.len() {
                        assert(prev_kept[i].0@ != prev_kept[j].0@);
                    } else {
                        assert(kept[j] == last);
                        if has_key(prev_kept, last.0@) {
                            assert(false);
                        }
                        assert(prev_kept[i].0@ != last.0@) by {
                            if prev_kept[i].0@ == last.0@ {
                                assert(has_key(prev_kept, last.0@));
                            }
                        }
                    }
                }
            }
        }
    }
}

/// A merge of two uniquely-keyed entry sequences is uniquely keyed.
pub proof fn lemma_merged_unique(
    base: Seq<(String, toml::Value)>,
    addition: Seq<(String, toml::Value)>,
)
    requires
        unique_keys(base),
        unique_keys(addition),
    ensures
        unique_keys(base + kept_entries(addition, base)),
{
    lemma_kept_entries_unique(addition, base);
    let kept = kept_entries(addition, base);
    let merged = base + kept;
    assert forall|i: int, j: int| 0 <= i < j < merged.len() implies #[trigger] merged[i].0@
        != #[trigger] merged[j].0@ by {
        if j < base.len() {
            assert(base[i].0@ != base[j].0@);
        } else if i >= base.len() {
            assert(kept[i - base.len()].0@ != kept[j - base.len()].0@);
        } else {
            assert(!has_key(base, kept[j - base.len()].0@));
            if base[i].0@ == kept[j - base.len()].0@ {
                assert(has_key(base, kept[j - base.len()].0@));
            }
        }
    }
}

/// Rewrite a manifest text with the fixed addition merged in: parse
/// both, merge entry for entry, and serialise the result.  The rewrite
/// succeeds exactly when both texts are well-formed documents, and the
/// rewritten text parses back to the merged entries: every original
/// entry, then the addition's entries under keys the original lacked.
pub fn update_manifest(manifest_text: &str, addition_text: &str) -> (r: Option<String>)
    ensures
        r is Some <==> toml_table_wf(manifest_text@) && toml_table_wf(addition_text@),
        r is Some ==> ({
            let base = toml_entries_of(manifest_text@);
            let merged = base + kept_entries(toml_entries_of(addition_text@), base);
            &&& r.unwrap()@ == rendered_of(merged)
            &&& toml_table_wf(r.unwrap()@)
            &&& toml_entries_of(r.unwrap()@).to_multiset() == merged.to_multiset()
        }),
{
    let base = match parse_manifest(manifest_text) {
        Some(t) => t,
        None => {
            return None;
        },
    };
    let addition = match parse_manifest(addition_text) {
        Some(t) => t,
        None => {
            return None;
        },
    };
    proof {
        lemma_merged_unique(base@, addition@);
    }
    let merged = merged_manifest(base, addition);
    render_manifest(merged)
}

} // verus!
