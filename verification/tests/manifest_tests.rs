use cargo_teensy::manifest::{binname, key_index, manifest_binname, merged_manifest, update_manifest};

const ADDITION: &str = r#"
[features]
default = ["mcu_k20"]
mcu_k20 = ["zinc/mcu_k20"]

[dependencies]
rust-libcore = "*"

[dependencies.zinc]
git = "https://github.com/hackndev/zinc.git"
branch = "master"

[dependencies.macro_zinc]
git = "https://github.com/hackndev/zinc.git"
branch = "master"
path = "macro_zinc"
"#;

fn entries_of(text: &str) -> Vec<(String, toml::Value)> {
    let table: toml::Table = text.parse().unwrap();
    table.into_iter().collect()
}

#[test]
fn binname_reads_the_package_name() {
    let entries = entries_of("[package]\nname = \"foo\"\n");
    assert_eq!(binname(&entries), Some(String::from("foo")));
}

#[test]
fn binname_without_a_package_table_fails() {
    let entries = entries_of("[dependencies]\nserde = \"1\"\n");
    assert_eq!(binname(&entries), None);
}

#[test]
fn binname_without_a_name_field_fails() {
    let entries = entries_of("[package]\nversion = \"0.1.0\"\n");
    assert_eq!(binname(&entries), None);
}

#[test]
fn manifest_binname_reads_the_name_from_text() {
    let text = "[package]\nname = \"foo\"\nversion = \"0.1.0\"\n";
    assert_eq!(manifest_binname(text), Some(String::from("foo")));
}

#[test]
fn manifest_binname_rejects_a_broken_document() {
    assert_eq!(manifest_binname("[package\nname = "), None);
}

#[test]
fn key_index_finds_the_first_matching_entry() {
    let entries = entries_of("[a]\nx = 1\n\n[b]\ny = 2\n");
    assert_eq!(key_index(&entries, "a"), Some(0));
    assert_eq!(key_index(&entries, "b"), Some(1));
    assert_eq!(key_index(&entries, "c"), None);
}

#[test]
fn rewritten_manifest_keeps_originals_and_gains_the_additions() {
    let original = "[package]\nname = \"foo\"\nversion = \"0.1.0\"\n";
    let rewritten = update_manifest(original, ADDITION).unwrap();

    let table: toml::Table = rewritten.parse().unwrap();
    let package = table["package"].as_table().unwrap();
    assert_eq!(package["name"].as_str(), Some("foo"));
    assert_eq!(package["version"].as_str(), Some("0.1.0"));

    let features = table["features"].as_table().unwrap();
    assert!(features.contains_key("default"));
    assert!(features.contains_key("mcu_k20"));

    let deps = table["dependencies"].as_table().unwrap();
    assert!(deps.contains_key("rust-libcore"));
    assert!(deps.contains_key("zinc"));
    assert!(deps.contains_key("macro_zinc"));
}

#[test]
fn rewriting_a_broken_manifest_fails() {
    assert_eq!(update_manifest("not = toml = at all", ADDITION), None);
}

#[test]
fn rewriting_with_a_broken_addition_fails() {
    assert_eq!(update_manifest("[package]\nname = \"foo\"\n", "[x\ny"), None);
}

#[test]
fn merge_keeps_the_original_value_on_a_shared_key() {
    let base = entries_of("[dependencies]\nold = \"1\"\n");
    let addition = entries_of("[dependencies]\nnew = \"2\"\n");
    let merged = merged_manifest(base, addition);
    assert_eq!(merged.len(), 1);
    assert_eq!(merged[0].0, "dependencies");
    let deps = merged[0].1.as_table().unwrap();
    assert!(deps.contains_key("old"));
    assert!(!deps.contains_key("new"));
}

#[test]
fn rewriting_never_overwrites_an_original_key() {
    let original = "[package]\nname = \"foo\"\n\n[dependencies]\nmine = \"1\"\n";
    let rewritten = update_manifest(original, ADDITION).unwrap();
    let table: toml::Table = rewritten.parse().unwrap();
    let deps = table["dependencies"].as_table().unwrap();
    assert!(deps.contains_key("mine"));
    assert!(!deps.contains_key("rust-libcore"));
    assert_eq!(table["package"]["name"].as_str(), Some("foo"));
    assert!(table["features"].as_table().unwrap().contains_key("mcu_k20"));
}

#[test]
fn merge_keeps_disjoint_entries_of_both_sides() {
    let base = entries_of("[package]\nname = \"foo\"\n");
    let addition = entries_of("[features]\ndefault = []\n");
    let merged = merged_manifest(base, addition);
    let keys: Vec<&str> = merged.iter().map(|e| e.0.as_str()).collect();
    assert_eq!(keys, vec!["package", "features"]);
}

#[test]
fn merge_with_an_empty_addition_changes_nothing() {
    let base = entries_of("[package]\nname = \"foo\"\n");
    let addition = entries_of("");
    let merged = merged_manifest(base.clone(), addition);
    assert_eq!(merged.len(), 1);
    assert_eq!(merged[0].0, "package");
    assert_eq!(merged[0].1, base[0].1);
}
