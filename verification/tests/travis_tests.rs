use cargo_teensy::travis::get_zinc_travis_yaml;

#[test]
fn the_rust_field_yields_its_date_token() {
    let yaml = "language: rust\nrust: nightly-2016-03-01\nscript: make\n";
    assert_eq!(
        get_zinc_travis_yaml(yaml),
        Some(String::from("2016-03-01"))
    );
}

#[test]
fn a_stable_rust_field_is_kept_verbatim() {
    let yaml = "rust: stable\n";
    assert_eq!(get_zinc_travis_yaml(yaml), Some(String::from("stable")));
}

#[test]
fn a_rust_field_without_a_token_fails() {
    assert_eq!(get_zinc_travis_yaml("rust: beta\n"), None);
}

#[test]
fn a_document_without_the_rust_field_fails() {
    assert_eq!(get_zinc_travis_yaml("language: rust\n"), None);
}

#[test]
fn an_empty_stream_fails() {
    assert_eq!(get_zinc_travis_yaml(""), None);
}

#[test]
fn an_unparsable_stream_fails() {
    assert_eq!(get_zinc_travis_yaml("rust: [unclosed\n  - broken"), None);
}

#[test]
fn a_non_mapping_document_fails() {
    assert_eq!(get_zinc_travis_yaml("- just\n- a\n- list\n"), None);
}
