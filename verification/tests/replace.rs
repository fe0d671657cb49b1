use cargonode::replace::Replacer;

#[test]
fn test_replace_placeholders() {
    let mut rep = Replacer::new();
    rep.add("name", "cargonode");
    rep.add("version", "0.1.0");

    let haystack = "name: {{ name }}\nversion: {{ version }}";
    let expected = "name: cargonode\nversion: 0.1.0";
    assert_eq!(rep.with_haystack(haystack), expected);
}

#[test]
fn test_replace_placeholders_missing() {
    let rep = Replacer::new();
    let haystack = "name: {{ name }}\nversion: {{ version }}";
    let expected = "name: {{MISSING}}\nversion: {{MISSING}}";
    assert_eq!(rep.with_haystack(haystack), expected);
}

#[test]
fn test_replace_placeholders_empty() {
    let rep = Replacer::new();
    let haystack = "";
    let expected = "";
    assert_eq!(rep.with_haystack(haystack), expected);
}
