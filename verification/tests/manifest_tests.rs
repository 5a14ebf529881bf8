use nrush::manifest::{
    classify_package, collect_dependency_names, declared_specifier, get_current_package_version,
    is_listed, merge_names, parse_manifest, render_manifest, DependencyClass, NOT_FOUND,
};
use serde_json::Value;

fn doc(text: &str) -> Value {
    serde_json::from_str(text).unwrap()
}

fn names(list: &[&str]) -> Vec<String> {
    list.iter().map(|name| name.to_string()).collect()
}

const MANIFEST: &str = r#"{
    "name": "demo",
    "version": "1.0.0",
    "dependencies": { "left-pad": "^1.0.0", "lodash": "4.17.21", "react": "*" },
    "devDependencies": { "jest": "~29.0.0", "lodash": "^3.0.0" },
    "peerDependencies": { "react": ">=17.0.0" }
}"#;

#[test]
fn section_keys_are_those_of_a_package_manifest() {
    assert_eq!(DependencyClass::Production.section(), "dependencies");
    assert_eq!(DependencyClass::Dev.section(), "devDependencies");
    assert_eq!(DependencyClass::Peer.section(), "peerDependencies");
}

#[test]
fn class_from_flags_prefers_dev() {
    assert_eq!(DependencyClass::from_flags(true, false), DependencyClass::Dev);
    assert_eq!(DependencyClass::from_flags(true, true), DependencyClass::Dev);
    assert_eq!(DependencyClass::from_flags(false, true), DependencyClass::Peer);
    assert_eq!(
        DependencyClass::from_flags(false, false),
        DependencyClass::Production
    );
}

#[test]
fn sentinel_text() {
    assert_eq!(NOT_FOUND, "Version not found");
}

#[test]
fn is_listed_compares_whole_names() {
    let list = names(&["jest", "lodash"]);
    assert!(is_listed(&list, "jest"));
    assert!(is_listed(&list, "lodash"));
    assert!(!is_listed(&list, "lod"));
    assert!(!is_listed(&list, "lodash2"));
    assert!(!is_listed(&list, ""));
    assert!(!is_listed(&Vec::new(), "jest"));
}

#[test]
fn class_is_dev_then_peer_then_production() {
    let dev = names(&["jest", "lodash"]);
    let peer = names(&["react", "lodash"]);
    assert_eq!(classify_package("jest", &dev, &peer), DependencyClass::Dev);
    assert_eq!(classify_package("lodash", &dev, &peer), DependencyClass::Dev);
    assert_eq!(classify_package("react", &dev, &peer), DependencyClass::Peer);
    assert_eq!(
        classify_package("left-pad", &dev, &peer),
        DependencyClass::Production
    );
}

#[test]
fn declared_specifier_reads_the_set_of_the_class() {
    let manifest = doc(MANIFEST);
    assert_eq!(
        declared_specifier(&manifest, DependencyClass::Production, "lodash"),
        Some("4.17.21".to_string())
    );
    assert_eq!(
        declared_specifier(&manifest, DependencyClass::Dev, "lodash"),
        Some("^3.0.0".to_string())
    );
    assert_eq!(
        declared_specifier(&manifest, DependencyClass::Peer, "lodash"),
        None
    );
    assert_eq!(
        declared_specifier(&manifest, DependencyClass::Peer, "react"),
        Some(">=17.0.0".to_string())
    );
}

#[test]
fn declared_specifier_wants_a_string() {
    let manifest = doc(
        r#"{"dependencies": {
            "a": 1, "b": null, "c": {"version": "1.0.0"}, "d": ["1.0.0"], "e": ""
        }}"#,
    );
    assert_eq!(declared_specifier(&manifest, DependencyClass::Production, "a"), None);
    assert_eq!(declared_specifier(&manifest, DependencyClass::Production, "b"), None);
    assert_eq!(declared_specifier(&manifest, DependencyClass::Production, "c"), None);
    assert_eq!(declared_specifier(&manifest, DependencyClass::Production, "d"), None);
    assert_eq!(
        declared_specifier(&manifest, DependencyClass::Production, "e"),
        Some(String::new())
    );
}

#[test]
fn declared_specifier_of_a_document_that_is_no_object() {
    for text in [
        "null",
        "[]",
        "\"dependencies\"",
        "3",
        r#"{"dependencies": "x"}"#,
        r#"{"dependencies": ["a"]}"#,
    ] {
        let manifest = doc(text);
        assert_eq!(
            declared_specifier(&manifest, DependencyClass::Production, "a"),
            None
        );
    }
}

#[test]
fn current_version_is_read_from_the_class_of_the_package() {
    let manifest = doc(MANIFEST);
    let dev = names(&["jest", "lodash"]);
    let peer = names(&["react"]);
    assert_eq!(
        get_current_package_version("left-pad", &manifest, &dev, &peer),
        "^1.0.0"
    );
    assert_eq!(
        get_current_package_version("lodash", &manifest, &dev, &peer),
        "^3.0.0"
    );
    assert_eq!(
        get_current_package_version("react", &manifest, &dev, &peer),
        ">=17.0.0"
    );
    assert_eq!(
        get_current_package_version("jest", &manifest, &dev, &peer),
        "~29.0.0"
    );
}

#[test]
fn current_version_without_name_lists_is_the_production_one() {
    let manifest = doc(MANIFEST);
    let none: Vec<String> = Vec::new();
    assert_eq!(
        get_current_package_version("lodash", &manifest, &none, &none),
        "4.17.21"
    );
    assert_eq!(
        get_current_package_version("react", &manifest, &none, &none),
        "*"
    );
}

#[test]
fn current_version_of_an_undeclared_package_is_the_sentinel() {
    let manifest = doc(MANIFEST);
    let none: Vec<String> = Vec::new();
    assert_eq!(
        get_current_package_version("jest", &manifest, &none, &none),
        "Version not found"
    );
    assert_eq!(
        get_current_package_version("left-pad", &manifest, &names(&["left-pad"]), &none),
        "Version not found"
    );
    assert_eq!(
        get_current_package_version("x", &doc("{}"), &none, &none),
        "Version not found"
    );
}

#[test]
fn collect_gives_production_names_only_by_default() {
    let manifest = doc(MANIFEST);
    let (production, dev, peer) = collect_dependency_names(&manifest, false, false);
    let mut sorted = production.clone();
    sorted.sort();
    assert_eq!(sorted, names(&["left-pad", "lodash", "react"]));
    assert!(dev.is_empty());
    assert!(peer.is_empty());
}

#[test]
fn collect_gives_the_sets_that_are_asked_for() {
    let manifest = doc(MANIFEST);
    let (production, mut dev, peer) = collect_dependency_names(&manifest, true, true);
    assert_eq!(production.len(), 3);
    dev.sort();
    assert_eq!(dev, names(&["jest", "lodash"]));
    assert_eq!(peer, names(&["react"]));
    let (_, dev, peer) = collect_dependency_names(&manifest, true, false);
    assert_eq!(dev.len(), 2);
    assert!(peer.is_empty());
    let (_, dev, peer) = collect_dependency_names(&manifest, false, true);
    assert!(dev.is_empty());
    assert_eq!(peer, names(&["react"]));
}

#[test]
fn collect_names_every_key_once() {
    let manifest = doc(r#"{"dependencies": {"a": "1.0.0", "a": "2.0.0", "b": 7}}"#);
    let (mut production, _, _) = collect_dependency_names(&manifest, true, true);
    production.sort();
    assert_eq!(production, names(&["a", "b"]));
}

#[test]
fn collect_of_a_manifest_without_sets_is_empty() {
    for text in ["{}", "null", "[]", r#"{"dependencies": "x"}"#, r#"{"dependencies": null}"#] {
        let manifest = doc(text);
        let (production, dev, peer) = collect_dependency_names(&manifest, true, true);
        assert!(production.is_empty());
        assert!(dev.is_empty());
        assert!(peer.is_empty());
    }
}

#[test]
fn merge_puts_production_first_and_keeps_repeats() {
    let all = merge_names(
        &names(&["a", "b"]),
        &names(&["c", "a"]),
        &names(&["d"]),
    );
    assert_eq!(all, names(&["a", "b", "c", "a", "d"]));
    let none: Vec<String> = Vec::new();
    assert_eq!(merge_names(&none, &none, &none), none);
    assert_eq!(merge_names(&none, &names(&["x"]), &none), names(&["x"]));
}

#[test]
fn parse_manifest_reads_json() {
    assert_eq!(parse_manifest(MANIFEST), Ok(doc(MANIFEST)));
    assert_eq!(parse_manifest("{}"), Ok(doc("{}")));
    assert_eq!(parse_manifest(" [1, 2] "), Ok(doc("[1,2]")));
}

#[test]
fn parse_manifest_fails_on_what_is_no_json() {
    for text in ["", "package.json", "{", "{\"dependencies\": }", "{} {}"] {
        let error = parse_manifest(text).unwrap_err();
        assert!(!error.reason.is_empty());
    }
}

#[test]
fn render_manifest_writes_indented_json() {
    let manifest = doc(r#"{"dependencies":{"left-pad":"^1.3.0"}}"#);
    assert_eq!(
        render_manifest(&manifest),
        Ok("{\n  \"dependencies\": {\n    \"left-pad\": \"^1.3.0\"\n  }\n}".to_string())
    );
    assert_eq!(render_manifest(&doc("{}")), Ok("{}".to_string()));
}

#[test]
fn what_is_rendered_reads_back_as_the_same_manifest() {
    let manifest = doc(MANIFEST);
    let text = render_manifest(&manifest).unwrap();
    assert_eq!(parse_manifest(&text), Ok(manifest));
}
