use nrush::planner::FetchOutcome;
use nrush::registry::{latest_version_of, outcome_of_answer, read_latest_version, registry_url};
use serde_json::Value;

fn doc(text: &str) -> Value {
    serde_json::from_str(text).unwrap()
}

#[test]
fn registry_url_names_the_latest_release() {
    assert_eq!(
        registry_url("left-pad"),
        "https://registry.npmjs.org/left-pad/latest"
    );
    assert_eq!(
        registry_url("@types/node"),
        "https://registry.npmjs.org/@types/node/latest"
    );
    assert_eq!(registry_url(""), "https://registry.npmjs.org//latest");
}

#[test]
fn latest_version_is_the_version_member() {
    assert_eq!(
        latest_version_of(&doc(r#"{"name":"left-pad","version":"1.3.0"}"#)),
        "1.3.0"
    );
    assert_eq!(latest_version_of(&doc(r#"{"version":""}"#)), "");
}

#[test]
fn latest_version_without_a_version_string_is_the_sentinel() {
    for text in [
        "{}",
        r#"{"name":"left-pad"}"#,
        r#"{"version":3}"#,
        r#"{"version":null}"#,
        r#"{"version":["1.0.0"]}"#,
        r#"{"version":{"version":"1.0.0"}}"#,
        r#"{"Version":"1.0.0"}"#,
        "null",
        "\"1.0.0\"",
        "[\"version\"]",
    ] {
        assert_eq!(latest_version_of(&doc(text)), "Version not found");
    }
}

#[test]
fn read_latest_version_reads_a_json_body() {
    assert_eq!(
        read_latest_version(r#"{"version":"1.3.0"}"#).unwrap(),
        "1.3.0"
    );
    assert_eq!(
        read_latest_version(r#" { "dist": {}, "version" : "10.0.0-rc.1" } "#).unwrap(),
        "10.0.0-rc.1"
    );
    assert_eq!(read_latest_version("{}").unwrap(), "Version not found");
    assert_eq!(read_latest_version("\"Not Found\"").unwrap(), "Version not found");
}

#[test]
fn read_latest_version_fails_on_what_is_no_json() {
    assert!(read_latest_version("").is_err());
    assert!(read_latest_version("<html></html>").is_err());
    assert!(read_latest_version("{\"version\":").is_err());
    assert!(read_latest_version("{} trailing").is_err());
    let error = read_latest_version("not json").unwrap_err();
    assert!(!error.reason.is_empty());
}

#[test]
fn outcome_of_an_answer_carries_the_name() {
    assert_eq!(
        outcome_of_answer("left-pad".to_string(), r#"{"version":"1.3.0"}"#),
        FetchOutcome::Fetched {
            name: "left-pad".to_string(),
            latest: "1.3.0".to_string()
        }
    );
    assert_eq!(
        outcome_of_answer("left-pad".to_string(), "{}"),
        FetchOutcome::Fetched {
            name: "left-pad".to_string(),
            latest: "Version not found".to_string()
        }
    );
    match outcome_of_answer("left-pad".to_string(), "oops") {
        FetchOutcome::Failed { name, reason } => {
            assert_eq!(name, "left-pad");
            assert!(!reason.is_empty());
        }
        other => panic!("unexpected outcome {:?}", other),
    }
}
