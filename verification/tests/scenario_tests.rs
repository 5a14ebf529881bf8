use nrush::fetch::FetchBatch;
use nrush::manifest::{collect_dependency_names, merge_names, DependencyClass};
use nrush::mutator::apply_candidates;
use nrush::planner::{plan_updates, UpdateCandidate};
use nrush::registry::{outcome_of_answer, registry_url};
use nrush::{get_version_range, normalize_version, package_ranking, package_type};
use serde_json::Value;

fn doc(text: &str) -> Value {
    serde_json::from_str(text).unwrap()
}

#[test]
fn an_outdated_package_is_planned_and_updated() {
    let mut manifest = doc(r#"{"dependencies":{"left-pad":"^1.0.0"}}"#);
    let (production, dev, peer) = collect_dependency_names(&manifest, false, false);
    let requested = merge_names(&production, &dev, &peer);
    assert_eq!(requested, vec!["left-pad".to_string()]);
    assert_eq!(
        registry_url(&requested[0]),
        "https://registry.npmjs.org/left-pad/latest"
    );

    let mut batch = FetchBatch::new(requested);
    assert!(batch.settle(0, Ok("1.3.0".to_string())));
    let outcomes = batch.outcomes().unwrap();

    let plan = plan_updates(&outcomes, &manifest, &dev, &peer, false);
    assert_eq!(
        plan,
        vec![UpdateCandidate {
            name: "left-pad".to_string(),
            latest: "1.3.0".to_string(),
            class: DependencyClass::Production,
        }]
    );

    assert_eq!(apply_candidates(&mut manifest, &plan, true), 1);
    assert_eq!(manifest, doc(r#"{"dependencies":{"left-pad":"^1.3.0"}}"#));
}

#[test]
fn a_manifest_that_is_up_to_date_is_not_touched() {
    let text = r#"{
        "name": "demo",
        "dependencies": { "left-pad": "^1.3.0", "lodash": "4.17.21" },
        "devDependencies": { "jest": "~29.7.0" }
    }"#;
    let mut manifest = doc(text);
    let (production, dev, peer) = collect_dependency_names(&manifest, true, true);
    let requested = merge_names(&production, &dev, &peer);
    assert_eq!(requested.len(), 3);
    let mut batch = FetchBatch::new(requested.clone());
    for (index, name) in requested.iter().enumerate() {
        let latest = match name.as_str() {
            "left-pad" => "1.3.0",
            "lodash" => "4.17.21",
            _ => "29.7.0",
        };
        assert!(batch.settle(index, Ok(latest.to_string())));
    }
    let plan = plan_updates(&batch.outcomes().unwrap(), &manifest, &dev, &peer, false);
    assert!(plan.is_empty());
    assert_eq!(apply_candidates(&mut manifest, &plan, true), 0);
    assert_eq!(manifest, doc(text));
}

#[test]
fn failed_lookups_do_not_stop_the_others() {
    let mut manifest = doc(
        r#"{
            "dependencies": {"a": "^1.0.0", "b": "~2.0.0", "c": "3.0.0"},
            "devDependencies": {"d": "^0.1.0"}
        }"#,
    );
    let (production, dev, peer) = collect_dependency_names(&manifest, true, false);
    let requested = merge_names(&production, &dev, &peer);
    let mut batch = FetchBatch::new(requested.clone());
    for index in (0..requested.len()).rev() {
        let outcome = match requested[index].as_str() {
            "a" => outcome_of_answer("a".to_string(), r#"{"version":"1.1.0"}"#),
            "b" => outcome_of_answer("b".to_string(), "<html>Bad Gateway</html>"),
            "c" => outcome_of_answer("c".to_string(), r#"{"error":"not found"}"#),
            _ => outcome_of_answer("d".to_string(), r#"{"version":"1.0.0"}"#),
        };
        let result = match outcome {
            nrush::planner::FetchOutcome::Fetched { latest, .. } => Ok(latest),
            nrush::planner::FetchOutcome::Failed { reason, .. } => Err(reason),
        };
        assert!(batch.settle(index, result));
    }
    assert_eq!(batch.progress(), 4);
    let outcomes = batch.outcomes().unwrap();
    assert_eq!(outcomes.len(), 4);
    let plan = plan_updates(&outcomes, &manifest, &dev, &peer, true);
    let planned: Vec<(&str, &str, DependencyClass)> = plan
        .iter()
        .map(|candidate| (candidate.name.as_str(), candidate.latest.as_str(), candidate.class))
        .collect();
    assert_eq!(
        planned,
        vec![
            ("a", "1.1.0", DependencyClass::Production),
            ("d", "1.0.0", DependencyClass::Dev),
        ]
    );
    assert_eq!(apply_candidates(&mut manifest, &plan, true), 2);
    assert_eq!(
        manifest,
        doc(
            r#"{
                "dependencies": {"a": "^1.1.0", "b": "~2.0.0", "c": "3.0.0"},
                "devDependencies": {"d": "^1.0.0"}
            }"#
        )
    );
}

#[test]
fn the_public_names_are_found_at_the_root() {
    assert_eq!(normalize_version("^1.2.3"), "1.2.3");
    assert_eq!(get_version_range("^1.2.3"), "^");
    assert_eq!(package_type(&false, &false), "prod");
    assert_eq!(package_ranking("(minor)"), 2);
}
