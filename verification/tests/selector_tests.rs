use autovpa::labels::LabelSelector;
use autovpa::labels::LabelSelectorRequirement;
use autovpa::labels::StringMap;
use autovpa::labels::match_label;
use autovpa::labels::matches_candidate;

fn labels_of(pairs: &[(&str, &str)]) -> StringMap {
    let mut entries: Vec<(String, String)> = Vec::new();
    for (k, v) in pairs {
        entries.push((k.to_string(), v.to_string()));
    }
    StringMap { entries }
}

fn req(key: &str, operator: &str, values: Option<&[&str]>) -> LabelSelectorRequirement {
    LabelSelectorRequirement {
        key: key.to_string(),
        operator: operator.to_string(),
        values: values.map(|vs| vs.iter().map(|v| v.to_string()).collect()),
    }
}

#[test]
fn test_match_labels() {
    let selector = LabelSelector {
        match_labels: Some(labels_of(&[("app", "lll")])),
        match_expressions: None,
    };
    let labels = labels_of(&[("app", "lll")]);
    assert!(match_label(&selector, &labels));

    let labels = labels_of(&[("app", "ll")]);
    assert!(!match_label(&selector, &labels));
}

#[test]
fn test_match_labels_superset() {
    // Equality clauses only: matching is exactly the superset check.
    let selector = LabelSelector {
        match_labels: Some(labels_of(&[("app", "x"), ("tier", "web")])),
        match_expressions: Some(Vec::new()),
    };
    let superset = labels_of(&[("app", "x"), ("tier", "web"), ("extra", "y")]);
    assert!(match_label(&selector, &superset));
    let missing_key = labels_of(&[("app", "x")]);
    assert!(!match_label(&selector, &missing_key));
    let wrong_value = labels_of(&[("app", "x"), ("tier", "db")]);
    assert!(!match_label(&selector, &wrong_value));
}

#[test]
fn test_match_expressions_operators() {
    let labels = labels_of(&[("env", "prod"), ("app", "x")]);

    let in_sel = LabelSelector {
        match_labels: None,
        match_expressions: Some(vec![req("env", "In", Some(&["prod", "dev"]))]),
    };
    assert!(match_label(&in_sel, &labels));

    let notin_sel = LabelSelector {
        match_labels: None,
        match_expressions: Some(vec![req("env", "NotIn", Some(&["prod"]))]),
    };
    assert!(!match_label(&notin_sel, &labels));
    let absent_key_notin = LabelSelector {
        match_labels: None,
        match_expressions: Some(vec![req("missing", "NotIn", Some(&["prod"]))]),
    };
    assert!(match_label(&absent_key_notin, &labels));

    let exists_sel = LabelSelector {
        match_labels: None,
        match_expressions: Some(vec![req("app", "Exists", None)]),
    };
    assert!(match_label(&exists_sel, &labels));

    let notexists_sel = LabelSelector {
        match_labels: None,
        match_expressions: Some(vec![req("missing", "DoesNotExist", None)]),
    };
    assert!(match_label(&notexists_sel, &labels));

    // An unknown operator never matches.
    let unknown_sel = LabelSelector {
        match_labels: None,
        match_expressions: Some(vec![req("app", "Near", Some(&["x"]))]),
    };
    assert!(!match_label(&unknown_sel, &labels));
}

#[test]
fn test_empty_selector_matches_everything() {
    let empty = LabelSelector { match_labels: None, match_expressions: None };
    let labels = labels_of(&[("anything", "at-all")]);
    assert!(match_label(&empty, &labels));
    assert!(match_label(&empty, &labels_of(&[])));
}

#[test]
fn test_absent_selector_matches_nothing() {
    // The policy-level evaluator: absent selector selects nothing,
    // present-but-empty selector selects everything.
    let labels = labels_of(&[("app", "x")]);
    assert!(!matches_candidate(&None, &None, "ns-a", &labels));
    let empty = LabelSelector { match_labels: None, match_expressions: None };
    assert!(matches_candidate(&None, &Some(empty), "ns-a", &labels));
}

#[test]
fn test_namespace_filter() {
    let empty = LabelSelector { match_labels: None, match_expressions: None };
    let filter = Some(vec!["ns-a".to_string(), "ns-b".to_string()]);
    let labels = labels_of(&[]);
    let sel = Some(empty);
    assert!(matches_candidate(&filter, &sel, "ns-a", &labels));
    assert!(matches_candidate(&filter, &sel, "ns-b", &labels));
    assert!(!matches_candidate(&filter, &sel, "ns-c", &labels));
}

#[test]
fn test_string_map_lookup() {
    let mut m = StringMap::new();
    m.insert("a".to_string(), "1".to_string());
    m.insert("b".to_string(), "2".to_string());
    m.insert("a".to_string(), "3".to_string());
    assert_eq!(m.get("a"), Some("3".to_string()));
    assert_eq!(m.get("b"), Some("2".to_string()));
    assert_eq!(m.get("c"), None);
}
