use autovpa::error::Error;
use autovpa::labels::LabelSelector;
use autovpa::labels::LabelSelectorRequirement;
use autovpa::labels::StringMap;
use autovpa::query::convert_label_selector_to_query_string;

fn labels_of(pairs: &[(&str, &str)]) -> StringMap {
    let mut entries: Vec<(String, String)> = Vec::new();
    for (k, v) in pairs {
        entries.push((k.to_string(), v.to_string()));
    }
    StringMap { entries }
}

fn req(key: &str, operator: &str, values: Option<&[&str]>) -> LabelSelectorRequirement {
    LabelSelectorRequirement {
        key: key.to_string(),
        operator: operator.to_string(),
        values: values.map(|vs| vs.iter().map(|v| v.to_string()).collect()),
    }
}

#[test]
fn test_query_equality_clauses() {
    let sel = LabelSelector {
        match_labels: Some(labels_of(&[("app", "x"), ("tier", "web")])),
        match_expressions: None,
    };
    assert_eq!(convert_label_selector_to_query_string(&sel), Ok("app=x,tier=web".to_string()));
}

#[test]
fn test_query_expression_clauses() {
    let sel = LabelSelector {
        match_labels: None,
        match_expressions: Some(vec![
            req("env", "In", Some(&["prod", "dev"])),
            req("zone", "NotIn", Some(&["a"])),
            req("app", "Exists", None),
            req("legacy", "DoesNotExist", Some(&[])),
        ]),
    };
    assert_eq!(
        convert_label_selector_to_query_string(&sel),
        Ok("env in (prod, dev),zone notin (a),app,!legacy".to_string())
    );
}

#[test]
fn test_query_mixed_clauses() {
    let sel = LabelSelector {
        match_labels: Some(labels_of(&[("app", "x")])),
        match_expressions: Some(vec![req("env", "In", Some(&["prod"]))]),
    };
    assert_eq!(convert_label_selector_to_query_string(&sel), Ok("app=x,env in (prod)".to_string()));
}

#[test]
fn test_query_empty_selector() {
    let sel = LabelSelector { match_labels: None, match_expressions: None };
    assert_eq!(convert_label_selector_to_query_string(&sel), Ok(String::new()));
}

#[test]
fn test_query_exists_with_values_is_error() {
    let sel = LabelSelector {
        match_labels: Some(labels_of(&[("app", "x")])),
        match_expressions: Some(vec![req("env", "Exists", Some(&["prod"]))]),
    };
    assert_eq!(
        convert_label_selector_to_query_string(&sel),
        Err(Error::InvalidLabelSelector(
            "LabelSelector has [Exists] operator with values, this is not legal".to_string()
        ))
    );
}

#[test]
fn test_query_does_not_exist_with_values_is_error() {
    let sel = LabelSelector {
        match_labels: None,
        match_expressions: Some(vec![req("env", "DoesNotExist", Some(&["prod"]))]),
    };
    assert_eq!(
        convert_label_selector_to_query_string(&sel),
        Err(Error::InvalidLabelSelector(
            "LabelSelector has [DoesNotExist] operator with values, this is not legal".to_string()
        ))
    );
}

#[test]
fn test_query_in_without_values_is_error() {
    let sel = LabelSelector {
        match_labels: None,
        match_expressions: Some(vec![req("env", "In", Some(&[]))]),
    };
    assert_eq!(
        convert_label_selector_to_query_string(&sel),
        Err(Error::InvalidLabelSelector(
            "LabelSelector has no or empty values for [In] operator".to_string()
        ))
    );
    let sel = LabelSelector {
        match_labels: None,
        match_expressions: Some(vec![req("env", "NotIn", None)]),
    };
    assert_eq!(
        convert_label_selector_to_query_string(&sel),
        Err(Error::InvalidLabelSelector(
            "LabelSelector has no or empty values for [NotIn] operator".to_string()
        ))
    );
}

#[test]
fn test_query_unknown_operator_is_error() {
    let sel = LabelSelector {
        match_labels: None,
        match_expressions: Some(vec![
            req("env", "Near", Some(&["x"])),
            req("other", "In", None),
        ]),
    };
    // The first uncompilable clause decides the diagnostic.
    assert_eq!(
        convert_label_selector_to_query_string(&sel),
        Err(Error::InvalidLabelSelector(
            "LabelSelector has illegal/unknown operator [Near]".to_string()
        ))
    );
}
