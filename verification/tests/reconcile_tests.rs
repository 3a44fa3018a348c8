use autovpa::cluster::ClusterState;
use autovpa::error::Error;
use autovpa::labels::LabelSelector;
use autovpa::labels::LabelSelectorRequirement;
use autovpa::labels::StringMap;
use autovpa::objects::AutoVPA;
use autovpa::objects::AutoVPASpec;
use autovpa::objects::GroupVersionKind;
use autovpa::objects::KindBatch;
use autovpa::objects::ObjectMeta;
use autovpa::objects::VerticalPodAutoscalerSpec;
use autovpa::objects::VerticalPodAutoscalerTemplateSpec;
use autovpa::objects::Workload;
use autovpa::reconcile::Action;
use autovpa::reconcile::error_policy;
use autovpa::reconcile::reconcile_plan;
use autovpa::router::route;

fn labels_of(pairs: &[(&str, &str)]) -> StringMap {
    let mut entries: Vec<(String, String)> = Vec::new();
    for (k, v) in pairs {
        entries.push((k.to_string(), v.to_string()));
    }
    StringMap { entries }
}

fn meta(name: Option<&str>, namespace: Option<&str>, uid: Option<&str>) -> ObjectMeta {
    ObjectMeta {
        name: name.map(|s| s.to_string()),
        namespace: namespace.map(|s| s.to_string()),
        uid: uid.map(|s| s.to_string()),
        labels: StringMap::new(),
        owner_references: Vec::new(),
    }
}

fn policy(
    name: &str,
    uid: Option<&str>,
    namespace_filter: Option<&[&str]>,
    selector: Option<LabelSelector>,
) -> AutoVPA {
    AutoVPA {
        metadata: meta(Some(name), None, uid),
        spec: AutoVPASpec {
            namespace_selector: namespace_filter
                .map(|ns| ns.iter().map(|s| s.to_string()).collect()),
            object_selector: selector,
            vpa_template: VerticalPodAutoscalerTemplateSpec {
                metadata: None,
                template: VerticalPodAutoscalerSpec {
                    target_ref: None,
                    settings: "updateMode=Auto".to_string(),
                },
            },
        },
        status: None,
    }
}

fn workload(name: &str, namespace: &str, pairs: &[(&str, &str)]) -> Workload {
    Workload {
        name: Some(name.to_string()),
        namespace: Some(namespace.to_string()),
        labels: labels_of(pairs),
    }
}

fn deployments(items: Vec<Workload>) -> KindBatch {
    KindBatch {
        gvk: GroupVersionKind {
            group: "apps".to_string(),
            version: "v1".to_string(),
            kind: "Deployment".to_string(),
        },
        items,
    }
}

fn app_x_selector() -> LabelSelector {
    LabelSelector { match_labels: Some(labels_of(&[("app", "x")])), match_expressions: None }
}

#[test]
fn test_reconcile_namespace_filter_scenario() {
    // Policy with namespaceFilter ["ns-a"] and selector {app: x}; two
    // workloads carrying app=x, one in ns-a and one in ns-b: exactly
    // one derived object, targeting the first, and a match count of 1.
    let p = policy("p", Some("uid-1"), Some(&["ns-a"]), Some(app_x_selector()));
    let discovered = vec![deployments(vec![
        workload("w1", "ns-a", &[("app", "x")]),
        workload("w2", "ns-b", &[("app", "x")]),
    ])];
    let plan = reconcile_plan(&p, &discovered).unwrap();
    assert_eq!(plan.desired.len(), 1);
    assert_eq!(plan.status.matched, 1);
    let d = &plan.desired[0];
    assert_eq!(d.metadata.name, Some("w1-policy".to_string()));
    assert_eq!(d.metadata.namespace, Some("ns-a".to_string()));
    assert_eq!(d.metadata.owner_references.len(), 1);
    let o = &d.metadata.owner_references[0];
    assert_eq!(o.api_version, "autovpa.dev/v1".to_string());
    assert_eq!(o.kind, "AutoVPA".to_string());
    assert_eq!(o.name, "p".to_string());
    assert_eq!(o.uid, "uid-1".to_string());
    assert!(o.controller);
    let tr = d.spec.target_ref.as_ref().unwrap();
    assert_eq!(tr.api_version, Some("apps/v1".to_string()));
    assert_eq!(tr.kind, "Deployment".to_string());
    assert_eq!(tr.name, "w1".to_string());
    assert_eq!(d.spec.settings, "updateMode=Auto".to_string());
}

#[test]
fn test_reconcile_absent_selector_yields_nothing() {
    // objectSelector entirely absent: zero derived objects and a match
    // count of zero, whatever the workloads' labels.
    let p = policy("p", Some("uid-1"), None, None);
    let discovered = vec![deployments(vec![
        workload("w1", "ns-a", &[("app", "x")]),
        workload("w2", "ns-b", &[("whatever", "y")]),
    ])];
    let plan = reconcile_plan(&p, &discovered).unwrap();
    assert_eq!(plan.desired.len(), 0);
    assert_eq!(plan.status.matched, 0);
}

#[test]
fn test_reconcile_missing_owner_metadata() {
    let p = policy("p", None, None, Some(app_x_selector()));
    let discovered = vec![deployments(vec![workload("w1", "ns-a", &[("app", "x")])])];
    assert_eq!(reconcile_plan(&p, &discovered).unwrap_err(), Error::InvalidOwnerRef);
}

#[test]
fn test_reconcile_invalid_selector() {
    let bad = LabelSelector {
        match_labels: None,
        match_expressions: Some(vec![LabelSelectorRequirement {
            key: "env".to_string(),
            operator: "Exists".to_string(),
            values: Some(vec!["prod".to_string()]),
        }]),
    };
    let p = policy("p", Some("uid-1"), None, Some(bad));
    let discovered = vec![deployments(Vec::new())];
    match reconcile_plan(&p, &discovered).unwrap_err() {
        Error::InvalidLabelSelector(msg) => {
            assert_eq!(
                msg,
                "LabelSelector has [Exists] operator with values, this is not legal".to_string()
            );
        },
        other => panic!("expected an invalid-selector error, got {:?}", other),
    }
}

#[test]
fn test_reconcile_skips_workload_without_name() {
    let p = policy("p", Some("uid-1"), None, Some(app_x_selector()));
    let nameless = Workload {
        name: None,
        namespace: Some("ns-a".to_string()),
        labels: labels_of(&[("app", "x")]),
    };
    let discovered = vec![deployments(vec![nameless, workload("w1", "ns-a", &[("app", "x")])])];
    let plan = reconcile_plan(&p, &discovered).unwrap();
    assert_eq!(plan.desired.len(), 1);
    assert_eq!(plan.status.matched, 1);
    assert_eq!(plan.desired[0].metadata.name, Some("w1-policy".to_string()));
}

#[test]
fn test_reconcile_multiple_kinds() {
    let p = policy("p", Some("uid-1"), None, Some(app_x_selector()));
    let jobs = KindBatch {
        gvk: GroupVersionKind {
            group: "batch".to_string(),
            version: "v1".to_string(),
            kind: "Job".to_string(),
        },
        items: vec![workload("j1", "ns-a", &[("app", "x")])],
    };
    let discovered = vec![deployments(vec![workload("w1", "ns-a", &[("app", "x")])]), jobs];
    let plan = reconcile_plan(&p, &discovered).unwrap();
    assert_eq!(plan.status.matched, 2);
    assert_eq!(plan.desired[0].spec.target_ref.as_ref().unwrap().kind, "Deployment".to_string());
    assert_eq!(plan.desired[1].spec.target_ref.as_ref().unwrap().kind, "Job".to_string());
    assert_eq!(
        plan.desired[1].spec.target_ref.as_ref().unwrap().api_version,
        Some("batch/v1".to_string())
    );
}

#[test]
fn test_apply_is_idempotent() {
    // Applying the same desired object twice yields the same cluster
    // state as applying it once.
    let p = policy("p", Some("uid-1"), None, Some(app_x_selector()));
    let discovered = vec![deployments(vec![workload("w1", "ns-a", &[("app", "x")])])];
    let plan = reconcile_plan(&p, &discovered).unwrap();
    let plan2 = reconcile_plan(&p, &discovered).unwrap();

    let mut state = ClusterState::new();
    for d in plan.desired {
        state.apply(d);
    }
    assert_eq!(state.objects.len(), 1);
    for d in plan2.desired {
        state.apply(d);
    }
    assert_eq!(state.objects.len(), 1);
    assert_eq!(state.objects[0].metadata.name, Some("w1-policy".to_string()));
    assert_eq!(state.objects[0].spec.settings, "updateMode=Auto".to_string());
}

#[test]
fn test_owner_cascade_removes_derived_objects() {
    // Deleting the owning policy object removes all of its derived
    // objects, and nothing else.
    let p = policy("p", Some("uid-1"), None, Some(app_x_selector()));
    let discovered = vec![deployments(vec![
        workload("w1", "ns-a", &[("app", "x")]),
        workload("w2", "ns-a", &[("app", "x")]),
    ])];
    let plan = reconcile_plan(&p, &discovered).unwrap();
    assert_eq!(plan.desired.len(), 2);

    let other = policy("q", Some("uid-2"), None, Some(app_x_selector()));
    let other_plan =
        reconcile_plan(&other, &vec![deployments(vec![workload("w3", "ns-b", &[("app", "x")])])])
            .unwrap();

    let mut state = ClusterState::new();
    for d in plan.desired {
        state.apply(d);
    }
    for d in other_plan.desired {
        state.apply(d);
    }
    assert_eq!(state.objects.len(), 3);

    state.cascade_delete("uid-1");
    assert_eq!(state.objects.len(), 1);
    assert_eq!(state.objects[0].metadata.name, Some("w3-policy".to_string()));

    state.cascade_delete("uid-2");
    assert_eq!(state.objects.len(), 0);
}

#[test]
fn test_api_version_of_core_group() {
    let core = GroupVersionKind {
        group: String::new(),
        version: "v1".to_string(),
        kind: "ReplicationController".to_string(),
    };
    assert_eq!(core.api_version(), "v1".to_string());
    let apps = GroupVersionKind {
        group: "apps".to_string(),
        version: "v1".to_string(),
        kind: "Deployment".to_string(),
    };
    assert_eq!(apps.api_version(), "apps/v1".to_string());
}

#[test]
fn test_error_policy_requeues() {
    let p = policy("p", Some("uid-1"), None, None);
    let a = error_policy(&p, &Error::InvalidOwnerRef);
    assert_eq!(a, Action::Requeue { seconds: 5 });
}

#[test]
fn test_err() {
}

#[test]
fn test_error_messages() {
    assert_eq!(
        Error::InvalidLabelSelector("bad".to_string()).message(),
        "LabelSelector is invalid: bad".to_string()
    );
    assert_eq!(Error::InvalidOwnerRef.message(), "Failed to get owner ref".to_string());
    assert_eq!(
        Error::MissingObjectKey(".metadata.name".to_string()).message(),
        "MissingObjectKey: .metadata.name".to_string()
    );
    assert_eq!(
        Error::UpstreamUnavailable("timeout".to_string()).message(),
        "Kubernetes reported error: timeout".to_string()
    );
}

#[test]
fn test_route_first_match() {
    let p1 = policy("p1", Some("uid-1"), Some(&["ns-a"]), Some(app_x_selector()));
    let p2 = policy("p2", Some("uid-2"), None, Some(app_x_selector()));
    let policies = vec![p1, p2];

    // Both match a workload in ns-a: the first in snapshot order wins.
    let w = workload("w1", "ns-a", &[("app", "x")]);
    assert_eq!(route(&w, &policies), Some("p1".to_string()));

    // Only the unfiltered policy matches a workload in ns-b.
    let w = workload("w2", "ns-b", &[("app", "x")]);
    assert_eq!(route(&w, &policies), Some("p2".to_string()));

    // No policy matches a workload without the label.
    let w = workload("w3", "ns-a", &[("app", "y")]);
    assert_eq!(route(&w, &policies), None);
}
