use autovpa::admission::AdmissionRequest;
use autovpa::admission::ReplicaBounds;
use autovpa::admission::ResourceId;
use autovpa::admission::admission_response;
use autovpa::admission::validate_autoscaler_genie;

fn request(
    api_version: &str,
    kind: &str,
    spec: Option<(Option<u64>, Option<u64>)>,
) -> AdmissionRequest {
    AdmissionRequest {
        uid: "req-7".to_string(),
        resource: ResourceId { api_version: api_version.to_string(), kind: kind.to_string() },
        spec: spec.map(|(mn, mx)| ReplicaBounds { min_replicas: mn, max_replicas: mx }),
    }
}

fn genie(spec: Option<(Option<u64>, Option<u64>)>) -> AdmissionRequest {
    request("autoscalergenie.example.com/v1alpha1", "AutoScalerGenie", spec)
}

#[test]
fn test_admission_allows_valid_request() {
    let req = genie(Some((Some(1), Some(5))));
    assert!(validate_autoscaler_genie(&req).is_ok());
    let resp = admission_response(&req);
    assert!(resp.allowed);
    assert_eq!(resp.uid, "req-7".to_string());
    assert!(resp.status.is_none());

    // Equal bounds are allowed.
    assert!(validate_autoscaler_genie(&genie(Some((Some(3), Some(3))))).is_ok());
}

#[test]
fn test_admission_rejects_wrong_resource() {
    let req = request("apps/v1", "Deployment", Some((Some(1), Some(5))));
    let e = validate_autoscaler_genie(&req).unwrap_err();
    assert_eq!(e.status, "Failure".to_string());
    let resp = admission_response(&req);
    assert!(!resp.allowed);
    assert_eq!(resp.uid, "req-7".to_string());
}

#[test]
fn test_admission_rejects_missing_spec() {
    let e = validate_autoscaler_genie(&genie(None)).unwrap_err();
    assert_eq!(e.message, "Object does not have a 'spec' field".to_string());
}

#[test]
fn test_admission_rejects_missing_bounds() {
    let e = validate_autoscaler_genie(&genie(Some((None, Some(5))))).unwrap_err();
    assert_eq!(e.message, "'minReplicas' field is missing or not an integer".to_string());
    let e = validate_autoscaler_genie(&genie(Some((Some(1), None)))).unwrap_err();
    assert_eq!(e.message, "'maxReplicas' field is missing or not an integer".to_string());
}

#[test]
fn test_admission_rejects_inverted_bounds() {
    let e = validate_autoscaler_genie(&genie(Some((Some(6), Some(5))))).unwrap_err();
    assert_eq!(e.message, "'minReplicas' cannot be greater than 'maxReplicas'".to_string());
    assert_eq!(e.status, "Failure".to_string());
}
