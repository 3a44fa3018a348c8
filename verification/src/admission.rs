//! The admission validator's decision core: given the parsed fields of
//! an admission request, decide allow or deny.  A request is denied
//! when it does not target the expected resource, when the object
//! carries no spec, when a replica bound is missing or not an integer,
//! or when the minimum exceeds the maximum.  The response echoes the
//! request's correlation id.

use vstd::prelude::*;

use vstd::string::StringExecFns;

use crate::strings::str_eq;

verus! {

/// The resource a request targets, as `apiVersion` and kind.
#[derive(Debug)]
pub struct ResourceId {
    pub api_version: String,
    pub kind: String,
}

/// The replica bounds read from the object's spec; a field is `None`
/// when it is missing or not an integer.
#[derive(Debug)]
pub struct ReplicaBounds {
    pub min_replicas: Option<u64>,
    pub max_replicas: Option<u64>,
}

/// One admission request, reduced to the fields the decision reads.
#[derive(Debug)]
pub struct AdmissionRequest {
    pub uid: String,
    pub resource: ResourceId,
    pub spec: Option<ReplicaBounds>,
}

/// A denial: a failure status and a human-readable message.
#[derive(Debug)]
pub struct ErrorResponse {
    pub status: String,
    pub message: String,
}

/// The decision returned to the cluster, echoing the request's uid.
#[derive(Debug)]
pub struct AdmissionResponse {
    pub uid: String,
    pub allowed: bool,
    pub status: Option<ErrorResponse>,
}

/// Whether the request targets the expected resource.
pub open spec fn expected_resource(r: ResourceId) -> bool {
    r.api_version@ == "autoscalergenie.example.com/v1alpha1"@ && r.kind@ == "AutoScalerGenie"@
}

/// Whether a request must be allowed.
pub open spec fn request_valid(req: AdmissionRequest) -> bool {
    &&& expected_resource(req.resource)
    &&& req.spec matches Some(b) && {
        &&& b.min_replicas matches Some(mn) && b.max_replicas matches Some(mx) && mn <= mx
    }
}

/// The message of the denial, decided by the first failing check.
pub open spec fn denial_message(req: AdmissionRequest) -> Seq<char> {
    if !expected_resource(req.resource) {
        "Expected resource of type 'autoscalergenie.example.com/v1alpha1' 'AutoScalerGenie'"@
    } else if req.spec is None {
        "Object does not have a 'spec' field"@
    } else if req.spec->0.min_replicas is None {
        "'minReplicas' field is missing or not an integer"@
    } else if req.spec->0.max_replicas is None {
        "'maxReplicas' field is missing or not an integer"@
    } else {
        "'minReplicas' cannot be greater than 'maxReplicas'"@
    }
}

/// Validates one admission request; denies exactly the invalid ones,
/// with the first failing check's diagnostic and a failure status.
pub fn validate_autoscaler_genie(req: &AdmissionRequest) -> (r: Result<(), ErrorResponse>)
    ensures
        r is Ok <==> request_valid(*req),
        r matches Err(e) ==> e.status@ == "Failure"@ && e.message@ == denial_message(*req),
{
    let resource_ok = str_eq(
        req.resource.api_version.as_str(),
        "autoscalergenie.example.com/v1alpha1",
    ) && str_eq(req.resource.kind.as_str(), "AutoScalerGenie");
    if !resource_ok {
        return Err(
            ErrorResponse {
                status: "Failure".to_owned(),
                message:
                    "Expected resource of type 'autoscalergenie.example.com/v1alpha1' 'AutoScalerGenie'".to_owned(),
            },
        );
    }
    let bounds = match &req.spec {
        Some(b) => b,
        None => {
            return Err(
                ErrorResponse {
                    status: "Failure".to_owned(),
                    message: "Object does not have a 'spec' field".to_owned(),
                },
            );
        },
    };
    let mn = match bounds.min_replicas {
        Some(v) => v,
        None => {
            return Err(
                ErrorResponse {
                    status: "Failure".to_owned(),
                    message: "'minReplicas' field is missing or not an integer".to_owned(),
                },
            );
        },
    };
    let mx = match bounds.max_replicas {
        Some(v) => v,
        None => {
            return Err(
                ErrorResponse {
                    status: "Failure".to_owned(),
                    message: "'maxReplicas' field is missing or not an integer".to_owned(),
                },
            );
        },
    };
    if mn > mx {
        return Err(
            ErrorResponse {
                status: "Failure".to_owned(),
                message: "'minReplicas' cannot be greater than 'maxReplicas'".to_owned(),
            },
        );
    }
    Ok(())
}

/// Builds the decision for one request: allowed exactly when it is
/// valid, the uid echoed, and the denial carried on refusal.
pub fn admission_response(req: &AdmissionRequest) -> (resp: AdmissionResponse)
    ensures
        resp.uid@ == req.uid@,
        resp.allowed <==> request_valid(*req),
        resp.allowed ==> resp.status is None,
        !resp.allowed ==> (resp.status matches Some(e) && e.status@ == "Failure"@ && e.message@
            == denial_message(*req)),
{
    match validate_autoscaler_genie(req) {
        Ok(()) => AdmissionResponse { uid: req.uid.clone(), allowed: true, status: None },
        Err(e) => AdmissionResponse { uid: req.uid.clone(), allowed: false, status: Some(e) },
    }
}

} // verus!
