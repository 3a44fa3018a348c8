//! The engine's data model: policy objects, watched workloads, and the
//! derived autoscaling objects, together with the small helpers that
//! compute owner references and API-version strings.
//!
//! Workloads of several kinds run through one generic representation
//! carrying just what the engine reads: namespace, name and labels.

use vstd::prelude::*;

use vstd::string::StringExecFns;

use crate::labels::LabelSelector;
use crate::labels::StringMap;

verus! {

/// The (group, version, kind) triple identifying one workload kind.
#[derive(Debug)]
pub struct GroupVersionKind {
    pub group: String,
    pub version: String,
    pub kind: String,
}

impl GroupVersionKind {
    /// The `apiVersion` string of this kind: `group/version`, or the
    /// bare version for the core group.
    pub open spec fn spec_api_version(self) -> Seq<char> {
        if self.group@.len() == 0 {
            self.version@
        } else {
            self.group@ + "/"@ + self.version@
        }
    }

    pub fn api_version(&self) -> (r: String)
        ensures
            r@ == self.spec_api_version(),
    {
        if self.group.as_str().is_empty() {
            self.version.clone()
        } else {
            let mut r = self.group.clone();
            r.append("/");
            r.append(self.version.as_str());
            r
        }
    }
}

/// A structural link to an owning object; the cluster's garbage
/// collector deletes a dependent when its owner disappears.
#[derive(Debug)]
pub struct OwnerReference {
    pub api_version: String,
    pub kind: String,
    pub name: String,
    pub uid: String,
    pub controller: bool,
    pub block_owner_deletion: bool,
}

/// Copies an owner reference.
pub fn clone_owner_ref(o: &OwnerReference) -> (r: OwnerReference)
    ensures
        r == *o,
{
    OwnerReference {
        api_version: o.api_version.clone(),
        kind: o.kind.clone(),
        name: o.name.clone(),
        uid: o.uid.clone(),
        controller: o.controller,
        block_owner_deletion: o.block_owner_deletion,
    }
}

/// Object metadata, reduced to what the engine reads and writes.
#[derive(Debug)]
pub struct ObjectMeta {
    pub name: Option<String>,
    pub namespace: Option<String>,
    pub uid: Option<String>,
    pub labels: StringMap,
    pub owner_references: Vec<OwnerReference>,
}

/// One discovered workload: its identity and its label map.  Workloads
/// are read-only to the engine.
#[derive(Debug)]
pub struct Workload {
    pub name: Option<String>,
    pub namespace: Option<String>,
    pub labels: StringMap,
}

/// The workloads of one kind returned by one discovery pass.
#[derive(Debug)]
pub struct KindBatch {
    pub gvk: GroupVersionKind,
    pub items: Vec<Workload>,
}

/// The reference spec skeleton of a derived object's target.
#[derive(Debug)]
pub struct VerticalPodAutoscalerTargetRef {
    pub api_version: Option<String>,
    pub kind: String,
    pub name: String,
}

/// The spec of a derived autoscaling object: the computed target
/// reference plus the template's remaining spec fields, carried
/// opaquely and copied verbatim.
#[derive(Debug)]
pub struct VerticalPodAutoscalerSpec {
    pub target_ref: Option<VerticalPodAutoscalerTargetRef>,
    pub settings: String,
}

/// The template a policy object carries: metadata overrides and a spec
/// skeleton for the derived objects.
#[derive(Debug)]
pub struct VerticalPodAutoscalerTemplateSpec {
    pub metadata: Option<ObjectMeta>,
    pub template: VerticalPodAutoscalerSpec,
}

/// One derived autoscaling object.
#[derive(Debug)]
pub struct VerticalPodAutoscaler {
    pub metadata: ObjectMeta,
    pub spec: VerticalPodAutoscalerSpec,
}

/// The spec of a policy object: an optional namespace filter, an
/// optional object selector, and the template for derived objects.
#[derive(Debug)]
pub struct AutoVPASpec {
    pub namespace_selector: Option<Vec<String>>,
    pub object_selector: Option<LabelSelector>,
    pub vpa_template: VerticalPodAutoscalerTemplateSpec,
}

/// The reported status of a policy object: how many workloads the last
/// reconcile pass matched.
#[derive(Debug)]
pub struct AutoVPAStatus {
    pub matched: i32,
}

/// A policy object.
#[derive(Debug)]
pub struct AutoVPA {
    pub metadata: ObjectMeta,
    pub spec: AutoVPASpec,
    pub status: Option<AutoVPAStatus>,
}

/// Whether a policy object carries enough metadata to be an owner.
pub open spec fn owner_resolvable(policy: AutoVPA) -> bool {
    policy.metadata.name is Some && policy.metadata.uid is Some
}

/// What the controller owner reference of a policy object holds.
pub open spec fn is_policy_owner_ref(o: OwnerReference, policy: AutoVPA) -> bool {
    &&& o.api_version@ == "autovpa.dev/v1"@
    &&& o.kind@ == "AutoVPA"@
    &&& o.name@ == policy.metadata.name->0@
    &&& o.uid@ == policy.metadata.uid->0@
    &&& o.controller
    &&& o.block_owner_deletion
}

/// Computes the controller owner reference of a policy object; fails
/// exactly when the object's metadata lacks a name or a uid.
pub fn controller_owner_ref(policy: &AutoVPA) -> (r: Option<OwnerReference>)
    ensures
        r is Some <==> owner_resolvable(*policy),
        r matches Some(o) ==> is_policy_owner_ref(o, *policy),
{
    let name = match &policy.metadata.name {
        Some(n) => n.clone(),
        None => {
            return None;
        },
    };
    let uid = match &policy.metadata.uid {
        Some(u) => u.clone(),
        None => {
            return None;
        },
    };
    Some(
        OwnerReference {
            api_version: "autovpa.dev/v1".to_owned(),
            kind: "AutoVPA".to_owned(),
            name,
            uid,
            controller: true,
            block_owner_deletion: true,
        },
    )
}

} // verus!
