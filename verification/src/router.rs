//! The reverse-index router: given one observed workload and the
//! cached snapshot of all policy objects, name the policy object that
//! must be re-reconciled because of this workload's change.
//!
//! The router never performs I/O: it scans the snapshot it is handed
//! and returns the first policy whose filter and selector match the
//! workload, in snapshot order.

use vstd::prelude::*;

use crate::labels::candidate_matches;
use crate::labels::match_label;
use crate::labels::matches_candidate;
use crate::labels::selector_matches;
use crate::objects::AutoVPA;
use crate::objects::Workload;

verus! {

/// Whether a workload change concerns a policy: a namespaced workload
/// goes through the full filter; a workload without a namespace passes
/// only policies with no namespace filter, on selector match alone.
pub open spec fn routes_to(policy: AutoVPA, w: Workload) -> bool {
    match w.namespace {
        Some(ns) => candidate_matches(
            policy.spec.namespace_selector,
            policy.spec.object_selector,
            ns@,
            w.labels,
        ),
        None => policy.spec.namespace_selector is None && (match policy.spec.object_selector {
            None => false,
            Some(s) => selector_matches(s, w.labels),
        }),
    }
}

/// The identity under which a policy object is scheduled: its name, or
/// the empty string when the metadata carries none.
pub open spec fn policy_ref_name(policy: AutoVPA) -> Seq<char> {
    match policy.metadata.name {
        Some(n) => n@,
        None => Seq::empty(),
    }
}

/// Scans the snapshot and returns the reference of the first policy
/// object that the workload's change concerns, if any.
pub fn route(workload: &Workload, policies: &Vec<AutoVPA>) -> (r: Option<String>)
    ensures
        r matches Some(name) ==> exists|i: int|
            0 <= i < policies@.len() && #[trigger] routes_to(policies@[i], *workload) && name@
                == policy_ref_name(policies@[i]) && (forall|j: int|
                0 <= j < i ==> !routes_to(#[trigger] policies@[j], *workload)),
        r is None ==> forall|i: int|
            0 <= i < policies@.len() ==> !routes_to(#[trigger] policies@[i], *workload),
{
    let n = policies.len();
    for i in 0..n
        invariant
            n == policies@.len(),
            forall|j: int| 0 <= j < i ==> !routes_to(#[trigger] policies@[j], *workload),
    {
        let hit = match &workload.namespace {
            Some(ns) => matches_candidate(
                &policies[i].spec.namespace_selector,
                &policies[i].spec.object_selector,
                ns.as_str(),
                &workload.labels,
            ),
            None => {
                if policies[i].spec.namespace_selector.is_some() {
                    false
                } else {
                    match &policies[i].spec.object_selector {
                        None => false,
                        Some(s) => match_label(s, &workload.labels),
                    }
                }
            },
        };
        if hit {
            let name = match &policies[i].metadata.name {
                Some(nm) => nm.clone(),
                None => String::new(),
            };
            proof {
                let ii = i as int;
                assert(routes_to(policies@[ii], *workload));
                assert(name@ == policy_ref_name(policies@[ii]));
            }
            return Some(name);
        }
    }
    None
}

} // verus!
