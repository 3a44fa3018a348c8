//! One reconcile pass for one policy object: given the policy and the
//! workloads discovered for each configured kind, validate the
//! selector, resolve the owner reference, and compute the desired set
//! of derived objects together with the status to report.
//!
//! The caller performs the surrounding I/O: it lists workloads with the
//! compiled query, applies each desired object idempotently, patches
//! the status, and re-enqueues the policy object after a fixed delay on
//! failure.

use vstd::prelude::*;

use vstd::string::StringExecFns;

use crate::error::Error;
use crate::labels::StringMap;
use crate::labels::candidate_matches;
use crate::labels::matches_candidate;
use crate::objects::AutoVPA;
use crate::objects::AutoVPAStatus;
use crate::objects::GroupVersionKind;
use crate::objects::KindBatch;
use crate::objects::ObjectMeta;
use crate::objects::OwnerReference;
use crate::objects::VerticalPodAutoscaler;
use crate::objects::VerticalPodAutoscalerSpec;
use crate::objects::VerticalPodAutoscalerTargetRef;
use crate::objects::Workload;
use crate::objects::clone_owner_ref;
use crate::objects::controller_owner_ref;
use crate::objects::is_policy_owner_ref;
use crate::objects::owner_resolvable;
use crate::query::convert_label_selector_to_query_string;
use crate::query::first_bad_index;
use crate::query::req_error_message;
use crate::query::selector_compilable;

verus! {

/// What the scheduler is told to do next with a policy object.
#[derive(Clone, Copy, Debug, PartialEq, Eq, Structural)]
pub enum Action {
    AwaitChange,
    Requeue { seconds: u64 },
}

/// Whether the policy selects this workload: the workload must carry a
/// name and a namespace, its namespace must pass the filter, and its
/// labels must match the selector.
pub open spec fn workload_selected(policy: AutoVPA, w: Workload) -> bool {
    &&& w.name is Some
    &&& w.namespace is Some
    &&& candidate_matches(
        policy.spec.namespace_selector,
        policy.spec.object_selector,
        w.namespace->0@,
        w.labels,
    )
}

/// The selected workloads of one discovery batch, in batch order.
pub open spec fn selected(policy: AutoVPA, items: Seq<Workload>) -> Seq<Workload>
    decreases items.len(),
{
    if items.len() == 0 {
        Seq::empty()
    } else {
        let rest = selected(policy, items.drop_last());
        if workload_selected(policy, items.last()) {
            rest.push(items.last())
        } else {
            rest
        }
    }
}

/// Each workload of a batch paired with the batch's kind.
pub open spec fn pairs_of(gvk: GroupVersionKind, ws: Seq<Workload>) -> Seq<
    (GroupVersionKind, Workload),
> {
    Seq::new(ws.len(), |i: int| (gvk, ws[i]))
}

/// The (kind, workload) pairs a reconcile pass must derive objects
/// for, across all batches, in discovery order.
pub open spec fn desired_pairs(policy: AutoVPA, bs: Seq<KindBatch>) -> Seq<
    (GroupVersionKind, Workload),
>
    decreases bs.len(),
{
    if bs.len() == 0 {
        Seq::empty()
    } else {
        desired_pairs(policy, bs.drop_last()) + pairs_of(
            bs.last().gvk,
            selected(policy, bs.last().items@),
        )
    }
}

/// How many workloads the batches hold in all.
pub open spec fn total_items(bs: Seq<KindBatch>) -> int
    decreases bs.len(),
{
    if bs.len() == 0 {
        0
    } else {
        total_items(bs.drop_last()) + bs.last().items@.len()
    }
}

proof fn lemma_selected_len(policy: AutoVPA, items: Seq<Workload>)
    ensures
        selected(policy, items).len() <= items.len(),
    decreases items.len(),
{
    if items.len() > 0 {
        lemma_selected_len(policy, items.drop_last());
    }
}

proof fn lemma_desired_len(policy: AutoVPA, bs: Seq<KindBatch>)
    ensures
        desired_pairs(policy, bs).len() <= total_items(bs),
    decreases bs.len(),
{
    if bs.len() > 0 {
        lemma_desired_len(policy, bs.drop_last());
        lemma_selected_len(policy, bs.last().items@);
    }
}

/// The label entries the template's metadata overrides contribute to
/// each derived object.
pub open spec fn template_labels(policy: AutoVPA) -> Seq<(String, String)> {
    match policy.spec.vpa_template.metadata {
        None => Seq::<(String, String)>::empty(),
        Some(m) => m.labels.entries@,
    }
}

/// What the derived object for one (kind, workload) pair must hold:
/// its name is the workload's name with the `-policy` suffix, it lives
/// in the workload's namespace, it is owned by the policy object, its
/// target reference points at the workload, and the remaining spec is
/// the template's, verbatim.
pub open spec fn vpa_matches_desired(
    v: VerticalPodAutoscaler,
    policy: AutoVPA,
    gvk: GroupVersionKind,
    w: Workload,
) -> bool {
    &&& v.metadata.name matches Some(n) && n@ == w.name->0@ + "-policy"@
    &&& v.metadata.namespace matches Some(ns) && ns@ == w.namespace->0@
    &&& v.metadata.uid is None
    &&& v.metadata.labels.entries@ == template_labels(policy)
    &&& v.metadata.owner_references@.len() == 1
    &&& is_policy_owner_ref(v.metadata.owner_references@[0], policy)
    &&& v.spec.target_ref matches Some(tr) && {
        &&& tr.api_version matches Some(av) && av@ == gvk.spec_api_version()
        &&& tr.kind@ == gvk.kind@
        &&& tr.name@ == w.name->0@
    }
    &&& v.spec.settings@ == policy.spec.vpa_template.template.settings@
}

/// The outcome of a successful reconcile pass: the derived objects to
/// apply, and the status to patch onto the policy object.
#[derive(Debug)]
pub struct ReconcilePlan {
    pub desired: Vec<VerticalPodAutoscaler>,
    pub status: AutoVPAStatus,
}

/// Whether a reconcile pass of this policy object can succeed: its
/// selector, when present, must be compilable, and its metadata must
/// yield an owner reference.
pub open spec fn plan_ok(policy: AutoVPA) -> bool {
    &&& (match policy.spec.object_selector {
        None => true,
        Some(s) => selector_compilable(s),
    })
    &&& owner_resolvable(policy)
}

/// The desired objects over all discovered pairs.
pub open spec fn plan_matches(plan: ReconcilePlan, policy: AutoVPA, bs: Seq<KindBatch>) -> bool {
    let des = desired_pairs(policy, bs);
    &&& plan.desired@.len() == des.len()
    &&& forall|i: int|
        0 <= i < des.len() ==> vpa_matches_desired(
            #[trigger] plan.desired@[i],
            policy,
            des[i].0,
            des[i].1,
        )
    &&& plan.status.matched == des.len()
}

/// Computes one reconcile pass.  An uncompilable selector fails with
/// the selector's own diagnostic; a policy object without name or uid
/// fails with an owner-reference error; otherwise the plan derives one
/// object per selected workload and reports the match count.  A
/// workload without a name or a namespace is skipped, never fatal.
pub fn reconcile_plan(policy: &AutoVPA, discovered: &Vec<KindBatch>) -> (r: Result<
    ReconcilePlan,
    Error,
>)
    requires
        total_items(discovered@) <= 0x7fff_ffff,
    ensures
        r is Ok <==> plan_ok(*policy),
        r matches Err(e) ==> (e is InvalidLabelSelector <==> (
        policy.spec.object_selector matches Some(s) && !selector_compilable(s))),
        r matches Err(e) ==> ((match policy.spec.object_selector {
            None => true,
            Some(s) => selector_compilable(s),
        }) ==> e == Error::InvalidOwnerRef),
        r matches Err(e) ==> (e matches Error::InvalidLabelSelector(m) ==> (
        policy.spec.object_selector matches Some(s) && s.match_expressions is Some && m@
            == req_error_message(
            s.match_expressions->0@[first_bad_index(s.match_expressions->0@)],
        ))),
        r matches Ok(plan) ==> plan_matches(plan, *policy, discovered@),
{
    if let Some(sel) = &policy.spec.object_selector {
        match convert_label_selector_to_query_string(sel) {
            Ok(_) => {},
            Err(e) => {
                return Err(e);
            },
        }
    }
    let oref = match controller_owner_ref(policy) {
        Some(o) => o,
        None => {
            return Err(Error::InvalidOwnerRef);
        },
    };

    let mut desired: Vec<VerticalPodAutoscaler> = Vec::new();
    let nb = discovered.len();
    proof {
        assert(discovered@.take(0) =~= Seq::<KindBatch>::empty());
    }
    for b in 0..nb
        invariant
            nb == discovered@.len(),
            total_items(discovered@) <= 0x7fff_ffff,
            is_policy_owner_ref(oref, *policy),
            desired@.len() == desired_pairs(*policy, discovered@.take(b as int)).len(),
            forall|i: int|
                0 <= i < desired@.len() ==> vpa_matches_desired(
                    #[trigger] desired@[i],
                    *policy,
                    desired_pairs(*policy, discovered@.take(b as int))[i].0,
                    desired_pairs(*policy, discovered@.take(b as int))[i].1,
                ),
    {
        let items_len = discovered[b].items.len();
        proof {
            assert(selected(*policy, discovered@[b as int].items@.take(0))
                =~= Seq::<Workload>::empty());
            assert(desired_pairs(*policy, discovered@.take(b as int)) + pairs_of(
                discovered@[b as int].gvk,
                Seq::<Workload>::empty(),
            ) =~= desired_pairs(*policy, discovered@.take(b as int)));
        }
        for j in 0..items_len
            invariant
                nb == discovered@.len(),
                b < nb,
                total_items(discovered@) <= 0x7fff_ffff,
                is_policy_owner_ref(oref, *policy),
                items_len == discovered@[b as int].items@.len(),
                desired@.len() == (desired_pairs(*policy, discovered@.take(b as int)) + pairs_of(
                    discovered@[b as int].gvk,
                    selected(*policy, discovered@[b as int].items@.take(j as int)),
                )).len(),
                forall|i: int|
                    0 <= i < desired@.len() ==> vpa_matches_desired(
                        #[trigger] desired@[i],
                        *policy,
                        (desired_pairs(*policy, discovered@.take(b as int)) + pairs_of(
                            discovered@[b as int].gvk,
                            selected(*policy, discovered@[b as int].items@.take(j as int)),
                        ))[i].0,
                        (desired_pairs(*policy, discovered@.take(b as int)) + pairs_of(
                            discovered@[b as int].gvk,
                            selected(*policy, discovered@[b as int].items@.take(j as int)),
                        ))[i].1,
                    ),
        {
            let ghost prior = desired_pairs(*policy, discovered@.take(b as int)) + pairs_of(
                discovered@[b as int].gvk,
                selected(*policy, discovered@[b as int].items@.take(j as int)),
            );
            proof {
                assert(discovered@[b as int].items@.take(j as int + 1).drop_last()
                    =~= discovered@[b as int].items@.take(j as int));
                assert(discovered@[b as int].items@.take(j as int + 1).last()
                    == discovered@[b as int].items@[j as int]);
            }
            match (&discovered[b].items[j].name, &discovered[b].items[j].namespace) {
                (Some(n), Some(ns)) => {
                    if matches_candidate(
                        &policy.spec.namespace_selector,
                        &policy.spec.object_selector,
                        ns.as_str(),
                        &discovered[b].items[j].labels,
                    ) {
                        let mut vpa_name = n.clone();
                        vpa_name.append("-policy");
                        let tr = VerticalPodAutoscalerTargetRef {
                            api_version: Some(gvk_api_version(&discovered[b].gvk)),
                            kind: gvk_kind(&discovered[b].gvk),
                            name: n.clone(),
                        };
                        let tmpl_labels = match &policy.spec.vpa_template.metadata {
                            Some(m) => m.labels.duplicate(),
                            None => StringMap::new(),
                        };
                        let mut ors: Vec<OwnerReference> = Vec::new();
                        ors.push(clone_owner_ref(&oref));
                        let vpa = VerticalPodAutoscaler {
                            metadata: ObjectMeta {
                                name: Some(vpa_name),
                                namespace: Some(ns.clone()),
                                uid: None,
                                labels: tmpl_labels,
                                owner_references: ors,
                            },
                            spec: VerticalPodAutoscalerSpec {
                                target_ref: Some(tr),
                                settings: policy.spec.vpa_template.template.settings.clone(),
                            },
                        };
                        proof {
                            assert(workload_selected(*policy, discovered@[b as int].items@[j as int]));
                        }
                        desired.push(vpa);
                        proof {
                            let now = desired_pairs(*policy, discovered@.take(b as int)) + pairs_of(
                                discovered@[b as int].gvk,
                                selected(
                                    *policy,
                                    discovered@[b as int].items@.take(j as int + 1),
                                ),
                            );
                            assert(now =~= prior.push(
                                (
                                    discovered@[b as int].gvk,
                                    discovered@[b as int].items@[j as int],
                                ),
                            ));
                        }
                    } else {
                        proof {
                            assert(!workload_selected(
                                *policy,
                                discovered@[b as int].items@[j as int],
                            ));
                        }
                    }
                },
                _ => {
                    proof {
                        assert(!workload_selected(*policy, discovered@[b as int].items@[j as int]));
                    }
                },
            }
        }
        proof {
            assert(discovered@[b as int].items@.take(items_len as int)
                =~= discovered@[b as int].items@);
            assert(discovered@.take(b as int + 1).drop_last() =~= discovered@.take(b as int));
            assert(discovered@.take(b as int + 1).last() == discovered@[b as int]);
        }
    }
    proof {
        assert(discovered@.take(nb as int) =~= discovered@);
        lemma_desired_len(*policy, discovered@);
    }
    let count = desired.len();
    let matched = count as i32;
    Ok(ReconcilePlan { desired, status: AutoVPAStatus { matched } })
}

/// Borrow-free copy of a kind's `apiVersion`.
fn gvk_api_version(gvk: &GroupVersionKind) -> (r: String)
    ensures
        r@ == gvk.spec_api_version(),
{
    gvk.api_version()
}

/// Borrow-free copy of a kind's name.
fn gvk_kind(gvk: &GroupVersionKind) -> (r: String)
    ensures
        r@ == gvk.kind@,
{
    gvk.kind.clone()
}

/// With the object selector entirely absent, a reconcile pass selects
/// nothing: it derives no object and reports a match count of zero,
/// whatever workloads were discovered.
pub proof fn lemma_absent_selector_selects_nothing(policy: AutoVPA, bs: Seq<KindBatch>)
    requires
        policy.spec.object_selector is None,
    ensures
        desired_pairs(policy, bs).len() == 0,
    decreases bs.len(),
{
    if bs.len() > 0 {
        lemma_absent_selector_selects_nothing(policy, bs.drop_last());
        lemma_absent_selector_selects_no_items(policy, bs.last().items@);
    }
}

/// The same, stated of the plan itself: a successful reconcile pass
/// of a policy without an object selector holds no derived object and
/// reports a match count of zero.
pub proof fn lemma_absent_selector_plan(plan: ReconcilePlan, policy: AutoVPA, bs: Seq<KindBatch>)
    requires
        plan_matches(plan, policy, bs),
        policy.spec.object_selector is None,
    ensures
        plan.desired@.len() == 0,
        plan.status.matched == 0,
{
    lemma_absent_selector_selects_nothing(policy, bs);
}

proof fn lemma_absent_selector_selects_no_items(policy: AutoVPA, items: Seq<Workload>)
    requires
        policy.spec.object_selector is None,
    ensures
        selected(policy, items).len() == 0,
    decreases items.len(),
{
    if items.len() > 0 {
        lemma_absent_selector_selects_no_items(policy, items.drop_last());
    }
}

/// A failed reconcile attempt is retried on a fixed schedule.
pub fn error_policy(_obj: &AutoVPA, _error: &Error) -> (a: Action)
    ensures
        a == (Action::Requeue { seconds: 5u64 }),
{
    Action::Requeue { seconds: 5 }
}

} // verus!
