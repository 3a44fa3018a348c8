//! A model of the store substrate the engine writes through: an
//! idempotent, identity-keyed apply, and the owner-reference cascade
//! the cluster's garbage collector performs when a policy object is
//! deleted.  The engine itself never mutates cluster state directly;
//! this model pins down what it relies on: applying the same desired
//! object twice leaves the same state as applying it once, and
//! deleting an owner removes every object it owns.

use vstd::prelude::*;

use crate::objects::AutoVPA;
use crate::objects::GroupVersionKind;
use crate::objects::VerticalPodAutoscaler;
use crate::objects::Workload;
use crate::reconcile::vpa_matches_desired;
use crate::strings::str_eq;

verus! {

/// The identity an apply write is keyed by: namespace and name, the
/// empty string standing in for an absent field.
pub open spec fn vpa_key(v: VerticalPodAutoscaler) -> (Seq<char>, Seq<char>) {
    (
        match v.metadata.namespace {
            Some(ns) => ns@,
            None => Seq::empty(),
        },
        match v.metadata.name {
            Some(n) => n@,
            None => Seq::empty(),
        },
    )
}

/// What an apply write does: replace the first object with the same
/// identity, or append the object when none has it.
pub open spec fn spec_apply(s: Seq<VerticalPodAutoscaler>, o: VerticalPodAutoscaler) -> Seq<
    VerticalPodAutoscaler,
>
    decreases s.len(),
{
    if s.len() == 0 {
        seq![o]
    } else if vpa_key(s[0]) == vpa_key(o) {
        seq![o] + s.skip(1)
    } else {
        seq![s[0]] + spec_apply(s.skip(1), o)
    }
}

/// Whether an object carries an owner reference with this uid.
pub open spec fn owned_by(v: VerticalPodAutoscaler, uid: Seq<char>) -> bool {
    exists|i: int|
        0 <= i < v.metadata.owner_references@.len()
            && #[trigger] v.metadata.owner_references@[i].uid@ == uid
}

/// What the garbage collector's cascade does when the owner with this
/// uid is deleted: every object owned by it disappears, everything
/// else stays, in order.
pub open spec fn spec_cascade(s: Seq<VerticalPodAutoscaler>, uid: Seq<char>) -> Seq<
    VerticalPodAutoscaler,
>
    decreases s.len(),
{
    if s.len() == 0 {
        Seq::empty()
    } else {
        let rest = spec_cascade(s.drop_last(), uid);
        if owned_by(s.last(), uid) {
            rest
        } else {
            rest.push(s.last())
        }
    }
}

/// Applying the same object twice yields the same state as applying it
/// once: no duplicate appears and no field drifts.
pub proof fn lemma_apply_idempotent(s: Seq<VerticalPodAutoscaler>, o: VerticalPodAutoscaler)
    ensures
        spec_apply(spec_apply(s, o), o) == spec_apply(s, o),
    decreases s.len(),
{
    if s.len() == 0 {
        assert(spec_apply(s, o) == seq![o]);
        assert(seq![o].skip(1) =~= Seq::<VerticalPodAutoscaler>::empty());
        assert(seq![o] + seq![o].skip(1) =~= seq![o]);
    } else if vpa_key(s[0]) == vpa_key(o) {
        let t = seq![o] + s.skip(1);
        assert(spec_apply(s, o) == t);
        assert(t[0] == o);
        assert(t.skip(1) =~= s.skip(1));
        assert(seq![o] + t.skip(1) =~= t);
    } else {
        let x = spec_apply(s.skip(1), o);
        let t = seq![s[0]] + x;
        assert(spec_apply(s, o) == t);
        assert(t[0] == s[0]);
        assert(t.len() > 0);
        assert(t.skip(1) =~= x);
        lemma_apply_idempotent(s.skip(1), o);
        assert(seq![s[0]] + spec_apply(x, o) =~= t);
    }
}

/// After the cascade for an owner, no surviving object is owned by it,
/// and exactly the objects it did not own survive.
pub proof fn lemma_cascade_removes_owned(s: Seq<VerticalPodAutoscaler>, uid: Seq<char>)
    ensures
        forall|i: int|
            0 <= i < spec_cascade(s, uid).len() ==> !owned_by(
                #[trigger] spec_cascade(s, uid)[i],
                uid,
            ),
        forall|v: VerticalPodAutoscaler| #[trigger]
            spec_cascade(s, uid).contains(v) <==> s.contains(v) && !owned_by(v, uid),
    decreases s.len(),
{
    if s.len() > 0 {
        lemma_cascade_removes_owned(s.drop_last(), uid);
        let rest = spec_cascade(s.drop_last(), uid);
        let res = spec_cascade(s, uid);
        assert forall|v: VerticalPodAutoscaler| #[trigger] res.contains(v) implies s.contains(v)
            && !owned_by(v, uid) by {
            let i = choose|i: int| 0 <= i < res.len() && res[i] == v;
            if owned_by(s.last(), uid) {
                assert(rest.contains(v));
            } else {
                if i < rest.len() {
                    assert(rest[i] == v);
                    assert(rest.contains(v));
                } else {
                    assert(v == s.last());
                    assert(s[s.len() - 1] == v);
                }
            }
            if rest.contains(v) {
                let j = choose|j: int| 0 <= j < s.drop_last().len() && s.drop_last()[j] == v;
                assert(s[j] == v);
            }
        }
        assert forall|v: VerticalPodAutoscaler|
            s.contains(v) && !owned_by(v, uid) implies #[trigger] res.contains(v) by {
            let i = choose|i: int| 0 <= i < s.len() && s[i] == v;
            if i < s.len() - 1 {
                assert(s.drop_last()[i] == v);
                assert(s.drop_last().contains(v));
                assert(rest.contains(v));
                let j = choose|j: int| 0 <= j < rest.len() && rest[j] == v;
                if owned_by(s.last(), uid) {
                    assert(res[j] == v);
                } else {
                    assert(res[j] == v);
                }
            } else {
                assert(v == s.last());
                assert(!owned_by(s.last(), uid));
                assert(res[res.len() - 1] == v);
            }
        }
        assert forall|i: int| 0 <= i < res.len() implies !owned_by(#[trigger] res[i], uid) by {
            assert(res.contains(res[i]));
        }
    }
}

/// Every derived object a reconcile pass computes for a policy is
/// owned by that policy, so the cascade for the policy's deletion
/// leaves none of them in any state.
pub proof fn lemma_derived_objects_cascade(
    policy: AutoVPA,
    v: VerticalPodAutoscaler,
    gvk: GroupVersionKind,
    w: Workload,
    s: Seq<VerticalPodAutoscaler>,
)
    requires
        vpa_matches_desired(v, policy, gvk, w),
    ensures
        owned_by(v, policy.metadata.uid->0@),
        !spec_cascade(s, policy.metadata.uid->0@).contains(v),
{
    assert(v.metadata.owner_references@[0].uid@ == policy.metadata.uid->0@);
    lemma_cascade_removes_owned(s, policy.metadata.uid->0@);
}

/// Deleting the owning policy object removes all of its derived
/// objects: after the cascade for the policy's uid, no object of a
/// successful reconcile plan remains in any state.
pub proof fn lemma_plan_objects_cascade(
    plan: crate::reconcile::ReconcilePlan,
    policy: AutoVPA,
    bs: Seq<crate::objects::KindBatch>,
    s: Seq<VerticalPodAutoscaler>,
)
    requires
        crate::reconcile::plan_matches(plan, policy, bs),
    ensures
        forall|i: int|
            0 <= i < plan.desired@.len() ==> !spec_cascade(s, policy.metadata.uid->0@).contains(
                #[trigger] plan.desired@[i],
            ),
{
    let des = crate::reconcile::desired_pairs(policy, bs);
    assert forall|i: int| 0 <= i < plan.desired@.len() implies !spec_cascade(
        s,
        policy.metadata.uid->0@,
    ).contains(#[trigger] plan.desired@[i]) by {
        assert(vpa_matches_desired(plan.desired@[i], policy, des[i].0, des[i].1));
        lemma_derived_objects_cascade(policy, plan.desired@[i], des[i].0, des[i].1, s);
    }
}

/// The locally modelled cluster state: the derived objects that exist,
/// in creation order.
#[derive(Debug)]
pub struct ClusterState {
    pub objects: Vec<VerticalPodAutoscaler>,
}

impl ClusterState {
    /// A cluster with no derived objects.
    pub fn new() -> (s: Self)
        ensures
            s.objects@ == Seq::<VerticalPodAutoscaler>::empty(),
    {
        ClusterState { objects: Vec::new() }
    }

    /// Performs one idempotent apply write.
    pub fn apply(&mut self, o: VerticalPodAutoscaler)
        ensures
            final(self).objects@ == spec_apply(old(self).objects@, o),
    {
        let ghost oo = o;
        let n = self.objects.len();
        for i in 0..n
            invariant
                n == self.objects@.len(),
                self.objects@ == old(self).objects@,
                oo == o,
                forall|j: int| 0 <= j < i ==> vpa_key(#[trigger] self.objects@[j]) != vpa_key(oo),
        {
            if same_key(&self.objects[i], &o) {
                self.objects.set(i, o);
                proof {
                    lemma_spec_apply_update(old(self).objects@, oo, i as int);
                }
                return ;
            }
        }
        self.objects.push(o);
        proof {
            lemma_spec_apply_push(old(self).objects@, oo);
        }
    }

    /// Performs the garbage collector's cascade for a deleted owner.
    pub fn cascade_delete(&mut self, owner_uid: &str)
        ensures
            final(self).objects@ == spec_cascade(old(self).objects@, owner_uid@),
    {
        let ghost orig = self.objects@;
        let n = self.objects.len();
        let mut i: usize = 0;
        proof {
            assert(orig.take(0) =~= Seq::<VerticalPodAutoscaler>::empty());
            assert(orig.skip(0) =~= orig);
        }
        for k in 0..n
            invariant
                n == orig.len(),
                i <= k,
                self.objects@ == spec_cascade(orig.take(k as int), owner_uid@) + orig.skip(
                    k as int,
                ),
                i == spec_cascade(orig.take(k as int), owner_uid@).len(),
        {
            proof {
                assert(orig.take(k as int + 1).drop_last() =~= orig.take(k as int));
                assert(orig.take(k as int + 1).last() == orig[k as int]);
                assert(self.objects@[i as int] == orig[k as int]);
            }
            if is_owned_by(&self.objects[i], owner_uid) {
                self.objects.remove(i);
                proof {
                    assert(self.objects@ =~= spec_cascade(orig.take(k as int + 1), owner_uid@)
                        + orig.skip(k as int + 1));
                }
            } else {
                i = i + 1;
                proof {
                    assert(self.objects@ =~= spec_cascade(orig.take(k as int + 1), owner_uid@)
                        + orig.skip(k as int + 1));
                }
            }
        }
        proof {
            assert(orig.take(n as int) =~= orig);
            assert(orig.skip(n as int) =~= Seq::<VerticalPodAutoscaler>::empty());
            assert(spec_cascade(orig, owner_uid@) + Seq::<VerticalPodAutoscaler>::empty()
                =~= spec_cascade(orig, owner_uid@));
        }
    }
}

/// Whether two objects carry the same apply identity.
fn same_key(a: &VerticalPodAutoscaler, b: &VerticalPodAutoscaler) -> (r: bool)
    ensures
        r == (vpa_key(*a) == vpa_key(*b)),
{
    proof {
        reveal_strlit("");
        assert(""@ =~= Seq::<char>::empty());
    }
    let ns_a = match &a.metadata.namespace {
        Some(ns) => ns.as_str(),
        None => "",
    };
    let ns_b = match &b.metadata.namespace {
        Some(ns) => ns.as_str(),
        None => "",
    };
    let n_a = match &a.metadata.name {
        Some(nm) => nm.as_str(),
        None => "",
    };
    let n_b = match &b.metadata.name {
        Some(nm) => nm.as_str(),
        None => "",
    };
    str_eq(ns_a, ns_b) && str_eq(n_a, n_b)
}

/// Whether the object carries an owner reference with this uid.
fn is_owned_by(v: &VerticalPodAutoscaler, uid: &str) -> (r: bool)
    ensures
        r == owned_by(*v, uid@),
{
    let n = v.metadata.owner_references.len();
    for i in 0..n
        invariant
            n == v.metadata.owner_references@.len(),
            forall|j: int| 0 <= j < i ==> #[trigger] v.metadata.owner_references@[j].uid@ != uid@,
    {
        if str_eq(v.metadata.owner_references[i].uid.as_str(), uid) {
            proof {
                assert(v.metadata.owner_references@[i as int].uid@ == uid@);
            }
            return true;
        }
    }
    false
}

proof fn lemma_spec_apply_update(s: Seq<VerticalPodAutoscaler>, o: VerticalPodAutoscaler, i: int)
    requires
        0 <= i < s.len(),
        vpa_key(s[i]) == vpa_key(o),
        forall|j: int| 0 <= j < i ==> vpa_key(#[trigger] s[j]) != vpa_key(o),
    ensures
        spec_apply(s, o) == s.update(i, o),
    decreases s.len(),
{
    if i == 0 {
        assert(seq![o] + s.skip(1) =~= s.update(0, o));
    } else {
        assert forall|j: int| 0 <= j < i - 1 implies vpa_key(#[trigger] s.skip(1)[j]) != vpa_key(
            o,
        ) by {
            assert(s.skip(1)[j] == s[j + 1]);
        }
        assert(s.skip(1)[i - 1] == s[i]);
        lemma_spec_apply_update(s.skip(1), o, i - 1);
        assert(seq![s[0]] + s.skip(1).update(i - 1, o) =~= s.update(i, o));
    }
}

proof fn lemma_spec_apply_push(s: Seq<VerticalPodAutoscaler>, o: VerticalPodAutoscaler)
    requires
        forall|j: int| 0 <= j < s.len() ==> vpa_key(#[trigger] s[j]) != vpa_key(o),
    ensures
        spec_apply(s, o) == s.push(o),
    decreases s.len(),
{
    if s.len() == 0 {
        assert(seq![o] =~= s.push(o));
    } else {
        assert forall|j: int| 0 <= j < s.skip(1).len() implies vpa_key(#[trigger] s.skip(1)[j])
            != vpa_key(o) by {
            assert(s.skip(1)[j] == s[j + 1]);
        }
        lemma_spec_apply_push(s.skip(1), o);
        assert(seq![s[0]] + s.skip(1).push(o) =~= s.push(o));
    }
}

} // verus!
