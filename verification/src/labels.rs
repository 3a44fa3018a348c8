//! Label maps and label selectors, with the selector evaluator.
//!
//! A `StringMap` is an association list with first-match-wins lookup; it
//! stands for the string-keyed label maps carried by workloads and
//! selectors.  `match_label` evaluates a selector against a label map
//! exactly as the platform's own selector semantics prescribe: equality
//! clauses are a conjunction of exact key/value requirements, and each
//! expression clause applies one of the operators `In`, `NotIn`,
//! `Exists`, `DoesNotExist`; an unknown operator never matches.

use vstd::prelude::*;

use crate::strings::seq_has_str;
use crate::strings::str_eq;
use crate::strings::vec_has_str;

verus! {

/// First-match lookup in an association list of string pairs.
pub open spec fn assoc_get(s: Seq<(String, String)>, k: Seq<char>) -> Option<Seq<char>>
    decreases s.len(),
{
    if s.len() == 0 {
        None
    } else if s[0].0@ == k {
        Some(s[0].1@)
    } else {
        assoc_get(s.skip(1), k)
    }
}

/// A key has a value exactly when some entry carries that key.
pub proof fn lemma_assoc_get_some_iff(s: Seq<(String, String)>, k: Seq<char>)
    ensures
        assoc_get(s, k) is Some <==> exists|i: int| 0 <= i < s.len() && s[i].0@ == k,
    decreases s.len(),
{
    if s.len() > 0 {
        lemma_assoc_get_some_iff(s.skip(1), k);
        if s[0].0@ != k {
            if assoc_get(s, k) is Some {
                let i = choose|i: int| 0 <= i < s.skip(1).len() && s.skip(1)[i].0@ == k;
                assert(s[i + 1].0@ == k);
            }
            if exists|i: int| 0 <= i < s.len() && s[i].0@ == k {
                let i = choose|i: int| 0 <= i < s.len() && s[i].0@ == k;
                assert(s.skip(1)[i - 1].0@ == k);
            }
        }
    }
}

/// No two entries carry the same key.
pub open spec fn seq_keys_unique(s: Seq<(String, String)>) -> bool {
    forall|i: int, j: int| 0 <= i < j < s.len() ==> s[i].0@ != s[j].0@
}

/// With unique keys, the entry at `i` decides its key's value.
pub proof fn lemma_assoc_get_at(s: Seq<(String, String)>, i: int)
    requires
        seq_keys_unique(s),
        0 <= i < s.len(),
    ensures
        assoc_get(s, s[i].0@) == Some(s[i].1@),
    decreases s.len(),
{
    if i > 0 {
        assert(s[0].0@ != s[i].0@);
        assert(seq_keys_unique(s.skip(1))) by {
            assert forall|p: int, q: int| 0 <= p < q < s.skip(1).len() implies s.skip(1)[p].0@
                != s.skip(1)[q].0@ by {
                assert(s.skip(1)[p] == s[p + 1]);
                assert(s.skip(1)[q] == s[q + 1]);
            }
        }
        lemma_assoc_get_at(s.skip(1), i - 1);
        assert(s.skip(1)[i - 1] == s[i]);
    }
}

/// A string-keyed map of strings, stored as an association list whose
/// first matching entry decides a key's value.
#[derive(Debug)]
pub struct StringMap {
    pub entries: Vec<(String, String)>,
}

impl StringMap {
    /// The value this map gives to key `k`, if any.
    pub open spec fn spec_get(self, k: Seq<char>) -> Option<Seq<char>> {
        assoc_get(self.entries@, k)
    }

    /// A well-formed map carries each key at most once.
    pub open spec fn wf(self) -> bool {
        seq_keys_unique(self.entries@)
    }

    /// The empty map.
    pub fn new() -> (m: Self)
        ensures
            m.entries@ == Seq::<(String, String)>::empty(),
            forall|k: Seq<char>| m.spec_get(k) is None,
    {
        StringMap { entries: Vec::new() }
    }

    /// Copies the map, entry by entry.
    pub fn duplicate(&self) -> (m: Self)
        ensures
            m.entries@ == self.entries@,
    {
        let mut entries: Vec<(String, String)> = Vec::new();
        let n = self.entries.len();
        for i in 0..n
            invariant
                n == self.entries@.len(),
                entries@ == self.entries@.take(i as int),
        {
            entries.push((self.entries[i].0.clone(), self.entries[i].1.clone()));
            proof {
                assert(self.entries@.take(i as int).push(self.entries@[i as int])
                    =~= self.entries@.take(i as int + 1));
            }
        }
        proof {
            assert(self.entries@.take(n as int) =~= self.entries@);
        }
        StringMap { entries }
    }

    /// Binds `k` to `v`, shadowing any earlier binding of `k`.
    pub fn insert(&mut self, k: String, v: String)
        ensures
            forall|q: Seq<char>| #![auto]
                final(self).spec_get(q) == if q == k@ {
                    Some(v@)
                } else {
                    old(self).spec_get(q)
                },
    {
        let ghost prior = self.entries@;
        self.entries.insert(0, (k, v));
        proof {
            assert(self.entries@.skip(1) =~= prior);
        }
    }

    /// Looks a key up; returns a copy of the first value bound to it.
    pub fn get(&self, k: &str) -> (r: Option<String>)
        ensures
            match r {
                Some(v) => self.spec_get(k@) == Some(v@),
                None => self.spec_get(k@) is None,
            },
    {
        let n = self.entries.len();
        proof {
            assert(self.entries@.skip(0) =~= self.entries@);
        }
        for i in 0..n
            invariant
                n == self.entries@.len(),
                assoc_get(self.entries@.skip(i as int), k@) == assoc_get(self.entries@, k@),
        {
            proof {
                assert(self.entries@.skip(i as int)[0] == self.entries@[i as int]);
                assert(self.entries@.skip(i as int).skip(1) =~= self.entries@.skip(i + 1));
            }
            if str_eq(self.entries[i].0.as_str(), k) {
                return Some(self.entries[i].1.clone());
            }
        }
        proof {
            assert(self.entries@.skip(n as int) =~= Seq::<(String, String)>::empty());
        }
        None
    }
}

/// One expression clause of a selector: an operator applied to a key and
/// an optional value list.
#[derive(Debug)]
pub struct LabelSelectorRequirement {
    pub key: String,
    pub operator: String,
    pub values: Option<Vec<String>>,
}

/// A label selector: a conjunction of equality clauses (`match_labels`)
/// and expression clauses (`match_expressions`).
#[derive(Debug)]
pub struct LabelSelector {
    pub match_labels: Option<StringMap>,
    pub match_expressions: Option<Vec<LabelSelectorRequirement>>,
}

/// Every key bound by the equality map must be bound to the same value
/// by the candidate labels.
pub open spec fn match_labels_ok(ml: Option<StringMap>, labels: StringMap) -> bool {
    match ml {
        None => true,
        Some(m) => forall|k: Seq<char>| #![auto]
            m.spec_get(k) is Some ==> labels.spec_get(k) == m.spec_get(k),
    }
}

/// The meaning of one expression clause on a candidate label map.
pub open spec fn req_matches(req: LabelSelectorRequirement, labels: StringMap) -> bool {
    if req.operator@ == "In"@ {
        match labels.spec_get(req.key@) {
            Some(v) => match req.values {
                Some(vs) => seq_has_str(vs@, v),
                None => false,
            },
            None => false,
        }
    } else if req.operator@ == "NotIn"@ {
        match labels.spec_get(req.key@) {
            Some(v) => match req.values {
                Some(vs) => !seq_has_str(vs@, v),
                None => true,
            },
            None => true,
        }
    } else if req.operator@ == "Exists"@ {
        labels.spec_get(req.key@) is Some
    } else if req.operator@ == "DoesNotExist"@ {
        labels.spec_get(req.key@) is None
    } else {
        false
    }
}

/// All expression clauses must hold.
pub open spec fn match_expressions_ok(
    exprs: Option<Vec<LabelSelectorRequirement>>,
    labels: StringMap,
) -> bool {
    match exprs {
        None => true,
        Some(rs) => forall|i: int| 0 <= i < rs@.len() ==> req_matches(#[trigger] rs@[i], labels),
    }
}

/// The full selector semantics: the conjunction of the equality clauses
/// and the expression clauses.
pub open spec fn selector_matches(sel: LabelSelector, labels: StringMap) -> bool {
    match_labels_ok(sel.match_labels, labels) && match_expressions_ok(sel.match_expressions, labels)
}

/// Evaluates one expression clause.
fn eval_requirement(req: &LabelSelectorRequirement, labels: &StringMap) -> (r: bool)
    ensures
        r == req_matches(*req, *labels),
{
    if str_eq(req.operator.as_str(), "In") {
        match labels.get(req.key.as_str()) {
            Some(v) => match &req.values {
                Some(vs) => vec_has_str(vs, v.as_str()),
                None => false,
            },
            None => false,
        }
    } else if str_eq(req.operator.as_str(), "NotIn") {
        match labels.get(req.key.as_str()) {
            Some(v) => match &req.values {
                Some(vs) => !vec_has_str(vs, v.as_str()),
                None => true,
            },
            None => true,
        }
    } else if str_eq(req.operator.as_str(), "Exists") {
        labels.get(req.key.as_str()).is_some()
    } else if str_eq(req.operator.as_str(), "DoesNotExist") {
        labels.get(req.key.as_str()).is_none()
    } else {
        false
    }
}

/// Evaluates a selector against a candidate's labels.
pub fn match_label(selector: &LabelSelector, labels: &StringMap) -> (r: bool)
    ensures
        r == selector_matches(*selector, *labels),
{
    if let Some(ml) = &selector.match_labels {
        let n = ml.entries.len();
        for i in 0..n
            invariant
                n == ml.entries@.len(),
                selector.match_labels == Some(*ml),
                forall|j: int| #![auto]
                    0 <= j < i ==> labels.spec_get(ml.entries@[j].0@) == ml.spec_get(
                        ml.entries@[j].0@,
                    ),
        {
            proof {
                lemma_assoc_get_some_iff(ml.entries@, ml.entries@[i as int].0@);
            }
            let needed = ml.get(entry_key(ml, i).as_str());
            let needed_v = match needed {
                Some(v) => v,
                None => {
                    proof {
                        let ii = i as int;
                        let ki = ml.entries@[ii].0@;
                        assert(0 <= ii && ii < ml.entries@.len() && ml.entries@[ii].0@ == ki);
                        assert(ml.spec_get(ki) is Some);
                        assert(false);
                    }
                    return false;
                },
            };
            match labels.get(entry_key(ml, i).as_str()) {
                None => {
                    proof {
                        let ki = ml.entries@[i as int].0@;
                        assert(ml.spec_get(ki) == Some(needed_v@));
                        assert(labels.spec_get(ki) is None);
                    }
                    return false;
                },
                Some(x) => {
                    if !str_eq(x.as_str(), needed_v.as_str()) {
                        proof {
                            let ki = ml.entries@[i as int].0@;
                            assert(ml.spec_get(ki) == Some(needed_v@));
                            assert(labels.spec_get(ki) == Some(x@));
                        }
                        return false;
                    }
                },
            }
        }
        proof {
            assert forall|k: Seq<char>| #![auto] ml.spec_get(k) is Some implies labels.spec_get(k)
                == ml.spec_get(k) by {
                lemma_assoc_get_some_iff(ml.entries@, k);
                let i = choose|i: int| 0 <= i < ml.entries@.len() && ml.entries@[i].0@ == k;
                assert(labels.spec_get(ml.entries@[i].0@) == ml.spec_get(ml.entries@[i].0@));
            }
        }
    }
    if let Some(reqs) = &selector.match_expressions {
        let n = reqs.len();
        for i in 0..n
            invariant
                n == reqs@.len(),
                selector.match_expressions == Some(*reqs),
                forall|j: int| 0 <= j < i ==> req_matches(#[trigger] reqs@[j], *labels),
        {
            if !eval_requirement(&reqs[i], labels) {
                proof {
                    assert(selector.match_expressions->0@ == reqs@);
                    assert(!req_matches(selector.match_expressions->0@[i as int], *labels));
                }
                return false;
            }
        }
    }
    true
}

/// Borrow-free copy of the key of entry `i`.
fn entry_key(m: &StringMap, i: usize) -> (k: String)
    requires
        i < m.entries@.len(),
    ensures
        k@ == m.entries@[i as int].0@,
{
    m.entries[i].0.clone()
}

/// Whether a namespace filter admits a namespace: an absent filter
/// admits every namespace, a present one exactly those it lists.
pub open spec fn namespace_allowed(filter: Option<Vec<String>>, ns: Seq<char>) -> bool {
    match filter {
        None => true,
        Some(v) => seq_has_str(v@, ns),
    }
}

/// The full filter semantics for one candidate: the namespace filter
/// must admit the candidate's namespace, and the selector must match
/// its labels.  An absent selector matches nothing; a present but
/// empty selector matches everything.
pub open spec fn candidate_matches(
    filter: Option<Vec<String>>,
    sel: Option<LabelSelector>,
    ns: Seq<char>,
    labels: StringMap,
) -> bool {
    namespace_allowed(filter, ns) && match sel {
        None => false,
        Some(s) => selector_matches(s, labels),
    }
}

/// Evaluates the namespace filter and the object selector of a policy
/// against one candidate.
pub fn matches_candidate(
    namespace_filter: &Option<Vec<String>>,
    object_selector: &Option<LabelSelector>,
    namespace: &str,
    labels: &StringMap,
) -> (r: bool)
    ensures
        r == candidate_matches(*namespace_filter, *object_selector, namespace@, *labels),
{
    let ns_ok = match namespace_filter {
        None => true,
        Some(v) => vec_has_str(v, namespace),
    };
    if !ns_ok {
        return false;
    }
    match object_selector {
        None => false,
        Some(s) => match_label(s, labels),
    }
}

/// For a selector whose expression list is absent or empty, matching is
/// exactly the superset condition on the equality map: every key/value
/// pair of `match_labels` must appear, with an equal value, in the
/// candidate's labels.
pub proof fn lemma_equality_only_matches(sel: LabelSelector, labels: StringMap)
    requires
        sel.match_expressions is None || sel.match_expressions->0@.len() == 0,
    ensures
        selector_matches(sel, labels) <==> match_labels_ok(sel.match_labels, labels),
{
}

} // verus!
