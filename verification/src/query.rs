//! Compilation of label selectors into the textual query grammar that
//! the cluster's list API evaluates server-side.
//!
//! The grammar is modelled clause by clause: `QueryClause` is the parse
//! of one comma-separated clause of the query string, `render_clause`
//! is its textual form, and `clause_matches` is its meaning on a label
//! map.  `convert_label_selector_to_query_string` turns a selector into
//! the rendered clause list, failing exactly on the selectors the
//! grammar cannot express; `lemma_compiled_query_equivalent` proves
//! that the compiled clauses mean the same predicate as direct
//! evaluation of the selector.

use vstd::prelude::*;

use vstd::string::StringExecFns;

use crate::error::Error;
use crate::labels::LabelSelector;
use crate::labels::LabelSelectorRequirement;
use crate::labels::StringMap;
use crate::labels::lemma_assoc_get_at;
use crate::labels::lemma_assoc_get_some_iff;
use crate::labels::match_expressions_ok;
use crate::labels::match_labels_ok;
use crate::labels::req_matches;
use crate::labels::selector_matches;
use crate::strings::seq_has_str;
use crate::strings::str_eq;

verus! {

/// One clause of the query grammar.
pub enum QueryClause {
    Eq(Seq<char>, Seq<char>),
    InSet(Seq<char>, Seq<Seq<char>>),
    NotInSet(Seq<char>, Seq<Seq<char>>),
    KeyExists(Seq<char>),
    KeyNotExists(Seq<char>),
}

/// The character sequences of a vector of strings.
pub open spec fn views_of(vs: Seq<String>) -> Seq<Seq<char>> {
    vs.map_values(|s: String| s@)
}

/// The meaning of one query clause on a candidate's labels.
pub open spec fn clause_matches(c: QueryClause, labels: StringMap) -> bool {
    match c {
        QueryClause::Eq(k, v) => labels.spec_get(k) == Some(v),
        QueryClause::InSet(k, vs) => match labels.spec_get(k) {
            Some(v) => vs.contains(v),
            None => false,
        },
        QueryClause::NotInSet(k, vs) => match labels.spec_get(k) {
            Some(v) => !vs.contains(v),
            None => true,
        },
        QueryClause::KeyExists(k) => labels.spec_get(k) is Some,
        QueryClause::KeyNotExists(k) => labels.spec_get(k) is None,
    }
}

/// A query matches when every clause does.
pub open spec fn clauses_match(cs: Seq<QueryClause>, labels: StringMap) -> bool {
    forall|i: int| 0 <= i < cs.len() ==> clause_matches(#[trigger] cs[i], labels)
}

/// Whether the grammar can express one expression clause: `In`/`NotIn`
/// need a non-empty value list, `Exists`/`DoesNotExist` refuse one, and
/// an unknown operator fails the whole compilation.
pub open spec fn req_compilable(req: LabelSelectorRequirement) -> bool {
    if req.operator@ == "In"@ || req.operator@ == "NotIn"@ {
        req.values is Some && req.values->0@.len() > 0
    } else if req.operator@ == "Exists"@ || req.operator@ == "DoesNotExist"@ {
        req.values is None || req.values->0@.len() == 0
    } else {
        false
    }
}

/// Whether the grammar can express the whole selector.
pub open spec fn selector_compilable(sel: LabelSelector) -> bool {
    match sel.match_expressions {
        None => true,
        Some(rs) => forall|i: int| 0 <= i < rs@.len() ==> req_compilable(#[trigger] rs@[i]),
    }
}

/// The clause compiled from one compilable expression clause.
pub open spec fn req_clause(req: LabelSelectorRequirement) -> QueryClause {
    if req.operator@ == "In"@ {
        QueryClause::InSet(req.key@, views_of(req.values->0@))
    } else if req.operator@ == "NotIn"@ {
        QueryClause::NotInSet(req.key@, views_of(req.values->0@))
    } else if req.operator@ == "Exists"@ {
        QueryClause::KeyExists(req.key@)
    } else {
        QueryClause::KeyNotExists(req.key@)
    }
}

/// The equality clauses compiled from the equality map, in entry order.
pub open spec fn ml_clauses(m: StringMap) -> Seq<QueryClause> {
    Seq::new(m.entries@.len(), |i: int| QueryClause::Eq(m.entries@[i].0@, m.entries@[i].1@))
}

/// The clauses compiled from a list of expression clauses.
pub open spec fn req_clauses(rs: Seq<LabelSelectorRequirement>) -> Seq<QueryClause> {
    Seq::new(rs.len(), |i: int| req_clause(rs[i]))
}

/// All clauses of a selector: the equality clauses, then the
/// expression clauses.
pub open spec fn selector_clauses(sel: LabelSelector) -> Seq<QueryClause> {
    (match sel.match_labels {
        None => Seq::<QueryClause>::empty(),
        Some(m) => ml_clauses(m),
    }) + (match sel.match_expressions {
        None => Seq::<QueryClause>::empty(),
        Some(rs) => req_clauses(rs@),
    })
}

/// Parts joined by a separator.
pub open spec fn join_str(parts: Seq<Seq<char>>, sep: Seq<char>) -> Seq<char>
    decreases parts.len(),
{
    if parts.len() == 0 {
        Seq::empty()
    } else if parts.len() == 1 {
        parts[0]
    } else {
        join_str(parts.drop_last(), sep) + sep + parts.last()
    }
}

/// The textual form of one clause.
pub open spec fn render_clause(c: QueryClause) -> Seq<char> {
    match c {
        QueryClause::Eq(k, v) => k + "="@ + v,
        QueryClause::InSet(k, vs) => k + " in ("@ + join_str(vs, ", "@) + ")"@,
        QueryClause::NotInSet(k, vs) => k + " notin ("@ + join_str(vs, ", "@) + ")"@,
        QueryClause::KeyExists(k) => k,
        QueryClause::KeyNotExists(k) => "!"@ + k,
    }
}

/// The textual form of a clause list: clauses joined by commas.
pub open spec fn render_clauses(cs: Seq<QueryClause>) -> Seq<char>
    decreases cs.len(),
{
    if cs.len() == 0 {
        Seq::empty()
    } else if cs.len() == 1 {
        render_clause(cs[0])
    } else {
        render_clauses(cs.drop_last()) + ","@ + render_clause(cs.last())
    }
}

/// The diagnostic produced for one uncompilable expression clause.
pub open spec fn req_error_message(req: LabelSelectorRequirement) -> Seq<char> {
    if req.operator@ == "In"@ || req.operator@ == "NotIn"@ {
        "LabelSelector has no or empty values for ["@ + req.operator@ + "] operator"@
    } else if req.operator@ == "Exists"@ {
        "LabelSelector has [Exists] operator with values, this is not legal"@
    } else if req.operator@ == "DoesNotExist"@ {
        "LabelSelector has [DoesNotExist] operator with values, this is not legal"@
    } else {
        "LabelSelector has illegal/unknown operator ["@ + req.operator@ + "]"@
    }
}

/// The position of the first uncompilable expression clause.
pub open spec fn first_bad_index(rs: Seq<LabelSelectorRequirement>) -> int
    decreases rs.len(),
{
    if rs.len() == 0 {
        0
    } else if !req_compilable(rs[0]) {
        0
    } else {
        1 + first_bad_index(rs.skip(1))
    }
}

proof fn lemma_first_bad_index(rs: Seq<LabelSelectorRequirement>, i: int)
    requires
        0 <= i < rs.len(),
        !req_compilable(rs[i]),
        forall|j: int| 0 <= j < i ==> req_compilable(#[trigger] rs[j]),
    ensures
        first_bad_index(rs) == i,
    decreases rs.len(),
{
    if i > 0 {
        assert forall|j: int| 0 <= j < i - 1 implies req_compilable(#[trigger] rs.skip(1)[j]) by {
            assert(rs.skip(1)[j] == rs[j + 1]);
        }
        assert(rs.skip(1)[i - 1] == rs[i]);
        lemma_first_bad_index(rs.skip(1), i - 1);
    }
}

proof fn lemma_render_push(cs: Seq<QueryClause>, c: QueryClause)
    ensures
        render_clauses(cs.push(c)) == if cs.len() == 0 {
            render_clause(c)
        } else {
            render_clauses(cs) + ","@ + render_clause(c)
        },
{
    assert(cs.push(c).drop_last() =~= cs);
    assert(cs.push(c).last() == c);
}

proof fn lemma_join_push(parts: Seq<Seq<char>>, p: Seq<char>, sep: Seq<char>)
    ensures
        join_str(parts.push(p), sep) == if parts.len() == 0 {
            p
        } else {
            join_str(parts, sep) + sep + p
        },
{
    assert(parts.push(p).drop_last() =~= parts);
    assert(parts.push(p).last() == p);
}

/// Membership in a string vector is membership of its views.
proof fn lemma_seq_has_str_views(vs: Seq<String>, x: Seq<char>)
    ensures
        seq_has_str(vs, x) <==> views_of(vs).contains(x),
{
    if seq_has_str(vs, x) {
        let i = choose|i: int| 0 <= i < vs.len() && vs[i]@ == x;
        assert(views_of(vs)[i] == x);
    }
    if views_of(vs).contains(x) {
        let i = choose|i: int| 0 <= i < views_of(vs).len() && views_of(vs)[i] == x;
        assert(vs[i]@ == x);
    }
}

/// Joins a vector of values with a comma and a space.
fn render_values(vs: &Vec<String>) -> (out: String)
    ensures
        out@ == join_str(views_of(vs@), ", "@),
{
    let mut out = String::new();
    let n = vs.len();
    for j in 0..n
        invariant
            n == vs@.len(),
            out@ == join_str(views_of(vs@).take(j as int), ", "@),
    {
        if j > 0 {
            out.append(", ");
        }
        out.append(vs[j].as_str());
        proof {
            let parts = views_of(vs@);
            assert(parts[j as int] == vs@[j as int]@);
            assert(parts.take(j as int).push(parts[j as int]) =~= parts.take(j as int + 1));
            lemma_join_push(parts.take(j as int), parts[j as int], ", "@);
            if j == 0 {
                assert(out@ =~= parts[0]);
            }
        }
    }
    proof {
        assert(views_of(vs@).take(vs@.len() as int) =~= views_of(vs@));
    }
    out
}

/// Appends one rendered clause, with a separating comma when the query
/// already holds clauses.
fn append_clause(query: &mut String, first: bool, one: &str, Ghost(done): Ghost<Seq<QueryClause>>, Ghost(c): Ghost<QueryClause>)
    requires
        old(query)@ == render_clauses(done),
        first <==> done.len() == 0,
        one@ == render_clause(c),
    ensures
        final(query)@ == render_clauses(done.push(c)),
{
    if !first {
        query.append(",");
    }
    query.append(one);
    proof {
        lemma_render_push(done, c);
    }
}

/// Takes a label selector and converts it to a string usable in the
/// cluster's list API calls.  Fails with an invalid-selector error on
/// exactly the selectors the grammar cannot express: `In`/`NotIn`
/// clauses without values, `Exists`/`DoesNotExist` clauses carrying
/// values, and unknown operators; the first uncompilable clause decides
/// the diagnostic.
pub fn convert_label_selector_to_query_string(label_selector: &LabelSelector) -> (r: Result<
    String,
    Error,
>)
    ensures
        r is Ok <==> selector_compilable(*label_selector),
        r is Ok ==> r->Ok_0@ == render_clauses(selector_clauses(*label_selector)),
        r is Err ==> label_selector.match_expressions is Some && (r->Err_0 matches
            Error::InvalidLabelSelector(m) && m@ == req_error_message(
            label_selector.match_expressions->0@[first_bad_index(
                label_selector.match_expressions->0@,
            )],
        )),
{
    let mut query = String::new();
    let mut first: bool = true;
    let ghost pre: Seq<QueryClause> = match &label_selector.match_labels {
        None => Seq::<QueryClause>::empty(),
        Some(m) => ml_clauses(*m),
    };

    if let Some(m) = &label_selector.match_labels {
        let k = m.entries.len();
        for i in 0..k
            invariant
                k == m.entries@.len(),
                label_selector.match_labels == Some(*m),
                pre == ml_clauses(*m),
                first <==> i == 0,
                query@ == render_clauses(ml_clauses(*m).take(i as int)),
        {
            let mut one = entry_key_copy(m, i);
            one.append("=");
            one.append(m.entries[i].1.as_str());
            proof {
                assert(ml_clauses(*m)[i as int] == QueryClause::Eq(
                    m.entries@[i as int].0@,
                    m.entries@[i as int].1@,
                ));
                assert(ml_clauses(*m).take(i as int).push(ml_clauses(*m)[i as int])
                    =~= ml_clauses(*m).take(i as int + 1));
                assert(ml_clauses(*m).take(i as int).len() == i);
            }
            let ghost done = ml_clauses(*m).take(i as int);
            let ghost c = ml_clauses(*m)[i as int];
            append_clause(&mut query, first, one.as_str(), Ghost(done), Ghost(c));
            first = false;
        }
        proof {
            assert(ml_clauses(*m).take(k as int) =~= ml_clauses(*m));
        }
    }

    if let Some(reqs) = &label_selector.match_expressions {
        let k = reqs.len();
        for i in 0..k
            invariant
                k == reqs@.len(),
                label_selector.match_expressions == Some(*reqs),
                pre == (match label_selector.match_labels {
                    None => Seq::<QueryClause>::empty(),
                    Some(m) => ml_clauses(m),
                }),
                first <==> (pre + req_clauses(reqs@.take(i as int))).len() == 0,
                query@ == render_clauses(pre + req_clauses(reqs@.take(i as int))),
                forall|j: int| 0 <= j < i ==> req_compilable(#[trigger] reqs@[j]),
        {
            let ghost done = pre + req_clauses(reqs@.take(i as int));
            let op_in = str_eq(reqs[i].operator.as_str(), "In");
            let op_notin = str_eq(reqs[i].operator.as_str(), "NotIn");
            let op_exists = str_eq(reqs[i].operator.as_str(), "Exists");
            let op_notexists = str_eq(reqs[i].operator.as_str(), "DoesNotExist");
            let has_values = match &reqs[i].values {
                Some(vs) => vs.len() > 0,
                None => false,
            };
            if op_in || op_notin {
                if !has_values {
                    proof {
                        assert(label_selector.match_expressions->0@ == reqs@);
                        assert(!req_compilable(label_selector.match_expressions->0@[i as int]));
                        lemma_first_bad_index(reqs@, i as int);
                    }
                    let mut msg = "LabelSelector has no or empty values for [".to_owned();
                    msg.append(reqs[i].operator.as_str());
                    msg.append("] operator");
                    return Err(Error::InvalidLabelSelector(msg));
                }
                let mut one = reqs[i].key.clone();
                if op_in {
                    one.append(" in (");
                } else {
                    one.append(" notin (");
                }
                let vals = match &reqs[i].values {
                    Some(vs) => render_values(vs),
                    None => String::new(),
                };
                one.append(vals.as_str());
                one.append(")");
                proof {
                    assert(req_clause(reqs@[i as int]) == (if op_in {
                        QueryClause::InSet(
                            reqs@[i as int].key@,
                            views_of(reqs@[i as int].values->0@),
                        )
                    } else {
                        QueryClause::NotInSet(
                            reqs@[i as int].key@,
                            views_of(reqs@[i as int].values->0@),
                        )
                    }));
                }
                append_clause(
                    &mut query,
                    first,
                    one.as_str(),
                    Ghost(done),
                    Ghost(req_clause(reqs@[i as int])),
                );
                first = false;
            } else if op_exists || op_notexists {
                if has_values {
                    proof {
                        assert(label_selector.match_expressions->0@ == reqs@);
                        assert(!req_compilable(label_selector.match_expressions->0@[i as int]));
                        lemma_first_bad_index(reqs@, i as int);
                    }
                    if op_exists {
                        return Err(Error::InvalidLabelSelector(
                            "LabelSelector has [Exists] operator with values, this is not legal".to_owned(),
                        ));
                    }
                    return Err(Error::InvalidLabelSelector(
                        "LabelSelector has [DoesNotExist] operator with values, this is not legal".to_owned(),
                    ));
                }
                proof {
                    lemma_operator_literals_distinct();
                }
                let one = if op_notexists {
                    let mut s = "!".to_owned();
                    s.append(reqs[i].key.as_str());
                    s
                } else {
                    reqs[i].key.clone()
                };
                append_clause(
                    &mut query,
                    first,
                    one.as_str(),
                    Ghost(done),
                    Ghost(req_clause(reqs@[i as int])),
                );
                first = false;
            } else {
                proof {
                    assert(label_selector.match_expressions->0@ == reqs@);
                    assert(!req_compilable(label_selector.match_expressions->0@[i as int]));
                    lemma_first_bad_index(reqs@, i as int);
                }
                let mut msg = "LabelSelector has illegal/unknown operator [".to_owned();
                msg.append(reqs[i].operator.as_str());
                msg.append("]");
                return Err(Error::InvalidLabelSelector(msg));
            }
            proof {
                assert(req_clauses(reqs@.take(i as int)).push(req_clause(reqs@[i as int]))
                    =~= req_clauses(reqs@.take(i as int + 1)));
                assert(done.push(req_clause(reqs@[i as int])) =~= pre + req_clauses(
                    reqs@.take(i as int + 1),
                ));
            }
        }
        proof {
            assert(reqs@.take(k as int) =~= reqs@);
            assert(pre + req_clauses(reqs@) == selector_clauses(*label_selector));
        }
    } else {
        proof {
            assert(pre + Seq::<QueryClause>::empty() =~= pre);
        }
    }
    Ok(query)
}

/// Borrow-free copy of the key of entry `i`.
fn entry_key_copy(m: &StringMap, i: usize) -> (k: String)
    requires
        i < m.entries@.len(),
    ensures
        k@ == m.entries@[i as int].0@,
{
    m.entries[i].0.clone()
}

/// For one compilable expression clause, the compiled clause means
/// exactly what the clause means under direct evaluation.
proof fn lemma_req_clause_equiv(req: LabelSelectorRequirement, labels: StringMap)
    requires
        req_compilable(req),
    ensures
        clause_matches(req_clause(req), labels) == req_matches(req, labels),
{
    if req.operator@ == "In"@ || req.operator@ == "NotIn"@ {
        match labels.spec_get(req.key@) {
            Some(v) => {
                lemma_seq_has_str_views(req.values->0@, v);
            },
            None => {},
        }
    }
}

/// Round-trip consistency of the compiled query: for any selector the
/// grammar can express (with a well-formed equality map), the clause
/// list that the query string renders matches a candidate's labels
/// exactly when direct evaluation of the selector does.
pub proof fn lemma_compiled_query_equivalent(sel: LabelSelector, labels: StringMap)
    requires
        selector_compilable(sel),
        match sel.match_labels {
            Some(m) => m.wf(),
            None => true,
        },
    ensures
        clauses_match(selector_clauses(sel), labels) == selector_matches(sel, labels),
{
    let cs = selector_clauses(sel);
    let pre = match sel.match_labels {
        None => Seq::<QueryClause>::empty(),
        Some(m) => ml_clauses(m),
    };
    let post = match sel.match_expressions {
        None => Seq::<QueryClause>::empty(),
        Some(rs) => req_clauses(rs@),
    };

    // Split the clause list into its two parts.
    assert(clauses_match(cs, labels) <==> clauses_match(pre, labels) && clauses_match(
        post,
        labels,
    )) by {
        if clauses_match(cs, labels) {
            assert forall|i: int| 0 <= i < pre.len() implies clause_matches(
                #[trigger] pre[i],
                labels,
            ) by {
                assert(cs[i] == pre[i]);
            }
            assert forall|i: int| 0 <= i < post.len() implies clause_matches(
                #[trigger] post[i],
                labels,
            ) by {
                assert(cs[pre.len() + i] == post[i]);
            }
        }
        if clauses_match(pre, labels) && clauses_match(post, labels) {
            assert forall|i: int| 0 <= i < cs.len() implies clause_matches(
                #[trigger] cs[i],
                labels,
            ) by {
                if i < pre.len() {
                    assert(cs[i] == pre[i]);
                } else {
                    assert(cs[i] == post[i - pre.len()]);
                }
            }
        }
    }

    // The equality part coincides with the equality-map semantics.
    assert(clauses_match(pre, labels) <==> match_labels_ok(sel.match_labels, labels)) by {
        match sel.match_labels {
            None => {},
            Some(m) => {
                if clauses_match(pre, labels) {
                    assert forall|k: Seq<char>| #![auto] m.spec_get(k) is Some implies
                        labels.spec_get(k) == m.spec_get(k) by {
                        lemma_assoc_get_some_iff(m.entries@, k);
                        let i = choose|i: int|
                            0 <= i < m.entries@.len() && m.entries@[i].0@ == k;
                        lemma_assoc_get_at(m.entries@, i);
                        assert(clause_matches(pre[i], labels));
                    }
                }
                if match_labels_ok(sel.match_labels, labels) {
                    assert forall|i: int| 0 <= i < pre.len() implies clause_matches(
                        #[trigger] pre[i],
                        labels,
                    ) by {
                        lemma_assoc_get_at(m.entries@, i);
                        assert(m.spec_get(m.entries@[i].0@) == Some(m.entries@[i].1@));
                    }
                }
            },
        }
    }

    // The expression part coincides with the expression semantics.
    assert(clauses_match(post, labels) <==> match_expressions_ok(
        sel.match_expressions,
        labels,
    )) by {
        match sel.match_expressions {
            None => {},
            Some(rs) => {
                if clauses_match(post, labels) {
                    assert forall|i: int| 0 <= i < rs@.len() implies req_matches(
                        #[trigger] rs@[i],
                        labels,
                    ) by {
                        assert(clause_matches(post[i], labels));
                        lemma_req_clause_equiv(rs@[i], labels);
                    }
                }
                if match_expressions_ok(sel.match_expressions, labels) {
                    assert forall|i: int| 0 <= i < post.len() implies clause_matches(
                        #[trigger] post[i],
                        labels,
                    ) by {
                        assert(req_matches(rs@[i], labels));
                        lemma_req_clause_equiv(rs@[i], labels);
                    }
                }
            },
        }
    }
}

/// An `Exists` or `DoesNotExist` clause that carries values makes the
/// whole selector uncompilable, so compilation returns an error rather
/// than a malformed query string.
pub proof fn lemma_exists_with_values_rejected(sel: LabelSelector, i: int)
    requires
        sel.match_expressions is Some,
        0 <= i < sel.match_expressions->0@.len(),
        sel.match_expressions->0@[i].operator@ == "Exists"@
            || sel.match_expressions->0@[i].operator@ == "DoesNotExist"@,
        sel.match_expressions->0@[i].values is Some,
        sel.match_expressions->0@[i].values->0@.len() > 0,
    ensures
        !selector_compilable(sel),
{
    lemma_operator_literals_distinct();
    assert(!req_compilable(sel.match_expressions->0@[i]));
}

/// The four operator spellings are pairwise distinct.
proof fn lemma_operator_literals_distinct()
    ensures
        "In"@ != "NotIn"@,
        "In"@ != "Exists"@,
        "In"@ != "DoesNotExist"@,
        "NotIn"@ != "Exists"@,
        "NotIn"@ != "DoesNotExist"@,
        "Exists"@ != "DoesNotExist"@,
{
    reveal_strlit("In");
    reveal_strlit("NotIn");
    reveal_strlit("Exists");
    reveal_strlit("DoesNotExist");
    assert("In"@.len() == 2);
    assert("NotIn"@.len() == 5);
    assert("Exists"@.len() == 6);
    assert("DoesNotExist"@.len() == 12);
}

} // verus!
