//! Small verified helpers for comparing strings and searching string
//! vectors, shared by the selector evaluator and the query compiler.

use vstd::prelude::*;

verus! {

/// Compares two string slices by content.
pub fn str_eq(a: &str, b: &str) -> (r: bool)
    ensures
        r == (a@ == b@),
{
    let x: String = a.to_owned();
    let y: String = b.to_owned();
    x == y
}

/// Whether some element of `s` has character sequence `x`.
pub open spec fn seq_has_str(s: Seq<String>, x: Seq<char>) -> bool {
    exists|i: int| 0 <= i < s.len() && s[i]@ == x
}

/// Linear search of a string vector for a value.
pub fn vec_has_str(v: &Vec<String>, x: &str) -> (r: bool)
    ensures
        r == seq_has_str(v@, x@),
{
    let n = v.len();
    for i in 0..n
        invariant
            n == v@.len(),
            forall|j: int| 0 <= j < i ==> v@[j]@ != x@,
    {
        if str_eq(v[i].as_str(), x) {
            return true;
        }
    }
    false
}

} // verus!
