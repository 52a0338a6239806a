//! Small helpers over strings and vectors of strings that the rest of
//! the library shares: a sequence-of-sequences image of a `Vec<String>`,
//! deep clones that provably keep that image, and membership tests.

use vstd::prelude::*;

verus! {

/// The mathematical image of a vector of strings: each element replaced
/// by its view.
pub open spec fn strs(v: Vec<String>) -> Seq<Seq<char>> {
    Seq::new(v@.len(), |i: int| v@[i]@)
}

/// Clone a vector of strings; the image is kept exactly.
pub fn clone_string_vec(v: &Vec<String>) -> (res: Vec<String>)
    ensures
        strs(res) == strs(*v),
        res@.len() == v@.len(),
{
    let mut res: Vec<String> = Vec::new();
    let mut k: usize = 0;
    while k < v.len()
        invariant
            k <= v@.len(),
            res@.len() == k,
            forall|i: int| 0 <= i < k ==> res@[i]@ == v@[i]@,
        decreases v@.len() - k,
    {
        res.push(v[k].clone());
        k = k + 1;
    }
    proof {
        assert(strs(res) =~= strs(*v));
    }
    res
}

/// Whether some element of `v` has exactly the characters of `target`.
pub fn vec_contains_string(v: &Vec<String>, target: &String) -> (r: bool)
    ensures
        r == exists|i: int| 0 <= i < strs(*v).len() && strs(*v)[i] == target@,
{
    let mut k: usize = 0;
    while k < v.len()
        invariant
            k <= v@.len(),
            forall|i: int| 0 <= i < k ==> strs(*v)[i] != target@,
        decreases v@.len() - k,
    {
        if v[k] == *target {
            assert(strs(*v)[k as int] == target@);
            return true;
        }
        k = k + 1;
    }
    false
}

} // verus!
