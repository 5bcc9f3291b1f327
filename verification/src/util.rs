use vstd::prelude::*;

use crate::key::TypeKey;

verus! {

/// An element-for-element copy of a chain of type keys, used when the same
/// provenance snapshot must be both kept and handed out.
pub fn copy_keys(v: &Vec<TypeKey>) -> (out: Vec<TypeKey>)
    ensures
        out@ == v@,
{
    let mut out: Vec<TypeKey> = Vec::new();
    let mut i: usize = 0;
    while i < v.len()
        invariant
            0 <= i <= v.len(),
            out@ == v@.take(i as int),
        decreases v.len() - i,
    {
        out.push(v[i]);
        assert(v@.take(i + 1) =~= v@.take(i as int).push(v@[i as int]));
        i = i + 1;
    }
    assert(v@.take(v@.len() as int) =~= v@);
    out
}

/// Whether `key` occurs in the chain `v`.
pub fn keys_contain(v: &Vec<TypeKey>, key: TypeKey) -> (r: bool)
    ensures
        r == v@.contains(key),
{
    let mut i: usize = 0;
    while i < v.len()
        invariant
            0 <= i <= v.len(),
            forall|j: int| 0 <= j < i ==> v@[j] != key,
        decreases v.len() - i,
    {
        if v[i] == key {
            assert(v@[i as int] == key);
            return true;
        }
        i = i + 1;
    }
    false
}

/// Relies on str's `PartialEq`: whether the two strings hold the same
/// characters.
#[verifier::external_body]
pub fn str_eq(a: &str, b: &str) -> (r: bool)
    ensures
        r == (a@ == b@),
{
    a == b
}

/// Relies on String's `Clone`: the copy holds the same characters.
#[verifier::external_body]
pub fn clone_string(s: &String) -> (r: String)
    ensures
        r@ == s@,
{
    s.clone()
}

} // verus!
