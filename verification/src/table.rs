//! Small association tables: vectors of key/value pairs looked up by key,
//! first match wins.  They stand in for hash maps where iteration order and
//! plain reasoning matter more than lookup speed.

use vstd::prelude::*;

verus! {

/// The value of the first entry whose key reads `k`.
pub open spec fn spec_assoc<V>(t: Seq<(String, V)>, k: Seq<char>) -> Option<V>
    decreases t.len(),
{
    if t.len() == 0 {
        None
    } else if t[0].0@ == k {
        Some(t[0].1)
    } else {
        spec_assoc(t.skip(1), k)
    }
}

/// The first entry (key and value) whose key reads `k`.
pub open spec fn spec_assoc_entry<V>(t: Seq<(String, V)>, k: Seq<char>) -> Option<(String, V)>
    decreases t.len(),
{
    if t.len() == 0 {
        None
    } else if t[0].0@ == k {
        Some(t[0])
    } else {
        spec_assoc_entry(t.skip(1), k)
    }
}

pub proof fn lemma_assoc_of_entry<V>(t: Seq<(String, V)>, k: Seq<char>)
    ensures
        spec_assoc(t, k) is Some <==> spec_assoc_entry(t, k) is Some,
        spec_assoc_entry(t, k) matches Some(e) ==> spec_assoc(t, k) == Some(e.1) && e.0@ == k,
    decreases t.len(),
{
    if t.len() > 0 && t[0].0@ != k {
        lemma_assoc_of_entry(t.skip(1), k);
    }
}

/// Looks a key up; hands back the first matching entry.
pub fn assoc_entry<'a, V>(t: &'a Vec<(String, V)>, k: &str) -> (r: Option<&'a (String, V)>)
    ensures
        match r {
            Some(e) => spec_assoc_entry(t@, k@) == Some(*e),
            None => spec_assoc_entry(t@, k@) is None,
        },
{
    let mut i: usize = 0;
    proof {
        assert(t@.skip(0) =~= t@);
    }
    while i < t.len()
        invariant
            i <= t@.len(),
            spec_assoc_entry(t@, k@) == spec_assoc_entry(t@.skip(i as int), k@),
        decreases t@.len() - i,
    {
        proof {
            assert(t@.skip(i as int)[0] == t@[i as int]);
            assert(t@.skip(i as int).skip(1) =~= t@.skip(i as int + 1));
        }
        if crate::text::str_eq(t[i].0.as_str(), k) {
            return Some(&t[i]);
        }
        i = i + 1;
    }
    proof {
        assert(t@.skip(t@.len() as int) =~= Seq::<(String, V)>::empty());
    }
    None
}

/// Looks a key up; hands back the first matching value.
pub fn assoc<'a, V>(t: &'a Vec<(String, V)>, k: &str) -> (r: Option<&'a V>)
    ensures
        match r {
            Some(v) => spec_assoc(t@, k@) == Some(*v),
            None => spec_assoc(t@, k@) is None,
        },
{
    proof {
        lemma_assoc_of_entry(t@, k@);
    }
    match assoc_entry(t, k) {
        Some(e) => Some(&e.1),
        None => None,
    }
}

} // verus!
