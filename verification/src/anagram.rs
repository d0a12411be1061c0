//! The anagram check: deciding whether one string is a letter-for-letter
//! rearrangement of another.

use vstd::prelude::*;
use vstd::seq_lib::lemma_multiset_commutative;
use crate::letters::chars_of;

verus! {

broadcast use {
    vstd::seq_lib::group_to_multiset_ensures,
    vstd::multiset::group_multiset_axioms,
};

/// Two character sequences are anagrams of each other when they hold the
/// same characters with the same multiplicities (case-sensitive,
/// order-insensitive).
pub open spec fn is_anagram_of(a: Seq<char>, b: Seq<char>) -> bool {
    a.to_multiset() == b.to_multiset()
}

/// Every string is an anagram of itself.
pub proof fn lemma_anagram_reflexive(a: Seq<char>)
    ensures
        is_anagram_of(a, a),
{
}

/// The anagram relation is symmetric.
pub proof fn lemma_anagram_symmetric(a: Seq<char>, b: Seq<char>)
    ensures
        is_anagram_of(a, b) == is_anagram_of(b, a),
{
}

/// Position of some occurrence of `c` in `v`, if any.
fn find_index(v: &Vec<char>, c: char) -> (r: Option<usize>)
    ensures
        r matches Some(j) ==> j < v@.len() && v@[j as int] == c,
        r is None ==> !v@.contains(c),
{
    let mut i: usize = 0;
    while i < v.len()
        invariant
            0 <= i <= v@.len(),
            forall|k: int| 0 <= k < i ==> v@[k] != c,
        decreases v@.len() - i,
    {
        if v[i] == c {
            return Some(i);
        }
        i += 1;
    }
    proof {
        if v@.contains(c) {
            let w = choose|k: int| 0 <= k < v@.len() && v@[k] == c;
            assert(v@[w] == c);
        }
    }
    None
}

/// Decides whether `a` and `b` are anagrams: true iff the two strings hold
/// the same character multiset.  Each character of `a` is discharged against
/// a distinct occurrence in `b`, so no character is counted twice.  Empty
/// strings are trivially anagrams of each other.
pub fn is_anagram(a: &str, b: &str) -> (r: bool)
    ensures
        r == is_anagram_of(a@, b@),
{
    let av = chars_of(a);
    let mut bv = chars_of(b);
    if av.len() != bv.len() {
        proof {
            assert(a@.to_multiset().len() == a@.len());
            assert(b@.to_multiset().len() == b@.len());
        }
        return false;
    }
    let n = av.len();
    let mut i: usize = 0;
    while i < n
        invariant
            0 <= i <= n,
            av@ == a@,
            n == a@.len(),
            b@.len() == n,
            bv@.len() == n - i,
            a@.take(i as int).to_multiset().add(bv@.to_multiset()) == b@.to_multiset(),
        decreases n - i,
    {
        let c = av[i];
        let ghost pre_bv = bv@;
        match find_index(&bv, c) {
            Some(j) => {
                bv.remove(j);
                proof {
                    assert(bv@ == pre_bv.remove(j as int));
                    assert(pre_bv.remove(j as int).to_multiset() == pre_bv.to_multiset().remove(
                        pre_bv[j as int],
                    ));
                    assert(bv@.to_multiset() == pre_bv.to_multiset().remove(c));
                    assert(a@.take(i + 1) =~= a@.take(i as int).push(c));
                    assert(a@.take(i as int).push(c).to_multiset() == a@.take(
                        i as int,
                    ).to_multiset().insert(c));
                    assert(a@.take(i + 1).to_multiset() == a@.take(
                        i as int,
                    ).to_multiset().insert(c));
                    assert(pre_bv.contains(c)) by {
                        assert(pre_bv[j as int] == c);
                    }
                    assert(pre_bv.to_multiset().count(c) > 0);
                    assert(a@.take(i + 1).to_multiset().add(bv@.to_multiset()) =~= a@.take(
                        i as int,
                    ).to_multiset().add(pre_bv.to_multiset()));
                }
            },
            None => {
                proof {
                    assert(a@ =~= a@.take(i as int) + a@.skip(i as int));
                    lemma_multiset_commutative(a@.take(i as int), a@.skip(i as int));
                    assert(a@.skip(i as int)[0] == c);
                    assert(a@.skip(i as int).contains(c));
                    assert(a@.skip(i as int).to_multiset().count(c) > 0);
                    assert(pre_bv.to_multiset().count(c) == 0);
                    assert(b@.to_multiset().count(c) == a@.take(i as int).to_multiset().count(c));
                    assert(a@.to_multiset().count(c) >= a@.take(i as int).to_multiset().count(c)
                        + 1);
                }
                return false;
            },
        }
        i += 1;
    }
    proof {
        assert(a@.take(n as int) =~= a@);
        assert(bv@ =~= Seq::<char>::empty());
        assert(forall|x: char| bv@.to_multiset().count(x) == 0) by {
            assert(forall|x: char| !bv@.contains(x));
        }
        assert(a@.to_multiset() =~= b@.to_multiset());
    }
    true
}

} // verus!
