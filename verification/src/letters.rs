//! Character-level utilities shared by the scrambler, the anagram check and
//! the letter-tile handling.

use vstd::prelude::*;

verus! {

/// Index of the first occurrence of `c` in `s`, or `s.len()` when `c` does
/// not occur.
pub open spec fn find_first(s: Seq<char>, c: char) -> int
    decreases s.len(),
{
    if s.len() == 0 {
        0
    } else if s[0] == c {
        0
    } else {
        1 + find_first(s.drop_first(), c)
    }
}

/// `find_first` points at the first occurrence: everything before it differs
/// from `c`, and it equals `s.len()` exactly when `c` is absent.
pub proof fn lemma_find_first(s: Seq<char>, c: char)
    ensures
        0 <= find_first(s, c) <= s.len(),
        find_first(s, c) < s.len() ==> s[find_first(s, c)] == c,
        forall|k: int| 0 <= k < find_first(s, c) ==> s[k] != c,
        find_first(s, c) == s.len() <==> !s.contains(c),
    decreases s.len(),
{
    if s.len() == 0 {
    } else if s[0] == c {
    } else {
        lemma_find_first(s.drop_first(), c);
        assert forall|k: int| 0 <= k < find_first(s, c) implies s[k] != c by {
            if k > 0 {
                assert(s.drop_first()[k - 1] == s[k]);
            }
        }
        if find_first(s, c) == s.len() {
            assert forall|k: int| 0 <= k < s.len() implies s[k] != c by {
                if k > 0 {
                    assert(s.drop_first()[k - 1] == s[k]);
                }
            }
        } else {
            assert(s.drop_first()[find_first(s.drop_first(), c)] == s[find_first(s, c)]);
            assert(s.contains(c)) by {
                assert(s[find_first(s, c)] == c);
            }
        }
    }
}

/// Collects the characters of a string slice into a vector, in order.
pub fn chars_of(s: &str) -> (r: Vec<char>)
    ensures
        r@ == s@,
{
    broadcast use vstd::string::axiom_spec_iter;

    let mut r: Vec<char> = Vec::new();
    for c in it: s.chars()
        invariant
            0 <= it.index() <= it.seq().len(),
            it.seq() == s@,
            r@ == it.seq().take(it.index()),
    {
        r.push(c);
        proof {
            assert(c == it.seq()[it.index()]);
            assert(r@ =~= it.seq().take(it.index() + 1));
        }
    }
    proof {
        assert(r@ =~= s@);
    }
    r
}

/// Character-for-character equality of two string slices.
pub fn str_eq(a: &str, b: &str) -> (r: bool)
    ensures
        r == (a@ == b@),
{
    let av = chars_of(a);
    let bv = chars_of(b);
    if av.len() != bv.len() {
        return false;
    }
    let mut i: usize = 0;
    while i < av.len()
        invariant
            0 <= i <= av@.len(),
            av@ == a@,
            bv@ == b@,
            a@.len() == b@.len(),
            forall|k: int| 0 <= k < i ==> a@[k] == b@[k],
        decreases av@.len() - i,
    {
        if av[i] != bv[i] {
            return false;
        }
        i += 1;
    }
    proof {
        assert(a@ =~= b@);
    }
    true
}

/// Relies on `<String as FromIterator<char>>::from_iter` (through
/// `Iterator::collect`): the collected string holds exactly the characters
/// of the vector, in order.
#[verifier::external_body]
pub(crate) fn string_from_chars(v: &Vec<char>) -> (r: String)
    ensures
        r@ == v@,
{
    v.iter().collect()
}

/// Removes the first occurrence of `c` from `s`, or reports that `c` does
/// not occur.  This is the letter-tile move: a typed letter leaves the
/// scrambled tray exactly once.
pub fn remove_first(s: &str, c: char) -> (r: Option<String>)
    ensures
        r is Some <==> s@.contains(c),
        r matches Some(t) ==> t@ == s@.remove(find_first(s@, c)),
{
    proof {
        lemma_find_first(s@, c);
    }
    let v = chars_of(s);
    let mut out: Vec<char> = Vec::new();
    let mut i: usize = 0;
    while i < v.len()
        invariant
            0 <= i <= v@.len(),
            v@ == s@,
            out@ == v@.take(i as int),
            forall|k: int| 0 <= k < i ==> v@[k] != c,
        decreases v@.len() - i,
    {
        if v[i] == c {
            proof {
                assert(find_first(s@, c) == i) by {
                    lemma_find_first(s@, c);
                    if find_first(s@, c) < i {
                        assert(s@[find_first(s@, c)] == c);
                    }
                }
            }
            let mut j: usize = i + 1;
            while j < v.len()
                invariant
                    i < j <= v@.len(),
                    v@ == s@,
                    out@ == v@.take(i as int) + v@.subrange(i + 1, j as int),
                decreases v@.len() - j,
            {
                out.push(v[j]);
                j += 1;
                proof {
                    assert(out@ =~= v@.take(i as int) + v@.subrange(i + 1, j as int));
                }
            }
            proof {
                assert(out@ =~= s@.remove(i as int));
            }
            return Some(string_from_chars(&out));
        }
        out.push(v[i]);
        i += 1;
        proof {
            assert(out@ =~= v@.take(i as int));
        }
    }
    proof {
        assert(!s@.contains(c)) by {
            if s@.contains(c) {
                let w = choose|k: int| 0 <= k < s@.len() && s@[k] == c;
                assert(s@[w] == c);
            }
        }
    }
    None
}

} // verus!
