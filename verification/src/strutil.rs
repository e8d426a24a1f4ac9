//! Verified character-level helpers for `&str` values.
//!
//! The registry keys model configurations and language mappings by strings,
//! so the lookup functions need an equality test whose result is pinned to
//! the string views. These helpers walk the character iterators directly.

use vstd::prelude::*;

verus! {

use vstd::std_specs::iter::IteratorSpec;

broadcast use vstd::string::axiom_spec_iter, vstd::string::next_postcondition;

/// Character-by-character equality of two string slices: returns whether the
/// two views are the same sequence of characters.
pub fn str_eq(a: &str, b: &str) -> (r: bool)
    ensures
        r == (a@ == b@),
{
    let mut ia = a.chars();
    let mut ib = b.chars();
    let ghost mut i: int = 0;
    proof {
        assert(a@.skip(0) =~= a@);
        assert(b@.skip(0) =~= b@);
        assert(a@.take(0) =~= b@.take(0));
    }
    loop
        invariant
            0 <= i <= a@.len(),
            0 <= i <= b@.len(),
            a@.take(i) == b@.take(i),
            ia.remaining() == a@.skip(i),
            ib.remaining() == b@.skip(i),
        decreases a@.len() - i,
    {
        let ca = ia.next();
        let cb = ib.next();
        match (ca, cb) {
            (Some(x), Some(y)) => {
                proof {
                    assert(i < a@.len() && i < b@.len());
                    assert(x == a@.skip(i)[0] && y == b@.skip(i)[0]);
                    assert(a@.skip(i)[0] == a@[i] && b@.skip(i)[0] == b@[i]);
                }
                if x != y {
                    proof {
                        assert(a@[i] != b@[i]);
                        assert(a@ != b@);
                    }
                    return false;
                }
                proof {
                    assert(ia.remaining() =~= a@.skip(i + 1));
                    assert(ib.remaining() =~= b@.skip(i + 1));
                    assert(a@.take(i + 1) =~= a@.take(i).push(a@[i]));
                    assert(b@.take(i + 1) =~= b@.take(i).push(b@[i]));
                    i = i + 1;
                }
            },
            (None, None) => {
                proof {
                    assert(i == a@.len() && i == b@.len());
                    assert(a@.take(i) =~= a@);
                    assert(b@.take(i) =~= b@);
                    assert(a@ == b@);
                }
                return true;
            },
            (Some(_), None) => {
                proof {
                    assert(i < a@.len() && i == b@.len());
                    assert(a@.len() != b@.len());
                }
                return false;
            },
            (None, Some(_)) => {
                proof {
                    assert(i == a@.len() && i < b@.len());
                    assert(a@.len() != b@.len());
                }
                return false;
            },
        }
    }
}

/// Whether the character `c` occurs somewhere in `s`.
pub fn str_contains_char(s: &str, c: char) -> (r: bool)
    ensures
        r == s@.contains(c),
{
    let mut it = s.chars();
    let ghost mut i: int = 0;
    proof {
        assert(s@.skip(0) =~= s@);
    }
    loop
        invariant
            0 <= i <= s@.len(),
            forall|k: int| 0 <= k < i ==> s@[k] != c,
            it.remaining() == s@.skip(i),
        decreases s@.len() - i,
    {
        match it.next() {
            Some(x) => {
                proof {
                    assert(i < s@.len());
                    assert(x == s@.skip(i)[0]);
                    assert(s@.skip(i)[0] == s@[i]);
                }
                if x == c {
                    proof {
                        assert(s@[i] == c);
                    }
                    return true;
                }
                proof {
                    assert(it.remaining() =~= s@.skip(i + 1));
                    i = i + 1;
                }
            },
            None => {
                proof {
                    assert(i == s@.len());
                    assert(forall|k: int| 0 <= k < s@.len() ==> s@[k] != c);
                    assert(!s@.contains(c));
                }
                return false;
            },
        }
    }
}

} // verus!
