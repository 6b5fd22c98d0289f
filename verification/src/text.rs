//! Small verified helpers on strings.

use vstd::prelude::*;
use vstd::string::*;
use vstd::std_specs::iter::IteratorSpec;

verus! {

/// Whether the character `.` occurs in `s`.
pub fn contains_dot(s: &str) -> (found: bool)
    ensures
        found == s@.contains('.'),
{
    let mut found = false;
    for c in it: s.chars()
        invariant
            it.seq() == s@,
            found == (exists|j: int| 0 <= j < it.index() && s@[j] == '.'),
    {
        if c == '.' {
            found = true;
        }
    }
    found
}

/// Whether `a` and `b` hold the same characters.
pub fn same_text(a: &str, b: &str) -> (same: bool)
    ensures
        same == (a@ == b@),
{
    let mut left = a.chars();
    let mut right = b.chars();
    let ghost mut done: int = 0;
    loop
        invariant
            left.obeys_prophetic_iter_laws(),
            right.obeys_prophetic_iter_laws(),
            0 <= done <= a@.len(),
            done <= b@.len(),
            left.remaining() == a@.skip(done),
            right.remaining() == b@.skip(done),
            a@.take(done) == b@.take(done),
        decreases a@.len() - done,
    {
        let x = left.next();
        let y = right.next();
        match (x, y) {
            (None, None) => {
                proof {
                    assert(a@ =~= a@.take(done));
                    assert(b@ =~= b@.take(done));
                }
                return true;
            },
            (Some(p), Some(q)) => {
                if p != q {
                    proof {
                        assert(a@[done] != b@[done]);
                    }
                    return false;
                }
                proof {
                    assert(a@.take(done + 1) =~= a@.take(done).push(a@[done]));
                    assert(b@.take(done + 1) =~= b@.take(done).push(b@[done]));
                    assert(a@.skip(done).drop_first() =~= a@.skip(done + 1));
                    assert(b@.skip(done).drop_first() =~= b@.skip(done + 1));
                    done = done + 1;
                }
            },
            _ => {
                proof {
                    assert(a@.len() != b@.len());
                }
                return false;
            },
        }
    }
}

} // verus!
