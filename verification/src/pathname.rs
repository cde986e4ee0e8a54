//! Filename normalization: a blob is stored under the basename of the path
//! supplied at upload, with any directory component discarded.

use vstd::prelude::*;
use vstd::string::StrSliceExecFns;

verus! {

/// The suffix of a path after its last slash; the whole path when it holds
/// no slash.
pub open spec fn basename(path: Seq<char>) -> Seq<char>
    decreases path.len(),
{
    if path.len() == 0 {
        path
    } else if path.last() == '/' {
        Seq::empty()
    } else {
        basename(path.drop_last()).push(path.last())
    }
}

/// A basename never holds a slash.
pub proof fn lemma_basename_no_slash(path: Seq<char>)
    ensures
        forall|i: int| 0 <= i < basename(path).len() ==> basename(path)[i] != '/',
    decreases path.len(),
{
    if path.len() > 0 && path.last() != '/' {
        lemma_basename_no_slash(path.drop_last());
        let b = basename(path.drop_last());
        assert forall|i: int| 0 <= i < basename(path).len() implies basename(path)[i] != '/' by {
            if i < b.len() {
                assert(basename(path)[i] == b[i]);
            } else {
                assert(basename(path)[i] == path.last());
            }
        }
    }
}

/// A basename is a suffix of the path it was taken from.
pub proof fn lemma_basename_suffix(path: Seq<char>)
    ensures
        basename(path).len() <= path.len(),
        basename(path) == path.subrange(
            path.len() - basename(path).len(),
            path.len() as int,
        ),
    decreases path.len(),
{
    if path.len() == 0 {
        assert(basename(path) =~= path.subrange(0, 0));
    } else if path.last() == '/' {
        assert(basename(path) =~= path.subrange(path.len() as int, path.len() as int));
    } else {
        lemma_basename_suffix(path.drop_last());
        let p = path.drop_last();
        let b = basename(p);
        assert(basename(path) =~= path.subrange(
            path.len() - basename(path).len(),
            path.len() as int,
        ));
    }
}

/// Extracts the basename of a path.
pub fn basename_of(path: &str) -> (r: String)
    ensures
        r@ == basename(path@),
{
    let n = path.unicode_len();
    let mut cut: usize = 0;
    let mut i: usize = 0;
    proof {
        assert(basename(path@.take(0)) =~= path@.subrange(0, 0));
    }
    while i < n
        invariant
            i <= n,
            cut <= i,
            path@.len() == n,
            basename(path@.take(i as int)) == path@.subrange(cut as int, i as int),
        decreases n - i,
    {
        let c = path.get_char(i);
        proof {
            let pre = path@.take(i as int + 1);
            assert(pre.drop_last() =~= path@.take(i as int));
            assert(pre.last() == c);
        }
        if c == '/' {
            cut = i + 1;
            proof {
                assert(basename(path@.take(i as int + 1)) =~= path@.subrange(
                    cut as int,
                    i as int + 1,
                ));
            }
        } else {
            proof {
                assert(basename(path@.take(i as int + 1)) =~= path@.subrange(
                    cut as int,
                    i as int + 1,
                ));
            }
        }
        i = i + 1;
    }
    proof {
        assert(path@.take(n as int) =~= path@);
    }
    path.substring_char(cut, n).to_owned()
}

/// Whether a path has a nonempty basename, i.e. does not end in a slash and
/// is not empty.
pub fn has_basename(path: &str) -> (r: bool)
    ensures
        r == (basename(path@).len() != 0),
{
    let b = basename_of(path);
    !b.as_str().is_empty()
}

} // verus!
