//! File paths as `std::path` reads them where all platforms agree: `/` is
//! the only separator, there is no drive or server prefix, repeated
//! separators and `.` components are skipped, and a trailing separator is
//! ignored.

use vstd::prelude::*;

verus! {

/// A path that every platform reads alike: no `\` or `:`, and it does not
/// begin with two separators (a server prefix on some platforms).
pub open spec fn portable_path(f: Seq<char>) -> bool {
    &&& forall|i: int| 0 <= i < f.len() ==> f[i] != '\\' && f[i] != ':'
    &&& !(f.len() >= 2 && f[0] == '/' && f[1] == '/')
}

/// The position of the last `/` of `f`, or -1 if there is none.
pub open spec fn last_slash(f: Seq<char>) -> int
    decreases f.len(),
{
    if f.len() == 0 {
        -1
    } else if f.last() == '/' {
        f.len() - 1
    } else {
        last_slash(f.drop_last())
    }
}

/// `.`, the current directory.
pub open spec fn is_cur_dir(s: Seq<char>) -> bool {
    s.len() == 1 && s[0] == '.'
}

/// `..`, the parent directory.
pub open spec fn is_parent_dir(s: Seq<char>) -> bool {
    s.len() == 2 && s[0] == '.' && s[1] == '.'
}

/// The file name of a path: its last component that is neither empty nor
/// `.`, unless that component is `..` or there is none.
pub open spec fn path_file_name(f: Seq<char>) -> Option<Seq<char>>
    decreases f.len(),
{
    let k = last_slash(f);
    let seg = f.skip(k + 1);
    if seg.len() == 0 || is_cur_dir(seg) {
        if k < 0 {
            None
        } else {
            proof {
                lemma_last_slash(f);
            }
            path_file_name(f.take(k))
        }
    } else if is_parent_dir(seg) {
        None
    } else {
        Some(seg)
    }
}

/// The last `/` of a path lies within it.
pub proof fn lemma_last_slash(f: Seq<char>)
    ensures
        -1 <= last_slash(f) < f.len(),
        last_slash(f) >= 0 ==> f[last_slash(f)] == '/',
        forall|i: int| last_slash(f) < i < f.len() ==> f[i] != '/',
    decreases f.len(),
{
    if f.len() > 0 {
        lemma_last_slash(f.drop_last());
        assert forall|i: int| last_slash(f) < i < f.len() implies f[i] != '/' by {
            if i < f.len() - 1 {
                assert(f.drop_last()[i] == f[i]);
            }
        }
    }
}

} // verus!
