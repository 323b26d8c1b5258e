//! Relative-path safety for archive extraction.
//!
//! An archive entry may carry any name, so before an entry is written under
//! the restore root its relative path must be shown to stay inside that
//! root. A safe relative path is non-empty, uses `/` as its only separator,
//! is not absolute, has no empty segment and no `.` or `..` segment, and
//! holds no byte that would smuggle in another root on some platform: no
//! NUL, no backslash, no drive colon.

use vstd::prelude::*;

verus! {

/// Whether a segment starts at index `i`.
pub open spec fn segment_starts_at(p: Seq<u8>, i: int) -> bool {
    i == 0 || p[i - 1] == 47
}

/// Whether a segment ends right before index `j`.
pub open spec fn segment_ends_before(p: Seq<u8>, j: int) -> bool {
    j == p.len() || p[j] == 47
}

/// A lone `.` segment at index `i`.
pub open spec fn dot_segment_at(p: Seq<u8>, i: int) -> bool {
    segment_starts_at(p, i) && p[i] == 46 && segment_ends_before(p, i + 1)
}

/// A `..` segment at index `i`.
pub open spec fn dotdot_segment_at(p: Seq<u8>, i: int) -> bool {
    segment_starts_at(p, i) && p[i] == 46 && i + 1 < p.len() && p[i + 1] == 46
        && segment_ends_before(p, i + 2)
}

/// Whether joining this relative path under a root directory resolves to a
/// strict descendant of that root on every platform.
pub open spec fn safe_rel_path(p: Seq<u8>) -> bool {
    &&& p.len() > 0
    &&& p[0] != 47
    &&& p[p.len() - 1] != 47
    &&& forall|i: int| 0 <= i < p.len() ==> p[i] != 0 && p[i] != 92 && p[i] != 58
    &&& forall|i: int| 0 <= i < p.len() - 1 ==> !(#[trigger] p[i] == 47 && p[i + 1] == 47)
    &&& forall|i: int| 0 <= i < p.len() ==> !dot_segment_at(p, i)
    &&& forall|i: int| 0 <= i < p.len() ==> !dotdot_segment_at(p, i)
}

/// Decides `safe_rel_path` for a candidate relative path.
pub fn is_safe_rel_path(p: &Vec<u8>) -> (b: bool)
    ensures
        b == safe_rel_path(p@),
{
    let n = p.len();
    if n == 0 {
        return false;
    }
    if p[0] == 47 {
        return false;
    }
    if p[n - 1] == 47 {
        return false;
    }
    let mut i: usize = 0;
    while i < n
        invariant
            n == p@.len(),
            0 < n,
            i <= n,
            forall|j: int| 0 <= j < i ==> p@[j] != 0 && p@[j] != 92 && p@[j] != 58,
            forall|j: int| 0 <= j < i && j < p@.len() - 1 ==> !(#[trigger] p@[j] == 47 && p@[j + 1] == 47),
            forall|j: int| 0 <= j < i ==> !dot_segment_at(p@, j),
            forall|j: int| 0 <= j < i ==> !dotdot_segment_at(p@, j),
        decreases n - i,
    {
        let c = p[i];
        if c == 0 || c == 92 || c == 58 {
            return false;
        }
        if i + 1 < n && c == 47 && p[i + 1] == 47 {
            return false;
        }
        if c == 46 {
            let starts = i == 0 || p[i - 1] == 47;
            if starts {
                if i + 1 == n || p[i + 1] == 47 {
                    assert(dot_segment_at(p@, i as int));
                    return false;
                }
                if p[i + 1] == 46 && (i + 2 == n || p[i + 2] == 47) {
                    assert(dotdot_segment_at(p@, i as int));
                    return false;
                }
            }
        }
        i = i + 1;
    }
    true
}

} // verus!
