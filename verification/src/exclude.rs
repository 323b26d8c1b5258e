//! Inclusion rules for backup content.
//!
//! Which files belong in a snapshot is site configuration, not core logic,
//! so the backup manager takes the rule as a pluggable predicate: a trait
//! whose implementations decide, per relative path, whether the file is
//! left out of the archive. Directories are never subject to the rule.
//!
//! Two rule families cover a typical site: dropping files whose
//! extension carries a pre-existing-backup marker, and keeping only the
//! canonical file of a named group of same-extension alternates. `PairRule`
//! combines two rules.

use vstd::prelude::*;

verus! {

/// Whether `needle` occurs as a contiguous run inside `hay`.
pub open spec fn contains_seq(hay: Seq<u8>, needle: Seq<u8>) -> bool {
    exists|i: int|
        0 <= i <= hay.len() - needle.len() && #[trigger] hay.subrange(i, i + needle.len())
            == needle
}

/// Index of the last occurrence of `b`, or `-1` when `b` does not occur.
pub open spec fn last_byte_at(p: Seq<u8>, b: u8) -> int
    decreases p.len(),
{
    if p.len() == 0 {
        -1
    } else if p.last() == b {
        p.len() - 1
    } else {
        last_byte_at(p.drop_last(), b)
    }
}

/// Whether the path's final segment has an extension: a dot that stands
/// after the segment's first byte.
pub open spec fn has_extension(p: Seq<u8>) -> bool {
    last_byte_at(p, 46) > last_byte_at(p, 47) + 1
}

/// The bytes after the final segment's last dot; meaningful only when
/// `has_extension` holds.
pub open spec fn extension_of(p: Seq<u8>) -> Seq<u8> {
    p.subrange(last_byte_at(p, 46) + 1, p.len() as int)
}

/// Decides equality of two byte strings.
pub fn bytes_equal(a: &Vec<u8>, b: &Vec<u8>) -> (r: bool)
    ensures
        r == (a@ == b@),
{
    if a.len() != b.len() {
        return false;
    }
    let mut i: usize = 0;
    while i < a.len()
        invariant
            a@.len() == b@.len(),
            i <= a@.len(),
            forall|j: int| 0 <= j < i ==> a@[j] == b@[j],
        decreases a@.len() - i,
    {
        if a[i] != b[i] {
            return false;
        }
        i = i + 1;
    }
    proof {
        assert(a@ =~= b@);
    }
    true
}

/// Decides whether `needle` occurs inside `hay`.
pub fn contains_bytes(hay: &Vec<u8>, needle: &Vec<u8>) -> (b: bool)
    ensures
        b == contains_seq(hay@, needle@),
{
    let nlen = needle.len();
    if nlen == 0 {
        proof {
            assert(hay@.subrange(0, 0 + needle@.len() as int) =~= needle@);
        }
        return true;
    }
    if nlen > hay.len() {
        return false;
    }
    let last_start = hay.len() - nlen;
    let mut i: usize = 0;
    while i <= last_start
        invariant
            nlen == needle@.len(),
            0 < nlen <= hay@.len(),
            last_start == hay@.len() - nlen,
            hay@.len() <= usize::MAX,
            i <= last_start + 1,
            forall|j: int|
                0 <= j < i ==> #[trigger] hay@.subrange(j, j + needle@.len()) != needle@,
        decreases last_start + 1 - i,
    {
        let mut k: usize = 0;
        let mut matches_here = true;
        while k < nlen
            invariant
                nlen == needle@.len(),
                0 < nlen,
                i + nlen <= hay@.len(),
                hay@.len() <= usize::MAX,
                k <= nlen,
                matches_here ==> forall|m: int| 0 <= m < k ==> hay@[i + m] == needle@[m],
                !matches_here ==> hay@.subrange(i as int, i + needle@.len()) != needle@,
            decreases nlen - k,
        {
            if hay[i + k] != needle[k] {
                matches_here = false;
                proof {
                    assert(hay@.subrange(i as int, i + needle@.len())[k as int] != needle@[
                        k as int]);
                }
                k = nlen;
            } else {
                k = k + 1;
            }
        }
        if matches_here {
            proof {
                assert(hay@.subrange(i as int, i + needle@.len()) =~= needle@);
            }
            return true;
        }
        i = i + 1;
    }
    proof {
        assert forall|j: int|
            0 <= j <= hay@.len() - needle@.len() implies #[trigger] hay@.subrange(
            j,
            j + needle@.len(),
        ) != needle@ by {
            assert(j < i);
        }
    }
    false
}

/// Index of the last occurrence of `b` in `p`, as `(found, index)`.
pub fn rfind_byte(p: &Vec<u8>, b: u8) -> (r: (bool, usize))
    ensures
        r.0 ==> r.1 < p@.len() && r.1 == last_byte_at(p@, b),
        !r.0 ==> last_byte_at(p@, b) == -1,
{
    let mut found = false;
    let mut idx: usize = 0;
    let mut i: usize = 0;
    while i < p.len()
        invariant
            i <= p@.len(),
            found ==> idx < i && idx == last_byte_at(p@.take(i as int), b),
            !found ==> last_byte_at(p@.take(i as int), b) == -1,
        decreases p@.len() - i,
    {
        proof {
            assert(p@.take(i + 1).drop_last() =~= p@.take(i as int));
        }
        if p[i] == b {
            found = true;
            idx = i;
        }
        i = i + 1;
    }
    proof {
        assert(p@.take(p@.len() as int) =~= p@);
    }
    (found, idx)
}

/// Computes the final segment's extension, if any.
pub fn extension_bytes(p: &Vec<u8>) -> (r: Option<Vec<u8>>)
    ensures
        r is Some <==> has_extension(p@),
        r matches Some(e) ==> e@ == extension_of(p@),
{
    let (dot_found, dot) = rfind_byte(p, 46);
    let (sep_found, sep) = rfind_byte(p, 47);
    let has = dot_found && (if sep_found {
        dot > sep && dot - sep > 1
    } else {
        dot > 0
    });
    if has {
        let plen = p.len();
        assert(dot < plen);
        let mut e: Vec<u8> = Vec::new();
        let mut i: usize = dot + 1;
        while i < p.len()
            invariant
                dot < p@.len(),
                p@.len() <= usize::MAX,
                dot + 1 <= i <= p@.len(),
                e@ == p@.subrange(dot + 1, i as int),
            decreases p@.len() - i,
        {
            e.push(p[i]);
            proof {
                assert(p@.subrange(dot + 1, i + 1) =~= p@.subrange(dot + 1, i as int).push(
                    p@[i as int],
                ));
            }
            i = i + 1;
        }
        Some(e)
    } else {
        None
    }
}

/// A predicate deciding which files stay out of a backup archive.
pub trait ExclusionRule {
    /// Which relative paths the rule drops.
    spec fn excludes(&self, name: Seq<u8>) -> bool;

    /// Decides `excludes` for one relative path.
    fn is_excluded(&self, name: &Vec<u8>) -> (b: bool)
        ensures
            b == self.excludes(name@),
    ;
}

/// Drops every file whose extension contains a marker, such as the marker
/// of a pre-existing backup copy.
pub struct MarkerExtensionRule {
    pub marker: Vec<u8>,
}

impl ExclusionRule for MarkerExtensionRule {
    open spec fn excludes(&self, name: Seq<u8>) -> bool {
        has_extension(name) && contains_seq(extension_of(name), self.marker@)
    }

    fn is_excluded(&self, name: &Vec<u8>) -> (b: bool) {
        match extension_bytes(name) {
            Some(e) => contains_bytes(&e, &self.marker),
            None => false,
        }
    }
}

/// Keeps exactly one canonical file among a named group of alternates: a
/// file whose path contains the group marker and carries the group's
/// extension is dropped unless its path is the canonical one.
pub struct CanonicalVariantRule {
    pub marker: Vec<u8>,
    pub canonical: Vec<u8>,
    pub extension: Vec<u8>,
}

impl ExclusionRule for CanonicalVariantRule {
    open spec fn excludes(&self, name: Seq<u8>) -> bool {
        &&& name != self.canonical@
        &&& contains_seq(name, self.marker@)
        &&& has_extension(name)
        &&& extension_of(name) == self.extension@
    }

    fn is_excluded(&self, name: &Vec<u8>) -> (b: bool) {
        if bytes_equal(name, &self.canonical) {
            return false;
        }
        if !contains_bytes(name, &self.marker) {
            return false;
        }
        match extension_bytes(name) {
            Some(e) => bytes_equal(&e, &self.extension),
            None => false,
        }
    }
}

/// Combines two rules: a file is dropped when either rule drops it.
pub struct PairRule<A: ExclusionRule, B: ExclusionRule> {
    pub first: A,
    pub second: B,
}

impl<A: ExclusionRule, B: ExclusionRule> ExclusionRule for PairRule<A, B> {
    open spec fn excludes(&self, name: Seq<u8>) -> bool {
        self.first.excludes(name) || self.second.excludes(name)
    }

    fn is_excluded(&self, name: &Vec<u8>) -> (b: bool) {
        self.first.is_excluded(name) || self.second.is_excluded(name)
    }
}

} // verus!
