//! Retention policy of the backup directory.
//!
//! The directory keeps at most [`MAX_BACKUP_COUNT`] archives. After each
//! successful creation the planner picks at most one victim: the record
//! with the oldest creation time, ties broken by name order, and among
//! fully equal records the first. Archive names embed their creation time
//! in a fixed-width format, so name order and age order agree; under that
//! invariant evicting the oldest from a directory holding the most recent
//! snapshots leaves exactly the most recent snapshots again, which is the
//! retention law at the end of this module.

use vstd::prelude::*;

verus! {

/// The retention cap: how many archives the backup directory may hold.
pub const MAX_BACKUP_COUNT: usize = 10;

/// One archive in the backup directory: its file name and its filesystem
/// creation time in seconds.
#[derive(Clone, PartialEq, Eq, Debug)]
pub struct BackupRecord {
    pub name: Vec<u8>,
    pub created: u64,
}

/// Strict lexicographic byte order.
pub open spec fn lex_lt(a: Seq<u8>, b: Seq<u8>) -> bool
    decreases a.len(),
{
    if b.len() == 0 {
        false
    } else if a.len() == 0 {
        true
    } else if a[0] < b[0] {
        true
    } else if a[0] == b[0] {
        lex_lt(a.drop_first(), b.drop_first())
    } else {
        false
    }
}

/// Lexicographic order, allowing equality.
pub open spec fn lex_le(a: Seq<u8>, b: Seq<u8>) -> bool {
    lex_lt(a, b) || a == b
}

pub proof fn lemma_lex_lt_irrefl(a: Seq<u8>)
    ensures
        !lex_lt(a, a),
    decreases a.len(),
{
    if a.len() > 0 {
        lemma_lex_lt_irrefl(a.drop_first());
    }
}

pub proof fn lemma_lex_trichotomy(a: Seq<u8>, b: Seq<u8>)
    ensures
        lex_lt(a, b) || lex_lt(b, a) || a == b,
    decreases a.len(),
{
    if a.len() == 0 && b.len() == 0 {
        assert(a =~= b);
    } else if a.len() > 0 && b.len() > 0 && a[0] == b[0] {
        lemma_lex_trichotomy(a.drop_first(), b.drop_first());
        if a.drop_first() == b.drop_first() {
            assert(a.drop_first().len() == a.len() - 1);
            assert(b.drop_first().len() == b.len() - 1);
            assert(a.len() == b.len());
            assert forall|i: int| 0 <= i < a.len() implies a[i] == b[i] by {
                if i >= 1 {
                    assert(a[i] == a.drop_first()[i - 1]);
                    assert(b[i] == b.drop_first()[i - 1]);
                }
            }
            assert(a =~= b);
        }
    }
}

pub proof fn lemma_lex_lt_trans(a: Seq<u8>, b: Seq<u8>, c: Seq<u8>)
    ensures
        lex_lt(a, b) && lex_lt(b, c) ==> lex_lt(a, c),
    decreases a.len() + b.len() + c.len(),
{
    if lex_lt(a, b) && lex_lt(b, c) {
        if a.len() > 0 && b.len() > 0 && c.len() > 0 && a[0] == b[0] && b[0] == c[0] {
            lemma_lex_lt_trans(a.drop_first(), b.drop_first(), c.drop_first());
        }
    }
}

/// Decides strict lexicographic order of two byte strings.
pub fn bytes_lex_lt(a: &Vec<u8>, b: &Vec<u8>) -> (r: bool)
    ensures
        r == lex_lt(a@, b@),
{
    let mut i: usize = 0;
    proof {
        assert(a@.skip(0) =~= a@);
        assert(b@.skip(0) =~= b@);
    }
    loop
        invariant
            i <= a@.len(),
            i <= b@.len(),
            lex_lt(a@, b@) == lex_lt(a@.skip(i as int), b@.skip(i as int)),
        decreases a@.len() - i,
    {
        if i >= a.len() {
            proof {
                assert(a@.skip(i as int).len() == 0);
            }
            return i < b.len();
        }
        if i >= b.len() {
            proof {
                assert(b@.skip(i as int).len() == 0);
            }
            return false;
        }
        let x = a[i];
        let y = b[i];
        proof {
            assert(a@.skip(i as int)[0] == a@[i as int]);
            assert(b@.skip(i as int)[0] == b@[i as int]);
        }
        if x < y {
            return true;
        }
        if x > y {
            return false;
        }
        proof {
            assert(a@.skip(i as int).drop_first() =~= a@.skip(i + 1));
            assert(b@.skip(i as int).drop_first() =~= b@.skip(i + 1));
        }
        i = i + 1;
    }
}

pub proof fn lemma_lex_concat_lt(a: Seq<u8>, b: Seq<u8>, x: Seq<u8>, y: Seq<u8>)
    requires
        a.len() == b.len(),
        lex_lt(a, b),
    ensures
        lex_lt(a + x, b + y),
    decreases a.len(),
{
    assert(a.len() > 0);
    assert((a + x)[0] == a[0]);
    assert((b + y)[0] == b[0]);
    if a[0] == b[0] {
        assert((a + x).drop_first() =~= a.drop_first() + x);
        assert((b + y).drop_first() =~= b.drop_first() + y);
        lemma_lex_concat_lt(a.drop_first(), b.drop_first(), x, y);
    }
}

pub proof fn lemma_lex_concat_eq_prefix(p: Seq<u8>, a: Seq<u8>, b: Seq<u8>)
    ensures
        lex_lt(p + a, p + b) == lex_lt(a, b),
    decreases p.len(),
{
    if p.len() == 0 {
        assert(p + a =~= a);
        assert(p + b =~= b);
    } else {
        assert((p + a)[0] == p[0]);
        assert((p + b)[0] == p[0]);
        assert((p + a).len() > 0 && (p + b).len() > 0);
        assert((p + a).drop_first() =~= p.drop_first() + a);
        assert((p + b).drop_first() =~= p.drop_first() + b);
        lemma_lex_concat_eq_prefix(p.drop_first(), a, b);
    }
}

/// Age order on records: older creation time first, ties by name order.
pub open spec fn rec_older(a: BackupRecord, b: BackupRecord) -> bool {
    a.created < b.created || (a.created == b.created && lex_lt(a.name@, b.name@))
}

/// Decides the age order of two records.
pub fn rec_older_exec(a: &BackupRecord, b: &BackupRecord) -> (r: bool)
    ensures
        r == rec_older(*a, *b),
{
    if a.created < b.created {
        true
    } else if a.created == b.created {
        bytes_lex_lt(&a.name, &b.name)
    } else {
        false
    }
}

proof fn lemma_rec_older_trans(a: BackupRecord, b: BackupRecord, c: BackupRecord)
    ensures
        rec_older(a, b) && rec_older(b, c) ==> rec_older(a, c),
{
    lemma_lex_lt_trans(a.name@, b.name@, c.name@);
}

proof fn lemma_rec_trichotomy(a: BackupRecord, b: BackupRecord)
    ensures
        rec_older(a, b) || rec_older(b, a) || (a.created == b.created && a.name@ == b.name@),
{
    lemma_lex_trichotomy(a.name@, b.name@);
}

/// Picks the record to evict after a backup was created: exactly when the
/// directory holds more than `cap` archives, the first record than which
/// none is older — the oldest creation time, ties broken by name order.
/// Never more than one eviction per call.
pub fn plan_eviction(records: &Vec<BackupRecord>, cap: usize) -> (r: Option<usize>)
    ensures
        r is Some <==> records@.len() > cap,
        r matches Some(i) ==> {
            &&& i < records@.len()
            &&& forall|j: int|
                0 <= j < records@.len() ==> !rec_older(#[trigger] records@[j], records@[
                    i as int])
            &&& forall|j: int|
                0 <= j < i ==> rec_older(records@[i as int], #[trigger] records@[j])
        },
{
    if records.len() <= cap {
        return None;
    }
    let mut best: usize = 0;
    let mut j: usize = 1;
    proof {
        lemma_lex_lt_irrefl(records@[0].name@);
    }
    while j < records.len()
        invariant
            records@.len() > 0,
            best < j <= records@.len(),
            forall|k: int|
                0 <= k < j ==> !rec_older(#[trigger] records@[k], records@[best as int]),
            forall|k: int|
                0 <= k < best ==> rec_older(records@[best as int], #[trigger] records@[k]),
        decreases records@.len() - j,
    {
        if rec_older_exec(&records[j], &records[best]) {
            proof {
                let jv = records@[j as int];
                let bv = records@[best as int];
                assert forall|k: int| 0 <= k < j + 1 implies !rec_older(
                    #[trigger] records@[k],
                    jv,
                ) by {
                    if k < j {
                        lemma_rec_older_trans(records@[k], jv, bv);
                    } else {
                        lemma_lex_lt_irrefl(jv.name@);
                    }
                }
                assert forall|k: int| 0 <= k < j implies rec_older(
                    jv,
                    #[trigger] records@[k],
                ) by {
                    lemma_rec_trichotomy(records@[k], bv);
                    if rec_older(bv, records@[k]) {
                        lemma_rec_older_trans(jv, bv, records@[k]);
                    }
                }
            }
            best = j;
        } else {
            proof {
                let jv = records@[j as int];
                let bv = records@[best as int];
                assert forall|k: int| 0 <= k < j + 1 implies !rec_older(
                    #[trigger] records@[k],
                    bv,
                ) by {}
            }
        }
        j = j + 1;
    }
    Some(best)
}

/// The views of a sequence of byte vectors.
pub open spec fn names_view(s: Seq<Vec<u8>>) -> Seq<Seq<u8>> {
    s.map_values(|v: Vec<u8>| v@)
}

/// A name listing in ascending lexicographic order.
pub open spec fn sorted_names(s: Seq<Seq<u8>>) -> bool {
    forall|i: int, j: int| 0 <= i < j < s.len() ==> lex_le(#[trigger] s[i], #[trigger] s[j])
}

proof fn lemma_insert_to_multiset(s: Seq<Seq<u8>>, i: int, a: Seq<u8>)
    requires
        0 <= i <= s.len(),
    ensures
        s.insert(i, a).to_multiset() == s.to_multiset().insert(a),
{
    broadcast use vstd::seq_lib::group_to_multiset_ensures;
    broadcast use vstd::multiset::group_multiset_axioms;

    let t = s.insert(i, a);
    assert(t.remove(i) =~= s);
    assert(t[i] == a);
    assert(t.to_multiset().contains(a));
    assert(s.to_multiset() =~= t.to_multiset().remove(a));
    assert forall|x: Seq<u8>| #[trigger]
        t.to_multiset().count(x) == s.to_multiset().insert(a).count(x) by {
        if x == a {
            assert(s.to_multiset().count(a) == t.to_multiset().count(a) - 1);
        } else {
            assert(s.to_multiset().count(x) == t.to_multiset().count(x));
        }
    }
    assert(t.to_multiset() =~= s.to_multiset().insert(a));
}

/// Lists the backup directory in the order shown to the caller: the given
/// archive names sorted ascending, oldest first; the result holds exactly
/// the given names.
pub fn sort_backup_names(names: &Vec<Vec<u8>>) -> (r: Vec<Vec<u8>>)
    ensures
        r@.len() == names@.len(),
        sorted_names(names_view(r@)),
        names_view(r@).to_multiset() == names_view(names@).to_multiset(),
{
    broadcast use vstd::seq_lib::group_to_multiset_ensures;

    let mut r: Vec<Vec<u8>> = Vec::new();
    let mut k: usize = 0;
    proof {
        assert(names_view(r@) =~= Seq::<Seq<u8>>::empty());
        assert(names_view(names@.take(0)) =~= Seq::<Seq<u8>>::empty());
    }
    while k < names.len()
        invariant
            k <= names@.len(),
            r@.len() == k,
            sorted_names(names_view(r@)),
            names_view(r@).to_multiset() == names_view(names@.take(k as int)).to_multiset(),
        decreases names@.len() - k,
    {
        broadcast use vstd::seq_lib::group_to_multiset_ensures;

        let name = names[k].clone();
        let mut pos: usize = 0;
        loop
            invariant_except_break
                pos <= r@.len(),
                forall|t: int| 0 <= t < pos ==> !lex_lt(name@, #[trigger] r@[t]@),
            ensures
                pos <= r@.len(),
                forall|t: int| 0 <= t < pos ==> !lex_lt(name@, #[trigger] r@[t]@),
                pos < r@.len() ==> lex_lt(name@, r@[pos as int]@),
            decreases r@.len() - pos,
        {
            if pos >= r.len() {
                break ;
            }
            if bytes_lex_lt(&name, &r[pos]) {
                break ;
            }
            pos = pos + 1;
        }
        proof {
            assert forall|t: int| 0 <= t < pos implies lex_le(#[trigger] r@[t]@, name@) by {
                lemma_lex_trichotomy(name@, r@[t]@);
            }
        }
        let ghost old_r = r@;
        r.insert(pos, name);
        proof {
            assert(names_view(r@) =~= names_view(old_r).insert(pos as int, name@));
            lemma_insert_to_multiset(names_view(old_r), pos as int, name@);
            assert(names_view(names@.take(k + 1)).drop_last() =~= names_view(
                names@.take(k as int),
            ));
            assert(names_view(names@.take(k + 1)).last() == name@);
            assert(names_view(names@.take(k + 1)) =~= names_view(names@.take(k as int)).push(
                name@,
            ));
            let nv = names_view(r@);
            assert forall|i: int, j: int| 0 <= i < j < nv.len() implies lex_le(
                #[trigger] nv[i],
                #[trigger] nv[j],
            ) by {
                let ov = names_view(old_r);
                if i < pos && j < pos {
                    assert(nv[i] == ov[i] && nv[j] == ov[j]);
                } else if i < pos && j == pos {
                    assert(nv[i] == ov[i] && nv[j] == name@);
                } else if i < pos && j > pos {
                    assert(nv[i] == ov[i] && nv[j] == ov[j - 1]);
                } else if i == pos && j > pos {
                    assert(nv[i] == name@ && nv[j] == ov[j - 1]);
                    assert(lex_lt(name@, ov[pos as int]));
                    if pos < j - 1 {
                        if lex_lt(ov[pos as int], ov[j - 1]) {
                            lemma_lex_lt_trans(name@, ov[pos as int], ov[j - 1]);
                        }
                    }
                } else {
                    assert(i > pos && j > pos);
                    assert(nv[i] == ov[i - 1] && nv[j] == ov[j - 1]);
                }
            }
        }
        k = k + 1;
    }
    proof {
        assert(names@.take(names@.len() as int) =~= names@);
    }
    r
}

/// The most recent `cap` snapshots of an ascending creation history (all
/// of them while the history is shorter).
pub open spec fn most_recent(h: Seq<Seq<u8>>, cap: int) -> Seq<Seq<u8>> {
    if h.len() <= cap {
        h
    } else {
        h.subrange(h.len() - cap, h.len() as int)
    }
}

/// What one create-then-evict cycle leaves in the backup directory: the
/// new archive appended, and, exactly when the directory then exceeds the
/// cap, its first (oldest) entry evicted — never more than one.
pub open spec fn retention_step(dir: Seq<Seq<u8>>, n: Seq<u8>, cap: int) -> Seq<Seq<u8>> {
    let grown = dir.push(n);
    if grown.len() > cap {
        grown.subrange(1, grown.len() as int)
    } else {
        grown
    }
}

/// Retention law: a directory holding the most recent snapshots of a
/// creation history still holds exactly the most recent snapshots after
/// one create-then-evict cycle — so after any run of cycles the directory
/// holds `min(N, cap)` archives, always the most recently created ones.
/// The history lists the archives in creation order; that the planner
/// evicts the directory's first entry is `lemma_eviction_picks_first_of_sorted`
/// together with the name order of `lemma_archive_name_order`.
pub proof fn lemma_retention_step_keeps_most_recent(h: Seq<Seq<u8>>, n: Seq<u8>, cap: int)
    requires
        1 <= cap,
    ensures
        retention_step(most_recent(h, cap), n, cap) == most_recent(h.push(n), cap),
        most_recent(h.push(n), cap).len() == if h.len() + 1 <= cap {
            h.len() + 1
        } else {
            cap as nat
        },
{
    if h.len() + 1 <= cap {
        assert(retention_step(most_recent(h, cap), n, cap) =~= most_recent(h.push(n), cap));
    } else if h.len() < cap {
        assert(h.len() == cap - 1);
        assert(retention_step(most_recent(h, cap), n, cap) =~= most_recent(h.push(n), cap));
    } else {
        let dir = most_recent(h, cap);
        assert(dir == h.subrange(h.len() - cap, h.len() as int));
        assert(retention_step(dir, n, cap) =~= most_recent(h.push(n), cap));
    }
}

/// In a directory listed oldest-first, the eviction planner's choice is
/// the first entry: any index that nothing is older than, and whose
/// predecessors it is older than, is index zero.
pub proof fn lemma_eviction_picks_first_of_sorted(records: Seq<BackupRecord>, i: int)
    requires
        records.len() > 0,
        forall|p: int, q: int|
            0 <= p < q < records.len() ==> rec_older(#[trigger] records[p], #[trigger] records[q]),
        0 <= i < records.len(),
        forall|j: int| 0 <= j < records.len() ==> !rec_older(#[trigger] records[j], records[i]),
    ensures
        i == 0,
{
    if i > 0 {
        assert(rec_older(records[0], records[i]));
    }
}

} // verus!
