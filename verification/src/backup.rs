//! Backup manager: turns a snapshot of the data directory into an archive.
//!
//! The caller enumerates the data directory into a sequence of
//! [`TreeEntry`] values (relative path, directory flag, bytes) and hands
//! it in together with the inclusion rule and the snapshot time. Every
//! directory becomes an empty entry named with a trailing slash; every
//! file not dropped by the rule becomes an entry with its bytes; archive
//! order is the enumeration order. The archive's name is the formatted
//! snapshot time plus the archive suffix.

use vstd::prelude::*;
use crate::archive::{
    ArchiveWriter,
    writer_new,
    writer_add_file,
    writer_add_dir,
    writer_finish,
    writer_entries,
    writer_accepts_file,
    writer_accepts_dir,
    writer_can_finish,
    archive_entries,
    is_archive,
};
use crate::clock::{Timestamp, stamp_bytes, format_stamp};
use crate::exclude::ExclusionRule;
use crate::lifecycle::BackupError;
use crate::paths::safe_rel_path;

verus! {

/// One entry of an enumerated directory tree: a relative path, whether it
/// is a directory, and for a file its bytes.
#[derive(Clone, PartialEq, Eq, Debug)]
pub struct TreeEntry {
    pub path: Vec<u8>,
    pub is_dir: bool,
    pub data: Vec<u8>,
}

/// The raw archive entries a tree snapshot turns into under a rule:
/// directories as `path/` with no bytes, files as `path` with their bytes
/// unless the rule drops them.
pub open spec fn archived_view<R: ExclusionRule>(rule: &R, s: Seq<TreeEntry>) -> Seq<
    (Seq<u8>, Seq<u8>),
>
    decreases s.len(),
{
    if s.len() == 0 {
        Seq::empty()
    } else {
        let rest = archived_view(rule, s.drop_last());
        let e = s.last();
        if e.is_dir {
            rest.push((e.path@ + seq![47u8], Seq::<u8>::empty()))
        } else if !rule.excludes(e.path@) {
            rest.push((e.path@, e.data@))
        } else {
            rest
        }
    }
}

/// Whether a writer holding the entries `prior` accepts what one tree
/// entry turns into: a directory entry, a file entry, or nothing when the
/// rule drops the file.
pub open spec fn step_accepts<R: ExclusionRule>(
    rule: &R,
    prior: Seq<(Seq<u8>, Seq<u8>)>,
    e: TreeEntry,
) -> bool {
    if e.is_dir {
        writer_accepts_dir(prior, e.path@)
    } else if !rule.excludes(e.path@) {
        writer_accepts_file(prior, e.path@, e.data@)
    } else {
        true
    }
}

/// Whether a writer accepts every step of archiving this tree in order.
pub open spec fn builder_accepts<R: ExclusionRule>(rule: &R, s: Seq<TreeEntry>) -> bool
    decreases s.len(),
{
    if s.len() == 0 {
        true
    } else {
        builder_accepts(rule, s.drop_last()) && step_accepts(
            rule,
            archived_view(rule, s.drop_last()),
            s.last(),
        )
    }
}

/// Whether archiving this tree under the rule succeeds outright: every
/// step is accepted and the archive's closing structures can be written.
pub open spec fn snapshot_accepted<R: ExclusionRule>(rule: &R, s: Seq<TreeEntry>) -> bool {
    builder_accepts(rule, s) && writer_can_finish(archived_view(rule, s))
}

proof fn lemma_builder_accepts_prefix<R: ExclusionRule>(rule: &R, s: Seq<TreeEntry>, k: int)
    requires
        0 <= k < s.len(),
        builder_accepts(rule, s),
    ensures
        builder_accepts(rule, s.take(k)),
        step_accepts(rule, archived_view(rule, s.take(k)), s[k]),
    decreases s.len(),
{
    if k == s.len() - 1 {
        assert(s.take(k) =~= s.drop_last());
    } else {
        assert(s.drop_last().take(k) =~= s.take(k));
        lemma_builder_accepts_prefix(rule, s.drop_last(), k);
    }
}

/// An archive under construction, fed one tree entry at a time. Only the
/// entry currently added need be held in memory, so a large tree can be
/// archived with a single file buffered at a time. The ghost `snapshot`
/// records the entries fed in so far.
pub struct SnapshotBuilder {
    writer: ArchiveWriter,
    snapshot: Ghost<Seq<TreeEntry>>,
}

impl SnapshotBuilder {
    /// The raw archive entries written so far.
    pub closed spec fn written(self) -> Seq<(Seq<u8>, Seq<u8>)> {
        writer_entries(self.writer)
    }

    /// The tree entries fed in so far.
    pub closed spec fn snapshot_view(self) -> Seq<TreeEntry> {
        self.snapshot@
    }

    /// The builder holds exactly what its snapshot turns into under the
    /// rule.
    pub open spec fn consistent_with<R: ExclusionRule>(self, rule: &R) -> bool {
        self.written() == archived_view(rule, self.snapshot_view())
    }

    /// Starts an empty snapshot.
    pub fn new() -> (b: SnapshotBuilder)
        ensures
            b.snapshot_view() == Seq::<TreeEntry>::empty(),
            b.written() == Seq::<(Seq<u8>, Seq<u8>)>::empty(),
    {
        SnapshotBuilder { writer: writer_new(), snapshot: Ghost(Seq::empty()) }
    }

    /// Feeds one tree entry: a directory becomes an empty entry, a file
    /// its bytes unless the rule drops it. The step succeeds exactly when
    /// the writer accepts it; on an error, always `ArchiveWriteFailed`,
    /// the builder is spent and the partial archive is abandoned.
    pub fn add<R: ExclusionRule>(&mut self, rule: &R, entry: &TreeEntry) -> (r: Result<
        (),
        BackupError,
    >)
        requires
            old(self).consistent_with(rule),
            safe_rel_path(entry.path@),
        ensures
            r is Ok <==> step_accepts(rule, old(self).written(), *entry),
            r is Ok ==> {
                &&& final(self).snapshot_view() == old(self).snapshot_view().push(*entry)
                &&& final(self).consistent_with(rule)
            },
            r matches Err(e) ==> e is ArchiveWriteFailed,
    {
        let ghost pushed = self.snapshot@.push(*entry);
        proof {
            assert(pushed.drop_last() =~= self.snapshot@);
        }
        if entry.is_dir {
            match writer_add_dir(&mut self.writer, &entry.path) {
                Ok(_) => {},
                Err(err) => {
                    return Err(err);
                },
            }
        } else {
            if !rule.is_excluded(&entry.path) {
                match writer_add_file(&mut self.writer, &entry.path, &entry.data) {
                    Ok(_) => {},
                    Err(err) => {
                        return Err(err);
                    },
                }
            }
        }
        self.snapshot = Ghost(pushed);
        Ok(())
    }

    /// Closes the archive and hands back its bytes: a sound archive that
    /// reads back as exactly the entries written. Closing succeeds exactly
    /// when the writer can finish; on an error, always
    /// `ArchiveWriteFailed`.
    pub fn finish(self) -> (r: Result<Vec<u8>, BackupError>)
        ensures
            r is Ok <==> writer_can_finish(self.written()),
            r matches Ok(bytes) ==> archive_entries(bytes@) == self.written() && is_archive(
                bytes@,
            ),
            r matches Err(e) ==> e is ArchiveWriteFailed,
    {
        writer_finish(self.writer)
    }
}

/// Builds the archive bytes of a fully enumerated tree snapshot in one
/// call: it succeeds exactly when the writer accepts the whole snapshot,
/// and any failure is the archive writer's, reported untouched.
pub fn build_archive<R: ExclusionRule>(entries: &Vec<TreeEntry>, rule: &R) -> (r: Result<
    Vec<u8>,
    BackupError,
>)
    requires
        forall|i: int| 0 <= i < entries@.len() ==> safe_rel_path(#[trigger] entries@[i].path@),
    ensures
        r is Ok <==> snapshot_accepted(rule, entries@),
        r matches Ok(bytes) ==> archive_entries(bytes@) == archived_view(rule, entries@)
            && is_archive(bytes@),
        r matches Err(e) ==> e is ArchiveWriteFailed,
{
    let mut b = SnapshotBuilder::new();
    proof {
        assert(b.consistent_with(rule));
        assert(entries@.take(0) =~= Seq::<TreeEntry>::empty());
    }
    let mut i: usize = 0;
    while i < entries.len()
        invariant
            i <= entries@.len(),
            forall|j: int|
                0 <= j < entries@.len() ==> safe_rel_path(#[trigger] entries@[j].path@),
            b.consistent_with(rule),
            b.snapshot_view() == entries@.take(i as int),
            builder_accepts(rule, entries@.take(i as int)),
        decreases entries@.len() - i,
    {
        proof {
            assert(entries@.take(i + 1) =~= entries@.take(i as int).push(entries@[i as int]));
            assert(entries@.take(i + 1).drop_last() =~= entries@.take(i as int));
            assert(safe_rel_path(entries@[i as int].path@));
        }
        match b.add(rule, &entries[i]) {
            Ok(_) => {
                proof {
                    assert(builder_accepts(rule, entries@.take(i + 1)));
                }
            },
            Err(err) => {
                proof {
                    assert(!step_accepts(
                        rule,
                        archived_view(rule, entries@.take(i as int)),
                        entries@[i as int],
                    ));
                    if builder_accepts(rule, entries@) {
                        lemma_builder_accepts_prefix(rule, entries@, i as int);
                    }
                }
                return Err(err);
            },
        }
        i = i + 1;
    }
    proof {
        assert(entries@.take(entries@.len() as int) =~= entries@);
    }
    b.finish()
}

/// A finished snapshot: the archive's file name and its bytes.
#[derive(Clone, PartialEq, Eq, Debug)]
pub struct BackupArchive {
    pub name: Vec<u8>,
    pub bytes: Vec<u8>,
}

/// The file name of a snapshot taken at time `t`: the formatted time plus
/// `.zip`.
pub open spec fn archive_file_name(t: Timestamp) -> Seq<u8> {
    stamp_bytes(t) + seq![46u8, 122u8, 105u8, 112u8]
}

/// The file name of a snapshot taken at time `t`, as bytes.
pub fn backup_file_name(t: &Timestamp) -> (r: Vec<u8>)
    requires
        t.wf(),
    ensures
        r@ == archive_file_name(*t),
{
    let mut name = format_stamp(t);
    name.push(46);
    name.push(122);
    name.push(105);
    name.push(112);
    proof {
        assert(name@ =~= archive_file_name(*t));
    }
    name
}

/// Archive names order as their snapshot times do: the file name of an
/// earlier snapshot compares lexicographically below the file name of a
/// later one, so `BackupRecord` identifiers are chronologically and
/// lexicographically ordered alike and the oldest archive can be found by
/// name.
#[verifier::rlimit(50)]
pub proof fn lemma_archive_name_order(a: Timestamp, b: Timestamp)
    requires
        a.wf(),
        b.wf(),
        a.lt(b),
    ensures
        crate::retention::lex_lt(archive_file_name(a), archive_file_name(b)),
{
    assert(stamp_bytes(a).len() == 21 && stamp_bytes(b).len() == 21);
    crate::clock::lemma_stamp_order(a, b);
    crate::retention::lemma_lex_concat_lt(
        stamp_bytes(a),
        stamp_bytes(b),
        seq![46u8, 122u8, 105u8, 112u8],
        seq![46u8, 122u8, 105u8, 112u8],
    );
}

/// Creates a backup of an enumerated tree snapshot: applies the inclusion
/// rule, archives what stays, and names the archive by the snapshot time.
/// It succeeds exactly when the archive writer accepts the snapshot, and
/// the only error it can report is the writer's `ArchiveWriteFailed`,
/// untouched; nothing is evicted here, and a caller that hits an error
/// holds no archive to keep.
pub fn create_backup<R: ExclusionRule>(
    entries: &Vec<TreeEntry>,
    rule: &R,
    taken_at: &Timestamp,
) -> (r: Result<BackupArchive, BackupError>)
    requires
        taken_at.wf(),
        forall|i: int| 0 <= i < entries@.len() ==> safe_rel_path(#[trigger] entries@[i].path@),
    ensures
        r is Ok <==> snapshot_accepted(rule, entries@),
        r matches Ok(b) ==> {
            &&& b.name@ == archive_file_name(*taken_at)
            &&& archive_entries(b.bytes@) == archived_view(rule, entries@)
            &&& is_archive(b.bytes@)
        },
        r matches Err(e) ==> e is ArchiveWriteFailed,
{
    let name = backup_file_name(taken_at);
    match build_archive(entries, rule) {
        Ok(bytes) => Ok(BackupArchive { name, bytes }),
        Err(err) => Err(err),
    }
}

} // verus!
