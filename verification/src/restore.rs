//! Rollback engine: plans the restoration of an archive into the data
//! directory, refusing any entry that would escape it.
//!
//! The caller is expected to hold the same gate the lifecycle controller
//! uses (a confirmed stopped server) before restoring; the plan itself does
//! not re-verify it. Planning decodes each raw entry — a trailing slash
//! marks a directory — and checks that every relative path stays inside
//! the restore root. One unsafe entry aborts the whole plan with
//! `PathEscape` and nothing is handed back to write. Applying the plan
//! (creating directories, writing files, overwriting what exists) is the
//! caller's, and a write failure after `k` applied entries is reported as
//! `Partial(k)` with the applied entries left in place.

use vstd::prelude::*;
use crate::archive::{RawEntry, RestoreError, archive_entries, is_archive, read_archive_entries};
use crate::backup::{
    TreeEntry,
    BackupArchive,
    archived_view,
    create_backup,
    snapshot_accepted,
};
use crate::clock::Timestamp;
use crate::lifecycle::BackupError;
use crate::exclude::ExclusionRule;
use crate::paths::{safe_rel_path, is_safe_rel_path};

verus! {

/// A raw entry name marks a directory when it ends in a slash.
pub open spec fn entry_is_dir(name: Seq<u8>) -> bool {
    name.len() > 0 && name[name.len() - 1] == 47
}

/// The relative path a raw entry restores to: its name without the
/// directory marker.
pub open spec fn entry_rel_path(name: Seq<u8>) -> Seq<u8> {
    if entry_is_dir(name) {
        name.drop_last()
    } else {
        name
    }
}

/// Whether a raw entry may be restored: its relative path resolves to a
/// strict descendant of the restore root.
pub open spec fn entry_safe(name: Seq<u8>) -> bool {
    safe_rel_path(entry_rel_path(name))
}

/// What one raw entry restores to.
pub open spec fn decoded_entry(raw: (Seq<u8>, Seq<u8>)) -> (Seq<u8>, bool, Seq<u8>) {
    (entry_rel_path(raw.0), entry_is_dir(raw.0), raw.1)
}

/// What a whole raw entry sequence restores to, in order.
pub open spec fn decoded_entries(s: Seq<(Seq<u8>, Seq<u8>)>) -> Seq<(Seq<u8>, bool, Seq<u8>)> {
    s.map_values(|raw: (Seq<u8>, Seq<u8>)| decoded_entry(raw))
}

/// Plans the restoration of the given raw entries: exactly when every
/// entry is safe, the plan lists one write per entry, in archive order,
/// with the decoded path, directory flag and bytes; one unsafe entry
/// aborts the whole plan with `PathEscape`.
pub fn plan_restore(entries: &Vec<RawEntry>) -> (r: Result<Vec<TreeEntry>, RestoreError>)
    ensures
        r is Ok <==> (forall|i: int|
            0 <= i < entries@.len() ==> entry_safe(#[trigger] entries@[i].name@)),
        r matches Err(e) ==> e is PathEscape,
        r matches Ok(acts) ==> {
            &&& acts@.len() == entries@.len()
            &&& forall|i: int|
                0 <= i < acts@.len() ==> (#[trigger] acts@[i].path@, acts@[i].is_dir,
                acts@[i].data@) == decoded_entry((entries@[i].name@, entries@[i].data@))
        },
{
    let mut acts: Vec<TreeEntry> = Vec::new();
    let mut i: usize = 0;
    while i < entries.len()
        invariant
            i <= entries@.len(),
            acts@.len() == i,
            forall|j: int| 0 <= j < i ==> entry_safe(#[trigger] entries@[j].name@),
            forall|j: int|
                0 <= j < i ==> (#[trigger] acts@[j].path@, acts@[j].is_dir, acts@[j].data@)
                    == decoded_entry((entries@[j].name@, entries@[j].data@)),
        decreases entries@.len() - i,
    {
        let e = &entries[i];
        let is_dir = e.name.len() > 0 && e.name[e.name.len() - 1] == 47;
        let mut rel = e.name.clone();
        if is_dir {
            rel.pop();
        }
        proof {
            assert(rel@ == entry_rel_path(entries@[i as int].name@));
        }
        if !is_safe_rel_path(&rel) {
            return Err(RestoreError::PathEscape);
        }
        acts.push(TreeEntry { path: rel, is_dir, data: e.data.clone() });
        i = i + 1;
    }
    Ok(acts)
}

/// Reads an archive byte string and plans its restoration: the entries
/// the bytes decode to, checked for path escapes. On a sound archive all
/// of whose entries are safe — every archive this library creates from
/// safe paths is one — the plan cannot fail.
pub fn restore_archive(bytes: &Vec<u8>) -> (r: Result<Vec<TreeEntry>, RestoreError>)
    ensures
        is_archive(bytes@) && (forall|i: int|
            0 <= i < archive_entries(bytes@).len() ==> entry_safe(
                #[trigger] archive_entries(bytes@)[i].0,
            )) ==> r is Ok,
        r matches Err(e) ==> e is ArchiveUnreadable ==> !is_archive(bytes@),
        r matches Ok(acts) ==> {
            &&& acts@.len() == archive_entries(bytes@).len()
            &&& forall|i: int|
                0 <= i < acts@.len() ==> (#[trigger] acts@[i].path@, acts@[i].is_dir,
                acts@[i].data@) == decoded_entry(archive_entries(bytes@)[i])
            &&& forall|i: int|
                0 <= i < archive_entries(bytes@).len() ==> entry_safe(
                    #[trigger] archive_entries(bytes@)[i].0,
                )
        },
        r matches Err(e) ==> e is ArchiveUnreadable || (e is PathEscape && exists|i: int|
            0 <= i < archive_entries(bytes@).len() && !entry_safe(
                #[trigger] archive_entries(bytes@)[i].0,
            )),
{
    let entries = match read_archive_entries(bytes) {
        Ok(es) => es,
        Err(e) => {
            return Err(e);
        },
    };
    match plan_restore(&entries) {
        Ok(acts) => {
            proof {
                assert forall|i: int| 0 <= i < acts@.len() implies (
                    #[trigger] acts@[i].path@,
                    acts@[i].is_dir,
                    acts@[i].data@,
                ) == decoded_entry(archive_entries(bytes@)[i]) by {
                    assert((entries@[i].name@, entries@[i].data@) == archive_entries(bytes@)[i]);
                }
                assert forall|i: int| 0 <= i < archive_entries(bytes@).len() implies entry_safe(
                    #[trigger] archive_entries(bytes@)[i].0,
                ) by {
                    assert((entries@[i].name@, entries@[i].data@) == archive_entries(bytes@)[i]);
                    assert(entry_safe(entries@[i].name@));
                }
            }
            Ok(acts)
        },
        Err(e) => {
            proof {
                assert(!(forall|j: int|
                    0 <= j < entries@.len() ==> entry_safe(#[trigger] entries@[j].name@)));
                let j = choose|j: int|
                    0 <= j < entries@.len() && !entry_safe(#[trigger] entries@[j].name@);
                assert((entries@[j].name@, entries@[j].data@) == archive_entries(bytes@)[j]);
                assert(0 <= j < archive_entries(bytes@).len() && !entry_safe(
                    archive_entries(bytes@)[j].0,
                ));
            }
            Err(e)
        },
    }
}

/// What a tree snapshot should restore to: its directories (empty) and its
/// rule-included files with their bytes, in enumeration order.
pub open spec fn included_view<R: ExclusionRule>(rule: &R, s: Seq<TreeEntry>) -> Seq<
    (Seq<u8>, bool, Seq<u8>),
>
    decreases s.len(),
{
    if s.len() == 0 {
        Seq::empty()
    } else {
        let rest = included_view(rule, s.drop_last());
        let e = s.last();
        if e.is_dir {
            rest.push((e.path@, true, Seq::<u8>::empty()))
        } else if !rule.excludes(e.path@) {
            rest.push((e.path@, false, e.data@))
        } else {
            rest
        }
    }
}

/// Round trip of a snapshot: every raw entry a tree snapshot turns into is
/// safe to restore, and restoring them reproduces exactly the directories
/// and the rule-included files of the snapshot, with their bytes.
pub proof fn lemma_backup_restore_round_trip<R: ExclusionRule>(rule: &R, tree: Seq<TreeEntry>)
    requires
        forall|i: int| 0 <= i < tree.len() ==> safe_rel_path(#[trigger] tree[i].path@),
    ensures
        forall|k: int|
            0 <= k < archived_view(rule, tree).len() ==> entry_safe(
                #[trigger] archived_view(rule, tree)[k].0,
            ),
        decoded_entries(archived_view(rule, tree)) == included_view(rule, tree),
    decreases tree.len(),
{
    if tree.len() > 0 {
        let prefix = tree.drop_last();
        let e = tree.last();
        lemma_backup_restore_round_trip(rule, prefix);
        if e.is_dir {
            let name = e.path@ + seq![47u8];
            assert(entry_is_dir(name));
            assert(name.drop_last() =~= e.path@);
            assert(decoded_entry((name, Seq::<u8>::empty())) == (
                e.path@,
                true,
                Seq::<u8>::empty(),
            ));
            assert(decoded_entries(archived_view(rule, tree)) =~= decoded_entries(
                archived_view(rule, prefix),
            ).push(decoded_entry((name, Seq::<u8>::empty()))));
        } else if !rule.excludes(e.path@) {
            assert(safe_rel_path(e.path@));
            assert(!entry_is_dir(e.path@));
            assert(decoded_entries(archived_view(rule, tree)) =~= decoded_entries(
                archived_view(rule, prefix),
            ).push(decoded_entry((e.path@, e.data@))));
        } else {
            assert(archived_view(rule, tree) == archived_view(rule, prefix));
        }
        assert(decoded_entries(archived_view(rule, tree)) =~= included_view(rule, tree));
    }
}

/// Creates a backup and verifies it at once: the archive is read back and
/// its restore plan returned beside it. This is the round trip of a
/// snapshot as one operation: for a tree of safe paths the read-back
/// cannot fail, and the plan lists exactly the snapshot's directories and
/// rule-included files, with their bytes.
pub fn create_checked_backup<R: ExclusionRule>(
    entries: &Vec<TreeEntry>,
    rule: &R,
    taken_at: &Timestamp,
) -> (r: Result<(BackupArchive, Vec<TreeEntry>), BackupError>)
    requires
        taken_at.wf(),
        forall|i: int| 0 <= i < entries@.len() ==> safe_rel_path(#[trigger] entries@[i].path@),
    ensures
        r is Ok <==> snapshot_accepted(rule, entries@),
        r matches Ok(p) ==> {
            &&& p.0.name@ == crate::backup::archive_file_name(*taken_at)
            &&& archive_entries(p.0.bytes@) == archived_view(rule, entries@)
            &&& is_archive(p.0.bytes@)
            &&& p.1@.len() == included_view(rule, entries@).len()
            &&& forall|i: int|
                0 <= i < p.1@.len() ==> (#[trigger] p.1@[i].path@, p.1@[i].is_dir,
                p.1@[i].data@) == included_view(rule, entries@)[i]
        },
        r matches Err(e) ==> e is ArchiveWriteFailed,
{
    let archive = match create_backup(entries, rule, taken_at) {
        Ok(a) => a,
        Err(e) => {
            return Err(e);
        },
    };
    proof {
        lemma_backup_restore_round_trip(rule, entries@);
        assert forall|i: int|
            0 <= i < archive_entries(archive.bytes@).len() implies entry_safe(
            #[trigger] archive_entries(archive.bytes@)[i].0,
        ) by {
            assert(archive_entries(archive.bytes@) == archived_view(rule, entries@));
        }
    }
    match restore_archive(&archive.bytes) {
        Ok(plan) => {
            proof {
                let av = archived_view(rule, entries@);
                assert forall|i: int|
                    0 <= i < plan@.len() implies (#[trigger] plan@[i].path@, plan@[i].is_dir,
                plan@[i].data@) == included_view(rule, entries@)[i] by {
                    assert((plan@[i].path@, plan@[i].is_dir, plan@[i].data@) == decoded_entry(
                        archive_entries(archive.bytes@)[i],
                    ));
                    assert(decoded_entries(av)[i] == decoded_entry(av[i]));
                }
            }
            Ok((archive, plan))
        },
        Err(_) => {
            proof {
                assert(false);
            }
            Err(BackupError::ArchiveWriteFailed)
        },
    }
}

} // verus!
