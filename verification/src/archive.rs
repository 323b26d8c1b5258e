//! The archive container, behind trusted declarations of the `zip` crate.
//!
//! An archive is modelled as the sequence of `(name, data)` entries that
//! reading it yields: `archive_entries` names that sequence for a byte
//! string, and `writer_entries` / `archive_view` name the contents of a
//! writer and an opened reader. Every contract below states only what the
//! `zip` crate's own source shows: entries written with `start_file` or
//! `add_directory` come back from `by_index` with the same name and bytes,
//! in the order they were written. All interpretation of names (directory
//! markers, path safety) happens in verified code on top of these raw
//! pairs.

use vstd::prelude::*;
use crate::lifecycle::BackupError;

verus! {

/// Failure of an archive restoration.
#[derive(Clone, Copy, PartialEq, Eq, Structural, Debug)]
pub enum RestoreError {
    /// The archive bytes could not be read as an archive.
    ArchiveUnreadable,
    /// An entry's relative path would resolve outside the restore root;
    /// nothing was written.
    PathEscape,
    /// A write failed after this many entries had been applied; they remain
    /// in place.
    Partial(usize),
}

/// One raw archive entry: the stored name, verbatim, and the stored bytes.
/// A name ending in `/` marks a directory and carries no bytes.
#[derive(Clone, PartialEq, Eq, Debug)]
pub struct RawEntry {
    pub name: Vec<u8>,
    pub data: Vec<u8>,
}

/// An in-memory archive writer. The field is a `zip` writer over a byte
/// buffer; Verus refuses the declaration of its type (its generic carries
/// `std::io` trait bounds), so the whole struct is opaque and its contents
/// are named by `writer_entries`.
#[verifier::external_body]
pub struct ArchiveWriter {
    inner: zip::ZipWriter<std::io::Cursor<Vec<u8>>>,
}

/// An opened archive reader over a byte buffer, opaque for the same
/// reason; its contents are named by `archive_view`.
#[verifier::external_body]
pub struct ArchiveReader {
    inner: zip::ZipArchive<std::io::Cursor<Vec<u8>>>,
}

/// The `(name, data)` entries that reading an archive byte string yields,
/// in archive order.
pub uninterp spec fn archive_entries(bytes: Seq<u8>) -> Seq<(Seq<u8>, Seq<u8>)>;

/// The entries an in-memory archive writer holds so far, in the order they
/// were added.
pub uninterp spec fn writer_entries(w: ArchiveWriter) -> Seq<(Seq<u8>, Seq<u8>)>;

/// The entries an opened archive reader holds.
pub uninterp spec fn archive_view(a: ArchiveReader) -> Seq<(Seq<u8>, Seq<u8>)>;

/// Whether a byte string is a sound archive: it opens, and every entry it
/// lists reads back. Reading uses no clock, randomness or environment, so
/// this is a function of the bytes alone.
pub uninterp spec fn is_archive(bytes: Seq<u8>) -> bool;

/// Whether every entry of this opened reader reads back; the reader-side
/// counterpart of `is_archive`.
pub uninterp spec fn reader_sound(a: ArchiveReader) -> bool;

/// Whether a writer holding the entries `prior` accepts one more file
/// entry with this name and these bytes: the name must be valid UTF-8 and
/// not already present, and the entry must fit the format's limits. The
/// writer takes no input besides its entries and this call's arguments,
/// so acceptance is a function of them alone.
pub uninterp spec fn writer_accepts_file(
    prior: Seq<(Seq<u8>, Seq<u8>)>,
    name: Seq<u8>,
    data: Seq<u8>,
) -> bool;

/// Whether a writer holding the entries `prior` accepts one more
/// directory entry with this name; a function of its arguments alone, as
/// `writer_accepts_file` is.
pub uninterp spec fn writer_accepts_dir(prior: Seq<(Seq<u8>, Seq<u8>)>, name: Seq<u8>) -> bool;

/// Whether a writer holding these entries can write the archive's closing
/// structures; a function of the entries alone.
pub uninterp spec fn writer_can_finish(entries: Seq<(Seq<u8>, Seq<u8>)>) -> bool;

/// Relies on zip::ZipWriter::new: a fresh writer holds no entries.
#[verifier::external_body]
pub fn writer_new() -> (w: ArchiveWriter)
    ensures
        writer_entries(w) == Seq::<(Seq<u8>, Seq<u8>)>::empty(),
{
    ArchiveWriter { inner: zip::ZipWriter::new(std::io::Cursor::new(Vec::new())) }
}

/// Relies on zip::ZipWriter::start_file and std::io::Write::write_all: on
/// success the archive gains one file entry with exactly this name and
/// these bytes, after the entries already written. The operation is
/// deterministic in the writer's entries and the arguments, and succeeds
/// exactly when `writer_accepts_file` holds of them; any failure is
/// reported as `ArchiveWriteFailed`.
#[verifier::external_body]
pub fn writer_add_file(w: &mut ArchiveWriter, name: &Vec<u8>, data: &Vec<u8>) -> (r: Result<
    (),
    BackupError,
>)
    ensures
        r is Ok <==> writer_accepts_file(writer_entries(*old(w)), name@, data@),
        r is Ok ==> writer_entries(*final(w)) == writer_entries(*old(w)).push((name@, data@)),
        r matches Err(e) ==> e is ArchiveWriteFailed,
{
    let text = match String::from_utf8(name.clone()) {
        Ok(t) => t,
        Err(_) => return Err(BackupError::ArchiveWriteFailed),
    };
    if w.inner.start_file(text, zip::write::SimpleFileOptions::default()).is_err() {
        return Err(BackupError::ArchiveWriteFailed);
    }
    match std::io::Write::write_all(&mut w.inner, data) {
        Ok(()) => Ok(()),
        Err(_) => Err(BackupError::ArchiveWriteFailed),
    }
}

/// Relies on zip::ZipWriter::add_directory: on success the archive gains
/// one empty entry named by the given path plus a trailing slash (which
/// `add_directory` appends), after the entries already written. Succeeds
/// exactly when `writer_accepts_dir` holds; any failure is reported as
/// `ArchiveWriteFailed`.
#[verifier::external_body]
pub fn writer_add_dir(w: &mut ArchiveWriter, name: &Vec<u8>) -> (r: Result<(), BackupError>)
    requires
        name@.len() == 0 || (name@[name@.len() - 1] != 47 && name@[name@.len() - 1] != 92),
    ensures
        r is Ok <==> writer_accepts_dir(writer_entries(*old(w)), name@),
        r is Ok ==> writer_entries(*final(w)) == writer_entries(*old(w)).push(
            (name@ + seq![47u8], Seq::<u8>::empty()),
        ),
        r matches Err(e) ==> e is ArchiveWriteFailed,
{
    let text = match String::from_utf8(name.clone()) {
        Ok(t) => t,
        Err(_) => return Err(BackupError::ArchiveWriteFailed),
    };
    match w.inner.add_directory(text, zip::write::SimpleFileOptions::default()) {
        Ok(()) => Ok(()),
        Err(_) => Err(BackupError::ArchiveWriteFailed),
    }
}

/// Relies on zip::ZipWriter::finish: the finished byte string is a sound
/// archive and reads back as exactly the entries that were written, in
/// order. Finishing succeeds exactly when `writer_can_finish` holds of
/// the entries; any failure is reported as `ArchiveWriteFailed`.
#[verifier::external_body]
pub fn writer_finish(w: ArchiveWriter) -> (r: Result<Vec<u8>, BackupError>)
    ensures
        r is Ok <==> writer_can_finish(writer_entries(w)),
        r matches Ok(bytes) ==> archive_entries(bytes@) == writer_entries(w) && is_archive(
            bytes@,
        ),
        r matches Err(e) ==> e is ArchiveWriteFailed,
{
    match w.inner.finish() {
        Ok(cursor) => Ok(cursor.into_inner()),
        Err(_) => Err(BackupError::ArchiveWriteFailed),
    }
}

/// Relies on zip::ZipArchive::new: an opened reader holds the entries of
/// the byte string it was opened on, and opening cannot fail on a sound
/// archive. The reader is sound exactly when the bytes are; any failure
/// is reported as `ArchiveUnreadable`.
#[verifier::external_body]
pub fn archive_open(bytes: &Vec<u8>) -> (r: Result<ArchiveReader, RestoreError>)
    ensures
        is_archive(bytes@) ==> r is Ok,
        r matches Ok(a) ==> archive_view(a) == archive_entries(bytes@) && reader_sound(a)
            == is_archive(bytes@),
        r matches Err(e) ==> e is ArchiveUnreadable,
{
    match zip::ZipArchive::new(std::io::Cursor::new(bytes.clone())) {
        Ok(a) => Ok(ArchiveReader { inner: a }),
        Err(_) => Err(RestoreError::ArchiveUnreadable),
    }
}

/// Relies on zip::ZipArchive::len: the number of entries the reader holds.
#[verifier::external_body]
pub fn archive_len(a: &ArchiveReader) -> (n: usize)
    ensures
        n as int == archive_view(*a).len(),
{
    a.inner.len()
}

/// Relies on zip::ZipArchive::by_index, zip::read::ZipFile::name and
/// std::io::Read::read_to_end: on success the entry at this index, its
/// stored name verbatim and its stored bytes. Reading does not change the
/// reader's contents or soundness, cannot fail on a sound reader, and
/// reports any failure as `ArchiveUnreadable`.
#[verifier::external_body]
pub fn archive_entry_at(a: &mut ArchiveReader, i: usize) -> (r: Result<RawEntry, RestoreError>)
    requires
        i < archive_view(*old(a)).len(),
    ensures
        archive_view(*final(a)) == archive_view(*old(a)),
        reader_sound(*final(a)) == reader_sound(*old(a)),
        reader_sound(*old(a)) ==> r is Ok,
        r matches Ok(e) ==> (e.name@, e.data@) == archive_view(*old(a))[i as int],
        r matches Err(e) ==> e is ArchiveUnreadable,
{
    let mut file = match a.inner.by_index(i) {
        Ok(f) => f,
        Err(_) => return Err(RestoreError::ArchiveUnreadable),
    };
    let name = file.name().as_bytes().to_vec();
    let mut data = Vec::new();
    match std::io::Read::read_to_end(&mut file, &mut data) {
        Ok(_) => Ok(RawEntry { name, data }),
        Err(_) => Err(RestoreError::ArchiveUnreadable),
    }
}

/// Reads every entry of an archive byte string, in order; cannot fail on
/// a sound archive.
pub fn read_archive_entries(bytes: &Vec<u8>) -> (r: Result<Vec<RawEntry>, RestoreError>)
    ensures
        is_archive(bytes@) ==> r is Ok,
        r matches Ok(es) ==> {
            &&& es@.len() == archive_entries(bytes@).len()
            &&& forall|i: int|
                0 <= i < es@.len() ==> (#[trigger] es@[i].name@, es@[i].data@)
                    == archive_entries(bytes@)[i]
        },
        r matches Err(e) ==> e is ArchiveUnreadable,
{
    let mut a = match archive_open(bytes) {
        Ok(a) => a,
        Err(_) => return Err(RestoreError::ArchiveUnreadable),
    };
    let n = archive_len(&a);
    let mut es: Vec<RawEntry> = Vec::new();
    let mut i: usize = 0;
    while i < n
        invariant
            n as int == archive_view(a).len(),
            archive_view(a) == archive_entries(bytes@),
            reader_sound(a) == is_archive(bytes@),
            i <= n,
            es@.len() == i,
            forall|j: int|
                0 <= j < i ==> (#[trigger] es@[j].name@, es@[j].data@) == archive_entries(
                    bytes@,
                )[j],
        decreases n - i,
    {
        match archive_entry_at(&mut a, i) {
            Ok(e) => {
                es.push(e);
            },
            Err(_) => {
                return Err(RestoreError::ArchiveUnreadable);
            },
        }
        i = i + 1;
    }
    Ok(es)
}

} // verus!
