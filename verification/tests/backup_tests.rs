use serverkeeper::archive::{read_archive_entries, RestoreError};
use serverkeeper::backup::{create_backup, BackupArchive, TreeEntry};
use serverkeeper::clock::{format_stamp, Timestamp};
use serverkeeper::exclude::{
    contains_bytes, extension_bytes, CanonicalVariantRule, ExclusionRule, MarkerExtensionRule,
    PairRule,
};
use serverkeeper::paths::is_safe_rel_path;
use serverkeeper::restore::{create_checked_backup, plan_restore, restore_archive};
use serverkeeper::archive::RawEntry;
use std::io::Write;
use serverkeeper::lifecycle::BackupError;

fn file(path: &[u8], data: &[u8]) -> TreeEntry {
    TreeEntry { path: path.to_vec(), is_dir: false, data: data.to_vec() }
}

fn dir(path: &[u8]) -> TreeEntry {
    TreeEntry { path: path.to_vec(), is_dir: true, data: Vec::new() }
}

fn stamp() -> Timestamp {
    Timestamp { year: 2022, month: 12, day: 21, hour: 16, minute: 11, second: 21 }
}

fn bak_rule() -> MarkerExtensionRule {
    MarkerExtensionRule { marker: b"bak".to_vec() }
}

#[test]
fn format_stamp_layout() {
    assert_eq!(format_stamp(&stamp()), b"2022-12-21_(16-11-21)".to_vec());
}

#[test]
fn format_stamp_zero_pads_every_field() {
    let t = Timestamp { year: 987, month: 1, day: 2, hour: 3, minute: 4, second: 5 };
    assert_eq!(format_stamp(&t), b"0987-01-02_(03-04-05)".to_vec());
}

#[test]
fn backup_name_is_stamp_plus_suffix() {
    let entries = vec![file(b"a.dat", b"x")];
    let b = create_backup(&entries, &bak_rule(), &stamp()).unwrap();
    assert_eq!(b.name, b"2022-12-21_(16-11-21).zip".to_vec());
}

#[test]
fn backup_drops_marked_files_and_restore_returns_the_rest() {
    let entries = vec![dir(b"A"), file(b"A/1.dat", b"0123456789"), file(b"A/1.dat.bak", b"old")];
    let b = create_backup(&entries, &bak_rule(), &stamp()).unwrap();
    let acts = restore_archive(&b.bytes).unwrap();
    assert_eq!(acts.len(), 2);
    assert_eq!(acts[0].path, b"A".to_vec());
    assert!(acts[0].is_dir);
    assert_eq!(acts[1].path, b"A/1.dat".to_vec());
    assert!(!acts[1].is_dir);
    assert_eq!(acts[1].data, b"0123456789".to_vec());
}

#[test]
fn backup_restore_round_trip_keeps_paths_and_bytes() {
    let entries = vec![
        dir(b"maps"),
        file(b"maps/world.ark", b"binary\x00data\x01here"),
        dir(b"maps/sub"),
        file(b"maps/sub/deep.txt", b""),
        file(b"settings.ini", b"[server]\nport=7777\n"),
    ];
    let b = create_backup(&entries, &bak_rule(), &stamp()).unwrap();
    let acts = restore_archive(&b.bytes).unwrap();
    assert_eq!(acts.len(), entries.len());
    for (act, orig) in acts.iter().zip(entries.iter()) {
        assert_eq!(act.path, orig.path);
        assert_eq!(act.is_dir, orig.is_dir);
        if !orig.is_dir {
            assert_eq!(act.data, orig.data);
        }
    }
}

#[test]
fn marker_extension_rule_reads_the_extension() {
    let rule = bak_rule();
    assert!(rule.is_excluded(&b"x.bak".to_vec()));
    assert!(rule.is_excluded(&b"A/x.bak1".to_vec()));
    assert!(!rule.is_excluded(&b"x.dat".to_vec()));
    assert!(!rule.is_excluded(&b"noext".to_vec()));
    assert!(!rule.is_excluded(&b"bak".to_vec()));
    assert!(!rule.is_excluded(&b"dir.bak/x.dat".to_vec()));
}

#[test]
fn canonical_variant_rule_keeps_one_file_of_the_group() {
    let rule = CanonicalVariantRule {
        marker: b"Fjordur".to_vec(),
        canonical: b"Fjordur.ark".to_vec(),
        extension: b"ark".to_vec(),
    };
    assert!(!rule.is_excluded(&b"Fjordur.ark".to_vec()));
    assert!(rule.is_excluded(&b"Fjordur_12.ark".to_vec()));
    assert!(!rule.is_excluded(&b"Fjordur_12.arkprofile".to_vec()));
    assert!(!rule.is_excluded(&b"Other.ark".to_vec()));
}

#[test]
fn pair_rule_drops_what_either_rule_drops() {
    let rule = PairRule {
        first: bak_rule(),
        second: CanonicalVariantRule {
            marker: b"Fjordur".to_vec(),
            canonical: b"Fjordur.ark".to_vec(),
            extension: b"ark".to_vec(),
        },
    };
    assert!(rule.is_excluded(&b"save.bak".to_vec()));
    assert!(rule.is_excluded(&b"Fjordur_1.ark".to_vec()));
    assert!(!rule.is_excluded(&b"Fjordur.ark".to_vec()));
    assert!(!rule.is_excluded(&b"save.dat".to_vec()));
}

#[test]
fn extension_and_contains_helpers() {
    assert_eq!(extension_bytes(&b"a/b.tar.gz".to_vec()), Some(b"gz".to_vec()));
    assert_eq!(extension_bytes(&b"a/b".to_vec()), None);
    assert_eq!(extension_bytes(&b"a/.hidden".to_vec()), None);
    assert!(contains_bytes(&b"abcde".to_vec(), &b"bcd".to_vec()));
    assert!(contains_bytes(&b"abcde".to_vec(), &b"".to_vec()));
    assert!(!contains_bytes(&b"abcde".to_vec(), &b"xyz".to_vec()));
}

#[test]
fn safe_rel_path_rejects_escapes() {
    assert!(is_safe_rel_path(&b"a/b.txt".to_vec()));
    assert!(is_safe_rel_path(&b"a.b/c-d_e".to_vec()));
    assert!(!is_safe_rel_path(&b"../x".to_vec()));
    assert!(!is_safe_rel_path(&b"a/../b".to_vec()));
    assert!(!is_safe_rel_path(&b"a/..".to_vec()));
    assert!(!is_safe_rel_path(&b"/abs".to_vec()));
    assert!(!is_safe_rel_path(&b"a//b".to_vec()));
    assert!(!is_safe_rel_path(&b"a\\b".to_vec()));
    assert!(!is_safe_rel_path(&b"C:evil".to_vec()));
    assert!(!is_safe_rel_path(&b".".to_vec()));
    assert!(!is_safe_rel_path(&b"a/.".to_vec()));
    assert!(!is_safe_rel_path(&b"./a".to_vec()));
    assert!(!is_safe_rel_path(&b"".to_vec()));
    assert!(!is_safe_rel_path(&b"a/".to_vec()));
    assert!(!is_safe_rel_path(&b"a\0b".to_vec()));
}

#[test]
fn crafted_archive_with_parent_segment_is_refused_whole() {
    let mut w = zip::ZipWriter::new(std::io::Cursor::new(Vec::new()));
    let opts = zip::write::SimpleFileOptions::default();
    w.start_file("ok.txt", opts).unwrap();
    w.write_all(b"fine").unwrap();
    w.start_file("../evil.txt", opts).unwrap();
    w.write_all(b"payload").unwrap();
    let bytes = w.finish().unwrap().into_inner();
    assert_eq!(restore_archive(&bytes), Err(RestoreError::PathEscape));
}

#[test]
fn crafted_absolute_entry_is_refused() {
    let mut w = zip::ZipWriter::new(std::io::Cursor::new(Vec::new()));
    let opts = zip::write::SimpleFileOptions::default();
    w.start_file("/etc/owned", opts).unwrap();
    w.write_all(b"payload").unwrap();
    let bytes = w.finish().unwrap().into_inner();
    assert_eq!(restore_archive(&bytes), Err(RestoreError::PathEscape));
}

#[test]
fn plan_restore_decodes_directory_markers() {
    let entries = vec![
        RawEntry { name: b"A/".to_vec(), data: Vec::new() },
        RawEntry { name: b"A/f.txt".to_vec(), data: b"hi".to_vec() },
    ];
    let acts = plan_restore(&entries).unwrap();
    assert_eq!(acts.len(), 2);
    assert_eq!(acts[0].path, b"A".to_vec());
    assert!(acts[0].is_dir);
    assert_eq!(acts[1].path, b"A/f.txt".to_vec());
    assert_eq!(acts[1].data, b"hi".to_vec());
}

#[test]
fn archive_entries_come_back_in_order_with_dir_markers() {
    let entries = vec![dir(b"A"), file(b"A/1.dat", b"x")];
    let BackupArchive { bytes, .. } = create_backup(&entries, &bak_rule(), &stamp()).unwrap();
    let raw = read_archive_entries(&bytes).unwrap();
    assert_eq!(raw.len(), 2);
    assert_eq!(raw[0].name, b"A/".to_vec());
    assert_eq!(raw[0].data, b"".to_vec());
    assert_eq!(raw[1].name, b"A/1.dat".to_vec());
    assert_eq!(raw[1].data, b"x".to_vec());
}

#[test]
fn empty_tree_gives_an_empty_archive() {
    let entries: Vec<TreeEntry> = Vec::new();
    let b = create_backup(&entries, &bak_rule(), &stamp()).unwrap();
    let acts = restore_archive(&b.bytes).unwrap();
    assert!(acts.is_empty());
}

#[test]
fn duplicate_entry_names_fail_the_archive_write() {
    let entries = vec![file(b"a.dat", b"x"), file(b"a.dat", b"y")];
    assert_eq!(
        create_backup(&entries, &bak_rule(), &stamp()),
        Err(BackupError::ArchiveWriteFailed)
    );
}

#[test]
fn garbage_bytes_are_not_an_archive() {
    let bytes = b"this is not an archive at all".to_vec();
    assert_eq!(restore_archive(&bytes), Err(RestoreError::ArchiveUnreadable));
}

#[test]
fn checked_backup_returns_the_plan_with_the_archive() {
    let entries = vec![dir(b"A"), file(b"A/1.dat", b"0123456789"), file(b"A/1.dat.bak", b"old")];
    let (b, plan) = create_checked_backup(&entries, &bak_rule(), &stamp()).unwrap();
    assert_eq!(b.name, b"2022-12-21_(16-11-21).zip".to_vec());
    assert_eq!(plan.len(), 2);
    assert_eq!(plan[0].path, b"A".to_vec());
    assert!(plan[0].is_dir);
    assert_eq!(plan[1].path, b"A/1.dat".to_vec());
    assert_eq!(plan[1].data, b"0123456789".to_vec());
}
