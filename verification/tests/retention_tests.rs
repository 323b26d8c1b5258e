use serverkeeper::clock::{current_timestamp, timestamp_from_fields, Timestamp};
use serverkeeper::retention::{
    bytes_lex_lt, plan_eviction, sort_backup_names, BackupRecord, MAX_BACKUP_COUNT,
};

fn rec(name: &[u8], created: u64) -> BackupRecord {
    BackupRecord { name: name.to_vec(), created }
}

fn stamp_name(n: u64) -> Vec<u8> {
    format!("2023-01-{:02}_(12-00-00).zip", n).into_bytes()
}

#[test]
fn no_eviction_at_or_under_the_cap() {
    let records: Vec<BackupRecord> =
        (1..=10).map(|i| rec(&stamp_name(i), i)).collect();
    assert_eq!(records.len(), MAX_BACKUP_COUNT);
    assert_eq!(plan_eviction(&records, MAX_BACKUP_COUNT), None);
    let fewer: Vec<BackupRecord> = (1..=3).map(|i| rec(&stamp_name(i), i)).collect();
    assert_eq!(plan_eviction(&fewer, MAX_BACKUP_COUNT), None);
    assert_eq!(plan_eviction(&Vec::new(), MAX_BACKUP_COUNT), None);
}

#[test]
fn eleventh_backup_evicts_the_oldest() {
    // Directory held ten archives named by ascending timestamp; an eleventh
    // was just created. Exactly the first (oldest) is evicted, leaving the
    // ten most recent.
    let records: Vec<BackupRecord> =
        (1..=11).map(|i| rec(&stamp_name(i), i)).collect();
    let evict = plan_eviction(&records, MAX_BACKUP_COUNT).unwrap();
    assert_eq!(evict, 0);
    let survivors: Vec<Vec<u8>> = records
        .iter()
        .enumerate()
        .filter(|(i, _)| *i != evict)
        .map(|(_, r)| r.name.clone())
        .collect();
    let expected: Vec<Vec<u8>> = (2..=11).map(stamp_name).collect();
    assert_eq!(survivors, expected);
}

#[test]
fn eviction_picks_oldest_creation_time_wherever_it_stands() {
    let records = vec![
        rec(b"b.zip", 50),
        rec(b"a.zip", 20),
        rec(b"c.zip", 90),
    ];
    assert_eq!(plan_eviction(&records, 2), Some(1));
}

#[test]
fn eviction_breaks_creation_time_ties_by_name() {
    let records = vec![
        rec(b"b.zip", 10),
        rec(b"a.zip", 10),
        rec(b"c.zip", 10),
    ];
    assert_eq!(plan_eviction(&records, 1), Some(1));
}

#[test]
fn eviction_of_identical_records_is_deterministic() {
    let records = vec![rec(b"same.zip", 5), rec(b"same.zip", 5)];
    assert_eq!(plan_eviction(&records, 1), Some(0));
}

#[test]
fn listing_is_sorted_by_name_ascending() {
    let names = vec![
        stamp_name(7),
        stamp_name(2),
        stamp_name(11),
        stamp_name(2),
        stamp_name(30),
    ];
    let sorted = sort_backup_names(&names);
    let mut expected = names.clone();
    expected.sort();
    assert_eq!(sorted, expected);
}

#[test]
fn lex_order_on_bytes() {
    assert!(bytes_lex_lt(&b"a".to_vec(), &b"b".to_vec()));
    assert!(bytes_lex_lt(&b"a".to_vec(), &b"ab".to_vec()));
    assert!(!bytes_lex_lt(&b"ab".to_vec(), &b"a".to_vec()));
    assert!(!bytes_lex_lt(&b"a".to_vec(), &b"a".to_vec()));
    assert!(bytes_lex_lt(&b"2023-01-02".to_vec(), &b"2023-01-10".to_vec()));
}

#[test]
fn clock_yields_a_well_formed_timestamp() {
    let t = current_timestamp().unwrap();
    assert!((1..=12).contains(&t.month));
    assert!((1..=31).contains(&t.day));
    assert!(t.hour <= 23);
    assert!(t.minute <= 59);
    assert!(t.second <= 59);
    assert!(t.year >= 2020);
}

#[test]
fn field_packing_accepts_exactly_the_well_formed_times() {
    assert_eq!(
        timestamp_from_fields(2022, 12, 21, 16, 11, 21),
        Some(Timestamp { year: 2022, month: 12, day: 21, hour: 16, minute: 11, second: 21 })
    );
    assert_eq!(
        timestamp_from_fields(0, 1, 1, 0, 0, 0),
        Some(Timestamp { year: 0, month: 1, day: 1, hour: 0, minute: 0, second: 0 })
    );
    assert_eq!(timestamp_from_fields(-1, 1, 1, 0, 0, 0), None);
    assert_eq!(timestamp_from_fields(10000, 1, 1, 0, 0, 0), None);
    assert_eq!(timestamp_from_fields(2022, 0, 1, 0, 0, 0), None);
    assert_eq!(timestamp_from_fields(2022, 13, 1, 0, 0, 0), None);
    assert_eq!(timestamp_from_fields(2022, 1, 32, 0, 0, 0), None);
    assert_eq!(timestamp_from_fields(2022, 1, 1, 24, 0, 0), None);
    assert_eq!(timestamp_from_fields(2022, 1, 1, 0, 60, 0), None);
    assert_eq!(timestamp_from_fields(2022, 1, 1, 0, 0, 60), None);
}
