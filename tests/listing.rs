use dbkp_core::storage::{
    order_entries, resolve_content_length, select_entries, stream_chunk_size, Entry,
    EntryMetadata, ListOptions, LocalStorageConfig, S3StorageConfig, StorageConfig, StorageError,
};
use dbkp_core::timestamp::extract_timestamp_from_filename;

fn entry(name: &str, is_file: bool, size: u64) -> Entry {
    Entry {
        path: format!("backups/{}", name),
        metadata: EntryMetadata {
            name: name.to_string(),
            is_file,
            content_length: size,
            last_modified: None,
        },
    }
}

fn names(v: &[Entry]) -> Vec<String> {
    v.iter().map(|e| e.metadata.name.clone()).collect()
}

#[test]
fn timestamp_of_well_formed_names() {
    assert_eq!(extract_timestamp_from_filename("a_20240101000000.sql"), Some(1704067200));
    assert_eq!(extract_timestamp_from_filename("a_20240201000000.sql"), Some(1706745600));
    assert_eq!(extract_timestamp_from_filename("b_20240301000000.sql"), Some(1709251200));
    assert_eq!(extract_timestamp_from_filename("db_19700101000001"), Some(1));
    assert_eq!(extract_timestamp_from_filename("my_db_20240229235959.sql.gz"), Some(1709251199));
    assert_eq!(extract_timestamp_from_filename("x_19691231235959.sql"), Some(-1));
}

#[test]
fn timestamp_of_malformed_names() {
    assert_eq!(extract_timestamp_from_filename("nostamp.sql"), None);
    assert_eq!(extract_timestamp_from_filename(""), None);
    assert_eq!(extract_timestamp_from_filename("a_2024010100000.sql"), None);
    assert_eq!(extract_timestamp_from_filename("a_20240101000000x"), None);
    assert_eq!(extract_timestamp_from_filename("a_2024010100000a.sql"), None);
    assert_eq!(extract_timestamp_from_filename("a_20230229000000.sql"), None);
    assert_eq!(extract_timestamp_from_filename("a_20241301000000.sql"), None);
    assert_eq!(extract_timestamp_from_filename("a_20240101240000.sql"), None);
    assert_eq!(extract_timestamp_from_filename("a_20240101000060.sql"), None);
    assert_eq!(extract_timestamp_from_filename("a_20240101000000_b.sql"), None);
}

#[test]
fn latest_of_three_backups() {
    let entries = vec![
        entry("a_20240101000000.sql", true, 10),
        entry("a_20240201000000.sql", true, 20),
        entry("b_20240301000000.sql", true, 30),
    ];
    let opts = ListOptions { latest_only: Some(true), limit: None };
    let r = select_entries(entries, &opts).unwrap();
    assert_eq!(names(&r), vec!["b_20240301000000.sql".to_string()]);
}

#[test]
fn latest_skips_unstamped_and_directories() {
    let entries = vec![
        entry("zzz_notes.txt", true, 1),
        entry("dir_20991231000000", false, 0),
        entry("a_20240101000000.sql", true, 10),
        entry("broken_20240230000000.sql", true, 5),
    ];
    let opts = ListOptions { latest_only: Some(true), limit: Some(10) };
    let r = select_entries(entries, &opts).unwrap();
    assert_eq!(names(&r), vec!["a_20240101000000.sql".to_string()]);
}

#[test]
fn latest_of_empty_listing_is_not_found() {
    let opts = ListOptions { latest_only: Some(true), limit: None };
    assert_eq!(select_entries(vec![], &opts).unwrap_err(), StorageError::NoEntryFound);
    let only_dirs = vec![entry("d_20240101000000", false, 0)];
    assert_eq!(select_entries(only_dirs, &opts).unwrap_err(), StorageError::NoEntryFound);
}

#[test]
fn listing_is_newest_first_with_unstamped_last() {
    let entries = vec![
        entry("plain.sql", true, 1),
        entry("a_20240101000000.sql", true, 10),
        entry("c_20240401000000.sql", true, 40),
        entry("sub", false, 0),
        entry("b_20240301000000.sql", true, 30),
    ];
    let opts = ListOptions { latest_only: None, limit: None };
    let r = select_entries(entries, &opts).unwrap();
    assert_eq!(
        names(&r),
        vec![
            "c_20240401000000.sql".to_string(),
            "b_20240301000000.sql".to_string(),
            "a_20240101000000.sql".to_string(),
            "plain.sql".to_string(),
        ]
    );
}

#[test]
fn order_keeps_listing_order_among_equal_stamps() {
    let entries = vec![
        entry("x_20240101000000.sql", true, 1),
        entry("y_20240101000000.sql", true, 2),
        entry("z_20240101000000.sql", true, 3),
    ];
    let r = order_entries(entries);
    assert_eq!(
        names(&r),
        vec![
            "x_20240101000000.sql".to_string(),
            "y_20240101000000.sql".to_string(),
            "z_20240101000000.sql".to_string(),
        ]
    );
}

#[test]
fn list_option_defaults() {
    let opts = ListOptions { latest_only: None, limit: None };
    assert_eq!(opts.effective_limit(), 1000);
    assert!(!opts.effective_latest_only());
    let opts = ListOptions { latest_only: Some(true), limit: Some(7) };
    assert_eq!(opts.effective_limit(), 7);
    assert!(opts.effective_latest_only());
}

#[test]
fn content_length_by_backend() {
    let local = StorageConfig::Local(LocalStorageConfig {
        id: "1".into(),
        name: "local".into(),
        location: "/tmp".into(),
    });
    let s3 = StorageConfig::S3(S3StorageConfig {
        id: "2".into(),
        name: "s3".into(),
        region: "r".into(),
        endpoint: None,
        bucket: "b".into(),
        access_key: "k".into(),
        secret_key: "s".into(),
        location: "/".into(),
    });
    assert_eq!(resolve_content_length(&local, 5, Some(42)), 42);
    assert_eq!(resolve_content_length(&local, 5, None), 0);
    assert_eq!(resolve_content_length(&s3, 5, Some(42)), 5);
}

#[test]
fn chunk_size_of_ranged_reads() {
    assert_eq!(stream_chunk_size(0), 0);
    assert_eq!(stream_chunk_size(100), 100);
    assert_eq!(stream_chunk_size(512), 512);
    assert_eq!(stream_chunk_size(1 << 20), 512);
}

#[test]
fn latest_when_no_entry_carries_a_stamp() {
    let entries = vec![entry("first.sql", true, 1), entry("second.sql", true, 2)];
    let opts = ListOptions { latest_only: Some(true), limit: None };
    assert_eq!(select_entries(entries, &opts).unwrap_err(), StorageError::NoEntryFound);
    let full = vec![entry("first.sql", true, 1), entry("second.sql", true, 2)];
    let all = ListOptions { latest_only: Some(false), limit: None };
    assert_eq!(select_entries(full, &all).unwrap().len(), 2);
}
