use snapshot_archive::archive_info::{
    get_highest_incremental_snapshot_archive_info, get_highest_incremental_snapshot_archive_slot,
    get_highest_snapshot_archive_info, get_highest_snapshot_archive_slot,
    get_incremental_snapshot_archives, get_snapshot_archives,
    get_sorted_incremental_snapshot_archives, get_sorted_snapshot_archives, DirEntry,
};
use snapshot_archive::archive_format::ArchiveFormat;

const DEFAULT_HASH: &str = "11111111111111111111111111111111";

type Slot = u64;

fn file(dir: &str, name: String) -> DirEntry {
    DirEntry { path: format!("{}/{}", dir, name), is_file: true }
}

/// The entries of a directory with full snapshot archives for the slots from
/// `min_full_snapshot_slot` up to, not including, `max_full_snapshot_slot`, for each of them
/// incremental snapshot archives for the slots from `min_incremental_snapshot_slot` up to,
/// not including, `max_incremental_snapshot_slot`, and files with bad names and high slots.
fn common_create_snapshot_archive_files(
    snapshot_dir: &str,
    min_full_snapshot_slot: Slot,
    max_full_snapshot_slot: Slot,
    min_incremental_snapshot_slot: Slot,
    max_incremental_snapshot_slot: Slot,
) -> Vec<DirEntry> {
    let mut entries = Vec::new();
    for full_snapshot_slot in min_full_snapshot_slot..max_full_snapshot_slot {
        for incremental_snapshot_slot in min_incremental_snapshot_slot..max_incremental_snapshot_slot
        {
            let snapshot_filename = format!(
                "incremental-snapshot-{}-{}-{}.tar",
                full_snapshot_slot, incremental_snapshot_slot, DEFAULT_HASH
            );
            entries.push(file(snapshot_dir, snapshot_filename));
        }

        let snapshot_filename = format!("snapshot-{}-{}.tar", full_snapshot_slot, DEFAULT_HASH);
        entries.push(file(snapshot_dir, snapshot_filename));

        let bad_filename = format!(
            "incremental-snapshot-{}-{}-bad!hash.tar",
            full_snapshot_slot,
            max_incremental_snapshot_slot + 1,
        );
        entries.push(file(snapshot_dir, bad_filename));
    }

    let bad_filename = format!("snapshot-{}-bad!hash.tar", max_full_snapshot_slot + 1);
    entries.push(file(snapshot_dir, bad_filename));
    entries
}

#[test]
fn test_get_snapshot_archives() {
    let min_slot = 123;
    let max_slot = 456;
    let entries = common_create_snapshot_archive_files("/snapshots", min_slot, max_slot, 0, 0);

    let snapshot_archives = get_snapshot_archives(&entries);
    assert_eq!(snapshot_archives.len() as Slot, max_slot - min_slot);
}

#[test]
fn test_get_sorted_snapshot_archives() {
    let min_slot = 12;
    let max_slot = 45;
    let entries = common_create_snapshot_archive_files("/snapshots", min_slot, max_slot, 0, 0);

    let sorted_snapshot_archives = get_sorted_snapshot_archives(&entries);
    assert_eq!(sorted_snapshot_archives.len() as Slot, max_slot - min_slot);
    assert_eq!(sorted_snapshot_archives[0].slot, max_slot - 1);
}

#[test]
fn test_get_incremental_snapshot_archives() {
    let min_full_snapshot_slot = 12;
    let max_full_snapshot_slot = 23;
    let min_incremental_snapshot_slot = 34;
    let max_incremental_snapshot_slot = 45;
    let entries = common_create_snapshot_archive_files(
        "/snapshots",
        min_full_snapshot_slot,
        max_full_snapshot_slot,
        min_incremental_snapshot_slot,
        max_incremental_snapshot_slot,
    );

    let incremental_snapshot_archives = get_incremental_snapshot_archives(&entries);
    assert_eq!(
        incremental_snapshot_archives.len() as Slot,
        (max_full_snapshot_slot - min_full_snapshot_slot)
            * (max_incremental_snapshot_slot - min_incremental_snapshot_slot)
    );
}

#[test]
fn test_get_sorted_incremental_snapshot_archives() {
    let min_full_snapshot_slot = 12;
    let max_full_snapshot_slot = 23;
    let min_incremental_snapshot_slot = 34;
    let max_incremental_snapshot_slot = 45;
    let entries = common_create_snapshot_archive_files(
        "/snapshots",
        min_full_snapshot_slot,
        max_full_snapshot_slot,
        min_incremental_snapshot_slot,
        max_incremental_snapshot_slot,
    );

    let sorted_incremental_snapshot_archives = get_sorted_incremental_snapshot_archives(&entries);
    assert_eq!(
        sorted_incremental_snapshot_archives.len() as Slot,
        (max_full_snapshot_slot - min_full_snapshot_slot)
            * (max_incremental_snapshot_slot - min_incremental_snapshot_slot)
    );
    assert_eq!(sorted_incremental_snapshot_archives[0].base_slot, max_full_snapshot_slot - 1);
    assert_eq!(sorted_incremental_snapshot_archives[0].slot, max_incremental_snapshot_slot - 1);
}

#[test]
fn test_get_highest_snapshot_archive_slot() {
    let min_slot = 123;
    let max_slot = 456;
    let entries = common_create_snapshot_archive_files("/snapshots", min_slot, max_slot, 0, 0);

    assert_eq!(get_highest_snapshot_archive_slot(&entries), Some(max_slot - 1));
}

#[test]
fn test_get_highest_incremental_snapshot_slot() {
    let min_full_snapshot_slot = 12;
    let max_full_snapshot_slot = 23;
    let min_incremental_snapshot_slot = 34;
    let max_incremental_snapshot_slot = 45;
    let entries = common_create_snapshot_archive_files(
        "/snapshots",
        min_full_snapshot_slot,
        max_full_snapshot_slot,
        min_incremental_snapshot_slot,
        max_incremental_snapshot_slot,
    );

    for full_snapshot_slot in min_full_snapshot_slot..max_full_snapshot_slot {
        assert_eq!(
            get_highest_incremental_snapshot_archive_slot(&entries, full_snapshot_slot),
            Some(max_incremental_snapshot_slot - 1)
        );
    }

    assert_eq!(
        get_highest_incremental_snapshot_archive_slot(&entries, max_full_snapshot_slot),
        None
    );
}

#[test]
fn sorted_archives_descend_and_keep_every_archive() {
    let entries = vec![
        file("/d", format!("snapshot-3-{}.tar", DEFAULT_HASH)),
        file("/d", format!("snapshot-50-{}.tar.gz", DEFAULT_HASH)),
        file("/d", "unrelated.txt".to_string()),
        file("/d", format!("snapshot-1-{}.tar.zst", DEFAULT_HASH)),
        file("/d", format!("snapshot-7-{}.tar.bz2", DEFAULT_HASH)),
    ];
    let sorted = get_sorted_snapshot_archives(&entries);
    let slots: Vec<Slot> = sorted.iter().map(|info| info.slot).collect();
    assert_eq!(slots, vec![50, 7, 3, 1]);
    assert_eq!(sorted[0].path, format!("/d/snapshot-50-{}.tar.gz", DEFAULT_HASH));
    assert_eq!(sorted[0].archive_format, ArchiveFormat::TarGzip);
    assert_eq!(sorted[0].hash.as_str(), DEFAULT_HASH);
    // the listing itself keeps the order of the entries
    let listed: Vec<Slot> = get_snapshot_archives(&entries).iter().map(|i| i.slot).collect();
    assert_eq!(listed, vec![3, 50, 1, 7]);
}

#[test]
fn sorted_incrementals_descend_by_base_then_slot() {
    let entries = vec![
        file("/d", "incremental-snapshot-10-13-aa.tar".to_string()),
        file("/d", "incremental-snapshot-20-21-bb.tar".to_string()),
        file("/d", "incremental-snapshot-10-19-cc.tar".to_string()),
        file("/d", "incremental-snapshot-20-25-dd.tar".to_string()),
        file("/d", "incremental-snapshot-5-100-ee.tar".to_string()),
    ];
    let sorted = get_sorted_incremental_snapshot_archives(&entries);
    let ranks: Vec<(Slot, Slot)> = sorted.iter().map(|i| (i.base_slot, i.slot)).collect();
    assert_eq!(ranks, vec![(20, 25), (20, 21), (10, 19), (10, 13), (5, 100)]);
    let highest = get_highest_incremental_snapshot_archive_info(&entries, 10).unwrap();
    assert_eq!(highest.slot, 19);
    assert_eq!(highest.hash.as_str(), "cc");
    assert_eq!(highest.path, "/d/incremental-snapshot-10-19-cc.tar");
}

#[test]
fn archives_of_equal_slot_keep_their_order() {
    let entries = vec![
        file("/d", "snapshot-5-first.tar".to_string()),
        file("/d", "snapshot-9-x.tar".to_string()),
        file("/d", "snapshot-5-second.tar".to_string()),
    ];
    let sorted = get_sorted_snapshot_archives(&entries);
    let hashes: Vec<&str> = sorted.iter().map(|i| i.hash.as_str()).collect();
    assert_eq!(hashes, vec!["x", "first", "second"]);
}

#[test]
fn entries_that_are_no_files_are_passed_over() {
    let entries = vec![
        DirEntry { path: "/d/snapshot-5-abc.tar".to_string(), is_file: false },
        DirEntry { path: "/d/incremental-snapshot-5-6-abc.tar".to_string(), is_file: false },
        DirEntry { path: "/".to_string(), is_file: true },
        DirEntry { path: "/d/..".to_string(), is_file: true },
    ];
    assert!(get_snapshot_archives(&entries).is_empty());
    assert!(get_incremental_snapshot_archives(&entries).is_empty());
    assert!(get_highest_snapshot_archive_info(&entries).is_none());
    assert_eq!(get_highest_snapshot_archive_slot(&entries), None);
    assert!(get_highest_snapshot_archive_info(&Vec::new()).is_none());
}
