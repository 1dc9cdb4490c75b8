use snapshot_archive::archive_info::{get_sorted_incremental_snapshot_archives, DirEntry};
use snapshot_archive::purge::purge_old_snapshot_archives;
use std::collections::HashSet;

const DEFAULT_HASH: &str = "11111111111111111111111111111111";

/// Lists a directory of the given names, purges it, and holds what is left against
/// `expected_snapshots`.
fn common_test_purge_old_snapshot_archives(
    snapshot_names: &[&String],
    maximum_snapshots_to_retain: usize,
    expected_snapshots: &[&String],
) {
    let entries: Vec<DirEntry> = snapshot_names
        .iter()
        .map(|name| DirEntry { path: format!("/snap/{}", name), is_file: true })
        .collect();
    let purged = purge_old_snapshot_archives(&entries, maximum_snapshots_to_retain);

    let mut retained_snaps = HashSet::new();
    for entry in &entries {
        if !purged.contains(&entry.path) {
            retained_snaps.insert(entry.path.trim_start_matches("/snap/").to_string());
        }
    }

    for snap_name in expected_snapshots {
        assert!(retained_snaps.contains(snap_name.as_str()));
    }
    assert!(retained_snaps.len() == expected_snapshots.len());
}

#[test]
fn test_purge_old_snapshot_archives() {
    // Create 3 snapshots, retaining 1,
    // expecting the oldest 1 and the newest 1 are retained
    let snap1_name = format!("snapshot-1-{}.tar.zst", DEFAULT_HASH);
    let snap2_name = format!("snapshot-3-{}.tar.zst", DEFAULT_HASH);
    let snap3_name = format!("snapshot-50-{}.tar.zst", DEFAULT_HASH);
    let snapshot_names = vec![&snap1_name, &snap2_name, &snap3_name];
    let expected_snapshots = vec![&snap1_name, &snap3_name];
    common_test_purge_old_snapshot_archives(&snapshot_names, 1, &expected_snapshots);

    // retaining 0, the expectation is the same as for 1, as at least 1 newest is expected to be retained
    common_test_purge_old_snapshot_archives(&snapshot_names, 0, &expected_snapshots);

    // retaining 2, all three should be retained
    let expected_snapshots = vec![&snap1_name, &snap2_name, &snap3_name];
    common_test_purge_old_snapshot_archives(&snapshot_names, 2, &expected_snapshots);
}

#[test]
fn test_purge_old_incremental_snapshot_archives() {
    let mut entries = Vec::new();
    for snapshot_filename in [
        format!("snapshot-100-{}.tar", DEFAULT_HASH),
        format!("snapshot-200-{}.tar", DEFAULT_HASH),
        format!("incremental-snapshot-100-120-{}.tar", DEFAULT_HASH),
        format!("incremental-snapshot-100-140-{}.tar", DEFAULT_HASH),
        format!("incremental-snapshot-100-160-{}.tar", DEFAULT_HASH),
        format!("incremental-snapshot-100-180-{}.tar", DEFAULT_HASH),
        format!("incremental-snapshot-200-220-{}.tar", DEFAULT_HASH),
        format!("incremental-snapshot-200-240-{}.tar", DEFAULT_HASH),
        format!("incremental-snapshot-200-260-{}.tar", DEFAULT_HASH),
        format!("incremental-snapshot-200-280-{}.tar", DEFAULT_HASH),
    ] {
        entries.push(DirEntry { path: format!("/snap/{}", snapshot_filename), is_file: true });
    }

    let purged = purge_old_snapshot_archives(&entries, usize::MAX);
    let remaining: Vec<DirEntry> =
        entries.into_iter().filter(|entry| !purged.contains(&entry.path)).collect();

    let remaining_incremental_snapshot_archives =
        get_sorted_incremental_snapshot_archives(&remaining);
    assert_eq!(remaining_incremental_snapshot_archives.len(), 4);
    for archive in &remaining_incremental_snapshot_archives {
        assert_eq!(archive.base_slot, 200);
    }
}

fn entries_of(names: &[&str]) -> Vec<DirEntry> {
    names.iter().map(|name| DirEntry { path: format!("/snap/{}", name), is_file: true }).collect()
}

#[test]
fn purge_lists_full_archives_between_the_newest_and_the_oldest() {
    let entries = entries_of(&[
        "snapshot-10-a.tar",
        "snapshot-40-a.tar",
        "snapshot-20-a.tar",
        "snapshot-50-a.tar",
        "snapshot-30-a.tar",
        "tmp-snapshot-60-a.tar",
        "notes.txt",
    ]);
    assert_eq!(
        purge_old_snapshot_archives(&entries, 1),
        vec!["/snap/snapshot-40-a.tar", "/snap/snapshot-30-a.tar", "/snap/snapshot-20-a.tar"]
    );
    assert_eq!(purge_old_snapshot_archives(&entries, 0), purge_old_snapshot_archives(&entries, 1));
    assert_eq!(
        purge_old_snapshot_archives(&entries, 2),
        vec!["/snap/snapshot-30-a.tar", "/snap/snapshot-20-a.tar"]
    );
    assert_eq!(purge_old_snapshot_archives(&entries, 3), vec!["/snap/snapshot-20-a.tar"]);
    assert!(purge_old_snapshot_archives(&entries, 4).is_empty());
    assert!(purge_old_snapshot_archives(&entries, usize::MAX).is_empty());
}

#[test]
fn purge_keeps_a_single_archive_and_an_empty_directory() {
    assert!(purge_old_snapshot_archives(&entries_of(&["snapshot-10-a.tar"]), 0).is_empty());
    assert!(purge_old_snapshot_archives(&entries_of(&["snapshot-10-a.tar", "snapshot-11-a.tar"]), 0)
        .is_empty());
    assert!(purge_old_snapshot_archives(&Vec::new(), 0).is_empty());
}

#[test]
fn purge_removes_incrementals_of_any_other_base() {
    let entries = entries_of(&[
        "incremental-snapshot-100-120-a.tar",
        "snapshot-200-a.tar",
        "incremental-snapshot-300-320-a.tar",
        "incremental-snapshot-200-220-a.tar",
        "snapshot-100-a.tar",
    ]);
    assert_eq!(
        purge_old_snapshot_archives(&entries, 5),
        vec!["/snap/incremental-snapshot-100-120-a.tar", "/snap/incremental-snapshot-300-320-a.tar"]
    );
}

#[test]
fn purge_keeps_incrementals_where_there_is_no_full_archive() {
    let entries =
        entries_of(&["incremental-snapshot-100-120-a.tar", "incremental-snapshot-200-220-a.tar"]);
    assert!(purge_old_snapshot_archives(&entries, 1).is_empty());
}

#[test]
fn archives_of_one_slot_are_told_apart_by_their_place_in_the_listing() {
    // two archives of the highest slot with different hashes: both are newer than the
    // rest, and the one that was listed first counts as the newer
    let entries = entries_of(&[
        "snapshot-10-a.tar",
        "snapshot-50-first.tar",
        "snapshot-30-a.tar",
        "snapshot-50-second.tar",
        "incremental-snapshot-50-60-a.tar",
        "incremental-snapshot-30-60-a.tar",
    ]);
    assert_eq!(
        purge_old_snapshot_archives(&entries, 1),
        vec![
            "/snap/snapshot-50-second.tar",
            "/snap/snapshot-30-a.tar",
            "/snap/incremental-snapshot-30-60-a.tar"
        ]
    );
    // two archives of the lowest slot: the one that was listed last is kept as the oldest
    let entries =
        entries_of(&["snapshot-10-first.tar", "snapshot-50-a.tar", "snapshot-10-second.tar"]);
    assert_eq!(purge_old_snapshot_archives(&entries, 1), vec!["/snap/snapshot-10-first.tar"]);
}

#[test]
fn only_files_with_archive_names_are_purged() {
    let mut entries = entries_of(&[
        "snapshot-10-a.tar",
        "snapshot-20-a.tar",
        "snapshot-30-a.tar",
        "tmp-snapshot-40.tar",
        "tmp-snapshot-40-xyz",
        "snapshot-25-a.tar.part",
        "incremental-snapshot-10-15-a.tar",
    ]);
    entries.push(DirEntry { path: "/snap/sub/snapshot-20-a.tar".to_string(), is_file: false });
    assert_eq!(
        purge_old_snapshot_archives(&entries, 1),
        vec!["/snap/snapshot-20-a.tar", "/snap/incremental-snapshot-10-15-a.tar"]
    );
}
