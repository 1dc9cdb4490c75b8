use snapshot_archive::compatibility::check_are_snapshots_compatible;
use snapshot_archive::error::SnapshotError;

type Slot = u64;

const HASH_A: &str = "4vJ9JU1bJJE96FWSJKvHsmmFADCg4gpZQff4P3bkLKi";
const HASH_B: &str = "8qbHbw2BbbTHBW1sbeqakYXVKRQM8Ne7pLK7m6CVfeR";

#[test]
fn test_check_are_snapshots_compatible() {
    let slot1: Slot = 1234;
    let slot2: Slot = 5678;
    let slot3: Slot = 999_999;

    assert!(check_are_snapshots_compatible(
        &format!("/dir/snapshot-{}-{}.tar", slot1, HASH_A),
        &format!("/dir/incremental-snapshot-{}-{}-{}.tar", slot1, slot2, HASH_B),
    )
    .is_ok());

    assert!(check_are_snapshots_compatible(
        &format!("/dir/snapshot-{}-{}.tar", slot1, HASH_A),
        &format!("/dir/incremental-snapshot-{}-{}-{}.tar", slot2, slot3, HASH_B),
    )
    .is_err());
}

#[test]
fn compatible_snapshots_give_both_slots() {
    let r = check_are_snapshots_compatible(
        "/a/snapshot-10-abc.tar.zst",
        "/b/c/incremental-snapshot-10-13-def.tar",
    );
    assert!(matches!(r, Ok((10, 13))));
}

#[test]
fn incompatible_snapshots_carry_both_slots() {
    let r = check_are_snapshots_compatible(
        "/dir/snapshot-10-abc.tar",
        "/dir/incremental-snapshot-20-25-abc.tar",
    );
    assert!(matches!(r, Err(SnapshotError::IncompatibleSnapshots(10, 20))));
}

#[test]
fn paths_that_cannot_be_parsed_are_reported() {
    let good_full = "/dir/snapshot-10-abc.tar";
    let good_incremental = "/dir/incremental-snapshot-10-13-abc.tar";
    assert!(matches!(
        check_are_snapshots_compatible("/", good_incremental),
        Err(SnapshotError::PathParseError("Could not get file name!"))
    ));
    assert!(matches!(
        check_are_snapshots_compatible("/dir/..", good_incremental),
        Err(SnapshotError::PathParseError("Could not get file name!"))
    ));
    assert!(matches!(
        check_are_snapshots_compatible("/dir/snapshot-x-abc.tar", good_incremental),
        Err(SnapshotError::PathParseError("Could not parse full snapshot archive's filename!"))
    ));
    assert!(matches!(
        check_are_snapshots_compatible(good_full, ""),
        Err(SnapshotError::PathParseError("Could not get file name!"))
    ));
    assert!(matches!(
        check_are_snapshots_compatible(good_full, "/dir/snapshot-10-abc.tar"),
        Err(SnapshotError::PathParseError(
            "Could not parse incremental snapshot archive's filename!"
        ))
    ));
    // the full snapshot's path is looked at first
    assert!(matches!(
        check_are_snapshots_compatible("/dir/bad", "/dir/also-bad"),
        Err(SnapshotError::PathParseError("Could not parse full snapshot archive's filename!"))
    ));
}
