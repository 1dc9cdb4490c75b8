use snapshot_archive::error::SnapshotError;

#[test]
fn every_error_says_what_it_is() {
    assert_eq!(SnapshotError::Io("disk full".to_string()).message(), "I/O error: disk full");
    assert_eq!(
        SnapshotError::Serialize("bad tag".to_string()).message(),
        "serialization error: bad tag"
    );
    assert_eq!(
        SnapshotError::ArchiveGenerationFailure(Some(2)).message(),
        "archive generation failure exit status: 2"
    );
    assert_eq!(
        SnapshotError::ArchiveGenerationFailure(Some(0)).message(),
        "archive generation failure exit status: 0"
    );
    assert_eq!(
        SnapshotError::ArchiveGenerationFailure(Some(-7)).message(),
        "archive generation failure exit status: -7"
    );
    assert_eq!(
        SnapshotError::ArchiveGenerationFailure(Some(i32::MIN)).message(),
        "archive generation failure exit status: -2147483648"
    );
    assert_eq!(
        SnapshotError::ArchiveGenerationFailure(Some(i32::MAX)).message(),
        "archive generation failure exit status: 2147483647"
    );
    assert_eq!(
        SnapshotError::ArchiveGenerationFailure(None).message(),
        "archive generation failure exit status: unknown"
    );
    assert_eq!(
        SnapshotError::StoragePathSymlinkInvalid.message(),
        "storage path symlink is invalid"
    );
    assert_eq!(
        SnapshotError::UnpackError("too many entries".to_string()).message(),
        "Unpack error: too many entries"
    );
    assert_eq!(SnapshotError::AccountsPackageSendError.message(), "accounts package send error");
    assert_eq!(
        SnapshotError::PathParseError("Could not get file name!").message(),
        "could not parse path: Could not get file name!"
    );
    assert_eq!(
        SnapshotError::IncompatibleSnapshots(10, 20).message(),
        "snapshots are incompatible: full snapshot slot (10) and incremental snapshot base slot (20) do not match"
    );
}
