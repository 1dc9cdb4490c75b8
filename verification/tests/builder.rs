use snapshot_archive::archive_format::ArchiveFormat;
use snapshot_archive::archive_info::DirEntry;
use snapshot_archive::builder::{
    bank_to_incremental_snapshot_archive, bank_to_snapshot_archive, snapshot_bank,
};
use snapshot_archive::error::SnapshotError;
use snapshot_archive::hash;
use snapshot_archive::package::{BankInfo, StorageEntry};
use snapshot_archive::snapshot_version::SnapshotVersion;
use snapshot_archive::writer::{WriterAction, WriterStep};

const HASH: &str = "Fh1mPRxKS4bSx4zDs1GCeBNRyM5qDeJgMKBKsBswQgc";

fn bank(slot: u64) -> BankInfo {
    BankInfo {
        slot,
        block_height: slot,
        accounts_hash: hash::Hash::new(HASH).unwrap(),
        capitalization: 5,
    }
}

fn storage(slot: u64, id: usize) -> StorageEntry {
    StorageEntry { slot, append_vec_id: id, path: format!("/accounts/{}.{}", slot, id) }
}

#[test]
fn a_full_snapshot_is_set_up() {
    let build = bank_to_snapshot_archive(
        "/snap/tmp1",
        &bank(10),
        100,
        "/snap/tmp1/tmp-snapshot-10-a".to_string(),
        vec![7u32],
        None,
        "/out",
        vec![vec![storage(9, 1)], vec![storage(10, 2)]],
        ArchiveFormat::TarZstd,
        3,
    )
    .unwrap();
    assert_eq!(build.package.tar_output_file, format!("/out/snapshot-10-{}.tar.zst", HASH));
    assert_eq!(build.package.snapshot_version, SnapshotVersion::V1_2_0);
    assert_eq!(build.package.slot_deltas, vec![7u32]);
    assert_eq!(build.link.source, "/snap/tmp1/10/10");
    assert_eq!(build.link.dir, "/snap/tmp1/tmp-snapshot-10-a/10");
    assert_eq!(build.link.target, "/snap/tmp1/tmp-snapshot-10-a/10/10");
    assert_eq!(build.writer.step(), WriterStep::StatusCache);
    assert!(
        matches!(build.first_action, WriterAction::SerializeStatusCache { ref path } if path == "/snap/tmp1/tmp-snapshot-10-a/status_cache")
    );
}

#[test]
fn an_incremental_snapshot_is_set_up() {
    let build = bank_to_incremental_snapshot_archive(
        "/snap/tmp1",
        &bank(13),
        10,
        100,
        "/snap/tmp1/tmp-incremental-snapshot-10-13-a".to_string(),
        Vec::<u32>::new(),
        Some(SnapshotVersion::V1_2_0),
        "/out",
        vec![vec![storage(11, 1)], vec![storage(13, 2)]],
        ArchiveFormat::Tar,
        3,
    )
    .unwrap();
    assert_eq!(
        build.package.tar_output_file,
        format!("/out/incremental-snapshot-10-13-{}.tar", HASH)
    );
    assert_eq!(build.link.source, "/snap/tmp1/13/13");
}

#[test]
fn a_state_file_above_the_limit_is_refused() {
    let too_large = 32 * 1024 * 1024 * 1024 + 1;
    let r = bank_to_snapshot_archive(
        "/snap/tmp1",
        &bank(10),
        too_large,
        "/snap/tmp1/tmp-snapshot-10-a".to_string(),
        Vec::<u32>::new(),
        None,
        "/out",
        vec![],
        ArchiveFormat::Tar,
        3,
    );
    assert!(
        matches!(r, Err(SnapshotError::Io(ref m)) if m.starts_with("too large snapshot data file to serialize: /snap/tmp1/10/10"))
    );
}

#[test]
fn the_snapshot_of_the_highest_slot_is_packaged() {
    let entries: Vec<DirEntry> = ["8", "10", "9"]
        .iter()
        .map(|name| DirEntry { path: format!("/snap/{}", name), is_file: false })
        .collect();
    let (package, link) = snapshot_bank(
        &bank(10),
        100,
        &entries,
        "/snap/tmp-snapshot-10-a".to_string(),
        vec![1u8],
        "/snap",
        "/out",
        vec![],
        SnapshotVersion::V1_2_0,
        ArchiveFormat::TarBzip2,
        Some(hash::Hash::new("expected").unwrap()),
    )
    .unwrap();
    assert_eq!(package.slot, 10);
    assert_eq!(package.snapshot_output_dir, "/out");
    assert_eq!(package.expected_capitalization, 5);
    assert_eq!(package.hash_for_testing.unwrap().as_str(), "expected");
    assert_eq!(link.source, "/snap/10/10");
    assert_eq!(link.target, "/snap/tmp-snapshot-10-a/10/10");
}
