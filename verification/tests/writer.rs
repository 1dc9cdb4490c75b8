use snapshot_archive::archive_format::ArchiveFormat;
use snapshot_archive::archive_info::DirEntry;
use snapshot_archive::archive_name::parse_snapshot_archive_filename;
use snapshot_archive::error::SnapshotError;
use snapshot_archive::hash;
use snapshot_archive::package::{
    are_storages_above, check_hash_for_testing, get_incremental_snapshot_tmpdir_prefix,
    get_snapshot_tmpdir_prefix, package_incremental_snapshot, package_snapshot,
    process_accounts_package_pre, process_accounts_package_pre_for_incremental_snapshot,
    AccountsPackage, BankInfo, ComputedHash, StorageEntry,
};
use snapshot_archive::restore::{RestoreAction, RestoreEvent, Restorer, UnpackedSnapshot};
use snapshot_archive::snapshot_paths::SlotSnapshotPaths;
use snapshot_archive::snapshot_version::SnapshotVersion;
use snapshot_archive::unpack::UnpackedAppendVecMap;
use snapshot_archive::writer::{
    archive_snapshot_package, ArchiveReport, ArchiveWriter, WriterAction, WriterEvent, WriterStep,
};

const HASH: &str = "4vJ9JU1bJJE96FWSJKvHsmmFADCg4gpZQff4P3bkLKi";

fn storage(slot: u64, id: usize) -> StorageEntry {
    StorageEntry { slot, append_vec_id: id, path: format!("/accounts/{}.{}", slot, id) }
}

fn bank(slot: u64) -> BankInfo {
    BankInfo {
        slot,
        block_height: slot + 1,
        accounts_hash: hash::Hash::new(HASH).unwrap(),
        capitalization: 1_000_000,
    }
}

fn package(format: ArchiveFormat, storages: Vec<Vec<StorageEntry>>) -> AccountsPackage<u8> {
    let files = SlotSnapshotPaths { slot: 42, snapshot_file_path: "/snap/42/42".to_string() };
    let (pre, link) = package_snapshot(
        &bank(42),
        &files,
        "/snap/tmp-snapshot-42-XyZ".to_string(),
        vec![1u8, 2, 3],
        "/out",
        storages,
        format,
        SnapshotVersion::V1_2_0,
        None,
    );
    assert_eq!(link.dir, "/snap/tmp-snapshot-42-XyZ/42");
    assert_eq!(link.source, "/snap/42/42");
    assert_eq!(link.target, "/snap/tmp-snapshot-42-XyZ/42/42");
    assert!(check_hash_for_testing(&pre, &None));
    process_accounts_package_pre(pre, None)
}

fn describe(action: &WriterAction) -> String {
    match action {
        WriterAction::SerializeStatusCache { path } => format!("status-cache {}", path),
        WriterAction::CreateDirAll { path } => format!("mkdir {}", path),
        WriterAction::CreateTempDir { dir, prefix } => format!("mktemp {} {}", dir, prefix),
        WriterAction::SymlinkDir { source, target } => format!("link-dir {} {}", source, target),
        WriterAction::LinkStorage { index, source, target } => {
            format!("link-storage {} {} {}", index, source, target)
        }
        WriterAction::WriteFile { path, contents } => format!("write {} {}", path, contents),
        WriterAction::RunTar { staging_dir, archive_path, archive_format } => {
            format!("tar {} {} {:?}", staging_dir, archive_path, archive_format)
        }
        WriterAction::Metadata { path } => format!("stat {}", path),
        WriterAction::Rename { from, to } => format!("rename {} {}", from, to),
        WriterAction::Purge { dir, maximum_snapshots_to_retain } => {
            format!("purge {} {}", dir, maximum_snapshots_to_retain)
        }
        WriterAction::Finish { result, remove } => format!("finish {:?} {:?}", result, remove),
    }
}

fn run(writer: &mut ArchiveWriter, events: Vec<WriterEvent>) -> Vec<String> {
    events.into_iter().map(|event| describe(&writer.advance(event))).collect()
}

#[test]
fn package_names_its_archive() {
    let p = package(ArchiveFormat::TarZstd, vec![]);
    assert_eq!(p.slot, 42);
    assert_eq!(p.block_height, 43);
    assert_eq!(p.slot_deltas, vec![1u8, 2, 3]);
    assert_eq!(p.snapshot_links, "/snap/tmp-snapshot-42-XyZ");
    assert_eq!(p.snapshot_output_dir, "/out");
    assert_eq!(p.tar_output_file, format!("/out/snapshot-42-{}.tar.zst", HASH));
    assert_eq!(p.hash.as_str(), HASH);
    assert_eq!(p.archive_format, ArchiveFormat::TarZstd);
    assert_eq!(p.snapshot_version, SnapshotVersion::V1_2_0);
    assert_eq!(get_snapshot_tmpdir_prefix(42), "tmp-snapshot-42-");
    assert_eq!(get_incremental_snapshot_tmpdir_prefix(10, 13), "tmp-incremental-snapshot-10-13-");
}

#[test]
fn incremental_package_names_its_archive_with_the_base_slot() {
    let storages = vec![vec![storage(11, 0)], vec![storage(13, 1), storage(13, 2)]];
    assert!(are_storages_above(&storages, 10));
    assert!(!are_storages_above(&storages, 11));
    assert!(!are_storages_above(&storages, 13));
    assert!(are_storages_above(&Vec::new(), u64::MAX));
    let files = SlotSnapshotPaths { slot: 13, snapshot_file_path: "/snap/13/13".to_string() };
    let expected = hash::Hash::new("Expected1").unwrap();
    let (pre, _) = package_incremental_snapshot(
        &bank(13),
        10,
        &files,
        "/snap/tmp-incremental-snapshot-10-13-q".to_string(),
        Vec::<u8>::new(),
        "/out",
        storages,
        ArchiveFormat::Tar,
        SnapshotVersion::V1_2_0,
        Some(expected),
    );
    assert!(!check_hash_for_testing(&pre, &None));
    let wrong_hash =
        Some(ComputedHash { hash: hash::Hash::new("Other").unwrap(), lamports: 1_000_000 });
    assert!(!check_hash_for_testing(&pre, &wrong_hash));
    let wrong_sum =
        Some(ComputedHash { hash: hash::Hash::new("Expected1").unwrap(), lamports: 999_999 });
    assert!(!check_hash_for_testing(&pre, &wrong_sum));
    let computed =
        Some(ComputedHash { hash: hash::Hash::new("Expected1").unwrap(), lamports: 1_000_000 });
    assert!(check_hash_for_testing(&pre, &computed));
    let p = process_accounts_package_pre_for_incremental_snapshot(pre, computed, 10);
    // the name holds the hash of the state, not the one that was computed for the check
    assert_eq!(p.tar_output_file, format!("/out/incremental-snapshot-10-13-{}.tar", HASH));
    assert_eq!(p.storages.len(), 2);
}

#[test]
fn a_writing_in_which_all_succeeds() {
    let storages = vec![vec![storage(40, 7)], vec![], vec![storage(42, 8), storage(42, 9)]];
    let p = package(ArchiveFormat::TarBzip2, storages);
    let (mut writer, first) = archive_snapshot_package(&p, 2);
    assert_eq!(describe(&first), "status-cache /snap/tmp-snapshot-42-XyZ/status_cache");
    assert_eq!(writer.step(), WriterStep::StatusCache);
    let staging = "/out/tmp-snapshot-42-AbCd".to_string();
    let actions = run(
        &mut writer,
        vec![
            WriterEvent::Size(120),
            WriterEvent::Done,
            WriterEvent::TempDir(staging),
            WriterEvent::Done,
            WriterEvent::Done,
            WriterEvent::StorageLinked { is_file: true },
            WriterEvent::StorageLinked { is_file: true },
            WriterEvent::StorageLinked { is_file: true },
            WriterEvent::Done,
            WriterEvent::TarExited { success: true, code: Some(0) },
            WriterEvent::Size(5000),
            WriterEvent::Done,
            WriterEvent::Done,
        ],
    );
    let report = ArchiveReport { slot: 42, size: 5000 };
    assert_eq!(
        actions,
        vec![
            "mkdir /out".to_string(),
            "mktemp /out tmp-snapshot-42-".to_string(),
            "mkdir /out/tmp-snapshot-42-AbCd/accounts".to_string(),
            "link-dir /snap/tmp-snapshot-42-XyZ /out/tmp-snapshot-42-AbCd/snapshots".to_string(),
            "link-storage 0 /accounts/40.7 /out/tmp-snapshot-42-AbCd/accounts/40.7".to_string(),
            "link-storage 1 /accounts/42.8 /out/tmp-snapshot-42-AbCd/accounts/42.8".to_string(),
            "link-storage 2 /accounts/42.9 /out/tmp-snapshot-42-AbCd/accounts/42.9".to_string(),
            "write /out/tmp-snapshot-42-AbCd/version 1.2.0".to_string(),
            "tar /out/tmp-snapshot-42-AbCd /out/tmp-snapshot-42.tar.bz2 TarBzip2".to_string(),
            "stat /out/tmp-snapshot-42.tar.bz2".to_string(),
            format!("rename /out/tmp-snapshot-42.tar.bz2 /out/snapshot-42-{}.tar.bz2", HASH),
            "purge /out 2".to_string(),
            format!("finish {:?} {:?}", Ok::<_, SnapshotError>(report), Some("/out/tmp-snapshot-42-AbCd")),
        ]
    );
    assert!(writer.is_finished());
    // the temporary file is no archive, the renamed file is one
    assert!(parse_snapshot_archive_filename("tmp-snapshot-42.tar.bz2").is_none());
    assert!(parse_snapshot_archive_filename(&format!("snapshot-42-{}.tar.bz2", HASH)).is_some());
}

#[test]
fn a_package_without_storages_goes_on_to_the_version() {
    let p = package(ArchiveFormat::Tar, vec![]);
    let (mut writer, _) = ArchiveWriter::new(&p, 0);
    let actions = run(
        &mut writer,
        vec![
            WriterEvent::Size(0),
            WriterEvent::Done,
            WriterEvent::TempDir("/out/tmp".to_string()),
            WriterEvent::Done,
            WriterEvent::Done,
        ],
    );
    assert_eq!(actions[4], "write /out/tmp/version 1.2.0");
    assert_eq!(writer.step(), WriterStep::Version);
}

#[test]
fn a_dangling_link_ends_the_writing() {
    let p = package(ArchiveFormat::Tar, vec![vec![storage(40, 7), storage(41, 1)]]);
    let (mut writer, _) = ArchiveWriter::new(&p, 1);
    run(
        &mut writer,
        vec![
            WriterEvent::Size(10),
            WriterEvent::Done,
            WriterEvent::TempDir("/out/tmp".to_string()),
            WriterEvent::Done,
            WriterEvent::Done,
            WriterEvent::StorageLinked { is_file: true },
        ],
    );
    let action = writer.advance(WriterEvent::StorageLinked { is_file: false });
    match action {
        WriterAction::Finish { result, remove } => {
            assert!(matches!(result, Err(SnapshotError::StoragePathSymlinkInvalid)));
            assert_eq!(remove, Some("/out/tmp".to_string()));
        }
        other => panic!("unexpected action {:?}", other),
    }
    assert!(writer.is_finished());
}

#[test]
fn a_failed_tar_is_reported_with_its_exit_code() {
    let p = package(ArchiveFormat::TarGzip, vec![]);
    let (mut writer, _) = ArchiveWriter::new(&p, 1);
    run(
        &mut writer,
        vec![
            WriterEvent::Size(10),
            WriterEvent::Done,
            WriterEvent::TempDir("/out/tmp".to_string()),
            WriterEvent::Done,
            WriterEvent::Done,
            WriterEvent::Done,
        ],
    );
    assert_eq!(writer.step(), WriterStep::Tar);
    let action = writer.advance(WriterEvent::TarExited { success: false, code: Some(2) });
    match action {
        WriterAction::Finish { result, remove } => {
            assert!(matches!(result, Err(SnapshotError::ArchiveGenerationFailure(Some(2)))));
            assert_eq!(remove, Some("/out/tmp".to_string()));
        }
        other => panic!("unexpected action {:?}", other),
    }
}

#[test]
fn a_status_cache_above_the_limit_ends_the_writing() {
    let p = package(ArchiveFormat::Tar, vec![]);
    let (mut writer, _) = ArchiveWriter::new(&p, 1);
    let action = writer.advance(WriterEvent::Size(32 * 1024 * 1024 * 1024 + 1));
    match action {
        WriterAction::Finish { result, remove } => {
            assert!(
                matches!(result, Err(SnapshotError::Io(ref m)) if m.starts_with("too large snapshot data file to serialize"))
            );
            assert_eq!(remove, None);
        }
        other => panic!("unexpected action {:?}", other),
    }
    // a writer that has ended asks for nothing more
    let again = writer.advance(WriterEvent::Done);
    assert!(matches!(again, WriterAction::Finish { result: Err(SnapshotError::Io(_)), remove: None }));
}

#[test]
fn failures_end_the_writing_but_for_the_purge() {
    let p = package(ArchiveFormat::Tar, vec![]);
    let (mut writer, _) = ArchiveWriter::new(&p, 1);
    run(&mut writer, vec![WriterEvent::Size(10)]);
    let action = writer.advance(WriterEvent::Failed(SnapshotError::Io("disk full".to_string())));
    assert!(
        matches!(action, WriterAction::Finish { result: Err(SnapshotError::Io(ref m)), remove: None } if m == "disk full")
    );

    let (mut writer, _) = ArchiveWriter::new(&p, 1);
    run(
        &mut writer,
        vec![
            WriterEvent::Size(10),
            WriterEvent::Done,
            WriterEvent::TempDir("/out/tmp".to_string()),
            WriterEvent::Done,
            WriterEvent::Done,
            WriterEvent::Done,
            WriterEvent::TarExited { success: true, code: Some(0) },
            WriterEvent::Size(77),
            WriterEvent::Done,
        ],
    );
    assert_eq!(writer.step(), WriterStep::Purge);
    let action = writer.advance(WriterEvent::Failed(SnapshotError::Io("busy".to_string())));
    assert!(matches!(
        action,
        WriterAction::Finish { result: Ok(ArchiveReport { slot: 42, size: 77 }), remove: Some(_) }
    ));

    // an answer that does not fit the action ends the writing
    let (mut writer, _) = ArchiveWriter::new(&p, 1);
    let action = writer.advance(WriterEvent::Done);
    assert!(matches!(action, WriterAction::Finish { result: Err(SnapshotError::Io(_)), .. }));
}

#[test]
fn what_the_writer_lays_out_the_restorer_finds() {
    let p = package(ArchiveFormat::Tar, vec![vec![storage(42, 8)]]);
    let links = p.snapshot_links.clone();
    let (mut writer, first) = archive_snapshot_package(&p, 1);
    let mut written: Vec<String> = Vec::new();
    // the state file is linked below the directory of links, the status cache lies beside it
    written.push("/snap/tmp-snapshot-42-XyZ/42/42".replace(&links, "snapshots"));
    if let WriterAction::SerializeStatusCache { path } = first {
        written.push(path.replace(&links, "snapshots"));
    }
    let staging = "/out/staging".to_string();
    let mut version = String::new();
    for event in [
        WriterEvent::Size(1),
        WriterEvent::Done,
        WriterEvent::TempDir(staging.clone()),
        WriterEvent::Done,
        WriterEvent::Done,
        WriterEvent::StorageLinked { is_file: true },
    ] {
        match writer.advance(event) {
            WriterAction::SymlinkDir { source, target } => {
                assert_eq!(source, links);
                assert_eq!(target, "/out/staging/snapshots");
            }
            WriterAction::LinkStorage { target, .. } => {
                written.push(target.replace("/out/staging/", ""));
            }
            WriterAction::WriteFile { path, contents } => {
                written.push(path.replace("/out/staging/", ""));
                version = contents;
            }
            _ => {}
        }
    }
    written.sort();
    assert_eq!(
        written,
        vec!["accounts/42.8", "snapshots/42/42", "snapshots/status_cache", "version"]
    );

    // the archive, unpacked to another place
    let (mut restorer, _) =
        Restorer::new("/snap", &p.tar_output_file, None, p.archive_format, 1, None);
    let action = restorer.advance(RestoreEvent::Unpacked {
        snapshot: UnpackedSnapshot {
            unpack_dir: "/snap/unpacked".to_string(),
            snapshot_version: version,
            snapshots_dir_entries: vec![
                DirEntry { path: "/snap/unpacked/snapshots/42".to_string(), is_file: false },
                DirEntry { path: "/snap/unpacked/snapshots/status_cache".to_string(), is_file: true },
            ],
            untar_us: 1,
        },
        append_vec_map: UnpackedAppendVecMap::new(),
    });
    match action {
        RestoreAction::StatFiles { paths } => {
            assert_eq!(paths.full_snapshot_root_file_path, "/snap/unpacked/snapshots/42/42");
        }
        other => panic!("unexpected action {:?}", other),
    }
}

#[test]
fn the_error_of_a_failed_action_is_passed_on_unchanged() {
    let p = package(ArchiveFormat::Tar, vec![]);
    for error in [
        SnapshotError::Serialize("bad delta".to_string()),
        SnapshotError::AccountsPackageSendError,
        SnapshotError::UnpackError("x".to_string()),
    ] {
        let expected = error.message();
        let (mut writer, _) = ArchiveWriter::new(&p, 1);
        match writer.advance(WriterEvent::Failed(error)) {
            WriterAction::Finish { result: Err(error), remove: None } => {
                assert_eq!(error.message(), expected)
            }
            other => panic!("unexpected action {:?}", other),
        }
    }
}

#[test]
fn tar_is_asked_for_the_three_entries_of_the_staging_directory() {
    assert_eq!(
        snapshot_archive::writer::tar_arguments("/out/staging"),
        vec!["chS", "-C", "/out/staging", "accounts", "snapshots", "version"]
    );
}
