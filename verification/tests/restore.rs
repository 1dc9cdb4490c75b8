use snapshot_archive::archive_format::ArchiveFormat;
use snapshot_archive::archive_info::DirEntry;
use snapshot_archive::data_file::SnapshotFileSizes;
use snapshot_archive::error::SnapshotError;
use snapshot_archive::restore::{
    bank_from_incremental_snapshot_archive, bank_from_snapshot_archive, BankFromArchiveTimings,
    RestoreAction, RestoreEvent, RestoreStep, Restorer, UnpackedSnapshot,
};
use snapshot_archive::snapshot_version::SnapshotVersion;
use snapshot_archive::unpack::UnpackedAppendVecMap;

fn unpacked(dir: &str, version: &str, slots: &[&str], untar_us: u64) -> UnpackedSnapshot {
    UnpackedSnapshot {
        unpack_dir: dir.to_string(),
        snapshot_version: version.to_string(),
        snapshots_dir_entries: slots
            .iter()
            .map(|slot| DirEntry { path: format!("{}/snapshots/{}", dir, slot), is_file: false })
            .collect(),
        untar_us,
    }
}

fn map(entries: &[(&str, &str)]) -> UnpackedAppendVecMap {
    let mut m = UnpackedAppendVecMap::new();
    for (name, path) in entries {
        m.insert(name.to_string(), path.to_string());
    }
    m
}

fn sizes(full: u64, incremental: Option<u64>) -> SnapshotFileSizes {
    SnapshotFileSizes { full_snapshot: full, incremental_snapshot: incremental }
}

#[test]
fn a_state_is_restored_from_a_full_snapshot() {
    let (mut restorer, first) =
        Restorer::new("/snap", "/out/snapshot-10-abc.tar.zst", None, ArchiveFormat::TarZstd, 3, None);
    match first {
        RestoreAction::Unpack {
            snapshot_path,
            unpack_dir_prefix,
            archive_path,
            archive_format,
            parallel_divisions,
        } => {
            assert_eq!(snapshot_path, "/snap");
            assert_eq!(unpack_dir_prefix, "tmp-snapshot-");
            assert_eq!(archive_path, "/out/snapshot-10-abc.tar.zst");
            assert_eq!(archive_format, ArchiveFormat::TarZstd);
            assert_eq!(parallel_divisions, 3);
        }
        other => panic!("unexpected action {:?}", other),
    }
    assert_eq!(restorer.step(), RestoreStep::UnpackFull);

    let action = restorer.advance(RestoreEvent::Unpacked {
        snapshot: unpacked("/snap/tmp-snapshot-A", "1.2.0\n", &["10", "status_cache"], 700),
        append_vec_map: map(&[("10.1", "/acc/10.1")]),
    });
    match action {
        RestoreAction::StatFiles { paths } => {
            assert_eq!(paths.full_snapshot_root_file_path, "/snap/tmp-snapshot-A/snapshots/10/10");
            assert_eq!(paths.incremental_snapshot_root_file_path, None);
        }
        other => panic!("unexpected action {:?}", other),
    }

    let action = restorer.advance(RestoreEvent::Sizes(sizes(900, None)));
    match action {
        RestoreAction::DeserializeBank { paths, snapshot_version, append_vec_map } => {
            assert_eq!(paths.full_snapshot_root_file_path, "/snap/tmp-snapshot-A/snapshots/10/10");
            assert_eq!(snapshot_version, SnapshotVersion::V1_2_0);
            assert_eq!(append_vec_map.get("10.1"), Some(&"/acc/10.1".to_string()));
            assert_eq!(append_vec_map.get("10.2"), None);
        }
        other => panic!("unexpected action {:?}", other),
    }

    let action = restorer.advance(RestoreEvent::Sizes(sizes(900, None)));
    assert!(
        matches!(action, RestoreAction::StatStatusCache { ref path } if path == "/snap/tmp-snapshot-A/snapshots/status_cache")
    );
    let action = restorer.advance(RestoreEvent::Size(64));
    assert!(
        matches!(action, RestoreAction::DeserializeStatusCache { ref path } if path == "/snap/tmp-snapshot-A/snapshots/status_cache")
    );
    let action = restorer.advance(RestoreEvent::Size(64));
    assert!(matches!(action, RestoreAction::VerifyBank));
    let action =
        restorer.advance(RestoreEvent::Verified { passed: true, rebuild_us: 11, verify_us: 22 });
    match action {
        RestoreAction::Finish { result, remove } => {
            assert_eq!(
                result.unwrap(),
                BankFromArchiveTimings {
                    rebuild_bank_from_snapshots_us: 11,
                    untar_us: 700,
                    verify_snapshot_bank_us: 22,
                }
            );
            assert_eq!(remove, vec!["/snap/tmp-snapshot-A".to_string()]);
        }
        other => panic!("unexpected action {:?}", other),
    }
    assert!(restorer.is_finished());
}

fn unpack_both(limit: Option<usize>) -> Restorer {
    let (mut restorer, _) = Restorer::new(
        "/snap",
        "/out/snapshot-10-abc.tar",
        Some("/out/incremental-snapshot-10-13-def.tar".to_string()),
        ArchiveFormat::Tar,
        4,
        limit,
    );
    let action = restorer.advance(RestoreEvent::Unpacked {
        snapshot: unpacked("/snap/tmp-snapshot-A", "1.2.0", &["10"], 700),
        append_vec_map: map(&[("10.1", "/acc/full/10.1"), ("9.4", "/acc/full/9.4")]),
    });
    match action {
        RestoreAction::Unpack { unpack_dir_prefix, archive_path, parallel_divisions, .. } => {
            assert_eq!(unpack_dir_prefix, "tmp-incremental-snapshot-");
            assert_eq!(archive_path, "/out/incremental-snapshot-10-13-def.tar");
            assert_eq!(parallel_divisions, 4);
        }
        other => panic!("unexpected action {:?}", other),
    }
    let action = restorer.advance(RestoreEvent::Unpacked {
        snapshot: unpacked("/snap/tmp-incremental-snapshot-B", " v1.2.0 \n", &["13"], 50),
        append_vec_map: map(&[("10.1", "/acc/incr/10.1"), ("13.7", "/acc/incr/13.7")]),
    });
    match action {
        RestoreAction::StatFiles { paths } => {
            assert_eq!(paths.full_snapshot_root_file_path, "/snap/tmp-snapshot-A/snapshots/10/10");
            assert_eq!(
                paths.incremental_snapshot_root_file_path,
                Some("/snap/tmp-incremental-snapshot-B/snapshots/13/13".to_string())
            );
        }
        other => panic!("unexpected action {:?}", other),
    }
    restorer
}

#[test]
fn a_state_is_restored_from_a_full_and_an_incremental_snapshot() {
    let mut restorer = unpack_both(None);
    let action = restorer.advance(RestoreEvent::Sizes(sizes(900, Some(90))));
    match action {
        RestoreAction::DeserializeBank { append_vec_map, .. } => {
            // the storages of the incremental snapshot count before those of the full one
            assert_eq!(append_vec_map.get("10.1"), Some(&"/acc/incr/10.1".to_string()));
            assert_eq!(append_vec_map.get("9.4"), Some(&"/acc/full/9.4".to_string()));
            assert_eq!(append_vec_map.get("13.7"), Some(&"/acc/incr/13.7".to_string()));
        }
        other => panic!("unexpected action {:?}", other),
    }
    let action = restorer.advance(RestoreEvent::Sizes(sizes(900, Some(90))));
    // the status cache is that of the incremental snapshot
    assert!(
        matches!(action, RestoreAction::StatStatusCache { ref path } if path == "/snap/tmp-incremental-snapshot-B/snapshots/status_cache")
    );
    restorer.advance(RestoreEvent::Size(64));
    restorer.advance(RestoreEvent::Size(64));
    let action =
        restorer.advance(RestoreEvent::Verified { passed: true, rebuild_us: 1, verify_us: 2 });
    match action {
        RestoreAction::Finish { result, remove } => {
            assert_eq!(result.unwrap().untar_us, 750);
            assert_eq!(
                remove,
                vec![
                    "/snap/tmp-snapshot-A".to_string(),
                    "/snap/tmp-incremental-snapshot-B".to_string()
                ]
            );
        }
        other => panic!("unexpected action {:?}", other),
    }
}

#[test]
fn an_incompatible_incremental_snapshot_is_not_unpacked() {
    let (mut restorer, _) = Restorer::new(
        "/snap",
        "/out/snapshot-10-abc.tar",
        Some("/out/incremental-snapshot-20-25-def.tar".to_string()),
        ArchiveFormat::Tar,
        1,
        None,
    );
    let action = restorer.advance(RestoreEvent::Unpacked {
        snapshot: unpacked("/snap/tmp-snapshot-A", "1.2.0", &["10"], 700),
        append_vec_map: map(&[]),
    });
    match action {
        RestoreAction::Finish { result, remove } => {
            assert!(matches!(result, Err(SnapshotError::IncompatibleSnapshots(10, 20))));
            assert_eq!(remove, vec!["/snap/tmp-snapshot-A".to_string()]);
        }
        other => panic!("unexpected action {:?}", other),
    }
    assert!(restorer.is_finished());
}

#[test]
fn a_state_that_fails_its_verification_ends_the_process() {
    let mut restorer = unpack_both(None);
    restorer.advance(RestoreEvent::Sizes(sizes(900, Some(90))));
    restorer.advance(RestoreEvent::Sizes(sizes(900, Some(90))));
    restorer.advance(RestoreEvent::Size(64));
    restorer.advance(RestoreEvent::Size(64));
    let action =
        restorer.advance(RestoreEvent::Verified { passed: false, rebuild_us: 1, verify_us: 2 });
    assert!(matches!(action, RestoreAction::Abort));
    assert!(restorer.is_finished());

    // a load that was limited to some slots is handed on
    let mut restorer = unpack_both(Some(5));
    restorer.advance(RestoreEvent::Sizes(sizes(900, Some(90))));
    restorer.advance(RestoreEvent::Sizes(sizes(900, Some(90))));
    restorer.advance(RestoreEvent::Size(64));
    restorer.advance(RestoreEvent::Size(64));
    let action =
        restorer.advance(RestoreEvent::Verified { passed: false, rebuild_us: 1, verify_us: 2 });
    assert!(matches!(action, RestoreAction::Finish { result: Ok(_), .. }));
}

#[test]
fn state_files_are_held_against_the_limits() {
    let mut restorer = unpack_both(None);
    let too_large = 32 * 1024 * 1024 * 1024 + 1;
    let action = restorer.advance(RestoreEvent::Sizes(sizes(900, Some(too_large))));
    assert!(
        matches!(action, RestoreAction::Finish { result: Err(SnapshotError::Io(ref m)), .. } if m.starts_with("too large snapshot data file to deserialize: /snap/tmp-incremental-snapshot-B/snapshots/13/13"))
    );

    let mut restorer = unpack_both(None);
    restorer.advance(RestoreEvent::Sizes(sizes(900, Some(90))));
    let action = restorer.advance(RestoreEvent::Sizes(sizes(899, Some(90))));
    assert!(
        matches!(action, RestoreAction::Finish { result: Err(SnapshotError::Io(ref m)), .. } if m.starts_with("invalid snapshot data file: /snap/tmp-snapshot-A/snapshots/10/10 has 900 bytes, however consumed 899"))
    );

    let mut restorer = unpack_both(None);
    restorer.advance(RestoreEvent::Sizes(sizes(900, Some(90))));
    restorer.advance(RestoreEvent::Sizes(sizes(900, Some(90))));
    restorer.advance(RestoreEvent::Size(64));
    let action = restorer.advance(RestoreEvent::Size(65));
    assert!(
        matches!(action, RestoreAction::Finish { result: Err(SnapshotError::Io(ref m)), .. } if m.starts_with("invalid snapshot data file"))
    );
}

#[test]
fn a_version_that_is_not_supported_ends_the_restoring() {
    let (mut restorer, _) =
        Restorer::new("/snap", "/out/snapshot-10-abc.tar", None, ArchiveFormat::Tar, 1, None);
    let action = restorer.advance(RestoreEvent::Unpacked {
        snapshot: unpacked("/snap/tmp-snapshot-A", "1.3.0\n", &["10"], 700),
        append_vec_map: map(&[]),
    });
    assert!(
        matches!(action, RestoreAction::Finish { result: Err(SnapshotError::Io(ref m)), .. } if m == "unsupported snapshot version: 1.3.0")
    );

    let (mut restorer, _) =
        Restorer::new("/snap", "/out/snapshot-10-abc.tar", None, ArchiveFormat::Tar, 1, None);
    let action = restorer.advance(RestoreEvent::Unpacked {
        snapshot: unpacked("/snap/tmp-snapshot-A", "1.2.0", &["10", "11"], 700),
        append_vec_map: map(&[]),
    });
    assert!(
        matches!(action, RestoreAction::Finish { result: Err(SnapshotError::Io(ref m)), .. } if m == "invalid snapshot format")
    );
}

#[test]
fn failures_end_the_restoring() {
    let (mut restorer, _) =
        Restorer::new("/snap", "/out/snapshot-10-abc.tar", None, ArchiveFormat::Tar, 1, None);
    let action =
        restorer.advance(RestoreEvent::Failed(SnapshotError::UnpackError("bad entry".to_string())));
    match action {
        RestoreAction::Finish { result, remove } => {
            assert!(matches!(result, Err(SnapshotError::UnpackError(ref m)) if m == "bad entry"));
            assert!(remove.is_empty());
        }
        other => panic!("unexpected action {:?}", other),
    }
    let again = restorer.advance(RestoreEvent::Size(1));
    assert!(matches!(again, RestoreAction::Finish { result: Err(SnapshotError::Io(_)), .. }));
}

#[test]
fn the_number_of_workers_is_chosen_for_the_machine() {
    let (restorer, first) =
        bank_from_snapshot_archive("/snap", "/out/snapshot-10-abc.tar", ArchiveFormat::Tar, None);
    assert_eq!(restorer.step(), RestoreStep::UnpackFull);
    match first {
        RestoreAction::Unpack { parallel_divisions, archive_path, .. } => {
            assert!((1..=4).contains(&parallel_divisions));
            assert_eq!(archive_path, "/out/snapshot-10-abc.tar");
        }
        other => panic!("unexpected action {:?}", other),
    }
    let (_, first) = bank_from_incremental_snapshot_archive(
        "/snap",
        "/out/snapshot-10-abc.tar",
        "/out/incremental-snapshot-10-13-abc.tar",
        ArchiveFormat::Tar,
        Some(3),
    );
    assert!(matches!(first, RestoreAction::Unpack { ref unpack_dir_prefix, .. } if unpack_dir_prefix == "tmp-snapshot-"));
}
