use snapshot_archive::archive_info::DirEntry;
use snapshot_archive::decimal::{decimal_string, parse_u64};
use snapshot_archive::error::SnapshotError;
use snapshot_archive::purge::remove_tmp_snapshot_archives;
use snapshot_archive::snapshot_paths::{
    add_snapshot, get_bank_snapshot_dir, get_latest_snapshot_paths, get_snapshot_file_name,
    get_snapshot_file_path, get_snapshot_paths, purge_old_snapshots,
    verify_snapshot_version_and_folder, MAX_SNAPSHOTS,
};
use snapshot_archive::snapshot_version::SnapshotVersion;

fn dirs(names: &[&str]) -> Vec<DirEntry> {
    names.iter().map(|name| DirEntry { path: format!("/snap/{}", name), is_file: false }).collect()
}

#[test]
fn numbers_are_written_and_read() {
    for n in [0u64, 7, 10, 42, 100, 999, 1000, 18446744073709551615] {
        assert_eq!(decimal_string(n), n.to_string());
        assert_eq!(parse_u64(&n.to_string()), Some(n));
    }
    for s in ["", "+", "-", "-1", "+-1", "1 ", " 1", "1_000", "0x10", "१२", "18446744073709551616"] {
        assert_eq!(parse_u64(s), s.parse::<u64>().ok(), "{:?}", s);
        assert_eq!(parse_u64(s), None, "{:?}", s);
    }
    for s in ["+5", "007", "+000", "18446744073709551615", "+18446744073709551615"] {
        assert_eq!(parse_u64(s), s.parse::<u64>().ok(), "{:?}", s);
        assert!(parse_u64(s).is_some(), "{:?}", s);
    }
}

#[test]
fn snapshot_files_lie_below_their_slot() {
    assert_eq!(get_snapshot_file_name(42), "42");
    assert_eq!(get_bank_snapshot_dir("/snap", 42), "/snap/42");
    assert_eq!(get_snapshot_file_path("/snap", 42), "/snap/42/42");
}

#[test]
fn snapshot_paths_ascend_by_slot() {
    let entries = dirs(&["30", "4", "status_cache", "200", "x1", "+7", "007", ""]);
    let paths = get_snapshot_paths("/snap", &entries);
    let slots: Vec<u64> = paths.iter().map(|p| p.slot).collect();
    assert_eq!(slots, vec![4, 7, 7, 30, 200]);
    assert_eq!(paths[0].snapshot_file_path, "/snap/4/4");
    assert_eq!(paths[1].snapshot_file_path, "/snap/7/7");
    assert_eq!(paths[4].snapshot_file_path, "/snap/200/200");
    assert!(get_snapshot_paths("/snap", &Vec::new()).is_empty());
    assert_eq!(get_latest_snapshot_paths("/snap", &entries).unwrap().slot, 200);
    assert!(get_latest_snapshot_paths("/snap", &dirs(&["x"])).is_none());
}

#[test]
fn old_snapshots_are_purged_down_to_the_maximum() {
    assert_eq!(MAX_SNAPSHOTS, 8);
    let names: Vec<String> = (1..=11).map(|slot| (slot * 10).to_string()).collect();
    let names: Vec<&str> = names.iter().map(|s| s.as_str()).collect();
    assert_eq!(purge_old_snapshots("/snap", &dirs(&names)), vec![10, 20, 30]);
    assert!(purge_old_snapshots("/snap", &dirs(&names[..8])).is_empty());
    assert_eq!(purge_old_snapshots("/snap", &dirs(&names[..9])), vec![10]);
    assert!(purge_old_snapshots("/snap", &Vec::new()).is_empty());
}

#[test]
fn adding_a_snapshot_is_capped() {
    let paths = add_snapshot("/snap", 5, 100).unwrap();
    assert_eq!(paths.slot, 5);
    assert_eq!(paths.snapshot_file_path, "/snap/5/5");
    let too_large = add_snapshot("/snap", 5, 32 * 1024 * 1024 * 1024 + 1);
    assert!(
        matches!(too_large, Err(SnapshotError::Io(ref m)) if m.starts_with("too large snapshot data file to serialize: /snap/5/5 has 34359738369 bytes"))
    );
}

#[test]
fn version_and_folder_are_verified() {
    let one = dirs(&["13"]);
    let (version, paths) = verify_snapshot_version_and_folder("1.2.0", "/snap", &one).unwrap();
    assert_eq!(version, SnapshotVersion::V1_2_0);
    assert_eq!(paths.slot, 13);
    assert_eq!(paths.snapshot_file_path, "/snap/13/13");
    assert!(verify_snapshot_version_and_folder("v1.2.0", "/snap", &one).is_ok());

    let bad = verify_snapshot_version_and_folder("1.3.0", "/snap", &one);
    assert!(
        matches!(bad, Err(SnapshotError::Io(ref m)) if m == "unsupported snapshot version: 1.3.0")
    );
    let many = verify_snapshot_version_and_folder("1.2.0", "/snap", &dirs(&["13", "14"]));
    assert!(matches!(many, Err(SnapshotError::Io(ref m)) if m == "invalid snapshot format"));
    let none = verify_snapshot_version_and_folder("1.2.0", "/snap", &dirs(&["status_cache"]));
    assert!(
        matches!(none, Err(SnapshotError::Io(ref m)) if m == "No snapshots found in snapshots directory")
    );
    // the version is looked at first
    let both = verify_snapshot_version_and_folder("2", "/snap", &dirs(&[]));
    assert!(matches!(both, Err(SnapshotError::Io(ref m)) if m.starts_with("unsupported")));
}

#[test]
fn versions_are_parsed() {
    assert_eq!(SnapshotVersion::default(), SnapshotVersion::V1_2_0);
    assert_eq!(SnapshotVersion::V1_2_0.as_str(), "1.2.0");
    for good in ["1.2.0", "v1.2.0", "V1.2.0"] {
        assert_eq!(SnapshotVersion::maybe_from_string(good), Some(SnapshotVersion::V1_2_0));
        assert_eq!(good.parse::<SnapshotVersion>(), Ok(SnapshotVersion::V1_2_0));
    }
    for bad in ["", "v", "1.2", "1.2.0 ", " 1.2.0", "vv1.2.0", "1.2.00", "x1.2.0", "1.2.1", "é1.2.0"] {
        assert_eq!(SnapshotVersion::maybe_from_string(bad), None, "{:?}", bad);
        assert_eq!(bad.parse::<SnapshotVersion>(), Err("unsupported snapshot version"));
    }
}

#[test]
fn leftovers_of_a_writing_are_found() {
    let entries = vec![
        DirEntry { path: "/out/tmp-snapshot-5-Ab12".to_string(), is_file: false },
        DirEntry { path: "/out/tmp-snapshot-5.tar.zst".to_string(), is_file: true },
        DirEntry { path: "/out/snapshot-5-abc.tar.zst".to_string(), is_file: true },
        DirEntry { path: "/out/tmp-snapshot".to_string(), is_file: true },
        DirEntry { path: "/out/tmp-incremental-snapshot-1-5-x".to_string(), is_file: false },
        DirEntry { path: "/out/été".to_string(), is_file: true },
        DirEntry { path: "/out/tmp-snapshot-".to_string(), is_file: true },
    ];
    assert_eq!(
        remove_tmp_snapshot_archives(&entries),
        vec![true, true, false, false, false, false, true]
    );
}

#[test]
fn white_space_is_trimmed_as_the_platform_trims_it() {
    for code in 0..=0x10ffffu32 {
        if let Some(c) = char::from_u32(code) {
            let text = format!("{}x{}", c, c);
            assert_eq!(snapshot_archive::text::trim(&text), text.trim(), "{:?}", c);
        }
    }
    for text in ["", " ", " \t\n", "a", " a", "a ", "  a b  ", "\u{a0}1.2.0\u{3000}\r\n", "é ", " é"] {
        assert_eq!(snapshot_archive::text::trim(text), text.trim(), "{:?}", text);
    }
}

#[test]
fn snapshots_are_ordered_by_their_slots() {
    let paths = |slot: u64, path: &str| snapshot_archive::snapshot_paths::SlotSnapshotPaths {
        slot,
        snapshot_file_path: path.to_string(),
    };
    assert!(paths(1, "/b") < paths(2, "/a"));
    assert!(paths(3, "/a") > paths(2, "/b"));
    assert!(paths(2, "/a") <= paths(2, "/b"));
    assert!(paths(2, "/a") >= paths(2, "/b"));
    assert_eq!(paths(2, "/a"), paths(2, "/a"));
    assert_ne!(paths(2, "/a"), paths(2, "/b"));
    assert_ne!(paths(1, "/a"), paths(2, "/a"));
    assert_eq!(snapshot_archive::purge::DEFAULT_MAX_SNAPSHOTS_TO_RETAIN, 2);
}
