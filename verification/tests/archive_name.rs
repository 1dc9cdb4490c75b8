use snapshot_archive::archive_format::{archive_format_from_str, get_archive_ext, ArchiveFormat};
use snapshot_archive::archive_name::{
    build_incremental_snapshot_archive_path, build_snapshot_archive_path,
    incremental_snapshot_archive_file_name, parse_incremental_snapshot_archive_filename,
    parse_snapshot_archive_filename, snapshot_archive_file_name,
};
use snapshot_archive::hash;

const DEFAULT_HASH: &str = "11111111111111111111111111111111";
const SOME_HASH: &str = "4vJ9JU1bJJE96FWSJKvHsmmFADCg4gpZQff4P3bkLKi";

fn default_hash() -> hash::Hash {
    hash::Hash::new(DEFAULT_HASH).unwrap()
}

#[test]
fn test_parse_snapshot_archive_filename() {
    assert_eq!(
        parse_snapshot_archive_filename(&format!("snapshot-42-{}.tar.bz2", DEFAULT_HASH)),
        Some((42, default_hash(), ArchiveFormat::TarBzip2))
    );
    assert_eq!(
        parse_snapshot_archive_filename(&format!("snapshot-43-{}.tar.zst", DEFAULT_HASH)),
        Some((43, default_hash(), ArchiveFormat::TarZstd))
    );
    assert_eq!(
        parse_snapshot_archive_filename(&format!("snapshot-44-{}.tar", DEFAULT_HASH)),
        Some((44, default_hash(), ArchiveFormat::Tar))
    );

    assert!(parse_snapshot_archive_filename("invalid").is_none());
    assert!(parse_snapshot_archive_filename("snapshot-bad!slot-bad!hash.bad!ext").is_none());

    assert!(parse_snapshot_archive_filename("snapshot-12345678-bad!hash.bad!ext").is_none());
    assert!(
        parse_snapshot_archive_filename(&format!("snapshot-12345678-{}.bad!ext", SOME_HASH))
            .is_none()
    );
    assert!(parse_snapshot_archive_filename("snapshot-12345678-bad!hash.tar").is_none());

    assert!(
        parse_snapshot_archive_filename(&format!("snapshot-bad!slot-{}.bad!ext", SOME_HASH))
            .is_none()
    );
    assert!(
        parse_snapshot_archive_filename(&format!("snapshot-12345678-{}.bad!ext", SOME_HASH))
            .is_none()
    );
    assert!(
        parse_snapshot_archive_filename(&format!("snapshot-bad!slot-{}.tar", SOME_HASH)).is_none()
    );

    assert!(parse_snapshot_archive_filename("snapshot-bad!slot-bad!hash.tar").is_none());
    assert!(parse_snapshot_archive_filename("snapshot-12345678-bad!hash.tar").is_none());
    assert!(
        parse_snapshot_archive_filename(&format!("snapshot-bad!slot-{}.tar", SOME_HASH)).is_none()
    );
}

#[test]
fn test_parse_incremental_snapshot_archive_filename() {
    assert_eq!(
        parse_incremental_snapshot_archive_filename(&format!(
            "incremental-snapshot-42-123-{}.tar.bz2",
            DEFAULT_HASH
        )),
        Some((42, 123, default_hash(), ArchiveFormat::TarBzip2))
    );
    assert_eq!(
        parse_incremental_snapshot_archive_filename(&format!(
            "incremental-snapshot-43-234-{}.tar.zst",
            DEFAULT_HASH
        )),
        Some((43, 234, default_hash(), ArchiveFormat::TarZstd))
    );
    assert_eq!(
        parse_incremental_snapshot_archive_filename(&format!(
            "incremental-snapshot-44-345-{}.tar",
            DEFAULT_HASH
        )),
        Some((44, 345, default_hash(), ArchiveFormat::Tar))
    );

    assert!(parse_incremental_snapshot_archive_filename("invalid").is_none());
    assert!(
        parse_incremental_snapshot_archive_filename(&format!("snapshot-42-{}.tar", SOME_HASH))
            .is_none()
    );
    assert!(parse_incremental_snapshot_archive_filename(
        "incremental-snapshot-bad!slot-bad!slot-bad!hash.bad!ext"
    )
    .is_none());

    assert!(parse_incremental_snapshot_archive_filename(&format!(
        "incremental-snapshot-bad!slot-56785678-{}.tar",
        SOME_HASH
    ))
    .is_none());

    assert!(parse_incremental_snapshot_archive_filename(&format!(
        "incremental-snapshot-12345678-bad!slot-{}.tar",
        SOME_HASH
    ))
    .is_none());

    assert!(parse_incremental_snapshot_archive_filename(
        "incremental-snapshot-12341234-56785678-bad!HASH.tar"
    )
    .is_none());

    assert!(parse_incremental_snapshot_archive_filename(&format!(
        "incremental-snapshot-12341234-56785678-{}.bad!ext",
        SOME_HASH
    ))
    .is_none());
}

#[test]
fn parse_accepts_every_extension() {
    for (ext, format) in [
        ("tar", ArchiveFormat::Tar),
        ("tar.gz", ArchiveFormat::TarGzip),
        ("tar.bz2", ArchiveFormat::TarBzip2),
        ("tar.zst", ArchiveFormat::TarZstd),
    ] {
        let parsed = parse_snapshot_archive_filename(&format!("snapshot-7-abc.{}", ext));
        assert_eq!(parsed, Some((7, hash::Hash::new("abc").unwrap(), format)));
        assert_eq!(get_archive_ext(format), ext);
        assert_eq!(archive_format_from_str(ext), Some(format));
    }
    assert_eq!(archive_format_from_str("TAR"), None);
    assert_eq!(archive_format_from_str("tar.xz"), None);
    assert_eq!(archive_format_from_str(""), None);
}

#[test]
fn parse_is_exact_about_the_grammar() {
    // the case of the extension matters
    assert!(parse_snapshot_archive_filename("snapshot-7-abc.TAR").is_none());
    assert!(parse_snapshot_archive_filename("snapshot-7-abc.tar.GZ").is_none());
    // nothing before and nothing after
    assert!(parse_snapshot_archive_filename(" snapshot-7-abc.tar").is_none());
    assert!(parse_snapshot_archive_filename("snapshot-7-abc.tar ").is_none());
    assert!(parse_snapshot_archive_filename("snapshot-7-abc.tar\n").is_none());
    assert!(parse_snapshot_archive_filename("tmp-snapshot-7-abc.tar").is_none());
    // each part is needed
    assert!(parse_snapshot_archive_filename("snapshot--abc.tar").is_none());
    assert!(parse_snapshot_archive_filename("snapshot-7-.tar").is_none());
    assert!(parse_snapshot_archive_filename("snapshot-7-abc.").is_none());
    assert!(parse_snapshot_archive_filename("snapshot-7-abc").is_none());
    assert!(parse_snapshot_archive_filename("snapshot-7abc.tar").is_none());
    assert!(parse_snapshot_archive_filename("snapshot-").is_none());
    assert!(parse_snapshot_archive_filename("").is_none());
    // signs and other digits are no slot
    assert!(parse_snapshot_archive_filename("snapshot-+7-abc.tar").is_none());
    assert!(parse_snapshot_archive_filename("snapshot--7-abc.tar").is_none());
    assert!(parse_snapshot_archive_filename("snapshot-\u{0663}-abc.tar").is_none());
    // a hash holds letters and digits only
    assert!(parse_snapshot_archive_filename("snapshot-7-a_c.tar").is_none());
    assert!(parse_snapshot_archive_filename("snapshot-7-a-c.tar").is_none());
    assert!(parse_snapshot_archive_filename("snapshot-7-a\u{e9}c.tar").is_none());
    // an incremental name is no full name, and the other way round
    assert!(parse_snapshot_archive_filename("incremental-snapshot-1-2-abc.tar").is_none());
    assert!(parse_incremental_snapshot_archive_filename("incremental-snapshot-1-abc.tar").is_none());
}

#[test]
fn parse_slot_limits() {
    assert_eq!(
        parse_snapshot_archive_filename("snapshot-18446744073709551615-abc.tar"),
        Some((u64::MAX, hash::Hash::new("abc").unwrap(), ArchiveFormat::Tar))
    );
    assert!(parse_snapshot_archive_filename("snapshot-18446744073709551616-abc.tar").is_none());
    assert!(
        parse_snapshot_archive_filename("snapshot-99999999999999999999999999-abc.tar").is_none()
    );
    assert_eq!(
        parse_snapshot_archive_filename("snapshot-0-abc.tar"),
        Some((0, hash::Hash::new("abc").unwrap(), ArchiveFormat::Tar))
    );
    assert_eq!(
        parse_snapshot_archive_filename("snapshot-00042-abc.tar"),
        Some((42, hash::Hash::new("abc").unwrap(), ArchiveFormat::Tar))
    );
    assert_eq!(
        parse_incremental_snapshot_archive_filename(
            "incremental-snapshot-000000000000000000000001-18446744073709551615-abc.tar.gz"
        ),
        Some((1, u64::MAX, hash::Hash::new("abc").unwrap(), ArchiveFormat::TarGzip))
    );
}

#[test]
fn file_names_are_built_as_specified() {
    let hash = hash::Hash::new(SOME_HASH).unwrap();
    assert_eq!(
        snapshot_archive_file_name(42, &hash, ArchiveFormat::TarBzip2),
        format!("snapshot-42-{}.tar.bz2", SOME_HASH)
    );
    assert_eq!(
        snapshot_archive_file_name(0, &hash, ArchiveFormat::Tar),
        format!("snapshot-0-{}.tar", SOME_HASH)
    );
    assert_eq!(
        incremental_snapshot_archive_file_name(100, 120, &hash, ArchiveFormat::TarZstd),
        format!("incremental-snapshot-100-120-{}.tar.zst", SOME_HASH)
    );
    assert_eq!(
        snapshot_archive_file_name(u64::MAX, &hash, ArchiveFormat::TarGzip),
        format!("snapshot-18446744073709551615-{}.tar.gz", SOME_HASH)
    );
}

#[test]
fn paths_are_built_in_the_output_directory() {
    let hash = hash::Hash::new(SOME_HASH).unwrap();
    assert_eq!(
        build_snapshot_archive_path("/out", 42, &hash, ArchiveFormat::Tar),
        format!("/out/snapshot-42-{}.tar", SOME_HASH)
    );
    assert_eq!(
        build_snapshot_archive_path("/out/", 42, &hash, ArchiveFormat::Tar),
        format!("/out/snapshot-42-{}.tar", SOME_HASH)
    );
    assert_eq!(
        build_snapshot_archive_path("", 42, &hash, ArchiveFormat::Tar),
        format!("snapshot-42-{}.tar", SOME_HASH)
    );
    assert_eq!(
        build_incremental_snapshot_archive_path("rel/dir", 10, 13, &hash, ArchiveFormat::TarGzip),
        format!("rel/dir/incremental-snapshot-10-13-{}.tar.gz", SOME_HASH)
    );
}

#[test]
fn built_names_parse_back() {
    let hash = hash::Hash::new(SOME_HASH).unwrap();
    for slot in [0u64, 1, 9, 10, 99, 100, 12345678, u64::MAX] {
        for format in [
            ArchiveFormat::Tar,
            ArchiveFormat::TarGzip,
            ArchiveFormat::TarBzip2,
            ArchiveFormat::TarZstd,
        ] {
            let name = snapshot_archive_file_name(slot, &hash, format);
            assert_eq!(
                parse_snapshot_archive_filename(&name),
                Some((slot, hash.clone(), format))
            );
            let name = incremental_snapshot_archive_file_name(slot / 2, slot, &hash, format);
            assert_eq!(
                parse_incremental_snapshot_archive_filename(&name),
                Some((slot / 2, slot, hash.clone(), format))
            );
        }
    }
}

#[test]
fn hash_tokens() {
    assert!(hash::Hash::new("abc123XYZ").is_some());
    assert_eq!(hash::Hash::new("abc123XYZ").unwrap().as_str(), "abc123XYZ");
    assert!(hash::Hash::new("").is_none());
    assert!(hash::Hash::new("bad!hash").is_none());
    assert!(hash::Hash::new("a.b").is_none());
    assert!(hash::Hash::new("a-b").is_none());
    assert!(hash::Hash::new("\u{e9}").is_none());
    assert_eq!(hash::Hash::new("abc"), hash::Hash::new("abc"));
    assert_ne!(hash::Hash::new("abc"), hash::Hash::new("abd"));
}
