use regex::Regex;
use snapshot_archive::archive_name::{
    parse_incremental_snapshot_archive_filename, parse_snapshot_archive_filename,
};

const SNAPSHOT_ARCHIVE_FILENAME_REGEX: &str =
    r"^snapshot-(\d+)-([[:alnum:]]+)\.(tar|tar\.bz2|tar\.zst|tar\.gz)$";

const INCREMENTAL_SNAPSHOT_ARCHIVE_FILENAME_REGEX: &str =
    r"^incremental-snapshot-(\d+)-(\d+)-([[:alnum:]]+)\.(tar|tar\.bz2|tar\.zst|tar\.gz)$";

fn samples() -> Vec<String> {
    let prefixes = ["snapshot-", "incremental-snapshot-", "Snapshot-", "snapshot", ""];
    let slots = ["42", "0", "007", "18446744073709551615", "18446744073709551616", "4x", "", "+1"];
    let hashes = ["abc", "ABCdef123", "a!b", "", "a.b", "11111111111111111111111111111111"];
    let exts = ["tar", "tar.gz", "tar.bz2", "tar.zst", "tar.xz", "TAR", "", "tar.gz.tar", "tgz"];
    let mut out = Vec::new();
    for p in prefixes {
        for s in slots {
            for h in hashes {
                for e in exts {
                    out.push(format!("{}{}-{}.{}", p, s, h, e));
                    out.push(format!("{}{}-{}-{}.{}", p, s, s, h, e));
                    out.push(format!("{}{}-13-{}.{}", p, s, h, e));
                }
            }
        }
    }
    out.push("invalid".to_string());
    out.push("snapshot-1-a.tar\n".to_string());
    // names that are put together of the parts of the grammar at random
    let parts = [
        "snapshot", "incremental", "-", "-", ".", ".", "tar", "gz", "bz2", "zst", "0", "1", "42",
        "007", "18446744073709551615", "9", "a", "Z", "abc", "x9Y", "!", "+", " ", "_", "\u{e9}",
        "\u{663}", "tar.", ".tar", "snapshot-", "incremental-snapshot-",
    ];
    let mut seed: u64 = 0x2545f4914f6cdd1d;
    for _ in 0..30000 {
        let mut name = String::new();
        seed ^= seed << 13;
        seed ^= seed >> 7;
        seed ^= seed << 17;
        let mut choice = seed;
        let count = 2 + (choice % 9);
        choice /= 9;
        // most names begin as an archive's name does
        match choice % 4 {
            0 => name.push_str("snapshot-"),
            1 => name.push_str("incremental-snapshot-"),
            _ => {}
        }
        choice /= 4;
        for _ in 0..count {
            name.push_str(parts[(choice % parts.len() as u64) as usize]);
            choice /= parts.len() as u64;
        }
        out.push(name);
    }
    out
}

#[test]
fn full_names_agree_with_the_pattern() {
    let regex = Regex::new(SNAPSHOT_ARCHIVE_FILENAME_REGEX).unwrap();
    for name in samples() {
        let expected = regex.captures(&name).and_then(|captures| {
            let slot = captures.get(1)?.as_str().parse::<u64>().ok()?;
            let hash = captures.get(2)?.as_str().to_string();
            let ext = captures.get(3)?.as_str().to_string();
            Some((slot, hash, ext))
        });
        let actual = parse_snapshot_archive_filename(&name).map(|(slot, hash, format)| {
            (
                slot,
                hash.as_str().to_string(),
                snapshot_archive::archive_format::get_archive_ext(format).to_string(),
            )
        });
        assert_eq!(actual, expected, "{:?}", name);
    }
}

#[test]
fn incremental_names_agree_with_the_pattern() {
    let regex = Regex::new(INCREMENTAL_SNAPSHOT_ARCHIVE_FILENAME_REGEX).unwrap();
    for name in samples() {
        let expected = regex.captures(&name).and_then(|captures| {
            let base_slot = captures.get(1)?.as_str().parse::<u64>().ok()?;
            let slot = captures.get(2)?.as_str().parse::<u64>().ok()?;
            let hash = captures.get(3)?.as_str().to_string();
            let ext = captures.get(4)?.as_str().to_string();
            Some((base_slot, slot, hash, ext))
        });
        let actual =
            parse_incremental_snapshot_archive_filename(&name).map(|(base_slot, slot, hash, format)| {
                (
                    base_slot,
                    slot,
                    hash.as_str().to_string(),
                    snapshot_archive::archive_format::get_archive_ext(format).to_string(),
                )
            });
        assert_eq!(actual, expected, "{:?}", name);
    }
}
