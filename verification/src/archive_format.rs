//! The formats in which a snapshot archive is stored, and the file extension of each.

use vstd::prelude::*;

use crate::text::starts_with_at;

verus! {

/// How the tar stream of an archive is compressed. The format decides both the extension
/// of the archive's file name and the compressor or decompressor that is used on it.
#[derive(Copy, Clone, Debug, PartialEq, Eq, Structural)]
pub enum ArchiveFormat {
    TarBzip2,
    TarGzip,
    TarZstd,
    Tar,
}

/// The file extension of a format, without the leading dot.
pub open spec fn archive_ext(archive_format: ArchiveFormat) -> Seq<char> {
    match archive_format {
        ArchiveFormat::TarBzip2 => "tar.bz2"@,
        ArchiveFormat::TarGzip => "tar.gz"@,
        ArchiveFormat::TarZstd => "tar.zst"@,
        ArchiveFormat::Tar => "tar"@,
    }
}

/// The format that an extension stands for: the inverse of [`archive_ext`]. The case of
/// the letters matters.
pub open spec fn archive_format_of_ext(ext: Seq<char>) -> Option<ArchiveFormat> {
    if ext == "tar.bz2"@ {
        Some(ArchiveFormat::TarBzip2)
    } else if ext == "tar.gz"@ {
        Some(ArchiveFormat::TarGzip)
    } else if ext == "tar.zst"@ {
        Some(ArchiveFormat::TarZstd)
    } else if ext == "tar"@ {
        Some(ArchiveFormat::Tar)
    } else {
        None
    }
}

/// What the four extensions are, character by character.
pub proof fn lemma_archive_exts()
    ensures
        "tar.bz2"@ == seq!['t', 'a', 'r', '.', 'b', 'z', '2'],
        "tar.gz"@ == seq!['t', 'a', 'r', '.', 'g', 'z'],
        "tar.zst"@ == seq!['t', 'a', 'r', '.', 'z', 's', 't'],
        "tar"@ == seq!['t', 'a', 'r'],
        "tar.bz2"@.len() == 7,
        "tar.gz"@.len() == 6,
        "tar.zst"@.len() == 7,
        "tar"@.len() == 3,
        "tar.bz2"@[4] == 'b',
        "tar.zst"@[4] == 'z',
{
    reveal_strlit("tar.bz2");
    reveal_strlit("tar.gz");
    reveal_strlit("tar.zst");
    reveal_strlit("tar");
    assert("tar.bz2"@ =~= seq!['t', 'a', 'r', '.', 'b', 'z', '2']);
    assert("tar.gz"@ =~= seq!['t', 'a', 'r', '.', 'g', 'z']);
    assert("tar.zst"@ =~= seq!['t', 'a', 'r', '.', 'z', 's', 't']);
    assert("tar"@ =~= seq!['t', 'a', 'r']);
}

/// Each format is found again from its extension.
pub proof fn lemma_archive_ext_round_trip(archive_format: ArchiveFormat)
    ensures
        archive_format_of_ext(archive_ext(archive_format)) == Some(archive_format),
{
    lemma_archive_exts();
}

/// An extension that stands for a format is the extension of that format.
pub proof fn lemma_archive_format_of_ext_is_ext(ext: Seq<char>)
    ensures
        archive_format_of_ext(ext) matches Some(f) ==> archive_ext(f) == ext,
{
}

/// The file extension of a format, without the leading dot.
pub fn get_archive_ext(archive_format: ArchiveFormat) -> (ext: &'static str)
    ensures
        ext@ == archive_ext(archive_format),
        ext.is_ascii(),
{
    proof {
        lemma_archive_exts();
    }
    match archive_format {
        ArchiveFormat::TarBzip2 => "tar.bz2",
        ArchiveFormat::TarGzip => "tar.gz",
        ArchiveFormat::TarZstd => "tar.zst",
        ArchiveFormat::Tar => "tar",
    }
}

/// The format that the rest of `name` from position `at` on stands for, taken as an
/// extension.
pub(crate) fn archive_format_at(name: &str, at: usize) -> (r: Option<ArchiveFormat>)
    requires
        name.is_ascii(),
        at <= name@.len(),
    ensures
        r == archive_format_of_ext(name@.subrange(at as int, name@.len() as int)),
{
    proof {
        lemma_archive_exts();
    }
    let n: usize = crate::text::ascii_len(name);
    let rest: usize = n - at;
    let ghost ext = name@.subrange(at as int, n as int);
    if rest == 7 && starts_with_at(name, at, "tar.bz2") {
        Some(ArchiveFormat::TarBzip2)
    } else if rest == 6 && starts_with_at(name, at, "tar.gz") {
        Some(ArchiveFormat::TarGzip)
    } else if rest == 7 && starts_with_at(name, at, "tar.zst") {
        Some(ArchiveFormat::TarZstd)
    } else if rest == 3 && starts_with_at(name, at, "tar") {
        Some(ArchiveFormat::Tar)
    } else {
        None
    }
}

/// The format that an extension stands for, if any.
pub fn archive_format_from_str(archive_format: &str) -> (r: Option<ArchiveFormat>)
    ensures
        r == archive_format_of_ext(archive_format@),
{
    proof {
        lemma_archive_exts();
    }
    if !archive_format.is_ascii() {
        return None;
    }
    assert(archive_format@.subrange(0, archive_format@.len() as int) =~= archive_format@);
    archive_format_at(archive_format, 0)
}

} // verus!
