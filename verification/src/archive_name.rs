//! The names of snapshot archive files.
//!
//! A full snapshot archive is named `snapshot-<slot>-<hash>.<ext>`, an incremental one
//! `incremental-snapshot-<base slot>-<slot>-<hash>.<ext>`. A slot is written in ASCII
//! digits, a hash is a token of ASCII letters and digits, and the extension is one of
//! `tar`, `tar.gz`, `tar.bz2` and `tar.zst`. Any other name is that of some other file.

use vstd::prelude::*;
use vstd::string::{StrSliceExecFns, StringExecFns};

use crate::archive_format::{
    archive_ext, archive_format_at, archive_format_of_ext, get_archive_ext,
    lemma_archive_ext_round_trip, lemma_archive_exts, ArchiveFormat,
};
use crate::decimal::{
    all_digits, append_decimal, decimal_digits, decimal_value, digit_run, is_digit,
    lemma_decimal_digits_are_digits, lemma_decimal_round_trip, lemma_digit_run,
    lemma_digit_run_is, parse_digits, scan_digits,
};
use crate::hash::is_hash_token;
use crate::path::{is_entry_name, join_path, joined};
use crate::text::{
    alnum_run, ascii_at, ascii_len, has_at, is_alnum, lemma_alnum_run,
    lemma_alnum_run_is, scan_alnum, starts_with_at,
};

verus! {

/// A point of the ledger's logical clock.
pub type Slot = u64;

/// The name of the full snapshot archive of `slot` with content hash `hash`.
pub open spec fn snapshot_archive_filename(
    slot: Slot,
    hash: Seq<char>,
    archive_format: ArchiveFormat,
) -> Seq<char> {
    "snapshot-"@ + slot_part(decimal_digits(slot as nat)) + hash_part(
        hash,
        archive_ext(archive_format),
    )
}

/// The name of the incremental snapshot archive of `slot` that builds on the full snapshot
/// of `base_slot`.
pub open spec fn incremental_snapshot_archive_filename(
    base_slot: Slot,
    slot: Slot,
    hash: Seq<char>,
    archive_format: ArchiveFormat,
) -> Seq<char> {
    "incremental-snapshot-"@ + slot_part(decimal_digits(base_slot as nat)) + slot_part(
        decimal_digits(slot as nat),
    ) + hash_part(hash, archive_ext(archive_format))
}

/// A slot as it stands in a name: its digits and the hyphen that ends them.
pub open spec fn slot_part(digits: Seq<char>) -> Seq<char> {
    digits.push('-')
}

/// The end of a name: the hash, a dot and the extension.
pub open spec fn hash_part(hash: Seq<char>, ext: Seq<char>) -> Seq<char> {
    hash.push('.') + ext
}

/// Whether `digits` can stand for a slot: at least one ASCII digit, and a number that fits
/// in 64 bits. Leading zeros are accepted.
pub open spec fn is_slot_digits(digits: Seq<char>) -> bool {
    &&& digits.len() > 0
    &&& all_digits(digits)
    &&& decimal_value(digits) <= u64::MAX
}

/// Reads a slot that starts at position `at` of `name` and is followed by a hyphen. Gives
/// the slot and the position after the hyphen.
pub open spec fn slot_field(name: Seq<char>, at: int) -> Option<(Slot, int)> {
    let end = digit_run(name, at);
    if 0 <= at < end && end < name.len() && name[end] == '-' && decimal_value(
        name.subrange(at, end),
    ) <= u64::MAX {
        Some((decimal_value(name.subrange(at, end)) as u64, end + 1))
    } else {
        None
    }
}

/// Reads a hash that starts at position `at` of `name`, is followed by a dot, and after
/// that by an extension that reaches to the end of `name`.
pub open spec fn hash_field(name: Seq<char>, at: int) -> Option<(Seq<char>, ArchiveFormat)> {
    let end = alnum_run(name, at);
    if 0 <= at < end && end < name.len() && name[end] == '.' {
        match archive_format_of_ext(name.subrange(end + 1, name.len() as int)) {
            Some(archive_format) => Some((name.subrange(at, end), archive_format)),
            None => None,
        }
    } else {
        None
    }
}

/// What the name of a full snapshot archive says: its slot, hash and format. `None` for
/// any name that is not of the form `snapshot-<slot>-<hash>.<ext>`.
pub open spec fn parsed_snapshot_archive_filename(name: Seq<char>) -> Option<
    (Slot, Seq<char>, ArchiveFormat),
> {
    if has_at(name, 0, "snapshot-"@) {
        match slot_field(name, "snapshot-"@.len() as int) {
            Some((slot, at)) => match hash_field(name, at) {
                Some((hash, archive_format)) => Some((slot, hash, archive_format)),
                None => None,
            },
            None => None,
        }
    } else {
        None
    }
}

/// What the name of an incremental snapshot archive says: its base slot, slot, hash and
/// format. `None` for any name that is not of the form
/// `incremental-snapshot-<base slot>-<slot>-<hash>.<ext>`.
pub open spec fn parsed_incremental_snapshot_archive_filename(name: Seq<char>) -> Option<
    (Slot, Slot, Seq<char>, ArchiveFormat),
> {
    if has_at(name, 0, "incremental-snapshot-"@) {
        match slot_field(name, "incremental-snapshot-"@.len() as int) {
            Some((base_slot, at)) => match slot_field(name, at) {
                Some((slot, at)) => match hash_field(name, at) {
                    Some((hash, archive_format)) => Some((base_slot, slot, hash, archive_format)),
                    None => None,
                },
                None => None,
            },
            None => None,
        }
    } else {
        None
    }
}

/// Reads a slot field of `name` at position `at`.
fn parse_slot_field(name: &str, at: usize) -> (r: Option<(Slot, usize)>)
    requires
        name.is_ascii(),
        at <= name@.len(),
    ensures
        match r {
            Some((slot, next)) => slot_field(name@, at as int) == Some((slot, next as int))
                && next <= name@.len(),
            None => slot_field(name@, at as int) is None,
        },
{
    let n: usize = ascii_len(name);
    let end: usize = scan_digits(name, at);
    proof {
        lemma_digit_run(name@, at as int);
    }
    if end == at || end == n {
        return None;
    }
    if ascii_at(name, end) != 0x2d {
        return None;
    }
    match parse_digits(name, at, end) {
        Some(slot) => Some((slot, end + 1)),
        None => None,
    }
}

/// Reads the hash and the extension of `name` from position `at` on.
fn parse_hash_field(name: &str, at: usize) -> (r: Option<(crate::hash::Hash, ArchiveFormat)>)
    requires
        name.is_ascii(),
        at <= name@.len(),
    ensures
        match r {
            Some((hash, archive_format)) => hash_field(name@, at as int) == Some(
                (hash@, archive_format),
            ),
            None => hash_field(name@, at as int) is None,
        },
{
    let n: usize = ascii_len(name);
    let end: usize = scan_alnum(name, at);
    proof {
        lemma_alnum_run(name@, at as int);
    }
    if end == at || end == n {
        return None;
    }
    if ascii_at(name, end) != 0x2e {
        return None;
    }
    match archive_format_at(name, end + 1) {
        Some(archive_format) => {
            let token = name.substring_ascii(at, end);
            match crate::hash::Hash::new(token) {
                Some(hash) => Some((hash, archive_format)),
                None => None,
            }
        },
        None => None,
    }
}

/// Parse a snapshot archive filename into its slot, hash and archive format.
///
/// Returns `None` for every name that is not of the form `snapshot-<slot>-<hash>.<ext>`,
/// so that a scan of a directory passes over the other files.
pub fn parse_snapshot_archive_filename(archive_filename: &str) -> (r: Option<
    (Slot, crate::hash::Hash, ArchiveFormat),
>)
    ensures
        match r {
            Some((slot, hash, archive_format)) => parsed_snapshot_archive_filename(
                archive_filename@,
            ) == Some((slot, hash@, archive_format)),
            None => parsed_snapshot_archive_filename(archive_filename@) is None,
        },
{
    proof {
        lemma_prefixes();
    }
    if !archive_filename.is_ascii() {
        proof {
            lemma_not_ascii_not_parsed(archive_filename@);
        }
        return None;
    }
    if !starts_with_at(archive_filename, 0, "snapshot-") {
        return None;
    }
    match parse_slot_field(archive_filename, 9) {
        Some((slot, at)) => match parse_hash_field(archive_filename, at) {
            Some((hash, archive_format)) => Some((slot, hash, archive_format)),
            None => None,
        },
        None => None,
    }
}

/// Parse an incremental snapshot archive filename into its base slot, slot, hash and
/// archive format.
///
/// Returns `None` for every name that is not of the form
/// `incremental-snapshot-<base slot>-<slot>-<hash>.<ext>`.
pub fn parse_incremental_snapshot_archive_filename(archive_filename: &str) -> (r: Option<
    (Slot, Slot, crate::hash::Hash, ArchiveFormat),
>)
    ensures
        match r {
            Some((base_slot, slot, hash, archive_format)) =>
                parsed_incremental_snapshot_archive_filename(archive_filename@) == Some(
                (base_slot, slot, hash@, archive_format),
            ),
            None => parsed_incremental_snapshot_archive_filename(archive_filename@) is None,
        },
{
    proof {
        lemma_prefixes();
    }
    if !archive_filename.is_ascii() {
        proof {
            lemma_not_ascii_not_parsed(archive_filename@);
        }
        return None;
    }
    if !starts_with_at(archive_filename, 0, "incremental-snapshot-") {
        return None;
    }
    match parse_slot_field(archive_filename, 21) {
        Some((base_slot, at)) => match parse_slot_field(archive_filename, at) {
            Some((slot, at)) => match parse_hash_field(archive_filename, at) {
                Some((hash, archive_format)) => Some((base_slot, slot, hash, archive_format)),
                None => None,
            },
            None => None,
        },
        None => None,
    }
}

/// A slot that stands at position `at` of a name is read there.
pub proof fn lemma_slot_field_reads(name: Seq<char>, at: int, digits: Seq<char>)
    requires
        is_slot_digits(digits),
        has_at(name, at, slot_part(digits)),
    ensures
        slot_field(name, at) == Some((decimal_value(digits) as u64, at + digits.len() + 1)),
{
    let end = at + digits.len();
    let part = slot_part(digits);
    assert(name.subrange(at, at + part.len())[digits.len() as int] == '-');
    assert(name[end] == '-');
    assert(name.subrange(at, end) =~= digits) by {
        assert forall|i: int| 0 <= i < digits.len() implies name.subrange(at, end)[i]
            == digits[i] by {
            assert(name.subrange(at, at + part.len())[i] == part[i]);
        }
    }
    lemma_digit_run_is(name, at, end);
}

/// A hash and an extension that stand at position `at` of a name, and end it, are read
/// there.
pub proof fn lemma_hash_field_reads(
    name: Seq<char>,
    at: int,
    hash: Seq<char>,
    archive_format: ArchiveFormat,
)
    requires
        is_hash_token(hash),
        has_at(name, at, hash_part(hash, archive_ext(archive_format))),
        at + hash_part(hash, archive_ext(archive_format)).len() == name.len(),
    ensures
        hash_field(name, at) == Some((hash, archive_format)),
{
    let ext = archive_ext(archive_format);
    let end = at + hash.len();
    let part = hash_part(hash, ext);
    assert(part[hash.len() as int] == '.');
    assert(name.subrange(at, at + part.len())[hash.len() as int] == '.');
    assert(name[end] == '.');
    assert(name.subrange(at, end) =~= hash) by {
        assert forall|i: int| 0 <= i < hash.len() implies name.subrange(at, end)[i]
            == hash[i] by {
            assert(name.subrange(at, at + part.len())[i] == part[i]);
        }
    }
    lemma_alnum_run_is(name, at, end);
    assert(name.subrange(end + 1, name.len() as int) =~= ext) by {
        assert forall|i: int| 0 <= i < ext.len() implies name.subrange(
            end + 1,
            name.len() as int,
        )[i] == ext[i] by {
            assert(name.subrange(at, at + part.len())[hash.len() + 1 + i] == part[hash.len()
                + 1 + i]);
        }
    }
    lemma_archive_ext_round_trip(archive_format);
}

/// Every name of the form `snapshot-<slot>-<hash>.<ext>` is read as the name of a full
/// snapshot archive, with the slot that its digits write.
pub proof fn lemma_snapshot_archive_name_parses(
    digits: Seq<char>,
    hash: Seq<char>,
    archive_format: ArchiveFormat,
)
    requires
        is_slot_digits(digits),
        is_hash_token(hash),
    ensures
        parsed_snapshot_archive_filename(
            "snapshot-"@ + slot_part(digits) + hash_part(hash, archive_ext(archive_format)),
        ) == Some((decimal_value(digits) as u64, hash, archive_format)),
{
    lemma_prefixes();
    let prefix = "snapshot-"@;
    let tail = hash_part(hash, archive_ext(archive_format));
    let name = prefix + slot_part(digits) + tail;
    assert(name.subrange(0, 9) =~= prefix);
    assert(name.subrange(9, 9 + slot_part(digits).len() as int) =~= slot_part(digits));
    lemma_slot_field_reads(name, 9, digits);
    let at: int = 9 + digits.len() as int + 1;
    assert(name.subrange(at, at + tail.len()) =~= tail);
    lemma_hash_field_reads(name, at, hash, archive_format);
}

/// Every name of the form `incremental-snapshot-<base slot>-<slot>-<hash>.<ext>` is read
/// as the name of an incremental snapshot archive, with the slots that its digits write.
pub proof fn lemma_incremental_snapshot_archive_name_parses(
    base_digits: Seq<char>,
    digits: Seq<char>,
    hash: Seq<char>,
    archive_format: ArchiveFormat,
)
    requires
        is_slot_digits(base_digits),
        is_slot_digits(digits),
        is_hash_token(hash),
    ensures
        parsed_incremental_snapshot_archive_filename(
            "incremental-snapshot-"@ + slot_part(base_digits) + slot_part(digits) + hash_part(
                hash,
                archive_ext(archive_format),
            ),
        ) == Some(
            (
                decimal_value(base_digits) as u64,
                decimal_value(digits) as u64,
                hash,
                archive_format,
            ),
        ),
{
    lemma_prefixes();
    let prefix = "incremental-snapshot-"@;
    let tail = hash_part(hash, archive_ext(archive_format));
    let name = prefix + slot_part(base_digits) + slot_part(digits) + tail;
    assert(name.subrange(0, 21) =~= prefix);
    assert(name.subrange(21, 21 + slot_part(base_digits).len() as int) =~= slot_part(
        base_digits,
    ));
    lemma_slot_field_reads(name, 21, base_digits);
    let at0: int = 21 + base_digits.len() as int + 1;
    assert(name.subrange(at0, at0 + slot_part(digits).len()) =~= slot_part(digits));
    lemma_slot_field_reads(name, at0, digits);
    let at: int = at0 + digits.len() + 1;
    assert(name.subrange(at, at + tail.len()) =~= tail);
    lemma_hash_field_reads(name, at, hash, archive_format);
}

/// The name that is built for a full snapshot archive is read back as what it was built
/// from.
pub proof fn lemma_snapshot_archive_filename_round_trip(
    slot: Slot,
    hash: Seq<char>,
    archive_format: ArchiveFormat,
)
    requires
        is_hash_token(hash),
    ensures
        parsed_snapshot_archive_filename(snapshot_archive_filename(slot, hash, archive_format))
            == Some((slot, hash, archive_format)),
{
    lemma_decimal_digits_are_digits(slot as nat);
    lemma_decimal_round_trip(slot as nat);
    lemma_snapshot_archive_name_parses(decimal_digits(slot as nat), hash, archive_format);
}

/// The name that is built for an incremental snapshot archive is read back as what it was
/// built from.
pub proof fn lemma_incremental_snapshot_archive_filename_round_trip(
    base_slot: Slot,
    slot: Slot,
    hash: Seq<char>,
    archive_format: ArchiveFormat,
)
    requires
        is_hash_token(hash),
    ensures
        parsed_incremental_snapshot_archive_filename(
            incremental_snapshot_archive_filename(base_slot, slot, hash, archive_format),
        ) == Some((base_slot, slot, hash, archive_format)),
{
    lemma_decimal_digits_are_digits(base_slot as nat);
    lemma_decimal_round_trip(base_slot as nat);
    lemma_decimal_digits_are_digits(slot as nat);
    lemma_decimal_round_trip(slot as nat);
    lemma_incremental_snapshot_archive_name_parses(
        decimal_digits(base_slot as nat),
        decimal_digits(slot as nat),
        hash,
        archive_format,
    );
}

/// A slot that was read at position `at` stands there: digits that write it, then a
/// hyphen.
pub proof fn lemma_slot_field_stands(name: Seq<char>, at: int)
    requires
        0 <= at <= name.len(),
        slot_field(name, at) is Some,
    ensures
        ({
            let (slot, next) = slot_field(name, at)->0;
            let digits = name.subrange(at, next - 1);
            &&& at < next <= name.len()
            &&& is_slot_digits(digits)
            &&& decimal_value(digits) == slot
            &&& name.subrange(at, next) == slot_part(digits)
        }),
{
    lemma_digit_run(name, at);
    let (slot, next) = slot_field(name, at)->0;
    assert(name.subrange(at, next) =~= slot_part(name.subrange(at, next - 1)));
}

/// A hash and an extension that were read at position `at` stand there, and end the name.
pub proof fn lemma_hash_field_stands(name: Seq<char>, at: int)
    requires
        0 <= at <= name.len(),
        hash_field(name, at) is Some,
    ensures
        ({
            let (hash, archive_format) = hash_field(name, at)->0;
            &&& is_hash_token(hash)
            &&& name.subrange(at, name.len() as int) == hash_part(
                hash,
                archive_ext(archive_format),
            )
        }),
{
    lemma_alnum_run(name, at);
    let (hash, archive_format) = hash_field(name, at)->0;
    let end = alnum_run(name, at);
    assert(name.subrange(at, name.len() as int) =~= hash_part(
        hash,
        name.subrange(end + 1, name.len() as int),
    ));
}

/// Only names of the form `snapshot-<slot>-<hash>.<ext>` are read as names of full
/// snapshot archives: what was read, put together again, is the name.
pub proof fn lemma_parsed_snapshot_archive_name_is_composed(name: Seq<char>)
    requires
        parsed_snapshot_archive_filename(name) is Some,
    ensures
        ({
            let (slot, hash, archive_format) = parsed_snapshot_archive_filename(name)->0;
            &&& is_hash_token(hash)
            &&& exists|digits: Seq<char>|
                #![trigger slot_part(digits)]
                {
                    &&& is_slot_digits(digits)
                    &&& decimal_value(digits) == slot
                    &&& name == "snapshot-"@ + slot_part(digits) + hash_part(
                        hash,
                        archive_ext(archive_format),
                    )
                }
        }),
{
    lemma_prefixes();
    lemma_slot_field_stands(name, 9);
    let (slot, at) = slot_field(name, 9)->0;
    lemma_hash_field_stands(name, at);
    let (hash, archive_format) = hash_field(name, at)->0;
    let digits = name.subrange(9, at - 1);
    assert(name =~= name.subrange(0, 9) + name.subrange(9, at) + name.subrange(
        at,
        name.len() as int,
    ));
    assert(name == "snapshot-"@ + slot_part(digits) + hash_part(
        hash,
        archive_ext(archive_format),
    ));
}

/// Only names of the form `incremental-snapshot-<base slot>-<slot>-<hash>.<ext>` are read
/// as names of incremental snapshot archives: what was read, put together again, is the
/// name.
pub proof fn lemma_parsed_incremental_snapshot_archive_name_is_composed(name: Seq<char>)
    requires
        parsed_incremental_snapshot_archive_filename(name) is Some,
    ensures
        ({
            let (base_slot, slot, hash, archive_format) =
                parsed_incremental_snapshot_archive_filename(name)->0;
            &&& is_hash_token(hash)
            &&& exists|base_digits: Seq<char>, digits: Seq<char>|
                #![trigger slot_part(base_digits), slot_part(digits)]
                {
                    &&& is_slot_digits(base_digits)
                    &&& is_slot_digits(digits)
                    &&& decimal_value(base_digits) == base_slot
                    &&& decimal_value(digits) == slot
                    &&& name == "incremental-snapshot-"@ + slot_part(base_digits) + slot_part(
                        digits,
                    ) + hash_part(hash, archive_ext(archive_format))
                }
        }),
{
    lemma_prefixes();
    lemma_slot_field_stands(name, 21);
    let (base_slot, at0) = slot_field(name, 21)->0;
    lemma_slot_field_stands(name, at0);
    let (slot, at) = slot_field(name, at0)->0;
    lemma_hash_field_stands(name, at);
    let (hash, archive_format) = hash_field(name, at)->0;
    let base_digits = name.subrange(21, at0 - 1);
    let digits = name.subrange(at0, at - 1);
    assert(name =~= name.subrange(0, 21) + name.subrange(21, at0) + name.subrange(at0, at)
        + name.subrange(at, name.len() as int));
    assert(name == "incremental-snapshot-"@ + slot_part(base_digits) + slot_part(digits)
        + hash_part(hash, archive_ext(archive_format)));
}

/// The file name of the full snapshot archive of `slot` with content hash `hash`:
/// `snapshot-<slot>-<hash>.<ext>`.
pub fn snapshot_archive_file_name(
    slot: Slot,
    hash: &crate::hash::Hash,
    archive_format: ArchiveFormat,
) -> (name: String)
    ensures
        name@ == snapshot_archive_filename(slot, hash@, archive_format),
{
    proof {
        lemma_prefixes();
    }
    let mut name = String::from_str("snapshot-");
    append_slot_part(&mut name, slot);
    append_hash_part(&mut name, hash, archive_format);
    name
}

/// The file name of the incremental snapshot archive of `slot` that builds on the full
/// snapshot of `base_slot`: `incremental-snapshot-<base slot>-<slot>-<hash>.<ext>`.
pub fn incremental_snapshot_archive_file_name(
    base_slot: Slot,
    slot: Slot,
    hash: &crate::hash::Hash,
    archive_format: ArchiveFormat,
) -> (name: String)
    ensures
        name@ == incremental_snapshot_archive_filename(base_slot, slot, hash@, archive_format),
{
    proof {
        lemma_prefixes();
    }
    let mut name = String::from_str("incremental-snapshot-");
    append_slot_part(&mut name, base_slot);
    append_slot_part(&mut name, slot);
    append_hash_part(&mut name, hash, archive_format);
    name
}

/// Build the snapshot archive path from its components: the snapshot archive output directory, the
/// snapshot slot, the accounts hash, and the archive format.
pub fn build_snapshot_archive_path(
    snapshot_output_dir: &str,
    slot: Slot,
    hash: &crate::hash::Hash,
    archive_format: ArchiveFormat,
) -> (path: String)
    ensures
        path@ == joined(
            snapshot_output_dir@,
            snapshot_archive_filename(slot, hash@, archive_format),
        ),
{
    let name = snapshot_archive_file_name(slot, hash, archive_format);
    join_path(snapshot_output_dir, name.as_str())
}

/// Build the incremental snapshot archive path from its components: the snapshot archive output
/// directory, the snapshot base slot, the snapshot slot, the accounts hash, and the archive
/// format.
pub fn build_incremental_snapshot_archive_path(
    snapshot_output_dir: &str,
    base_slot: Slot,
    slot: Slot,
    hash: &crate::hash::Hash,
    archive_format: ArchiveFormat,
) -> (path: String)
    ensures
        path@ == joined(
            snapshot_output_dir@,
            incremental_snapshot_archive_filename(base_slot, slot, hash@, archive_format),
        ),
{
    let name = incremental_snapshot_archive_file_name(base_slot, slot, hash, archive_format);
    join_path(snapshot_output_dir, name.as_str())
}

/// Appends the digits of `slot` and a hyphen.
fn append_slot_part(out: &mut String, slot: Slot)
    ensures
        final(out)@ == old(out)@ + slot_part(decimal_digits(slot as nat)),
{
    proof {
        lemma_prefixes();
    }
    append_decimal(out, slot);
    out.append("-");
    assert(out@ =~= old(out)@ + slot_part(decimal_digits(slot as nat)));
}

/// Appends the hash, a dot and the extension of the format.
fn append_hash_part(out: &mut String, hash: &crate::hash::Hash, archive_format: ArchiveFormat)
    ensures
        final(out)@ == old(out)@ + hash_part(hash@, archive_ext(archive_format)),
{
    proof {
        lemma_prefixes();
    }
    out.append(hash.as_str());
    out.append(".");
    out.append(get_archive_ext(archive_format));
    assert(out@ =~= old(out)@ + hash_part(hash@, archive_ext(archive_format)));
}

/// Whether `s` holds no `/`.
pub open spec fn no_slash(s: Seq<char>) -> bool {
    forall|i: int| 0 <= i < s.len() ==> #[trigger] s[i] != '/'
}

/// Two sequences without `/`, one after the other, hold no `/`.
pub proof fn lemma_no_slash_concat(a: Seq<char>, b: Seq<char>)
    requires
        no_slash(a),
        no_slash(b),
    ensures
        no_slash(a + b),
{
    assert forall|i: int| 0 <= i < (a + b).len() implies #[trigger] (a + b)[i] != '/' by {
        if i < a.len() {
            assert((a + b)[i] == a[i]);
        } else {
            assert((a + b)[i] == b[i - a.len()]);
        }
    }
}

/// The parts of an archive's name hold no `/`.
proof fn lemma_parts_without_slash(slot: Slot, hash: Seq<char>, archive_format: ArchiveFormat)
    requires
        is_hash_token(hash),
    ensures
        no_slash("snapshot-"@),
        no_slash("incremental-snapshot-"@),
        no_slash(slot_part(decimal_digits(slot as nat))),
        no_slash(hash_part(hash, archive_ext(archive_format))),
        slot_part(decimal_digits(slot as nat)).len() >= 2,
{
    reveal_strlit("snapshot-");
    reveal_strlit("incremental-snapshot-");
    lemma_archive_exts();
    lemma_decimal_digits_are_digits(slot as nat);
    let digits = decimal_digits(slot as nat);
    assert forall|i: int| 0 <= i < slot_part(digits).len() implies #[trigger] slot_part(
        digits,
    )[i] != '/' by {
        if i < digits.len() {
            assert(is_digit(digits[i]));
        }
    }
    let ext = archive_ext(archive_format);
    assert(no_slash(ext));
    assert forall|i: int| 0 <= i < hash.push('.').len() implies #[trigger] hash.push('.')[i]
        != '/' by {
        if i < hash.len() {
            assert(is_alnum(hash[i]));
        }
    }
    lemma_no_slash_concat(hash.push('.'), ext);
}

/// The names that are built for snapshot archives are names of entries of a directory.
pub proof fn lemma_archive_filenames_are_entry_names(
    base_slot: Slot,
    slot: Slot,
    hash: Seq<char>,
    archive_format: ArchiveFormat,
)
    requires
        is_hash_token(hash),
    ensures
        is_entry_name(snapshot_archive_filename(slot, hash, archive_format)),
        is_entry_name(
            incremental_snapshot_archive_filename(base_slot, slot, hash, archive_format),
        ),
{
    lemma_prefixes();
    lemma_parts_without_slash(slot, hash, archive_format);
    lemma_parts_without_slash(base_slot, hash, archive_format);
    let tail = hash_part(hash, archive_ext(archive_format));
    let part = slot_part(decimal_digits(slot as nat));
    let base_part = slot_part(decimal_digits(base_slot as nat));
    lemma_no_slash_concat("snapshot-"@, part);
    lemma_no_slash_concat("snapshot-"@ + part, tail);
    lemma_no_slash_concat("incremental-snapshot-"@, base_part);
    lemma_no_slash_concat("incremental-snapshot-"@ + base_part, part);
    lemma_no_slash_concat("incremental-snapshot-"@ + base_part + part, tail);
    let full = snapshot_archive_filename(slot, hash, archive_format);
    let incremental = incremental_snapshot_archive_filename(
        base_slot,
        slot,
        hash,
        archive_format,
    );
    assert(full.len() >= 9);
    assert(incremental.len() >= 21);
    assert(seq!['.'].len() == 1);
    assert(seq!['.', '.'].len() == 2);
}

/// What the two prefixes are: their lengths, and that they are ASCII.
pub proof fn lemma_prefixes()
    ensures
        "snapshot-"@.len() == 9,
        "incremental-snapshot-"@.len() == 21,
        "snapshot-".is_ascii(),
        "incremental-snapshot-".is_ascii(),
        "-".is_ascii(),
        ".".is_ascii(),
        "-"@ == seq!['-'],
        "."@ == seq!['.'],
{
    reveal_strlit("snapshot-");
    reveal_strlit("incremental-snapshot-");
    reveal_strlit("-");
    reveal_strlit(".");
    assert("-"@ =~= seq!['-']);
    assert("."@ =~= seq!['.']);
}

/// A name with a character outside ASCII is the name of no snapshot archive.
proof fn lemma_not_ascii_not_parsed(name: Seq<char>)
    requires
        !vstd::utf8::is_ascii_chars(name),
    ensures
        parsed_snapshot_archive_filename(name) is None,
        parsed_incremental_snapshot_archive_filename(name) is None,
{
    let bad = choose|i: int| 0 <= i < name.len() && !('\0' <= #[trigger] name[i] <= '\u{7f}');
    if parsed_snapshot_archive_filename(name) is Some {
        lemma_parsed_is_ascii(name, "snapshot-"@, 1, bad);
    }
    if parsed_incremental_snapshot_archive_filename(name) is Some {
        lemma_parsed_is_ascii(name, "incremental-snapshot-"@, 2, bad);
    }
}

/// Every character of a name that was read as prefix, slots, hash and extension is in
/// ASCII.
proof fn lemma_parsed_is_ascii(name: Seq<char>, prefix: Seq<char>, slots: int, i: int)
    requires
        prefix == "snapshot-"@ || prefix == "incremental-snapshot-"@,
        has_at(name, 0, prefix),
        slots == 1 || slots == 2,
        0 <= i < name.len(),
        slots == 1 ==> (slot_field(name, prefix.len() as int) matches Some((_, at))
            && hash_field(name, at) is Some),
        slots == 2 ==> (slot_field(name, prefix.len() as int) matches Some((_, at0))
            && slot_field(name, at0) matches Some((_, at)) && hash_field(name, at) is Some),
    ensures
        '\0' <= name[i] <= '\u{7f}',
{
    reveal_strlit("snapshot-");
    reveal_strlit("incremental-snapshot-");
    lemma_archive_exts();
    let p = prefix.len() as int;
    if i < p {
        assert(name.subrange(0, p)[i] == name[i]);
    } else {
        lemma_digit_run(name, p);
        let e1 = digit_run(name, p);
        if i < e1 {
            assert(name.subrange(p, e1)[i - p] == name[i]);
        } else if i == e1 {
        } else {
            let at1 = e1 + 1;
            let at = if slots == 1 {
                at1
            } else {
                digit_run(name, at1) + 1
            };
            if slots == 2 {
                lemma_digit_run(name, at1);
                let e2 = digit_run(name, at1);
                if i < e2 {
                    assert(name.subrange(at1, e2)[i - at1] == name[i]);
                }
            }
            if i >= at {
                lemma_alnum_run(name, at);
                let e3 = alnum_run(name, at);
                if i < e3 {
                    assert(name.subrange(at, e3)[i - at] == name[i]);
                } else if i > e3 {
                    let ext = name.subrange(e3 + 1, name.len() as int);
                    assert(ext[i - e3 - 1] == name[i]);
                }
            }
        }
    }
}

} // verus!
