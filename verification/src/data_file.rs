//! The size limit on the data files of a snapshot.
//!
//! A data file is written and read by the caller, as a stream. The library says whether
//! what was written is within the limit, whether a file may be read at all, and whether a
//! reader has taken in exactly the file: a file that is longer or shorter than what was
//! read is not the file that was written.

use vstd::prelude::*;
use vstd::string::StringExecFns;

use crate::decimal::{append_decimal, decimal_digits};
use crate::error::{result_view, SnapshotError, SnapshotErrorView};

verus! {

/// The limit on the size of a data file: 32 GiB.
pub const MAX_SNAPSHOT_DATA_FILE_SIZE: u64 = 32 * 1024 * 1024 * 1024;

/// The paths of the state files from which a state is rebuilt: that of the full snapshot
/// and, where there is one, that of the incremental snapshot.
#[derive(Debug)]
pub struct SnapshotRootPaths {
    pub full_snapshot_root_file_path: String,
    pub incremental_snapshot_root_file_path: Option<String>,
}

/// A number of bytes for each of the state files: one for the full snapshot and, where
/// there is an incremental snapshot, one for it.
#[derive(Copy, Clone, Debug, PartialEq, Eq, Structural)]
pub struct SnapshotFileSizes {
    pub full_snapshot: u64,
    pub incremental_snapshot: Option<u64>,
}

/// The message for a file that is too large after it was written.
pub open spec fn too_large_to_serialize(path: Seq<char>, size: u64) -> Seq<char> {
    "too large snapshot data file to serialize: "@ + path + " has "@ + decimal_digits(size as nat)
        + " bytes"@
}

/// The message for a file that is too large to be read.
pub open spec fn too_large_to_deserialize(path: Seq<char>, size: u64, maximum: u64) -> Seq<char> {
    "too large snapshot data file to deserialize: "@ + path + " has "@ + decimal_digits(
        size as nat,
    ) + " bytes (max size is "@ + decimal_digits(maximum as nat) + " bytes)"@
}

/// The message for a file of which more or less was read than it holds.
pub open spec fn invalid_data_file(path: Seq<char>, size: u64, consumed: u64) -> Seq<char> {
    "invalid snapshot data file: "@ + path + " has "@ + decimal_digits(size as nat)
        + " bytes, however consumed "@ + decimal_digits(consumed as nat)
        + " bytes to deserialize"@
}

/// The verdict on a data file of `consumed_size` bytes that was written: its size if that
/// is within `maximum_file_size`, an error if it is above.
pub open spec fn serialized_within(
    data_file_path: Seq<char>,
    maximum_file_size: u64,
    consumed_size: u64,
) -> Result<u64, SnapshotErrorView> {
    if consumed_size > maximum_file_size {
        Err(SnapshotErrorView::Io(too_large_to_serialize(data_file_path, consumed_size)))
    } else {
        Ok(consumed_size)
    }
}

/// The verdict on a data file of `file_size` bytes before it is read: its size if that
/// is within `maximum_file_size`, an error if it is above.
pub open spec fn readable_within(
    path: Seq<char>,
    file_size: u64,
    maximum_file_size: u64,
) -> Result<u64, SnapshotErrorView> {
    if file_size > maximum_file_size {
        Err(SnapshotErrorView::Io(too_large_to_deserialize(path, file_size, maximum_file_size)))
    } else {
        Ok(file_size)
    }
}

/// The verdict on a data file of `file_size` bytes after `consumed_size` bytes of it were
/// read: an error unless the two are equal.
pub open spec fn consumed_whole(
    file_size: u64,
    path: Seq<char>,
    consumed_size: u64,
) -> Result<(), SnapshotErrorView> {
    if consumed_size != file_size {
        Err(SnapshotErrorView::Io(invalid_data_file(path, file_size, consumed_size)))
    } else {
        Ok(())
    }
}

/// The verdict on the state files before they are read: that on the full snapshot's file
/// first, then that on the incremental snapshot's file, where there is one.
pub open spec fn all_readable_within(
    full_path: Seq<char>,
    incremental_path: Option<Seq<char>>,
    sizes: SnapshotFileSizes,
    maximum_file_size: u64,
) -> Result<(), SnapshotErrorView> {
    match readable_within(full_path, sizes.full_snapshot, maximum_file_size) {
        Err(e) => Err(e),
        Ok(_) => match (incremental_path, sizes.incremental_snapshot) {
            (Some(path), Some(size)) => match readable_within(path, size, maximum_file_size) {
                Err(e) => Err(e),
                Ok(_) => Ok(()),
            },
            _ => Ok(()),
        },
    }
}

/// The verdict on the state files after they were read: that on the full snapshot's file
/// first, then that on the incremental snapshot's file, where there is one.
pub open spec fn all_consumed_whole(
    full_path: Seq<char>,
    incremental_path: Option<Seq<char>>,
    sizes: SnapshotFileSizes,
    consumed: SnapshotFileSizes,
) -> Result<(), SnapshotErrorView> {
    match consumed_whole(sizes.full_snapshot, full_path, consumed.full_snapshot) {
        Err(e) => Err(e),
        Ok(_) => match (
            incremental_path,
            sizes.incremental_snapshot,
            consumed.incremental_snapshot,
        ) {
            (Some(path), Some(size), Some(consumed_size)) => consumed_whole(
                size,
                path,
                consumed_size,
            ),
            _ => Ok(()),
        },
    }
}

/// The view of an optional path.
pub open spec fn optional_view(path: Option<String>) -> Option<Seq<char>> {
    match path {
        Some(path) => Some(path@),
        None => None,
    }
}

/// Judges a data file that was written, by the number of bytes that were written, against
/// the limit of 32 GiB.
pub fn serialize_snapshot_data_file(data_file_path: &str, consumed_size: u64) -> (r: Result<
    u64,
    SnapshotError,
>)
    ensures
        result_view(r) == serialized_within(
            data_file_path@,
            MAX_SNAPSHOT_DATA_FILE_SIZE,
            consumed_size,
        ),
{
    serialize_snapshot_data_file_capped(data_file_path, MAX_SNAPSHOT_DATA_FILE_SIZE, consumed_size)
}

/// Judges a data file that was written, by the number of bytes that were written.
///
/// Returns that number if it is no more than `maximum_file_size`, and an error that
/// names the file and its size if it is more.
pub fn serialize_snapshot_data_file_capped(
    data_file_path: &str,
    maximum_file_size: u64,
    consumed_size: u64,
) -> (r: Result<u64, SnapshotError>)
    ensures
        result_view(r) == serialized_within(data_file_path@, maximum_file_size, consumed_size),
        r is Ok <==> consumed_size <= maximum_file_size,
{
    if consumed_size > maximum_file_size {
        let mut error_message = String::from_str("too large snapshot data file to serialize: ");
        error_message.append(data_file_path);
        error_message.append(" has ");
        append_decimal(&mut error_message, consumed_size);
        error_message.append(" bytes");
        return Err(SnapshotError::Io(error_message));
    }
    Ok(consumed_size)
}

/// Before a data file is read: judges its size against the limit of 32 GiB.
pub fn deserialize_snapshot_data_file(data_file_path: &str, file_size: u64) -> (r: Result<
    u64,
    SnapshotError,
>)
    ensures
        result_view(r) == readable_within(data_file_path@, file_size, MAX_SNAPSHOT_DATA_FILE_SIZE),
{
    prepare_deserialize_snapshot_data_file(data_file_path, file_size, MAX_SNAPSHOT_DATA_FILE_SIZE)
}

/// Before running the deserializer function, perform common operations on the snapshot archive
/// files, such as checking the file size.
///
/// Returns the size of the file if it is no more than `maximum_file_size`, and an error
/// that names the file, its size and the limit if it is more: such a file is not opened.
pub fn prepare_deserialize_snapshot_data_file(
    snapshot_root_file_path: &str,
    snapshot_file_size: u64,
    maximum_file_size: u64,
) -> (r: Result<u64, SnapshotError>)
    ensures
        result_view(r) == readable_within(
            snapshot_root_file_path@,
            snapshot_file_size,
            maximum_file_size,
        ),
        r is Ok <==> snapshot_file_size <= maximum_file_size,
{
    if snapshot_file_size > maximum_file_size {
        let mut error_message = String::from_str("too large snapshot data file to deserialize: ");
        error_message.append(snapshot_root_file_path);
        error_message.append(" has ");
        append_decimal(&mut error_message, snapshot_file_size);
        error_message.append(" bytes (max size is ");
        append_decimal(&mut error_message, maximum_file_size);
        error_message.append(" bytes)");
        return Err(SnapshotError::Io(error_message));
    }
    Ok(snapshot_file_size)
}

/// After running the deserializer function, perform common checks to ensure the snapshot archive
/// files were consumed correctly.
///
/// Returns an error unless the number of bytes that were read is the size of the file.
pub fn check_deserialize_snapshot_data_file(
    file_size: u64,
    file_path: &str,
    consumed_size: u64,
) -> (r: Result<(), SnapshotError>)
    ensures
        result_view(r) == consumed_whole(file_size, file_path@, consumed_size),
        r is Ok <==> consumed_size == file_size,
{
    if consumed_size != file_size {
        let mut error_message = String::from_str("invalid snapshot data file: ");
        error_message.append(file_path);
        error_message.append(" has ");
        append_decimal(&mut error_message, file_size);
        error_message.append(" bytes, however consumed ");
        append_decimal(&mut error_message, consumed_size);
        error_message.append(" bytes to deserialize");
        return Err(SnapshotError::Io(error_message));
    }
    Ok(())
}

/// Before the state files are read: judges the size of each against `maximum_file_size`,
/// the full snapshot's file first. A size that is given for an incremental snapshot
/// counts only where there is a path for it, and the other way round.
pub fn prepare_deserialize_snapshot_data_files(
    snapshot_root_paths: &SnapshotRootPaths,
    file_sizes: SnapshotFileSizes,
    maximum_file_size: u64,
) -> (r: Result<(), SnapshotError>)
    ensures
        result_view(r) == all_readable_within(
            snapshot_root_paths.full_snapshot_root_file_path@,
            optional_view(snapshot_root_paths.incremental_snapshot_root_file_path),
            file_sizes,
            maximum_file_size,
        ),
{
    match prepare_deserialize_snapshot_data_file(
        snapshot_root_paths.full_snapshot_root_file_path.as_str(),
        file_sizes.full_snapshot,
        maximum_file_size,
    ) {
        Err(e) => {
            return Err(e);
        },
        Ok(_) => {},
    }
    match (
        &snapshot_root_paths.incremental_snapshot_root_file_path,
        file_sizes.incremental_snapshot,
    ) {
        (Some(path), Some(size)) => match prepare_deserialize_snapshot_data_file(
            path.as_str(),
            size,
            maximum_file_size,
        ) {
            Err(e) => Err(e),
            Ok(_) => Ok(()),
        },
        _ => Ok(()),
    }
}

/// After the state files were read: judges of each whether it was read whole, the full
/// snapshot's file first.
pub fn check_deserialize_snapshot_data_files(
    snapshot_root_paths: &SnapshotRootPaths,
    file_sizes: SnapshotFileSizes,
    consumed_sizes: SnapshotFileSizes,
) -> (r: Result<(), SnapshotError>)
    ensures
        result_view(r) == all_consumed_whole(
            snapshot_root_paths.full_snapshot_root_file_path@,
            optional_view(snapshot_root_paths.incremental_snapshot_root_file_path),
            file_sizes,
            consumed_sizes,
        ),
{
    match check_deserialize_snapshot_data_file(
        file_sizes.full_snapshot,
        snapshot_root_paths.full_snapshot_root_file_path.as_str(),
        consumed_sizes.full_snapshot,
    ) {
        Err(e) => {
            return Err(e);
        },
        Ok(_) => {},
    }
    match (
        &snapshot_root_paths.incremental_snapshot_root_file_path,
        file_sizes.incremental_snapshot,
        consumed_sizes.incremental_snapshot,
    ) {
        (Some(path), Some(size), Some(consumed_size)) => check_deserialize_snapshot_data_file(
            size,
            path.as_str(),
            consumed_size,
        ),
        _ => Ok(()),
    }
}

} // verus!
