//! Whether an incremental snapshot archive builds on a given full snapshot archive.

use vstd::prelude::*;

use crate::archive_format::ArchiveFormat;
use crate::archive_name::{
    incremental_snapshot_archive_filename, lemma_archive_filenames_are_entry_names,
    lemma_incremental_snapshot_archive_filename_round_trip,
    lemma_snapshot_archive_filename_round_trip, parse_incremental_snapshot_archive_filename,
    parse_snapshot_archive_filename, parsed_incremental_snapshot_archive_filename,
    parsed_snapshot_archive_filename, snapshot_archive_filename, Slot,
};
use crate::error::{result_view, SnapshotError, SnapshotErrorView};
use crate::hash::is_hash_token;
use crate::path::{file_name, file_name_of, joined, lemma_file_name_of_joined};

verus! {

/// Whether the incremental snapshot archive at `incremental_snapshot_archive_path` builds
/// on the full snapshot archive at `full_snapshot_archive_path`, as far as their file
/// names say: the slot of the full snapshot and the slot of the incremental snapshot if
/// so, and the reason if not. The full snapshot's path is looked at first.
pub open spec fn snapshots_compatibility(
    full_snapshot_archive_path: Seq<char>,
    incremental_snapshot_archive_path: Seq<char>,
) -> Result<(Slot, Slot), SnapshotErrorView> {
    match file_name_of(full_snapshot_archive_path) {
        None => Err(SnapshotErrorView::PathParseError("Could not get file name!"@)),
        Some(full_name) => match parsed_snapshot_archive_filename(full_name) {
            None => Err(
                SnapshotErrorView::PathParseError(
                    "Could not parse full snapshot archive's filename!"@,
                ),
            ),
            Some((full_slot, _, _)) => match file_name_of(incremental_snapshot_archive_path) {
                None => Err(SnapshotErrorView::PathParseError("Could not get file name!"@)),
                Some(incremental_name) => match parsed_incremental_snapshot_archive_filename(
                    incremental_name,
                ) {
                    None => Err(
                        SnapshotErrorView::PathParseError(
                            "Could not parse incremental snapshot archive's filename!"@,
                        ),
                    ),
                    Some((base_slot, slot, _, _)) => if full_slot == base_slot {
                        Ok((full_slot, slot))
                    } else {
                        Err(SnapshotErrorView::IncompatibleSnapshots(full_slot, base_slot))
                    },
                },
            },
        },
    }
}

/// An incremental snapshot archive is compatible with a full snapshot archive, by the
/// names that are built for them, if and only if its base slot is the slot of the full
/// snapshot. If it is not, the error holds the full snapshot's slot and the incremental
/// snapshot's base slot. The directories, hashes and formats do not matter.
pub proof fn lemma_compatible_iff_base_is_full_slot(
    full_dir: Seq<char>,
    full_slot: Slot,
    full_hash: Seq<char>,
    full_format: ArchiveFormat,
    incremental_dir: Seq<char>,
    base_slot: Slot,
    slot: Slot,
    hash: Seq<char>,
    archive_format: ArchiveFormat,
)
    requires
        is_hash_token(full_hash),
        is_hash_token(hash),
    ensures
        snapshots_compatibility(
            joined(full_dir, snapshot_archive_filename(full_slot, full_hash, full_format)),
            joined(
                incremental_dir,
                incremental_snapshot_archive_filename(base_slot, slot, hash, archive_format),
            ),
        ) == if base_slot == full_slot {
            Ok::<(Slot, Slot), SnapshotErrorView>((full_slot, slot))
        } else {
            Err::<(Slot, Slot), SnapshotErrorView>(
                SnapshotErrorView::IncompatibleSnapshots(full_slot, base_slot),
            )
        },
{
    let full_name = snapshot_archive_filename(full_slot, full_hash, full_format);
    let incremental_name = incremental_snapshot_archive_filename(
        base_slot,
        slot,
        hash,
        archive_format,
    );
    lemma_archive_filenames_are_entry_names(full_slot, full_slot, full_hash, full_format);
    lemma_archive_filenames_are_entry_names(base_slot, slot, hash, archive_format);
    lemma_file_name_of_joined(full_dir, full_name);
    lemma_file_name_of_joined(incremental_dir, incremental_name);
    lemma_snapshot_archive_filename_round_trip(full_slot, full_hash, full_format);
    lemma_incremental_snapshot_archive_filename_round_trip(base_slot, slot, hash, archive_format);
}

/// Check if an incremental snapshot is compatible with a full snapshot.  This function parses the
/// paths to see if the incremental snapshot's base slot is the same as the full snapshot's slot.
/// Return an error if they are incompatible (or if the paths cannot be parsed), otherwise return a
/// tuple of the full snapshot slot and the incremental snapshot slot.
pub fn check_are_snapshots_compatible(
    full_snapshot_archive_path: &str,
    incremental_snapshot_archive_path: &str,
) -> (r: Result<(Slot, Slot), SnapshotError>)
    ensures
        result_view(r) == snapshots_compatibility(
            full_snapshot_archive_path@,
            incremental_snapshot_archive_path@,
        ),
{
    let full_name = match file_name(full_snapshot_archive_path) {
        Some(name) => name,
        None => {
            return Err(SnapshotError::PathParseError("Could not get file name!"));
        },
    };
    let full_snapshot_slot = match parse_snapshot_archive_filename(full_name.as_str()) {
        Some((slot, _, _)) => slot,
        None => {
            return Err(
                SnapshotError::PathParseError("Could not parse full snapshot archive's filename!"),
            );
        },
    };
    let incremental_name = match file_name(incremental_snapshot_archive_path) {
        Some(name) => name,
        None => {
            return Err(SnapshotError::PathParseError("Could not get file name!"));
        },
    };
    match parse_incremental_snapshot_archive_filename(incremental_name.as_str()) {
        Some((incremental_snapshot_base_slot, incremental_snapshot_slot, _, _)) => {
            if full_snapshot_slot == incremental_snapshot_base_slot {
                Ok((full_snapshot_slot, incremental_snapshot_slot))
            } else {
                Err(
                    SnapshotError::IncompatibleSnapshots(
                        full_snapshot_slot,
                        incremental_snapshot_base_slot,
                    ),
                )
            }
        },
        None => Err(
            SnapshotError::PathParseError(
                "Could not parse incremental snapshot archive's filename!",
            ),
        ),
    }
}

} // verus!
