//! From a frozen state to the writing of its archive.
//!
//! The caller freezes the state, writes its state file and makes the temporary
//! directory of the package. The library packages what was written, finishes the
//! package and sets up the writer of the archive.

use vstd::prelude::*;

use crate::archive_format::ArchiveFormat;
use crate::archive_info::{
    incremental_snapshot_archive_of_entry, snapshot_archive_of_entry, DirEntry, DirEntryView,
    IncrementalSnapshotArchiveInfoView, SnapshotArchiveInfoView,
};
use crate::archive_name::{
    incremental_snapshot_archive_filename, lemma_archive_filenames_are_entry_names,
    lemma_incremental_snapshot_archive_filename_round_trip,
    lemma_snapshot_archive_filename_round_trip, snapshot_archive_filename, Slot,
};
use crate::hash::is_hash_token;
use crate::path::lemma_file_name_of_joined;
use crate::data_file::{serialized_within, MAX_SNAPSHOT_DATA_FILE_SIZE};
use crate::error::{SnapshotError, SnapshotErrorView};
use crate::package::{
    archive_path_of, package_incremental_snapshot, package_snapshot,
    process_accounts_package_pre, process_accounts_package_pre_for_incremental_snapshot,
    snapshot_link, storages_above, AccountsPackage, AccountsPackagePre, BankInfo, SnapshotLink,
    SnapshotStorages,
};
use crate::ranking::views_of;
use crate::snapshot_paths::{
    add_snapshot, get_latest_snapshot_paths, snapshot_file_path, snapshot_paths_of,
    SlotSnapshotPathsView,
};
use crate::snapshot_version::SnapshotVersion;
use crate::writer::{
    archive_snapshot_package, first_action, flattened, ArchiveWriter, ArchiveWriterView,
    WriterAction, WriterStep,
};

verus! {

/// What is set up for the writing of an archive: the package, the link to the state
/// file that the caller makes before anything else, the writer and its first action.
#[derive(Debug)]
pub struct SnapshotBuild<D> {
    pub package: AccountsPackage<D>,
    pub link: SnapshotLink,
    pub writer: ArchiveWriter,
    pub first_action: WriterAction,
}

/// The version of a snapshot where none is asked for.
pub open spec fn version_or_default(snapshot_version: Option<SnapshotVersion>) -> SnapshotVersion {
    match snapshot_version {
        Some(version) => version,
        None => SnapshotVersion::V1_2_0,
    }
}

/// Whether `build` is what is set up for the archive of the state `bank`, full where
/// `base_slot` is `None` and incremental on that slot otherwise.
pub open spec fn is_build_of<D>(
    build: SnapshotBuild<D>,
    snapshot_path: Seq<char>,
    bank: BankInfo,
    base_slot: Option<Slot>,
    snapshot_tmpdir: String,
    slot_deltas: Vec<D>,
    snapshot_version: Option<SnapshotVersion>,
    snapshot_package_output_path: Seq<char>,
    storages: SnapshotStorages,
    archive_format: ArchiveFormat,
    maximum_snapshots_to_retain: usize,
) -> bool {
    let package = build.package;
    let tar_output_file = archive_path_of(
        snapshot_package_output_path,
        base_slot,
        bank.slot,
        bank.accounts_hash@,
        archive_format,
    );
    &&& package.slot == bank.slot
    &&& package.block_height == bank.block_height
    &&& package.slot_deltas == slot_deltas
    &&& package.snapshot_links == snapshot_tmpdir
    &&& package.storages == storages
    &&& package.snapshot_output_dir@ == snapshot_package_output_path
    &&& package.tar_output_file@ == tar_output_file
    &&& package.hash@ == bank.accounts_hash@
    &&& package.archive_format == archive_format
    &&& package.snapshot_version == version_or_default(snapshot_version)
    &&& (build.link.dir@, build.link.source@, build.link.target@) == snapshot_link(
        snapshot_tmpdir@,
        SlotSnapshotPathsView {
            slot: bank.slot,
            snapshot_file_path: snapshot_file_path(snapshot_path, bank.slot),
        },
    )
    &&& build.writer@ == (ArchiveWriterView {
        step: WriterStep::StatusCache,
        slot: bank.slot,
        snapshot_links: snapshot_tmpdir@,
        storages: flattened(storages@),
        snapshot_version: version_or_default(snapshot_version),
        archive_format,
        tar_dir: snapshot_package_output_path,
        tar_output_file,
        maximum_snapshots_to_retain,
        staging_dir: None,
        archive_size: 0,
    })
    &&& build.first_action@ == first_action(build.writer@)
}

/// The archive that is written for a package is found again under its name: once it
/// stands in the output directory, the listing of that directory tells its slot, its
/// hash and its format, and for an incremental snapshot its base slot, as they were
/// packaged.
pub proof fn lemma_written_archive_is_listed(
    snapshot_output_dir: Seq<char>,
    base_slot: Option<Slot>,
    slot: Slot,
    hash: Seq<char>,
    archive_format: ArchiveFormat,
)
    requires
        is_hash_token(hash),
    ensures
        ({
            let path = archive_path_of(snapshot_output_dir, base_slot, slot, hash, archive_format);
            let entry = DirEntryView { path, is_file: true };
            match base_slot {
                None => snapshot_archive_of_entry(entry) == Some(
                    SnapshotArchiveInfoView { path, slot, hash, archive_format },
                ) && incremental_snapshot_archive_of_entry(entry) is None,
                Some(base_slot) => incremental_snapshot_archive_of_entry(entry) == Some(
                    IncrementalSnapshotArchiveInfoView {
                        path,
                        base_slot,
                        slot,
                        hash,
                        archive_format,
                    },
                ) && snapshot_archive_of_entry(entry) is None,
            }
        }),
{
    reveal_strlit("snapshot-");
    reveal_strlit("incremental-snapshot-");
    match base_slot {
        None => {
            let name = snapshot_archive_filename(slot, hash, archive_format);
            lemma_archive_filenames_are_entry_names(slot, slot, hash, archive_format);
            lemma_file_name_of_joined(snapshot_output_dir, name);
            lemma_snapshot_archive_filename_round_trip(slot, hash, archive_format);
            assert(name[0] == 's');
            if name.len() >= 21 {
                assert(name.subrange(0, 21)[0] == 's');
            }
        },
        Some(base_slot) => {
            let name = incremental_snapshot_archive_filename(
                base_slot,
                slot,
                hash,
                archive_format,
            );
            lemma_archive_filenames_are_entry_names(base_slot, slot, hash, archive_format);
            lemma_file_name_of_joined(snapshot_output_dir, name);
            lemma_incremental_snapshot_archive_filename_round_trip(
                base_slot,
                slot,
                hash,
                archive_format,
            );
            assert(name[0] == 'i');
            if name.len() >= 9 {
                assert(name.subrange(0, 9)[0] == 'i');
            }
        },
    }
}

/// The error for a state file of `state_file_size` bytes, if that is above the limit.
pub open spec fn state_file_error(
    snapshot_path: Seq<char>,
    slot: Slot,
    state_file_size: u64,
) -> Option<SnapshotErrorView> {
    match serialized_within(
        snapshot_file_path(snapshot_path, slot),
        MAX_SNAPSHOT_DATA_FILE_SIZE,
        state_file_size,
    ) {
        Err(error) => Some(error),
        Ok(_) => None,
    }
}

/// Convenience function to create a snapshot archive out of any Bank, regardless of state.
///
/// The caller has frozen the state `bank`, written its state file of `state_file_size`
/// bytes below `snapshot_path` and made the temporary directory `snapshot_tmpdir`.
/// Returns what is set up for the writing of the full snapshot archive, or an error if
/// the state file is larger than a data file may be.
pub fn bank_to_snapshot_archive<D>(
    snapshot_path: &str,
    bank: &BankInfo,
    state_file_size: u64,
    snapshot_tmpdir: String,
    slot_deltas: Vec<D>,
    snapshot_version: Option<SnapshotVersion>,
    snapshot_package_output_path: &str,
    storages: SnapshotStorages,
    archive_format: ArchiveFormat,
    maximum_snapshots_to_retain: usize,
) -> (r: Result<SnapshotBuild<D>, SnapshotError>)
    ensures
        match r {
            Ok(build) => state_file_error(snapshot_path@, bank.slot, state_file_size) is None
                && is_build_of(
                build,
                snapshot_path@,
                *bank,
                None,
                snapshot_tmpdir,
                slot_deltas,
                snapshot_version,
                snapshot_package_output_path@,
                storages,
                archive_format,
                maximum_snapshots_to_retain,
            ),
            Err(error) => state_file_error(snapshot_path@, bank.slot, state_file_size) == Some(
                error@,
            ),
        },
{
    let snapshot_version = match snapshot_version {
        Some(version) => version,
        None => SnapshotVersion::V1_2_0,
    };
    let slot_snapshot_paths = match add_snapshot(snapshot_path, bank.slot, state_file_size) {
        Ok(paths) => paths,
        Err(error) => {
            return Err(error);
        },
    };
    let (package, link) = package_snapshot(
        bank,
        &slot_snapshot_paths,
        snapshot_tmpdir,
        slot_deltas,
        snapshot_package_output_path,
        storages,
        archive_format,
        snapshot_version,
        None,
    );
    let package = process_accounts_package_pre(package, None);
    let (writer, first_action) = archive_snapshot_package(&package, maximum_snapshots_to_retain);
    Ok(SnapshotBuild { package, link, writer, first_action })
}

/// Convenience function to create an incremental snapshot archive out of any Bank, regardless of
/// state.
///
/// As [`bank_to_snapshot_archive`], for an incremental snapshot on the full snapshot of
/// `full_snapshot_slot`. The state must be of a later slot, and so must every storage.
pub fn bank_to_incremental_snapshot_archive<D>(
    snapshot_path: &str,
    bank: &BankInfo,
    full_snapshot_slot: Slot,
    state_file_size: u64,
    snapshot_tmpdir: String,
    slot_deltas: Vec<D>,
    snapshot_version: Option<SnapshotVersion>,
    snapshot_package_output_path: &str,
    storages: SnapshotStorages,
    archive_format: ArchiveFormat,
    maximum_snapshots_to_retain: usize,
) -> (r: Result<SnapshotBuild<D>, SnapshotError>)
    requires
        bank.slot > full_snapshot_slot,
        storages_above(storages@, full_snapshot_slot),
    ensures
        match r {
            Ok(build) => state_file_error(snapshot_path@, bank.slot, state_file_size) is None
                && is_build_of(
                build,
                snapshot_path@,
                *bank,
                Some(full_snapshot_slot),
                snapshot_tmpdir,
                slot_deltas,
                snapshot_version,
                snapshot_package_output_path@,
                storages,
                archive_format,
                maximum_snapshots_to_retain,
            ),
            Err(error) => state_file_error(snapshot_path@, bank.slot, state_file_size) == Some(
                error@,
            ),
        },
{
    let snapshot_version = match snapshot_version {
        Some(version) => version,
        None => SnapshotVersion::V1_2_0,
    };
    let slot_snapshot_paths = match add_snapshot(snapshot_path, bank.slot, state_file_size) {
        Ok(paths) => paths,
        Err(error) => {
            return Err(error);
        },
    };
    let (package, link) = package_incremental_snapshot(
        bank,
        full_snapshot_slot,
        &slot_snapshot_paths,
        snapshot_tmpdir,
        slot_deltas,
        snapshot_package_output_path,
        storages,
        archive_format,
        snapshot_version,
        None,
    );
    let package = process_accounts_package_pre_for_incremental_snapshot(
        package,
        None,
        full_snapshot_slot,
    );
    let (writer, first_action) = archive_snapshot_package(&package, maximum_snapshots_to_retain);
    Ok(SnapshotBuild { package, link, writer, first_action })
}

/// Gather the necessary elements for a snapshot of the given `root_bank`
///
/// The caller has written the state file of `state_file_size` bytes below
/// `snapshot_path`, listed that directory afterwards as `entries`, and made the temporary
/// directory `snapshot_tmpdir`. The snapshot of the highest slot in the directory is
/// packaged; the directory must hold one. Returns the package, which the caller hands
/// on, and the link to the state file, or an error if the state file is larger than a
/// data file may be.
pub fn snapshot_bank<D>(
    root_bank: &BankInfo,
    state_file_size: u64,
    entries: &Vec<DirEntry>,
    snapshot_tmpdir: String,
    status_cache_slot_deltas: Vec<D>,
    snapshot_path: &str,
    snapshot_package_output_path: &str,
    storages: SnapshotStorages,
    snapshot_version: SnapshotVersion,
    archive_format: ArchiveFormat,
    hash_for_testing: Option<crate::hash::Hash>,
) -> (r: Result<(AccountsPackagePre<D>, SnapshotLink), SnapshotError>)
    requires
        snapshot_paths_of(snapshot_path@, views_of(entries@)).len() > 0,
    ensures
        match r {
            Ok((package, link)) => {
                &&& state_file_error(snapshot_path@, root_bank.slot, state_file_size) is None
                &&& package.slot == root_bank.slot
                &&& package.block_height == root_bank.block_height
                &&& package.slot_deltas == status_cache_slot_deltas
                &&& package.snapshot_links == snapshot_tmpdir
                &&& package.storages == storages
                &&& package.hash@ == root_bank.accounts_hash@
                &&& package.archive_format == archive_format
                &&& package.snapshot_version == snapshot_version
                &&& package.snapshot_output_dir@ == snapshot_package_output_path@
                &&& package.expected_capitalization == root_bank.capitalization
                &&& package.hash_for_testing == hash_for_testing
                &&& (link.dir@, link.source@, link.target@) == snapshot_link(
                    snapshot_tmpdir@,
                    snapshot_paths_of(snapshot_path@, views_of(entries@)).last(),
                )
            },
            Err(error) => state_file_error(snapshot_path@, root_bank.slot, state_file_size)
                == Some(error@),
        },
{
    match add_snapshot(snapshot_path, root_bank.slot, state_file_size) {
        Ok(_) => {},
        Err(error) => {
            return Err(error);
        },
    }
    let latest_slot_snapshot_paths = match get_latest_snapshot_paths(snapshot_path, entries) {
        Some(paths) => paths,
        None => vstd::pervasive::unreached(),
    };
    let r = package_snapshot(
        root_bank,
        &latest_slot_snapshot_paths,
        snapshot_tmpdir,
        status_cache_slot_deltas,
        snapshot_package_output_path,
        storages,
        archive_format,
        snapshot_version,
        hash_for_testing,
    );
    Ok(r)
}

} // verus!
