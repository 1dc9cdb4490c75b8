//! Rebuilding a state from a full snapshot archive, or from a full and an incremental one.
//!
//! The archives are unpacked and the state is read by the caller, one action at a time.
//! The restorer says which action comes next, given how the last one ended:
//!
//! 1. the full snapshot archive is unpacked into a temporary directory;
//! 2. where there is an incremental snapshot archive, its name is held against that of
//!    the full one: its base slot must be the slot of the full snapshot. Then it is
//!    unpacked into a temporary directory of its own. What it unpacked of storages
//!    counts before what the full snapshot unpacked;
//! 3. the version of each archive is checked, and its state file is found;
//! 4. the state files are held against the size limit, and the state is read from them
//!    in the version of the incremental snapshot, where there is one, and else in that of
//!    the full snapshot. They must have been read whole;
//! 5. the status cache is read from the incremental snapshot, where there is one, and
//!    else from the full snapshot, under the same limits;
//! 6. the state is verified. A state that fails is never handed on: unless the load was
//!    limited to some slots, the restorer asks for the process to be ended.
//!
//! Whatever fails before ends the restoring with its error. With the last action the
//! caller is told which temporary directories to remove.

use vstd::prelude::*;
use vstd::string::{StrSliceExecFns, StringExecFns};

use crate::archive_format::ArchiveFormat;
use crate::archive_info::{DirEntry, DirEntryView};
use crate::compatibility::{check_are_snapshots_compatible, snapshots_compatibility};
use crate::data_file::{
    all_consumed_whole, all_readable_within, check_deserialize_snapshot_data_file,
    check_deserialize_snapshot_data_files, consumed_whole, deserialize_snapshot_data_file,
    prepare_deserialize_snapshot_data_files, readable_within, SnapshotFileSizes,
    SnapshotRootPaths, MAX_SNAPSHOT_DATA_FILE_SIZE,
};
use crate::error::{SnapshotError, SnapshotErrorView};
use crate::package::{TMP_INCREMENTAL_SNAPSHOT_PREFIX, TMP_SNAPSHOT_PREFIX};
use crate::decimal::{
    decimal_digits, is_digit, lemma_decimal_digits_are_digits, lemma_parsed_u64_of_digits,
    parsed_u64,
};
use crate::package::snapshot_link;
use crate::path::{is_entry_name, join_path, joined, lemma_file_name_of_joined};
use crate::ranking::views_of;
use crate::snapshot_paths::{
    snapshot_file_path, snapshot_of_entry, snapshot_paths_of, snapshots_of,
    verify_snapshot_version_and_folder, version_and_folder, SlotSnapshotPaths,
    SlotSnapshotPathsView,
};
use crate::snapshot_version::{lemma_version_string_round_trip, version_string, SnapshotVersion};
use crate::text::{trim, trimmed, whitespace_run, whitespace_run_back};
use crate::unpack::{parallel_divisions, UnpackedAppendVecMap, PARALLEL_UNTAR_READERS_DEFAULT};

verus! {

/// How long the parts of a restoring took, in microseconds.
#[derive(Copy, Clone, Debug, PartialEq, Eq, Structural)]
pub struct BankFromArchiveTimings {
    pub rebuild_bank_from_snapshots_us: u64,
    pub untar_us: u64,
    pub verify_snapshot_bank_us: u64,
}

impl Default for BankFromArchiveTimings {
    fn default() -> (r: BankFromArchiveTimings)
        ensures
            r == (BankFromArchiveTimings {
                rebuild_bank_from_snapshots_us: 0,
                untar_us: 0,
                verify_snapshot_bank_us: 0,
            }),
    {
        BankFromArchiveTimings {
            rebuild_bank_from_snapshots_us: 0,
            untar_us: 0,
            verify_snapshot_bank_us: 0,
        }
    }
}

/// What is known of an archive that was unpacked.
#[derive(Debug)]
pub struct UnpackedSnapshot {
    /// The temporary directory into which the archive was unpacked.
    pub unpack_dir: String,
    /// The text of the file `version`.
    pub snapshot_version: String,
    /// The entries of the directory `snapshots`.
    pub snapshots_dir_entries: Vec<DirEntry>,
    /// How long the unpacking took, in microseconds.
    pub untar_us: u64,
}

/// The view of an [`UnpackedSnapshot`].
pub struct UnpackedSnapshotView {
    pub unpack_dir: Seq<char>,
    pub snapshot_version: Seq<char>,
    pub snapshots_dir_entries: Seq<DirEntryView>,
    pub untar_us: u64,
}

impl View for UnpackedSnapshot {
    type V = UnpackedSnapshotView;

    open spec fn view(&self) -> UnpackedSnapshotView {
        UnpackedSnapshotView {
            unpack_dir: self.unpack_dir@,
            snapshot_version: self.snapshot_version@,
            snapshots_dir_entries: views_of(self.snapshots_dir_entries@),
            untar_us: self.untar_us,
        }
    }
}

/// Where the restorer stands: the action whose end it waits for.
#[derive(Copy, Clone, Debug, PartialEq, Eq, Structural)]
pub enum RestoreStep {
    /// The full snapshot archive is being unpacked.
    UnpackFull,
    /// The incremental snapshot archive is being unpacked.
    UnpackIncremental,
    /// The sizes of the state files are being read.
    StatFiles,
    /// The state is being read from the state files.
    Deserialize,
    /// The size of the status cache file is being read.
    StatStatusCache,
    /// The status cache is being read.
    DeserializeStatusCache,
    /// The state is being verified.
    Verify,
    /// The restoring has ended.
    Finished,
}

/// How an action of the restorer ended.
#[derive(Debug)]
pub enum RestoreEvent {
    /// The archive was unpacked.
    Unpacked { snapshot: UnpackedSnapshot, append_vec_map: UnpackedAppendVecMap },
    /// The sizes of the state files, or, after the state was read, the number of bytes
    /// that were read of each.
    Sizes(SnapshotFileSizes),
    /// The size of the status cache file, or, after it was read, the number of bytes
    /// that were read of it.
    Size(u64),
    /// The state was verified: whether it passed, and how long rebuilding and
    /// verifying took, in microseconds.
    Verified { passed: bool, rebuild_us: u64, verify_us: u64 },
    /// The action failed.
    Failed(SnapshotError),
}

/// The view of a [`RestoreEvent`].
pub enum RestoreEventView {
    Unpacked { snapshot: UnpackedSnapshotView, append_vec_map: Map<Seq<char>, Seq<char>> },
    Sizes(SnapshotFileSizes),
    Size(u64),
    Verified { passed: bool, rebuild_us: u64, verify_us: u64 },
    Failed(SnapshotErrorView),
}

impl View for RestoreEvent {
    type V = RestoreEventView;

    open spec fn view(&self) -> RestoreEventView {
        match self {
            RestoreEvent::Unpacked { snapshot, append_vec_map } => RestoreEventView::Unpacked {
                snapshot: snapshot@,
                append_vec_map: append_vec_map@,
            },
            RestoreEvent::Sizes(sizes) => RestoreEventView::Sizes(*sizes),
            RestoreEvent::Size(size) => RestoreEventView::Size(*size),
            RestoreEvent::Verified { passed, rebuild_us, verify_us } => RestoreEventView::Verified {
                passed: *passed,
                rebuild_us: *rebuild_us,
                verify_us: *verify_us,
            },
            RestoreEvent::Failed(error) => RestoreEventView::Failed(error@),
        }
    }
}

/// What the caller is to do next.
#[derive(Debug)]
pub enum RestoreAction {
    /// Make a temporary directory in `snapshot_path` whose name starts with
    /// `unpack_dir_prefix`, unpack the archive at `archive_path` into it with
    /// `parallel_divisions` workers, read its file `version` and list its directory
    /// `snapshots`, and answer with what was found.
    Unpack {
        snapshot_path: String,
        unpack_dir_prefix: String,
        archive_path: String,
        archive_format: ArchiveFormat,
        parallel_divisions: usize,
    },
    /// Answer with the sizes of the state files.
    StatFiles { paths: SnapshotRootPaths },
    /// Read the state from the state files, in the given version and with the storages
    /// of `append_vec_map`, and answer with the number of bytes read of each file.
    DeserializeBank {
        paths: SnapshotRootPaths,
        snapshot_version: SnapshotVersion,
        append_vec_map: UnpackedAppendVecMap,
    },
    /// Answer with the size of the file at `path`.
    StatStatusCache { path: String },
    /// Read the status cache deltas from the file at `path`, and answer with the number
    /// of bytes read.
    DeserializeStatusCache { path: String },
    /// Attach the status cache deltas to the state, verify the state, and answer
    /// whether it passed.
    VerifyBank,
    /// End the process: the state that was rebuilt failed its verification, and must
    /// never run.
    Abort,
    /// Nothing more: the restoring has ended with `result`. Remove the temporary
    /// directories `remove`.
    Finish { result: Result<BankFromArchiveTimings, SnapshotError>, remove: Vec<String> },
}

/// The view of a [`RestoreAction`].
pub enum RestoreActionView {
    Unpack {
        snapshot_path: Seq<char>,
        unpack_dir_prefix: Seq<char>,
        archive_path: Seq<char>,
        archive_format: ArchiveFormat,
        parallel_divisions: usize,
    },
    StatFiles { full: Seq<char>, incremental: Option<Seq<char>> },
    DeserializeBank {
        full: Seq<char>,
        incremental: Option<Seq<char>>,
        snapshot_version: SnapshotVersion,
        append_vec_map: Map<Seq<char>, Seq<char>>,
    },
    StatStatusCache { path: Seq<char> },
    DeserializeStatusCache { path: Seq<char> },
    VerifyBank,
    Abort,
    Finish { result: Result<BankFromArchiveTimings, SnapshotErrorView>, remove: Seq<Seq<char>> },
}

/// The view of an optional string.
pub open spec fn opt_view(s: Option<String>) -> Option<Seq<char>> {
    match s {
        Some(s) => Some(s@),
        None => None,
    }
}

impl View for RestoreAction {
    type V = RestoreActionView;

    open spec fn view(&self) -> RestoreActionView {
        match self {
            RestoreAction::Unpack {
                snapshot_path,
                unpack_dir_prefix,
                archive_path,
                archive_format,
                parallel_divisions,
            } => RestoreActionView::Unpack {
                snapshot_path: snapshot_path@,
                unpack_dir_prefix: unpack_dir_prefix@,
                archive_path: archive_path@,
                archive_format: *archive_format,
                parallel_divisions: *parallel_divisions,
            },
            RestoreAction::StatFiles { paths } => RestoreActionView::StatFiles {
                full: paths.full_snapshot_root_file_path@,
                incremental: opt_view(paths.incremental_snapshot_root_file_path),
            },
            RestoreAction::DeserializeBank { paths, snapshot_version, append_vec_map } =>
                RestoreActionView::DeserializeBank {
                full: paths.full_snapshot_root_file_path@,
                incremental: opt_view(paths.incremental_snapshot_root_file_path),
                snapshot_version: *snapshot_version,
                append_vec_map: append_vec_map@,
            },
            RestoreAction::StatStatusCache { path } => RestoreActionView::StatStatusCache {
                path: path@,
            },
            RestoreAction::DeserializeStatusCache { path } =>
                RestoreActionView::DeserializeStatusCache { path: path@ },
            RestoreAction::VerifyBank => RestoreActionView::VerifyBank,
            RestoreAction::Abort => RestoreActionView::Abort,
            RestoreAction::Finish { result, remove } => RestoreActionView::Finish {
                result: match result {
                    Ok(timings) => Ok(*timings),
                    Err(error) => Err(error@),
                },
                remove: views_of(remove@),
            },
        }
    }
}

/// The restorer of one state.
#[derive(Debug)]
pub struct Restorer {
    step: RestoreStep,
    snapshot_path: String,
    full_snapshot_archive_path: String,
    incremental_snapshot_archive_path: Option<String>,
    archive_format: ArchiveFormat,
    parallel_divisions: usize,
    limit_load_slot_count_from_snapshot: Option<usize>,
    full: Option<UnpackedSnapshot>,
    incremental: Option<UnpackedSnapshot>,
    append_vec_map: UnpackedAppendVecMap,
    snapshot_version: SnapshotVersion,
    root_paths: SnapshotRootPaths,
    file_sizes: SnapshotFileSizes,
    status_cache_path: String,
    status_cache_size: u64,
}

/// The view of a [`Restorer`]: where it stands, what it was asked for, and what it has
/// found.
pub struct RestorerView {
    pub step: RestoreStep,
    /// The directory in which the temporary directories are made.
    pub snapshot_path: Seq<char>,
    pub full_snapshot_archive_path: Seq<char>,
    pub incremental_snapshot_archive_path: Option<Seq<char>>,
    pub archive_format: ArchiveFormat,
    pub parallel_divisions: usize,
    /// To how many slots the load is limited, if it is.
    pub limit_load_slot_count_from_snapshot: Option<usize>,
    /// What was unpacked of the full snapshot.
    pub full: Option<UnpackedSnapshotView>,
    /// What was unpacked of the incremental snapshot.
    pub incremental: Option<UnpackedSnapshotView>,
    /// The storages that were unpacked.
    pub append_vec_map: Map<Seq<char>, Seq<char>>,
    /// The version in which the state is read, once the archives are found in order.
    pub snapshot_version: SnapshotVersion,
    /// The state files.
    pub full_root_file_path: Seq<char>,
    pub incremental_root_file_path: Option<Seq<char>>,
    /// The sizes of the state files.
    pub file_sizes: SnapshotFileSizes,
    pub status_cache_path: Seq<char>,
    pub status_cache_size: u64,
}

/// The view of what was unpacked, if anything was.
pub open spec fn unpacked_view(u: Option<UnpackedSnapshot>) -> Option<UnpackedSnapshotView> {
    match u {
        Some(u) => Some(u@),
        None => None,
    }
}

impl View for Restorer {
    type V = RestorerView;

    closed spec fn view(&self) -> RestorerView {
        RestorerView {
            step: self.step,
            snapshot_path: self.snapshot_path@,
            full_snapshot_archive_path: self.full_snapshot_archive_path@,
            incremental_snapshot_archive_path: opt_view(self.incremental_snapshot_archive_path),
            archive_format: self.archive_format,
            parallel_divisions: self.parallel_divisions,
            limit_load_slot_count_from_snapshot: self.limit_load_slot_count_from_snapshot,
            full: unpacked_view(self.full),
            incremental: unpacked_view(self.incremental),
            append_vec_map: self.append_vec_map@,
            snapshot_version: self.snapshot_version,
            full_root_file_path: self.root_paths.full_snapshot_root_file_path@,
            incremental_root_file_path: opt_view(
                self.root_paths.incremental_snapshot_root_file_path,
            ),
            file_sizes: self.file_sizes,
            status_cache_path: self.status_cache_path@,
            status_cache_size: self.status_cache_size,
        }
    }
}

/// The temporary directories that the restorer has had made, the full snapshot's first.
pub open spec fn unpack_dirs(w: RestorerView) -> Seq<Seq<char>> {
    match (w.full, w.incremental) {
        (Some(full), Some(incremental)) => seq![full.unpack_dir, incremental.unpack_dir],
        (Some(full), None) => seq![full.unpack_dir],
        (None, Some(incremental)) => seq![incremental.unpack_dir],
        (None, None) => Seq::empty(),
    }
}

/// The end of the restoring with `result`.
pub open spec fn restore_finish(
    w: RestorerView,
    result: Result<BankFromArchiveTimings, SnapshotErrorView>,
) -> (RestorerView, RestoreActionView) {
    (
        RestorerView { step: RestoreStep::Finished, ..w },
        RestoreActionView::Finish { result, remove: unpack_dirs(w) },
    )
}

/// The error for an answer that does not fit the action.
pub open spec fn unexpected_restore_event() -> SnapshotErrorView {
    SnapshotErrorView::Io("unexpected answer to an action of the restorer"@)
}

/// The directory `snapshots` of an unpacked archive.
pub open spec fn unpacked_snapshots_dir(unpack_dir: Seq<char>) -> Seq<char> {
    joined(unpack_dir, "snapshots"@)
}

/// The version and the state file of an unpacked archive.
pub open spec fn version_and_root(u: UnpackedSnapshotView) -> Result<
    (SnapshotVersion, Seq<char>),
    SnapshotErrorView,
> {
    match version_and_folder(
        trimmed(u.snapshot_version),
        unpacked_snapshots_dir(u.unpack_dir),
        u.snapshots_dir_entries,
    ) {
        Ok((version, paths)) => Ok((version, paths.snapshot_file_path)),
        Err(error) => Err(error),
    }
}

/// What is rebuilt from: the version in which the state is read, the state file of the
/// full snapshot and that of the incremental snapshot, and the path of the status cache.
/// The version is that of the incremental snapshot, where there is one, and the status
/// cache is that of the incremental snapshot, where there is one. The full snapshot is
/// checked first.
pub open spec fn rebuild_plan(
    full: UnpackedSnapshotView,
    incremental: Option<UnpackedSnapshotView>,
) -> Result<(SnapshotVersion, Seq<char>, Option<Seq<char>>, Seq<char>), SnapshotErrorView> {
    match version_and_root(full) {
        Err(error) => Err(error),
        Ok((full_version, full_root)) => match incremental {
            None => Ok(
                (
                    full_version,
                    full_root,
                    None,
                    joined(unpacked_snapshots_dir(full.unpack_dir), "status_cache"@),
                ),
            ),
            Some(incremental) => match version_and_root(incremental) {
                Err(error) => Err(error),
                Ok((incremental_version, incremental_root)) => Ok(
                    (
                        incremental_version,
                        full_root,
                        Some(incremental_root),
                        joined(unpacked_snapshots_dir(incremental.unpack_dir), "status_cache"@),
                    ),
                ),
            },
        },
    }
}

/// The first action of a restorer: to unpack the full snapshot archive.
pub open spec fn first_restore_action(w: RestorerView) -> RestoreActionView {
    RestoreActionView::Unpack {
        snapshot_path: w.snapshot_path,
        unpack_dir_prefix: "tmp-snapshot-"@,
        archive_path: w.full_snapshot_archive_path,
        archive_format: w.archive_format,
        parallel_divisions: w.parallel_divisions,
    }
}

/// What follows when the archives are unpacked: the sizes of the state files are asked
/// for, or the restoring ends because an archive is not as it must be.
pub open spec fn start_rebuild(w: RestorerView) -> (RestorerView, RestoreActionView) {
    match w.full {
        None => restore_finish(w, Err(unexpected_restore_event())),
        Some(full) => match rebuild_plan(full, w.incremental) {
            Err(error) => restore_finish(w, Err(error)),
            Ok((snapshot_version, full_root, incremental_root, status_cache_path)) => (
                RestorerView {
                    step: RestoreStep::StatFiles,
                    snapshot_version,
                    full_root_file_path: full_root,
                    incremental_root_file_path: incremental_root,
                    status_cache_path,
                    ..w
                },
                RestoreActionView::StatFiles { full: full_root, incremental: incremental_root },
            ),
        },
    }
}

/// The time that unpacking took: that of the full snapshot and that of the incremental
/// snapshot, or the highest number where the sum is beyond all numbers.
pub open spec fn untar_time(w: RestorerView) -> u64 {
    let full = match w.full {
        Some(full) => full.untar_us,
        None => 0,
    };
    let incremental = match w.incremental {
        Some(incremental) => incremental.untar_us,
        None => 0,
    };
    if full + incremental > u64::MAX {
        u64::MAX
    } else {
        (full + incremental) as u64
    }
}

/// The restorer after an action has ended with `event`, and the action that comes next.
pub open spec fn restore_step(w: RestorerView, event: RestoreEventView) -> (
    RestorerView,
    RestoreActionView,
) {
    match (w.step, event) {
        (RestoreStep::Finished, _) => (
            w,
            RestoreActionView::Finish {
                result: Err(unexpected_restore_event()),
                remove: Seq::empty(),
            },
        ),
        (_, RestoreEventView::Failed(error)) => restore_finish(w, Err(error)),
        (RestoreStep::UnpackFull, RestoreEventView::Unpacked { snapshot, append_vec_map }) => {
            let unpacked = RestorerView { full: Some(snapshot), append_vec_map, ..w };
            match w.incremental_snapshot_archive_path {
                None => start_rebuild(unpacked),
                Some(incremental_path) => match snapshots_compatibility(
                    w.full_snapshot_archive_path,
                    incremental_path,
                ) {
                    Err(error) => restore_finish(unpacked, Err(error)),
                    Ok(_) => (
                        RestorerView { step: RestoreStep::UnpackIncremental, ..unpacked },
                        RestoreActionView::Unpack {
                            snapshot_path: w.snapshot_path,
                            unpack_dir_prefix: "tmp-incremental-snapshot-"@,
                            archive_path: incremental_path,
                            archive_format: w.archive_format,
                            parallel_divisions: w.parallel_divisions,
                        },
                    ),
                },
            }
        },
        (
            RestoreStep::UnpackIncremental,
            RestoreEventView::Unpacked { snapshot, append_vec_map },
        ) => start_rebuild(
            RestorerView {
                incremental: Some(snapshot),
                append_vec_map: w.append_vec_map.union_prefer_right(append_vec_map),
                ..w
            },
        ),
        (RestoreStep::StatFiles, RestoreEventView::Sizes(sizes)) => match all_readable_within(
            w.full_root_file_path,
            w.incremental_root_file_path,
            sizes,
            MAX_SNAPSHOT_DATA_FILE_SIZE,
        ) {
            Err(error) => restore_finish(w, Err(error)),
            Ok(_) => (
                RestorerView {
                    step: RestoreStep::Deserialize,
                    file_sizes: sizes,
                    append_vec_map: Map::empty(),
                    ..w
                },
                RestoreActionView::DeserializeBank {
                    full: w.full_root_file_path,
                    incremental: w.incremental_root_file_path,
                    snapshot_version: w.snapshot_version,
                    append_vec_map: w.append_vec_map,
                },
            ),
        },
        (RestoreStep::Deserialize, RestoreEventView::Sizes(consumed)) => match all_consumed_whole(
            w.full_root_file_path,
            w.incremental_root_file_path,
            w.file_sizes,
            consumed,
        ) {
            Err(error) => restore_finish(w, Err(error)),
            Ok(_) => (
                RestorerView { step: RestoreStep::StatStatusCache, ..w },
                RestoreActionView::StatStatusCache { path: w.status_cache_path },
            ),
        },
        (RestoreStep::StatStatusCache, RestoreEventView::Size(size)) => match readable_within(
            w.status_cache_path,
            size,
            MAX_SNAPSHOT_DATA_FILE_SIZE,
        ) {
            Err(error) => restore_finish(w, Err(error)),
            Ok(_) => (
                RestorerView {
                    step: RestoreStep::DeserializeStatusCache,
                    status_cache_size: size,
                    ..w
                },
                RestoreActionView::DeserializeStatusCache { path: w.status_cache_path },
            ),
        },
        (RestoreStep::DeserializeStatusCache, RestoreEventView::Size(consumed)) =>
            match consumed_whole(w.status_cache_size, w.status_cache_path, consumed) {
            Err(error) => restore_finish(w, Err(error)),
            Ok(_) => (
                RestorerView { step: RestoreStep::Verify, ..w },
                RestoreActionView::VerifyBank,
            ),
        },
        (RestoreStep::Verify, RestoreEventView::Verified { passed, rebuild_us, verify_us }) =>
            if !passed && w.limit_load_slot_count_from_snapshot is None {
            (RestorerView { step: RestoreStep::Finished, ..w }, RestoreActionView::Abort)
        } else {
            restore_finish(
                w,
                Ok(
                    BankFromArchiveTimings {
                        rebuild_bank_from_snapshots_us: rebuild_us,
                        untar_us: untar_time(w),
                        verify_snapshot_bank_us: verify_us,
                    },
                ),
            )
        },
        _ => restore_finish(w, Err(unexpected_restore_event())),
    }
}

/// The restorer after a run of actions that ended with `events`, one after the other,
/// and the actions that it asked for in answer.
pub open spec fn restore_run(w: RestorerView, events: Seq<RestoreEventView>) -> (
    RestorerView,
    Seq<RestoreActionView>,
)
    decreases events.len(),
{
    if events.len() == 0 {
        (w, Seq::empty())
    } else {
        let (next, action) = restore_step(w, events[0]);
        let (last, actions) = restore_run(next, events.drop_first());
        (last, seq![action] + actions)
    }
}

/// A run begins with the step that its first event brings, and goes on from there.
pub proof fn lemma_restore_run_first(
    w: RestorerView,
    event: RestoreEventView,
    rest: Seq<RestoreEventView>,
)
    ensures
        restore_run(w, seq![event] + rest).0 == restore_run(restore_step(w, event).0, rest).0,
        restore_run(w, seq![event] + rest).1 == seq![restore_step(w, event).1] + restore_run(
            restore_step(w, event).0,
            rest,
        ).1,
{
    let events = seq![event] + rest;
    assert(events[0] == event);
    assert(events.drop_first() =~= rest);
}

/// What is asked for once the archives are unpacked, when all goes well: the sizes of
/// the state files, the state, the size of the status cache, the status cache, the
/// verification, and then nothing more.
pub open spec fn rebuild_actions(
    full: UnpackedSnapshotView,
    incremental: Option<UnpackedSnapshotView>,
    append_vec_map: Map<Seq<char>, Seq<char>>,
    rebuild_us: u64,
    verify_us: u64,
) -> Seq<RestoreActionView> {
    let (version, full_root, incremental_root, status_cache) = rebuild_plan(
        full,
        incremental,
    )->Ok_0;
    let untar_us = full.untar_us + match incremental {
        Some(incremental) => incremental.untar_us as int,
        None => 0,
    };
    seq![
        RestoreActionView::StatFiles { full: full_root, incremental: incremental_root },
        RestoreActionView::DeserializeBank {
            full: full_root,
            incremental: incremental_root,
            snapshot_version: version,
            append_vec_map,
        },
        RestoreActionView::StatStatusCache { path: status_cache },
        RestoreActionView::DeserializeStatusCache { path: status_cache },
        RestoreActionView::VerifyBank,
        RestoreActionView::Finish {
            result: Ok(
                BankFromArchiveTimings {
                    rebuild_bank_from_snapshots_us: rebuild_us,
                    untar_us: if untar_us > u64::MAX {
                        u64::MAX
                    } else {
                        untar_us as u64
                    },
                    verify_snapshot_bank_us: verify_us,
                },
            ),
            remove: match incremental {
                Some(incremental) => seq![full.unpack_dir, incremental.unpack_dir],
                None => seq![full.unpack_dir],
            },
        },
    ]
}

/// The answers to the actions of [`rebuild_actions`] when all goes well: the state
/// files have the sizes `sizes` and are read whole, the status cache has
/// `status_cache_size` bytes and is read whole, and the state passes its verification.
pub open spec fn rebuild_events(
    sizes: SnapshotFileSizes,
    status_cache_size: u64,
    rebuild_us: u64,
    verify_us: u64,
) -> Seq<RestoreEventView> {
    seq![
        RestoreEventView::Sizes(sizes),
        RestoreEventView::Sizes(sizes),
        RestoreEventView::Size(status_cache_size),
        RestoreEventView::Size(status_cache_size),
        RestoreEventView::Verified { passed: true, rebuild_us, verify_us },
    ]
}

/// Once the archives are unpacked and found in order, and the files are within the
/// limits and read whole, the restorer asks for the actions of [`rebuild_actions`], in
/// their order, and ends with the timings.
proof fn lemma_rebuild_run(
    w: RestorerView,
    sizes: SnapshotFileSizes,
    status_cache_size: u64,
    rebuild_us: u64,
    verify_us: u64,
)
    requires
        w.step != RestoreStep::Finished,
        w.full is Some,
        rebuild_plan(w.full->0, w.incremental) is Ok,
        all_readable_within(
            rebuild_plan(w.full->0, w.incremental)->Ok_0.1,
            rebuild_plan(w.full->0, w.incremental)->Ok_0.2,
            sizes,
            MAX_SNAPSHOT_DATA_FILE_SIZE,
        ) is Ok,
        status_cache_size <= MAX_SNAPSHOT_DATA_FILE_SIZE,
    ensures
        ({
            let start = start_rebuild(w);
            let run = restore_run(
                start.0,
                rebuild_events(sizes, status_cache_size, rebuild_us, verify_us),
            );
            &&& run.0.step == RestoreStep::Finished
            &&& seq![start.1] + run.1 == rebuild_actions(
                w.full->0,
                w.incremental,
                w.append_vec_map,
                rebuild_us,
                verify_us,
            )
        }),
{
    let e1 = RestoreEventView::Sizes(sizes);
    let e3 = RestoreEventView::Size(status_cache_size);
    let e5 = RestoreEventView::Verified { passed: true, rebuild_us, verify_us };
    let none = Seq::<RestoreEventView>::empty();
    let start = start_rebuild(w);
    let s1 = restore_step(start.0, e1);
    let s2 = restore_step(s1.0, e1);
    let s3 = restore_step(s2.0, e3);
    let s4 = restore_step(s3.0, e3);
    let s5 = restore_step(s4.0, e5);
    lemma_restore_run_first(s4.0, e5, none);
    lemma_restore_run_first(s3.0, e3, seq![e5] + none);
    lemma_restore_run_first(s2.0, e3, seq![e3] + (seq![e5] + none));
    lemma_restore_run_first(s1.0, e1, seq![e3] + (seq![e3] + (seq![e5] + none)));
    lemma_restore_run_first(start.0, e1, seq![e1] + (seq![e3] + (seq![e3] + (seq![e5] + none))));
    let events = rebuild_events(sizes, status_cache_size, rebuild_us, verify_us);
    assert(events =~= seq![e1] + (seq![e1] + (seq![e3] + (seq![e3] + (seq![e5] + none)))));
    let run = restore_run(start.0, events);
    assert(run.0 == s5.0);
    assert(seq![start.1] + run.1 =~= seq![start.1, s1.1, s2.1, s3.1, s4.1, s5.1]);
    assert(seq![start.1, s1.1, s2.1, s3.1, s4.1, s5.1] =~= rebuild_actions(
        w.full->0,
        w.incremental,
        w.append_vec_map,
        rebuild_us,
        verify_us,
    ));
}

/// When all goes well, a state is restored from a full snapshot archive so: the archive
/// is unpacked, and then the actions of [`rebuild_actions`] follow.
pub proof fn lemma_restore_from_full_run(
    w: RestorerView,
    full: UnpackedSnapshotView,
    append_vec_map: Map<Seq<char>, Seq<char>>,
    sizes: SnapshotFileSizes,
    status_cache_size: u64,
    rebuild_us: u64,
    verify_us: u64,
)
    requires
        w.step == RestoreStep::UnpackFull,
        w.full is None,
        w.incremental is None,
        w.incremental_snapshot_archive_path is None,
        rebuild_plan(full, None) is Ok,
        all_readable_within(
            rebuild_plan(full, None)->Ok_0.1,
            rebuild_plan(full, None)->Ok_0.2,
            sizes,
            MAX_SNAPSHOT_DATA_FILE_SIZE,
        ) is Ok,
        status_cache_size <= MAX_SNAPSHOT_DATA_FILE_SIZE,
    ensures
        ({
            let run = restore_run(
                w,
                seq![RestoreEventView::Unpacked { snapshot: full, append_vec_map }]
                    + rebuild_events(sizes, status_cache_size, rebuild_us, verify_us),
            );
            &&& run.0.step == RestoreStep::Finished
            &&& run.1 == rebuild_actions(full, None, append_vec_map, rebuild_us, verify_us)
        }),
{
    let unpacked = RestoreEventView::Unpacked { snapshot: full, append_vec_map };
    let after = RestorerView { full: Some(full), append_vec_map, ..w };
    assert(restore_step(w, unpacked) == start_rebuild(after));
    lemma_rebuild_run(after, sizes, status_cache_size, rebuild_us, verify_us);
    lemma_restore_run_first(
        w,
        unpacked,
        rebuild_events(sizes, status_cache_size, rebuild_us, verify_us),
    );
}

/// When all goes well, a state is restored from a full and an incremental snapshot
/// archive so: the full snapshot archive is unpacked, then the incremental one, with a
/// temporary directory under the prefix of incremental snapshots, and then the actions of
/// [`rebuild_actions`] follow, with the storages of the incremental snapshot laid over
/// those of the full snapshot.
pub proof fn lemma_restore_from_full_and_incremental_run(
    w: RestorerView,
    full: UnpackedSnapshotView,
    full_map: Map<Seq<char>, Seq<char>>,
    incremental: UnpackedSnapshotView,
    incremental_map: Map<Seq<char>, Seq<char>>,
    sizes: SnapshotFileSizes,
    status_cache_size: u64,
    rebuild_us: u64,
    verify_us: u64,
)
    requires
        w.step == RestoreStep::UnpackFull,
        w.full is None,
        w.incremental is None,
        w.incremental_snapshot_archive_path is Some,
        snapshots_compatibility(
            w.full_snapshot_archive_path,
            w.incremental_snapshot_archive_path->0,
        ) is Ok,
        rebuild_plan(full, Some(incremental)) is Ok,
        all_readable_within(
            rebuild_plan(full, Some(incremental))->Ok_0.1,
            rebuild_plan(full, Some(incremental))->Ok_0.2,
            sizes,
            MAX_SNAPSHOT_DATA_FILE_SIZE,
        ) is Ok,
        status_cache_size <= MAX_SNAPSHOT_DATA_FILE_SIZE,
    ensures
        ({
            let run = restore_run(
                w,
                seq![
                    RestoreEventView::Unpacked { snapshot: full, append_vec_map: full_map },
                    RestoreEventView::Unpacked {
                        snapshot: incremental,
                        append_vec_map: incremental_map,
                    },
                ] + rebuild_events(sizes, status_cache_size, rebuild_us, verify_us),
            );
            &&& run.0.step == RestoreStep::Finished
            &&& run.1 == seq![
                RestoreActionView::Unpack {
                    snapshot_path: w.snapshot_path,
                    unpack_dir_prefix: "tmp-incremental-snapshot-"@,
                    archive_path: w.incremental_snapshot_archive_path->0,
                    archive_format: w.archive_format,
                    parallel_divisions: w.parallel_divisions,
                },
            ] + rebuild_actions(
                full,
                Some(incremental),
                full_map.union_prefer_right(incremental_map),
                rebuild_us,
                verify_us,
            )
        }),
{
    let first = RestoreEventView::Unpacked { snapshot: full, append_vec_map: full_map };
    let second = RestoreEventView::Unpacked {
        snapshot: incremental,
        append_vec_map: incremental_map,
    };
    let rest = rebuild_events(sizes, status_cache_size, rebuild_us, verify_us);
    let s1 = restore_step(w, first);
    let after = RestorerView {
        incremental: Some(incremental),
        append_vec_map: full_map.union_prefer_right(incremental_map),
        ..s1.0
    };
    assert(restore_step(s1.0, second) == start_rebuild(after));
    lemma_rebuild_run(after, sizes, status_cache_size, rebuild_us, verify_us);
    lemma_restore_run_first(s1.0, second, rest);
    lemma_restore_run_first(w, first, seq![second] + rest);
    assert(seq![first, second] + rest =~= seq![first] + (seq![second] + rest));
    let run = restore_run(w, seq![first, second] + rest);
    let tail = restore_run(start_rebuild(after).0, rest);
    assert(run.1 =~= seq![s1.1] + (seq![start_rebuild(after).1] + tail.1));
}

/// Whether an action is the end of the restoring with an error.
pub open spec fn ends_with_error(action: RestoreActionView) -> bool {
    match action {
        RestoreActionView::Finish { result, .. } => result is Err,
        _ => false,
    }
}

/// Whether one of the sizes is above the size limit: that of the state file of the full
/// snapshot or, where there is an incremental snapshot, that of its state file.
pub open spec fn is_oversized(w: RestorerView, sizes: SnapshotFileSizes) -> bool {
    ||| sizes.full_snapshot > MAX_SNAPSHOT_DATA_FILE_SIZE
    ||| match (w.incremental_root_file_path, sizes.incremental_snapshot) {
        (Some(_), Some(size)) => size > MAX_SNAPSHOT_DATA_FILE_SIZE,
        _ => false,
    }
}

/// A file that is above the size limit is never read: when the size of a state file or
/// of the status cache is found to be above the limit, the restoring ends with an error,
/// and the state and the status cache are read only after their sizes were asked for.
pub proof fn lemma_oversized_files_are_not_read(
    w: RestorerView,
    sizes: SnapshotFileSizes,
    size: u64,
    event: RestoreEventView,
)
    ensures
        w.step == RestoreStep::StatFiles && is_oversized(w, sizes) ==> ends_with_error(
            restore_step(w, RestoreEventView::Sizes(sizes)).1,
        ),
        w.step == RestoreStep::StatStatusCache && size > MAX_SNAPSHOT_DATA_FILE_SIZE
            ==> ends_with_error(restore_step(w, RestoreEventView::Size(size)).1),
        restore_step(w, event).1 is DeserializeBank ==> w.step == RestoreStep::StatFiles,
        restore_step(w, event).1 is DeserializeStatusCache ==> w.step
            == RestoreStep::StatStatusCache,
{
}

/// An incremental snapshot archive that does not build on the full snapshot archive is
/// never unpacked: once the full snapshot archive is unpacked, the restoring ends with the
/// error that the two names give.
pub proof fn lemma_incompatible_is_not_unpacked(w: RestorerView, event: RestoreEventView)
    requires
        w.step == RestoreStep::UnpackFull,
        event is Unpacked,
        w.incremental_snapshot_archive_path is Some,
    ensures
        match snapshots_compatibility(
            w.full_snapshot_archive_path,
            w.incremental_snapshot_archive_path->0,
        ) {
            Err(error) => {
                &&& restore_step(w, event).0.step == RestoreStep::Finished
                &&& restore_step(w, event).1 matches RestoreActionView::Finish { result, .. }
                    && result == Err::<BankFromArchiveTimings, SnapshotErrorView>(error)
            },
            Ok(_) => restore_step(w, event).1 is Unpack,
        },
{
}

/// A state that failed its verification is never handed on as a success, unless the
/// load was limited to some slots: the restorer ends with success only after the
/// verification, and only if the state passed or the load was limited. A state that
/// failed without such a limit ends the process.
pub proof fn lemma_failed_state_never_runs(w: RestorerView, event: RestoreEventView)
    ensures
        (restore_step(w, event).1 matches RestoreActionView::Finish { result, .. } && result is Ok)
            ==> w.step == RestoreStep::Verify && (event matches RestoreEventView::Verified {
            passed,
            ..
        } && (passed || w.limit_load_slot_count_from_snapshot is Some)),
        w.step == RestoreStep::Verify ==> (event matches RestoreEventView::Verified { passed, .. }
            ==> !passed ==> w.limit_load_slot_count_from_snapshot is None ==> restore_step(
            w,
            event,
        ).1 is Abort),
{
}

/// Whatever fails ends the restoring with the error of the failure. A temporary
/// directory is known from the moment it was made, and on every way to the end the caller
/// is told to remove those that were made.
pub proof fn lemma_restore_failures_end(w: RestorerView, event: RestoreEventView)
    requires
        w.step != RestoreStep::Finished,
    ensures
        event matches RestoreEventView::Failed(error) ==> restore_step(w, event) == restore_finish(
            w,
            Err(error),
        ),
        restore_step(w, event).1 matches RestoreActionView::Finish { remove, .. } ==> remove
            == unpack_dirs(restore_step(w, event).0),
        w.step != RestoreStep::UnpackFull ==> restore_step(w, event).0.full == w.full,
        w.step != RestoreStep::UnpackIncremental ==> restore_step(w, event).0.incremental
            == w.incremental,
        event matches RestoreEventView::Unpacked { snapshot, .. } ==> (w.step
            == RestoreStep::UnpackFull ==> restore_step(w, event).0.full == Some(snapshot)) && (
        w.step == RestoreStep::UnpackIncremental ==> restore_step(w, event).0.incremental == Some(
            snapshot,
        )),
{
}

/// With an incremental snapshot, the state is read in the version of the incremental
/// snapshot, and the status cache is that of the incremental snapshot; without one, both
/// are those of the full snapshot.
pub proof fn lemma_freshest_wins(
    full: UnpackedSnapshotView,
    incremental: Option<UnpackedSnapshotView>,
)
    requires
        rebuild_plan(full, incremental) is Ok,
    ensures
        ({
            let (version, full_root, incremental_root, status_cache) = rebuild_plan(
                full,
                incremental,
            )->Ok_0;
            match incremental {
                Some(incremental) => {
                    &&& version_and_root(incremental) == Ok::<
                        (SnapshotVersion, Seq<char>),
                        SnapshotErrorView,
                    >((version, incremental_root->0))
                    &&& status_cache == joined(
                        unpacked_snapshots_dir(incremental.unpack_dir),
                        "status_cache"@,
                    )
                },
                None => {
                    &&& version_and_root(full) == Ok::<
                        (SnapshotVersion, Seq<char>),
                        SnapshotErrorView,
                    >((version, full_root))
                    &&& incremental_root is None
                    &&& status_cache == joined(
                        unpacked_snapshots_dir(full.unpack_dir),
                        "status_cache"@,
                    )
                },
            }
        }),
{
}

/// Of the storages that both archives unpacked, those of the incremental snapshot count;
/// of the others, each counts as it was unpacked.
pub proof fn lemma_incremental_storages_win(
    w: RestorerView,
    snapshot: UnpackedSnapshotView,
    append_vec_map: Map<Seq<char>, Seq<char>>,
    file_name: Seq<char>,
)
    requires
        w.step == RestoreStep::UnpackIncremental,
    ensures
        ({
            let next = restore_step(w, RestoreEventView::Unpacked { snapshot, append_vec_map }).0;
            &&& append_vec_map.contains_key(file_name) ==> next.append_vec_map.contains_key(
                file_name,
            ) && next.append_vec_map[file_name] == append_vec_map[file_name]
            &&& !append_vec_map.contains_key(file_name) && w.append_vec_map.contains_key(file_name)
                ==> next.append_vec_map.contains_key(file_name) && next.append_vec_map[file_name]
                == w.append_vec_map[file_name]
            &&& next.append_vec_map.contains_key(file_name) ==> append_vec_map.contains_key(
                file_name,
            ) || w.append_vec_map.contains_key(file_name)
        }),
{
}

/// What the writer lays out, the restorer finds. The writer links the state file of a
/// package at `<slot>/<slot>` below the package's directory of links, puts the status
/// cache beside it as `status_cache`, links that directory into the archive as
/// `snapshots`, and writes the version as it is written. In an archive that was unpacked
/// so, the restorer finds that version, the state file at `<slot>/<slot>` below
/// `snapshots`, and the status cache at `snapshots/status_cache`.
pub proof fn lemma_written_layout_is_read(
    snapshot_links: Seq<char>,
    state_file: Seq<char>,
    unpack_dir: Seq<char>,
    slot: crate::archive_name::Slot,
    snapshot_version: SnapshotVersion,
    untar_us: u64,
)
    ensures
        ({
            let written = snapshot_link(
                snapshot_links,
                SlotSnapshotPathsView { slot, snapshot_file_path: state_file },
            );
            let snapshots = unpacked_snapshots_dir(unpack_dir);
            let unpacked = UnpackedSnapshotView {
                unpack_dir,
                snapshot_version: version_string(snapshot_version),
                snapshots_dir_entries: seq![
                    DirEntryView {
                        path: joined(snapshots, decimal_digits(slot as nat)),
                        is_file: false,
                    },
                    DirEntryView { path: joined(snapshots, "status_cache"@), is_file: true },
                ],
                untar_us,
            };
            &&& written.2 == snapshot_file_path(snapshot_links, slot)
            &&& rebuild_plan(unpacked, None) == Ok::<
                (SnapshotVersion, Seq<char>, Option<Seq<char>>, Seq<char>),
                SnapshotErrorView,
            >(
                (
                    snapshot_version,
                    snapshot_file_path(snapshots, slot),
                    None,
                    joined(snapshots, "status_cache"@),
                ),
            )
        }),
{
    let snapshots = unpacked_snapshots_dir(unpack_dir);
    let digits = decimal_digits(slot as nat);
    let cache = "status_cache"@;
    let slot_entry = DirEntryView { path: joined(snapshots, digits), is_file: false };
    let cache_entry = DirEntryView { path: joined(snapshots, cache), is_file: true };
    let entries = seq![slot_entry, cache_entry];
    // the names of the two entries
    lemma_decimal_digits_are_digits(slot as nat);
    assert(is_entry_name(digits)) by {
        assert forall|i: int| 0 <= i < digits.len() implies #[trigger] digits[i] != '/' by {
            assert(is_digit(digits[i]));
        }
        assert(is_digit(digits[0]));
        if digits == seq!['.'] {
            assert(digits[0] == '.');
        }
        if digits == seq!['.', '.'] {
            assert(digits[0] == '.');
        }
    }
    reveal_strlit("status_cache");
    assert(is_entry_name(cache)) by {
        assert(cache.len() == 12);
        assert(seq!['.'].len() == 1);
        assert(seq!['.', '.'].len() == 2);
    }
    lemma_file_name_of_joined(snapshots, digits);
    lemma_file_name_of_joined(snapshots, cache);
    lemma_parsed_u64_of_digits(slot);
    assert(parsed_u64(cache) is None) by {
        assert(cache[0] == 's');
        assert(!is_digit(cache[0]));
    }
    // the listing holds the one snapshot
    let found = SlotSnapshotPathsView {
        slot,
        snapshot_file_path: snapshot_file_path(snapshots, slot),
    };
    assert(snapshot_of_entry(snapshots, slot_entry) == Some(found));
    assert(snapshot_of_entry(snapshots, cache_entry) is None);
    assert(entries.drop_last() =~= seq![slot_entry]);
    assert(seq![slot_entry].drop_last() =~= Seq::<DirEntryView>::empty());
    assert(snapshots_of(snapshots, Seq::<DirEntryView>::empty()) =~= Seq::<
        SlotSnapshotPathsView,
    >::empty());
    assert(snapshots_of(snapshots, seq![slot_entry]) =~= seq![found]);
    assert(snapshots_of(snapshots, entries) == seq![found]);
    let rank = crate::ranking::rank_fn::<SlotSnapshotPaths>();
    assert(seq![found].drop_last() =~= Seq::<SlotSnapshotPathsView>::empty());
    assert(crate::ranking::sorted_descending(Seq::<SlotSnapshotPathsView>::empty(), rank)
        =~= Seq::<SlotSnapshotPathsView>::empty());
    assert(crate::ranking::sorted_descending(seq![found], rank) =~= seq![found]);
    assert(snapshot_paths_of(snapshots, entries) == seq![found]);
    // the version is read as it was written
    lemma_version_string_round_trip(snapshot_version);
    let text = version_string(snapshot_version);
    reveal_strlit("1.2.0");
    assert(text[0] == '1');
    assert(text[text.len() - 1] == '0');
    assert(whitespace_run(text, 0) == 0);
    assert(whitespace_run_back(text, text.len() as int) == text.len());
    assert(trimmed(text) =~= text);
}

/// The version and the state file of an unpacked archive.
fn find_version_and_root(u: &UnpackedSnapshot) -> (r: Result<
    (SnapshotVersion, SlotSnapshotPaths, String),
    SnapshotError,
>)
    ensures
        match r {
            Ok((version, paths, dir)) => version_and_root(u@) == Ok::<
                (SnapshotVersion, Seq<char>),
                SnapshotErrorView,
            >((version, paths.snapshot_file_path@)) && dir@ == unpacked_snapshots_dir(
                u.unpack_dir@,
            ),
            Err(error) => version_and_root(u@) == Err::<
                (SnapshotVersion, Seq<char>),
                SnapshotErrorView,
            >(error@),
        },
{
    let version_text = trim(u.snapshot_version.as_str());
    let dir = join_path(u.unpack_dir.as_str(), "snapshots");
    match verify_snapshot_version_and_folder(version_text, dir.as_str(), &u.snapshots_dir_entries) {
        Ok((version, paths)) => Ok((version, paths, dir)),
        Err(error) => Err(error),
    }
}

impl Restorer {
    /// The restorer of a state from the full snapshot archive at
    /// `full_snapshot_archive_path` and, if there is one, the incremental snapshot
    /// archive at `incremental_snapshot_archive_path`, and its first action.
    ///
    /// The temporary directories are made in `snapshot_path`, and the archives are
    /// unpacked with `parallel_divisions` workers. Where the load is limited to some
    /// slots, a state that fails its verification is handed on nevertheless.
    pub fn new(
        snapshot_path: &str,
        full_snapshot_archive_path: &str,
        incremental_snapshot_archive_path: Option<String>,
        archive_format: ArchiveFormat,
        parallel_divisions: usize,
        limit_load_slot_count_from_snapshot: Option<usize>,
    ) -> (r: (Restorer, RestoreAction))
        ensures
            r.0@.step == RestoreStep::UnpackFull,
            r.0@.snapshot_path == snapshot_path@,
            r.0@.full_snapshot_archive_path == full_snapshot_archive_path@,
            r.0@.incremental_snapshot_archive_path == opt_view(incremental_snapshot_archive_path),
            r.0@.archive_format == archive_format,
            r.0@.parallel_divisions == parallel_divisions,
            r.0@.limit_load_slot_count_from_snapshot == limit_load_slot_count_from_snapshot,
            r.0@.full is None,
            r.0@.incremental is None,
            r.1@ == first_restore_action(r.0@),
    {
        let restorer = Restorer {
            step: RestoreStep::UnpackFull,
            snapshot_path: String::from_str(snapshot_path),
            full_snapshot_archive_path: String::from_str(full_snapshot_archive_path),
            incremental_snapshot_archive_path,
            archive_format,
            parallel_divisions,
            limit_load_slot_count_from_snapshot,
            full: None,
            incremental: None,
            append_vec_map: UnpackedAppendVecMap::new(),
            snapshot_version: SnapshotVersion::V1_2_0,
            root_paths: SnapshotRootPaths {
                full_snapshot_root_file_path: String::new(),
                incremental_snapshot_root_file_path: None,
            },
            file_sizes: SnapshotFileSizes { full_snapshot: 0, incremental_snapshot: None },
            status_cache_path: String::new(),
            status_cache_size: 0,
        };
        let action = RestoreAction::Unpack {
            snapshot_path: restorer.snapshot_path.clone(),
            unpack_dir_prefix: String::from_str(TMP_SNAPSHOT_PREFIX),
            archive_path: restorer.full_snapshot_archive_path.clone(),
            archive_format,
            parallel_divisions,
        };
        (restorer, action)
    }

    /// Where the restorer stands.
    pub fn step(&self) -> (step: RestoreStep)
        ensures
            step == self@.step,
    {
        self.step
    }

    /// Whether the restoring has ended.
    pub fn is_finished(&self) -> (r: bool)
        ensures
            r == (self@.step == RestoreStep::Finished),
    {
        match self.step {
            RestoreStep::Finished => true,
            _ => false,
        }
    }

    /// Takes in how the last action ended, and says which action comes next.
    pub fn advance(&mut self, event: RestoreEvent) -> (action: RestoreAction)
        ensures
            (final(self)@, action@) == restore_step(old(self)@, event@),
    {
        match self.step {
            RestoreStep::Finished => {
                let remove: Vec<String> = Vec::new();
                assert(views_of(remove@) =~= Seq::<Seq<char>>::empty());
                return RestoreAction::Finish { result: Err(unexpected_restore()), remove };
            },
            _ => {},
        }
        match (self.step, event) {
            (_, RestoreEvent::Failed(error)) => self.end(Err(error)),
            (RestoreStep::UnpackFull, RestoreEvent::Unpacked { snapshot, append_vec_map }) => {
                self.full = Some(snapshot);
                self.append_vec_map = append_vec_map;
                let incremental_path = match &self.incremental_snapshot_archive_path {
                    Some(path) => Some(path.clone()),
                    None => None,
                };
                match incremental_path {
                    None => self.rebuild(),
                    Some(incremental_path) => match check_are_snapshots_compatible(
                        self.full_snapshot_archive_path.as_str(),
                        incremental_path.as_str(),
                    ) {
                        Err(error) => self.end(Err(error)),
                        Ok(_) => {
                            self.step = RestoreStep::UnpackIncremental;
                            RestoreAction::Unpack {
                                snapshot_path: self.snapshot_path.clone(),
                                unpack_dir_prefix: String::from_str(
                                    TMP_INCREMENTAL_SNAPSHOT_PREFIX,
                                ),
                                archive_path: incremental_path,
                                archive_format: self.archive_format,
                                parallel_divisions: self.parallel_divisions,
                            }
                        },
                    },
                }
            },
            (
                RestoreStep::UnpackIncremental,
                RestoreEvent::Unpacked { snapshot, append_vec_map },
            ) => {
                self.incremental = Some(snapshot);
                self.append_vec_map.extend(append_vec_map);
                self.rebuild()
            },
            (RestoreStep::StatFiles, RestoreEvent::Sizes(sizes)) => {
                match prepare_deserialize_snapshot_data_files(
                    &self.root_paths,
                    sizes,
                    MAX_SNAPSHOT_DATA_FILE_SIZE,
                ) {
                    Err(error) => self.end(Err(error)),
                    Ok(_) => {
                        let snapshot_version = self.snapshot_version;
                        let paths = SnapshotRootPaths {
                            full_snapshot_root_file_path:
                                self.root_paths.full_snapshot_root_file_path.clone(),
                            incremental_snapshot_root_file_path:
                                match &self.root_paths.incremental_snapshot_root_file_path {
                                Some(path) => Some(path.clone()),
                                None => None,
                            },
                        };
                        let mut append_vec_map = UnpackedAppendVecMap::new();
                        std::mem::swap(&mut self.append_vec_map, &mut append_vec_map);
                        self.step = RestoreStep::Deserialize;
                        self.file_sizes = sizes;
                        RestoreAction::DeserializeBank { paths, snapshot_version, append_vec_map }
                    },
                }
            },
            (RestoreStep::Deserialize, RestoreEvent::Sizes(consumed)) => {
                match check_deserialize_snapshot_data_files(
                    &self.root_paths,
                    self.file_sizes,
                    consumed,
                ) {
                    Err(error) => self.end(Err(error)),
                    Ok(_) => {
                        self.step = RestoreStep::StatStatusCache;
                        RestoreAction::StatStatusCache { path: self.status_cache_path.clone() }
                    },
                }
            },
            (RestoreStep::StatStatusCache, RestoreEvent::Size(size)) => {
                match deserialize_snapshot_data_file(self.status_cache_path.as_str(), size) {
                    Err(error) => self.end(Err(error)),
                    Ok(_) => {
                        self.step = RestoreStep::DeserializeStatusCache;
                        self.status_cache_size = size;
                        RestoreAction::DeserializeStatusCache {
                            path: self.status_cache_path.clone(),
                        }
                    },
                }
            },
            (RestoreStep::DeserializeStatusCache, RestoreEvent::Size(consumed)) => {
                match check_deserialize_snapshot_data_file(
                    self.status_cache_size,
                    self.status_cache_path.as_str(),
                    consumed,
                ) {
                    Err(error) => self.end(Err(error)),
                    Ok(_) => {
                        self.step = RestoreStep::Verify;
                        RestoreAction::VerifyBank
                    },
                }
            },
            (RestoreStep::Verify, RestoreEvent::Verified { passed, rebuild_us, verify_us }) => {
                if !passed && self.limit_load_slot_count_from_snapshot.is_none() {
                    self.step = RestoreStep::Finished;
                    RestoreAction::Abort
                } else {
                    let full_us: u64 = match &self.full {
                        Some(full) => full.untar_us,
                        None => 0,
                    };
                    let incremental_us: u64 = match &self.incremental {
                        Some(incremental) => incremental.untar_us,
                        None => 0,
                    };
                    let timings = BankFromArchiveTimings {
                        rebuild_bank_from_snapshots_us: rebuild_us,
                        untar_us: full_us.saturating_add(incremental_us),
                        verify_snapshot_bank_us: verify_us,
                    };
                    self.end(Ok(timings))
                }
            },
            _ => self.end(Err(unexpected_restore())),
        }
    }

    /// Ends the restoring with `result`.
    fn end(&mut self, result: Result<BankFromArchiveTimings, SnapshotError>) -> (action:
        RestoreAction)
        ensures
            (final(self)@, action@) == restore_finish(
                old(self)@,
                match result {
                    Ok(timings) => Ok(timings),
                    Err(error) => Err(error@),
                },
            ),
    {
        let mut remove: Vec<String> = Vec::new();
        match &self.full {
            Some(full) => {
                remove.push(full.unpack_dir.clone());
            },
            None => {},
        }
        match &self.incremental {
            Some(incremental) => {
                remove.push(incremental.unpack_dir.clone());
            },
            None => {},
        }
        assert(views_of(remove@) =~= unpack_dirs(self@));
        self.step = RestoreStep::Finished;
        RestoreAction::Finish { result, remove }
    }

    /// Goes on to the state files, once the archives are unpacked.
    fn rebuild(&mut self) -> (action: RestoreAction)
        ensures
            (final(self)@, action@) == start_rebuild(old(self)@),
    {
        let found = match &self.full {
            None => Err(unexpected_restore()),
            Some(full) => match find_version_and_root(full) {
                Err(error) => Err(error),
                Ok((full_version, full_root, full_dir)) => match &self.incremental {
                    None => Ok(
                        (
                            full_version,
                            full_root.snapshot_file_path,
                            None,
                            join_path(full_dir.as_str(), "status_cache"),
                        ),
                    ),
                    Some(incremental) => match find_version_and_root(incremental) {
                        Err(error) => Err(error),
                        Ok((incremental_version, incremental_root, incremental_dir)) => Ok(
                            (
                                incremental_version,
                                full_root.snapshot_file_path,
                                Some(incremental_root.snapshot_file_path),
                                join_path(incremental_dir.as_str(), "status_cache"),
                            ),
                        ),
                    },
                },
            },
        };
        match found {
            Err(error) => self.end(Err(error)),
            Ok((snapshot_version, full_root, incremental_root, status_cache_path)) => {
                let paths = SnapshotRootPaths {
                    full_snapshot_root_file_path: full_root.clone(),
                    incremental_snapshot_root_file_path: match &incremental_root {
                        Some(path) => Some(path.clone()),
                        None => None,
                    },
                };
                self.step = RestoreStep::StatFiles;
                self.snapshot_version = snapshot_version;
                self.root_paths = SnapshotRootPaths {
                    full_snapshot_root_file_path: full_root,
                    incremental_snapshot_root_file_path: incremental_root,
                };
                self.status_cache_path = status_cache_path;
                RestoreAction::StatFiles { paths }
            },
        }
    }
}

/// Rebuild a bank from a snapshot archive
///
/// Returns the restorer and its first action. The caller carries out each action and
/// hands its end to [`Restorer::advance`], until the action is [`RestoreAction::Finish`]
/// or [`RestoreAction::Abort`]. The number of workers is chosen for this machine.
pub fn bank_from_snapshot_archive(
    snapshot_path: &str,
    snapshot_tar: &str,
    archive_format: ArchiveFormat,
    limit_load_slot_count_from_snapshot: Option<usize>,
) -> (r: (Restorer, RestoreAction))
    ensures
        r.0@.step == RestoreStep::UnpackFull,
        r.0@.snapshot_path == snapshot_path@,
        r.0@.full_snapshot_archive_path == snapshot_tar@,
        r.0@.incremental_snapshot_archive_path is None,
        r.0@.archive_format == archive_format,
        1 <= r.0@.parallel_divisions <= PARALLEL_UNTAR_READERS_DEFAULT,
        r.0@.limit_load_slot_count_from_snapshot == limit_load_slot_count_from_snapshot,
        r.0@.full is None,
        r.0@.incremental is None,
        r.1@ == first_restore_action(r.0@),
{
    Restorer::new(
        snapshot_path,
        snapshot_tar,
        None,
        archive_format,
        parallel_divisions(),
        limit_load_slot_count_from_snapshot,
    )
}

/// Rebuild a bank from full and incremental snapshot archives
///
/// Returns the restorer and its first action, as [`bank_from_snapshot_archive`] does.
pub fn bank_from_incremental_snapshot_archive(
    snapshot_path: &str,
    full_snapshot_archive_path: &str,
    incremental_snapshot_archive_path: &str,
    archive_format: ArchiveFormat,
    limit_load_slot_count_from_snapshot: Option<usize>,
) -> (r: (Restorer, RestoreAction))
    ensures
        r.0@.step == RestoreStep::UnpackFull,
        r.0@.snapshot_path == snapshot_path@,
        r.0@.full_snapshot_archive_path == full_snapshot_archive_path@,
        r.0@.incremental_snapshot_archive_path == Some(incremental_snapshot_archive_path@),
        r.0@.archive_format == archive_format,
        1 <= r.0@.parallel_divisions <= PARALLEL_UNTAR_READERS_DEFAULT,
        r.0@.limit_load_slot_count_from_snapshot == limit_load_slot_count_from_snapshot,
        r.0@.full is None,
        r.0@.incremental is None,
        r.1@ == first_restore_action(r.0@),
{
    Restorer::new(
        snapshot_path,
        full_snapshot_archive_path,
        Some(String::from_str(incremental_snapshot_archive_path)),
        archive_format,
        parallel_divisions(),
        limit_load_slot_count_from_snapshot,
    )
}

/// The error for an answer that does not fit the action.
fn unexpected_restore() -> (error: SnapshotError)
    ensures
        error@ == unexpected_restore_event(),
{
    SnapshotError::Io(String::from_str("unexpected answer to an action of the restorer"))
}

} // verus!
