//! Writing a package to an archive.
//!
//! The archive is written by the caller, one action at a time. The writer says which
//! action comes next, given how the last one ended:
//!
//! 1. the status cache deltas are serialized to a data file beside the state file;
//! 2. the output directory is created, and in it a staging directory whose name starts
//!    with [`TMP_SNAPSHOT_PREFIX`](crate::package::TMP_SNAPSHOT_PREFIX) and the slot;
//! 3. the package's directory of links is linked into the staging directory as
//!    `snapshots`;
//! 4. each storage is flushed and linked into `accounts` under the name `<slot>.<id>`; a
//!    link that does not lead to a file ends the writing;
//! 5. the version is written to the file `version`;
//! 6. `accounts`, `snapshots` and `version` are put into a tar stream, which is compressed
//!    as the format says and written to a temporary file in the output directory;
//! 7. the temporary file is renamed to the archive's name, which makes the archive
//!    visible;
//! 8. old archives are purged from the output directory.
//!
//! Whatever fails ends the writing with its error, but for the purge, whose failure is
//! not passed on. With the last action the caller is told which staging directory to
//! remove.

use vstd::prelude::*;
use vstd::string::StringExecFns;

use crate::archive_format::{archive_ext, get_archive_ext, ArchiveFormat};
use crate::archive_name::{
    parsed_incremental_snapshot_archive_filename, parsed_snapshot_archive_filename, Slot,
};
use crate::data_file::{
    serialize_snapshot_data_file, serialized_within, MAX_SNAPSHOT_DATA_FILE_SIZE,
};
use crate::decimal::{append_decimal, decimal_digits};
use crate::error::{SnapshotError, SnapshotErrorView};
use crate::package::{
    get_snapshot_tmpdir_prefix, snapshot_tmpdir_prefix, AccountsPackage, StorageEntry,
    StorageEntryView,
};
use crate::path::{join_path, joined};
use crate::snapshot_version::{version_string, SnapshotVersion};

verus! {

/// The name of the data file that holds the status cache deltas.
pub const SNAPSHOT_STATUS_CACHE_FILE_NAME: &'static str = "status_cache";

/// Where the writer stands: the action whose end it waits for.
#[derive(Copy, Clone, Debug, PartialEq, Eq, Structural)]
pub enum WriterStep {
    /// The status cache deltas are being serialized.
    StatusCache,
    /// The output directory is being created.
    TarDir,
    /// The staging directory is being created.
    StagingDir,
    /// The directory `accounts` is being created.
    AccountsDir,
    /// The directory of links is being linked as `snapshots`.
    SnapshotsLink,
    /// The storage with this number, counted over all slots, is being linked.
    Storage(usize),
    /// The version file is being written.
    Version,
    /// The tar stream is being produced, compressed and written.
    Tar,
    /// The size of the temporary archive file is being read.
    Metadata,
    /// The temporary archive file is being renamed.
    Rename,
    /// Old archives are being purged.
    Purge,
    /// The writing has ended.
    Finished,
}

/// How an action ended.
#[derive(Debug)]
pub enum WriterEvent {
    /// The action was carried out.
    Done,
    /// The action was carried out and gave a number of bytes: the bytes written of the
    /// status cache, or the size of the archive file.
    Size(u64),
    /// The temporary directory was created at this path.
    TempDir(String),
    /// The storage was flushed and linked; whether the link leads to a file.
    StorageLinked { is_file: bool },
    /// The tar step ended: whether with success, and its exit code, if there is one.
    TarExited { success: bool, code: Option<i32> },
    /// The action failed.
    Failed(SnapshotError),
}

/// The view of a [`WriterEvent`].
pub enum WriterEventView {
    Done,
    Size(u64),
    TempDir(Seq<char>),
    StorageLinked { is_file: bool },
    TarExited { success: bool, code: Option<i32> },
    Failed(SnapshotErrorView),
}

impl View for WriterEvent {
    type V = WriterEventView;

    open spec fn view(&self) -> WriterEventView {
        match self {
            WriterEvent::Done => WriterEventView::Done,
            WriterEvent::Size(size) => WriterEventView::Size(*size),
            WriterEvent::TempDir(path) => WriterEventView::TempDir(path@),
            WriterEvent::StorageLinked { is_file } => WriterEventView::StorageLinked {
                is_file: *is_file,
            },
            WriterEvent::TarExited { success, code } => WriterEventView::TarExited {
                success: *success,
                code: *code,
            },
            WriterEvent::Failed(error) => WriterEventView::Failed(error@),
        }
    }
}

/// What is reported of an archive that was written.
#[derive(Copy, Clone, Debug, PartialEq, Eq, Structural)]
pub struct ArchiveReport {
    pub slot: Slot,
    /// The size of the archive file in bytes.
    pub size: u64,
}

/// What the caller is to do next.
#[derive(Debug)]
pub enum WriterAction {
    /// Serialize the status cache deltas to the file at `path`, and answer with the
    /// number of bytes written.
    SerializeStatusCache { path: String },
    /// Create the directory at `path` and the directories above it.
    CreateDirAll { path: String },
    /// Create a temporary directory in `dir` whose name starts with `prefix`, and answer
    /// with its path.
    CreateTempDir { dir: String, prefix: String },
    /// Make `target` a link to the directory `source`.
    SymlinkDir { source: String, target: String },
    /// Flush the storage with the number `index`, make `target` a link to its file at
    /// `source`, and answer whether the link leads to a file.
    LinkStorage { index: usize, source: String, target: String },
    /// Write `contents` to a new file at `path`.
    WriteFile { path: String, contents: String },
    /// Put `accounts`, `snapshots` and `version` of `staging_dir` into a tar stream with
    /// sparse files kept sparse, compress the stream as `archive_format` says, write it
    /// to `archive_path`, and answer how the tar step ended.
    RunTar { staging_dir: String, archive_path: String, archive_format: ArchiveFormat },
    /// Answer with the size of the file at `path`.
    Metadata { path: String },
    /// Rename the file `from` to `to`.
    Rename { from: String, to: String },
    /// Purge the old archives of `dir`.
    Purge { dir: String, maximum_snapshots_to_retain: usize },
    /// Nothing more: the writing has ended with `result`. Remove the staging directory
    /// `remove`, if there is one.
    Finish { result: Result<ArchiveReport, SnapshotError>, remove: Option<String> },
}

/// The view of a [`WriterAction`].
pub enum WriterActionView {
    SerializeStatusCache { path: Seq<char> },
    CreateDirAll { path: Seq<char> },
    CreateTempDir { dir: Seq<char>, prefix: Seq<char> },
    SymlinkDir { source: Seq<char>, target: Seq<char> },
    LinkStorage { index: usize, source: Seq<char>, target: Seq<char> },
    WriteFile { path: Seq<char>, contents: Seq<char> },
    RunTar { staging_dir: Seq<char>, archive_path: Seq<char>, archive_format: ArchiveFormat },
    Metadata { path: Seq<char> },
    Rename { from: Seq<char>, to: Seq<char> },
    Purge { dir: Seq<char>, maximum_snapshots_to_retain: usize },
    Finish { result: Result<ArchiveReport, SnapshotErrorView>, remove: Option<Seq<char>> },
}

impl View for WriterAction {
    type V = WriterActionView;

    open spec fn view(&self) -> WriterActionView {
        match self {
            WriterAction::SerializeStatusCache { path } => WriterActionView::SerializeStatusCache {
                path: path@,
            },
            WriterAction::CreateDirAll { path } => WriterActionView::CreateDirAll { path: path@ },
            WriterAction::CreateTempDir { dir, prefix } => WriterActionView::CreateTempDir {
                dir: dir@,
                prefix: prefix@,
            },
            WriterAction::SymlinkDir { source, target } => WriterActionView::SymlinkDir {
                source: source@,
                target: target@,
            },
            WriterAction::LinkStorage { index, source, target } => WriterActionView::LinkStorage {
                index: *index,
                source: source@,
                target: target@,
            },
            WriterAction::WriteFile { path, contents } => WriterActionView::WriteFile {
                path: path@,
                contents: contents@,
            },
            WriterAction::RunTar { staging_dir, archive_path, archive_format } =>
                WriterActionView::RunTar {
                staging_dir: staging_dir@,
                archive_path: archive_path@,
                archive_format: *archive_format,
            },
            WriterAction::Metadata { path } => WriterActionView::Metadata { path: path@ },
            WriterAction::Rename { from, to } => WriterActionView::Rename { from: from@, to: to@ },
            WriterAction::Purge { dir, maximum_snapshots_to_retain } => WriterActionView::Purge {
                dir: dir@,
                maximum_snapshots_to_retain: *maximum_snapshots_to_retain,
            },
            WriterAction::Finish { result, remove } => WriterActionView::Finish {
                result: match result {
                    Ok(report) => Ok(*report),
                    Err(error) => Err(error@),
                },
                remove: match remove {
                    Some(dir) => Some(dir@),
                    None => None,
                },
            },
        }
    }
}

/// The writer of one archive.
#[derive(Debug)]
pub struct ArchiveWriter {
    step: WriterStep,
    slot: Slot,
    snapshot_links: String,
    storages: Vec<StorageEntry>,
    snapshot_version: SnapshotVersion,
    archive_format: ArchiveFormat,
    tar_dir: String,
    tar_output_file: String,
    maximum_snapshots_to_retain: usize,
    staging_dir: Option<String>,
    archive_size: u64,
}

/// The view of an [`ArchiveWriter`]: where it stands, and what it knows of the package.
pub struct ArchiveWriterView {
    pub step: WriterStep,
    pub slot: Slot,
    pub snapshot_links: Seq<char>,
    /// The storages of all slots, in their order.
    pub storages: Seq<StorageEntryView>,
    pub snapshot_version: SnapshotVersion,
    pub archive_format: ArchiveFormat,
    /// The output directory.
    pub tar_dir: Seq<char>,
    /// The path of the archive.
    pub tar_output_file: Seq<char>,
    pub maximum_snapshots_to_retain: usize,
    /// The staging directory, once it has been created.
    pub staging_dir: Option<Seq<char>>,
    /// The size of the archive file, once it has been read.
    pub archive_size: u64,
}

impl View for ArchiveWriter {
    type V = ArchiveWriterView;

    closed spec fn view(&self) -> ArchiveWriterView {
        ArchiveWriterView {
            step: self.step,
            slot: self.slot,
            snapshot_links: self.snapshot_links@,
            storages: storage_views(self.storages@),
            snapshot_version: self.snapshot_version,
            archive_format: self.archive_format,
            tar_dir: self.tar_dir@,
            tar_output_file: self.tar_output_file@,
            maximum_snapshots_to_retain: self.maximum_snapshots_to_retain,
            staging_dir: match self.staging_dir {
                Some(dir) => Some(dir@),
                None => None,
            },
            archive_size: self.archive_size,
        }
    }
}

/// The views of storages.
pub open spec fn storage_views(storages: Seq<StorageEntry>) -> Seq<StorageEntryView> {
    Seq::new(storages.len(), |i: int| storages[i]@)
}

/// The storages of all slots, one slot after the other.
pub open spec fn flattened(storages: Seq<Vec<StorageEntry>>) -> Seq<StorageEntryView>
    decreases storages.len(),
{
    if storages.len() == 0 {
        Seq::empty()
    } else {
        flattened(storages.drop_last()) + storage_views(storages.last()@)
    }
}

/// The path of the status cache file of a package.
pub open spec fn status_cache_path(snapshot_links: Seq<char>) -> Seq<char> {
    joined(snapshot_links, "status_cache"@)
}

/// The name under which a storage stands in an archive: `<slot>.<id>`.
pub open spec fn storage_file_name(slot: Slot, append_vec_id: usize) -> Seq<char> {
    decimal_digits(slot as nat) + "."@ + decimal_digits(append_vec_id as nat)
}

/// The name of the temporary file to which the archive is written:
/// `tmp-snapshot-<slot>.<ext>`.
pub open spec fn tmp_archive_name(slot: Slot, archive_format: ArchiveFormat) -> Seq<char> {
    "tmp-snapshot-"@ + decimal_digits(slot as nat) + "."@ + archive_ext(archive_format)
}

/// The staging directory of the writer, or the empty path before there is one.
pub open spec fn staging_of(w: ArchiveWriterView) -> Seq<char> {
    match w.staging_dir {
        Some(dir) => dir,
        None => Seq::empty(),
    }
}

/// The path of the temporary file to which the archive is written.
pub open spec fn tmp_archive_path(w: ArchiveWriterView) -> Seq<char> {
    joined(w.tar_dir, tmp_archive_name(w.slot, w.archive_format))
}

/// The writer at the given step, and otherwise as it is.
pub open spec fn at_step(w: ArchiveWriterView, step: WriterStep) -> ArchiveWriterView {
    ArchiveWriterView { step, ..w }
}

/// The end of the writing with `result`.
pub open spec fn finish(
    w: ArchiveWriterView,
    result: Result<ArchiveReport, SnapshotErrorView>,
) -> (ArchiveWriterView, WriterActionView) {
    (
        at_step(w, WriterStep::Finished),
        WriterActionView::Finish { result, remove: w.staging_dir },
    )
}

/// The error for an answer that does not fit the action.
pub open spec fn unexpected_event() -> SnapshotErrorView {
    SnapshotErrorView::Io("unexpected answer to an action of the archive writer"@)
}

/// What follows when the storages before number `index` are linked: the link of the
/// storage with that number, or, when there is none, the version file.
pub open spec fn link_from(w: ArchiveWriterView, index: int) -> (
    ArchiveWriterView,
    WriterActionView,
) {
    if 0 <= index < w.storages.len() && index <= usize::MAX {
        (
            at_step(w, WriterStep::Storage(index as usize)),
            WriterActionView::LinkStorage {
                index: index as usize,
                source: w.storages[index].path,
                target: joined(
                    joined(staging_of(w), "accounts"@),
                    storage_file_name(w.storages[index].slot, w.storages[index].append_vec_id),
                ),
            },
        )
    } else {
        (
            at_step(w, WriterStep::Version),
            WriterActionView::WriteFile {
                path: joined(staging_of(w), "version"@),
                contents: version_string(w.snapshot_version),
            },
        )
    }
}

/// The first action of a writer: to serialize the status cache.
pub open spec fn first_action(w: ArchiveWriterView) -> WriterActionView {
    WriterActionView::SerializeStatusCache { path: status_cache_path(w.snapshot_links) }
}

/// The writer after an action has ended with `event`, and the action that comes next.
pub open spec fn writer_step(w: ArchiveWriterView, event: WriterEventView) -> (
    ArchiveWriterView,
    WriterActionView,
) {
    match (w.step, event) {
        (WriterStep::Finished, _) => (
            w,
            WriterActionView::Finish { result: Err(unexpected_event()), remove: None },
        ),
        (WriterStep::Purge, _) => finish(
            w,
            Ok(ArchiveReport { slot: w.slot, size: w.archive_size }),
        ),
        (_, WriterEventView::Failed(error)) => finish(w, Err(error)),
        (WriterStep::StatusCache, WriterEventView::Size(consumed_size)) => match serialized_within(
            status_cache_path(w.snapshot_links),
            MAX_SNAPSHOT_DATA_FILE_SIZE,
            consumed_size,
        ) {
            Err(error) => finish(w, Err(error)),
            Ok(_) => (
                at_step(w, WriterStep::TarDir),
                WriterActionView::CreateDirAll { path: w.tar_dir },
            ),
        },
        (WriterStep::TarDir, WriterEventView::Done) => (
            at_step(w, WriterStep::StagingDir),
            WriterActionView::CreateTempDir {
                dir: w.tar_dir,
                prefix: snapshot_tmpdir_prefix(w.slot),
            },
        ),
        (WriterStep::StagingDir, WriterEventView::TempDir(dir)) => (
            ArchiveWriterView { step: WriterStep::AccountsDir, staging_dir: Some(dir), ..w },
            WriterActionView::CreateDirAll { path: joined(dir, "accounts"@) },
        ),
        (WriterStep::AccountsDir, WriterEventView::Done) => (
            at_step(w, WriterStep::SnapshotsLink),
            WriterActionView::SymlinkDir {
                source: w.snapshot_links,
                target: joined(staging_of(w), "snapshots"@),
            },
        ),
        (WriterStep::SnapshotsLink, WriterEventView::Done) => link_from(w, 0),
        (WriterStep::Storage(index), WriterEventView::StorageLinked { is_file }) => if is_file {
            link_from(w, index + 1)
        } else {
            finish(w, Err(SnapshotErrorView::StoragePathSymlinkInvalid))
        },
        (WriterStep::Version, WriterEventView::Done) => (
            at_step(w, WriterStep::Tar),
            WriterActionView::RunTar {
                staging_dir: staging_of(w),
                archive_path: tmp_archive_path(w),
                archive_format: w.archive_format,
            },
        ),
        (WriterStep::Tar, WriterEventView::TarExited { success, code }) => if success {
            (
                at_step(w, WriterStep::Metadata),
                WriterActionView::Metadata { path: tmp_archive_path(w) },
            )
        } else {
            finish(w, Err(SnapshotErrorView::ArchiveGenerationFailure(code)))
        },
        (WriterStep::Metadata, WriterEventView::Size(size)) => (
            ArchiveWriterView { step: WriterStep::Rename, archive_size: size, ..w },
            WriterActionView::Rename { from: tmp_archive_path(w), to: w.tar_output_file },
        ),
        (WriterStep::Rename, WriterEventView::Done) => (
            at_step(w, WriterStep::Purge),
            WriterActionView::Purge {
                dir: w.tar_dir,
                maximum_snapshots_to_retain: w.maximum_snapshots_to_retain,
            },
        ),
        _ => finish(w, Err(unexpected_event())),
    }
}

/// The writer after a run of actions that ended with `events`, one after the other, and
/// the actions that it asked for in answer.
pub open spec fn writer_run(w: ArchiveWriterView, events: Seq<WriterEventView>) -> (
    ArchiveWriterView,
    Seq<WriterActionView>,
)
    decreases events.len(),
{
    if events.len() == 0 {
        (w, Seq::empty())
    } else {
        let (next, action) = writer_step(w, events[0]);
        let (last, actions) = writer_run(next, events.drop_first());
        (last, seq![action] + actions)
    }
}

/// The answers of a run in which every action succeeds: for a package with `storages`
/// storages, a status cache file of `status_cache_size` bytes, the staging directory
/// `staging_dir` and an archive file of `archive_size` bytes.
pub open spec fn success_events(
    storages: nat,
    status_cache_size: u64,
    staging_dir: Seq<char>,
    archive_size: u64,
) -> Seq<WriterEventView> {
    seq![
        WriterEventView::Size(status_cache_size),
        WriterEventView::Done,
        WriterEventView::TempDir(staging_dir),
        WriterEventView::Done,
        WriterEventView::Done,
    ] + linked_events(storages) + seq![
        WriterEventView::Done,
        WriterEventView::TarExited { success: true, code: Some(0i32) },
        WriterEventView::Size(archive_size),
        WriterEventView::Done,
        WriterEventView::Done,
    ]
}

/// The link of the storage with the number `index` into the staging directory.
pub open spec fn link_action(
    w: ArchiveWriterView,
    staging_dir: Seq<char>,
    index: int,
) -> WriterActionView {
    WriterActionView::LinkStorage {
        index: index as usize,
        source: w.storages[index].path,
        target: joined(
            joined(staging_dir, "accounts"@),
            storage_file_name(w.storages[index].slot, w.storages[index].append_vec_id),
        ),
    }
}

/// The actions of a run in which every action succeeds, after the first one: what the
/// writer asks for, in this order, when the archive of a package is written.
pub open spec fn success_actions(
    w: ArchiveWriterView,
    staging_dir: Seq<char>,
    archive_size: u64,
) -> Seq<WriterActionView> {
    seq![
        WriterActionView::CreateDirAll { path: w.tar_dir },
        WriterActionView::CreateTempDir { dir: w.tar_dir, prefix: snapshot_tmpdir_prefix(w.slot) },
        WriterActionView::CreateDirAll { path: joined(staging_dir, "accounts"@) },
        WriterActionView::SymlinkDir {
            source: w.snapshot_links,
            target: joined(staging_dir, "snapshots"@),
        },
    ] + Seq::new(w.storages.len(), |i: int| link_action(w, staging_dir, i)) + seq![
        WriterActionView::WriteFile {
            path: joined(staging_dir, "version"@),
            contents: version_string(w.snapshot_version),
        },
        WriterActionView::RunTar {
            staging_dir,
            archive_path: tmp_archive_path(w),
            archive_format: w.archive_format,
        },
        WriterActionView::Metadata { path: tmp_archive_path(w) },
        WriterActionView::Rename { from: tmp_archive_path(w), to: w.tar_output_file },
        WriterActionView::Purge {
            dir: w.tar_dir,
            maximum_snapshots_to_retain: w.maximum_snapshots_to_retain,
        },
        WriterActionView::Finish {
            result: Ok(ArchiveReport { slot: w.slot, size: archive_size }),
            remove: Some(staging_dir),
        },
    ]
}

/// A run of two parts is the run of the first part, followed by the run of the second
/// part from where the first one ended.
pub proof fn lemma_writer_run_concat(
    w: ArchiveWriterView,
    first: Seq<WriterEventView>,
    second: Seq<WriterEventView>,
)
    ensures
        writer_run(w, first + second).0 == writer_run(writer_run(w, first).0, second).0,
        writer_run(w, first + second).1 == writer_run(w, first).1 + writer_run(
            writer_run(w, first).0,
            second,
        ).1,
    decreases first.len(),
{
    if first.len() == 0 {
        assert(first + second =~= second);
        assert(writer_run(w, first).1 + writer_run(w, second).1 =~= writer_run(w, second).1);
    } else {
        let (next, action) = writer_step(w, first[0]);
        assert((first + second)[0] == first[0]);
        assert((first + second).drop_first() =~= first.drop_first() + second);
        lemma_writer_run_concat(next, first.drop_first(), second);
        let rest = writer_run(next, first.drop_first());
        assert(seq![action] + (rest.1 + writer_run(rest.0, second).1) =~= (seq![action] + rest.1)
            + writer_run(rest.0, second).1);
    }
}

/// A run begins with the step that its first event brings, and goes on from there.
pub proof fn lemma_writer_run_first(
    w: ArchiveWriterView,
    event: WriterEventView,
    rest: Seq<WriterEventView>,
)
    ensures
        writer_run(w, seq![event] + rest).0 == writer_run(writer_step(w, event).0, rest).0,
        writer_run(w, seq![event] + rest).1 == seq![writer_step(w, event).1] + writer_run(
            writer_step(w, event).0,
            rest,
        ).1,
{
    let events = seq![event] + rest;
    assert(events[0] == event);
    assert(events.drop_first() =~= rest);
}

/// As many answers that a link leads to a file.
pub open spec fn linked_events(count: nat) -> Seq<WriterEventView> {
    Seq::new(count, |i: int| WriterEventView::StorageLinked { is_file: true })
}

/// The links of the storages from the number `from` on, and then the version file.
pub open spec fn links_from(w: ArchiveWriterView, staging_dir: Seq<char>, from: int) -> Seq<
    WriterActionView,
> {
    Seq::new((w.storages.len() - from) as nat, |i: int| link_action(w, staging_dir, from + i)).push(
        version_action(w, staging_dir),
    )
}

/// The writing of the version file.
pub open spec fn version_action(w: ArchiveWriterView, staging_dir: Seq<char>) -> WriterActionView {
    WriterActionView::WriteFile {
        path: joined(staging_dir, "version"@),
        contents: version_string(w.snapshot_version),
    }
}

/// While every link leads to a file, the writer links one storage after the other, and
/// then goes on to the version file.
proof fn lemma_links_run(w: ArchiveWriterView, staging_dir: Seq<char>, index: int)
    requires
        w.staging_dir == Some(staging_dir),
        w.storages.len() <= usize::MAX,
        0 <= index <= w.storages.len(),
    ensures
        ({
            let start = link_from(w, index);
            let run = writer_run(start.0, linked_events((w.storages.len() - index) as nat));
            &&& run.0 == at_step(w, WriterStep::Version)
            &&& seq![start.1] + run.1 == links_from(w, staging_dir, index)
        }),
    decreases w.storages.len() - index,
{
    let count = (w.storages.len() - index) as nat;
    let start = link_from(w, index);
    let events = linked_events(count);
    if index < w.storages.len() {
        let linked = WriterEventView::StorageLinked { is_file: true };
        let rest_events = linked_events((count - 1) as nat);
        assert(events =~= seq![linked] + rest_events);
        lemma_writer_run_first(start.0, linked, rest_events);
        assert(start.0.step == WriterStep::Storage(index as usize));
        assert(writer_step(start.0, linked) == link_from(start.0, index + 1));
        assert(link_from(start.0, index + 1) == link_from(w, index + 1));
        lemma_links_run(w, staging_dir, index + 1);
        let next = link_from(w, index + 1);
        let rest = writer_run(next.0, rest_events);
        assert(start.1 == link_action(w, staging_dir, index));
        assert(seq![start.1] + (seq![next.1] + rest.1) =~= links_from(w, staging_dir, index)) by {
            let tail = links_from(w, staging_dir, index + 1);
            assert(seq![next.1] + rest.1 == tail);
            let whole = links_from(w, staging_dir, index);
            assert forall|i: int| 1 <= i < whole.len() implies #[trigger] whole[i] == tail[i
                - 1] by {}
        }
    } else {
        assert(events.len() == 0);
        assert(start.1 == version_action(w, staging_dir));
        assert(seq![start.1] + Seq::<WriterActionView>::empty() =~= links_from(
            w,
            staging_dir,
            index,
        ));
    }
}

/// When every action succeeds, the writer asks for the actions of [`success_actions`], in
/// their order, and ends with the report of the archive.
pub proof fn lemma_success_run(
    w: ArchiveWriterView,
    status_cache_size: u64,
    staging_dir: Seq<char>,
    archive_size: u64,
)
    requires
        w.step == WriterStep::StatusCache,
        w.staging_dir is None,
        w.storages.len() <= usize::MAX,
        status_cache_size <= MAX_SNAPSHOT_DATA_FILE_SIZE,
    ensures
        ({
            let run = writer_run(
                w,
                success_events(w.storages.len(), status_cache_size, staging_dir, archive_size),
            );
            &&& run.0.step == WriterStep::Finished
            &&& run.1 == success_actions(w, staging_dir, archive_size)
        }),
{
    let e1 = WriterEventView::Size(status_cache_size);
    let e2 = WriterEventView::Done;
    let e3 = WriterEventView::TempDir(staging_dir);
    let links = linked_events(w.storages.len());
    let t2 = WriterEventView::TarExited { success: true, code: Some(0i32) };
    let t3 = WriterEventView::Size(archive_size);
    let tail = seq![e2, t2, t3, e2, e2];
    let all = success_events(w.storages.len(), status_cache_size, staging_dir, archive_size);
    let s1 = writer_step(w, e1);
    let s2 = writer_step(s1.0, e2);
    let s3 = writer_step(s2.0, e3);
    let s4 = writer_step(s3.0, e2);
    let s5 = writer_step(s4.0, e2);
    let staged = s4.0;
    assert(s5 == link_from(staged, 0));
    // the storages are linked
    lemma_links_run(staged, staging_dir, 0);
    let linked = writer_run(s5.0, links);
    assert(linked.0 == at_step(staged, WriterStep::Version));
    // the archive is written, renamed, and the old ones are purged
    let u1 = writer_step(linked.0, e2);
    let u2 = writer_step(u1.0, t2);
    let u3 = writer_step(u2.0, t3);
    let u4 = writer_step(u3.0, e2);
    let u5 = writer_step(u4.0, e2);
    let none = Seq::<WriterEventView>::empty();
    lemma_writer_run_first(u4.0, e2, none);
    lemma_writer_run_first(u3.0, e2, seq![e2] + none);
    lemma_writer_run_first(u2.0, t3, seq![e2] + (seq![e2] + none));
    lemma_writer_run_first(u1.0, t2, seq![t3] + (seq![e2] + (seq![e2] + none)));
    lemma_writer_run_first(linked.0, e2, seq![t2] + (seq![t3] + (seq![e2] + (seq![e2] + none))));
    assert(tail =~= seq![e2] + (seq![t2] + (seq![t3] + (seq![e2] + (seq![e2] + none)))));
    let ended = writer_run(linked.0, tail);
    assert(ended.0 == u5.0);
    assert(ended.1 =~= seq![u1.1, u2.1, u3.1, u4.1, u5.1]);
    lemma_writer_run_concat(s5.0, links, tail);
    let after = writer_run(s5.0, links + tail);
    lemma_writer_run_first(s4.0, e2, links + tail);
    lemma_writer_run_first(s3.0, e2, seq![e2] + (links + tail));
    lemma_writer_run_first(s2.0, e3, seq![e2] + (seq![e2] + (links + tail)));
    lemma_writer_run_first(s1.0, e2, seq![e3] + (seq![e2] + (seq![e2] + (links + tail))));
    lemma_writer_run_first(w, e1, seq![e2] + (seq![e3] + (seq![e2] + (seq![e2] + (links + tail)))));
    assert(all =~= seq![e1] + (seq![e2] + (seq![e3] + (seq![e2] + (seq![e2] + (links + tail))))));
    let run = writer_run(w, all);
    assert(run.0 == u5.0);
    assert(run.1 =~= seq![s1.1, s2.1, s3.1, s4.1] + (seq![s5.1] + linked.1) + ended.1);
    assert(seq![s5.1] + linked.1 == links_from(staged, staging_dir, 0));
    assert forall|i: int| #[trigger]
        link_action(staged, staging_dir, i) == link_action(w, staging_dir, i) by {}
    assert(tmp_archive_path(linked.0) == tmp_archive_path(w));
    assert(run.1 =~= success_actions(w, staging_dir, archive_size));
}

/// Old archives are purged only when the new archive has been renamed to its name, and
/// the archive is renamed only when the tar step has ended with success and the size of
/// the file has been read: an archive is visible only when it is complete, and the purge
/// sees it.
pub proof fn lemma_purge_follows_rename(w: ArchiveWriterView, event: WriterEventView)
    ensures
        writer_step(w, event).1 is Purge ==> w.step == WriterStep::Rename && event
            == WriterEventView::Done,
        writer_step(w, event).1 is Rename ==> w.step == WriterStep::Metadata && event is Size,
        writer_step(w, event).1 is Metadata ==> w.step == WriterStep::Tar && (
        event matches WriterEventView::TarExited { success, .. } && success),
{
}

/// Whatever fails before the purge ends the writing with the error of the failure. A
/// link to a storage that does not lead to a file ends it too, and so does a tar step
/// that ended without success, with its exit code. The purge is the last step: however
/// it ends, the archive was written.
pub proof fn lemma_failures_end_the_writing(w: ArchiveWriterView, event: WriterEventView)
    requires
        w.step != WriterStep::Finished,
    ensures
        w.step != WriterStep::Purge ==> (event matches WriterEventView::Failed(error)
            ==> writer_step(w, event) == finish(w, Err(error))),
        w.step is Storage ==> (event == (WriterEventView::StorageLinked { is_file: false })
            ==> writer_step(w, event) == finish(
            w,
            Err(SnapshotErrorView::StoragePathSymlinkInvalid),
        )),
        w.step == WriterStep::Tar ==> (event matches WriterEventView::TarExited { success, code }
            ==> !success ==> writer_step(w, event) == finish(
            w,
            Err(SnapshotErrorView::ArchiveGenerationFailure(code)),
        )),
        w.step == WriterStep::StatusCache ==> (event matches WriterEventView::Size(size) ==> size
            > MAX_SNAPSHOT_DATA_FILE_SIZE ==> writer_step(w, event).1 is Finish && writer_step(
            w,
            event,
        ).1->result is Err),
        w.step == WriterStep::Purge ==> writer_step(w, event) == finish(
            w,
            Ok(ArchiveReport { slot: w.slot, size: w.archive_size }),
        ),
{
}

/// The staging directory is known from its creation on, and the last action of the
/// writer names it: on every way to the end the caller is told to remove it.
pub proof fn lemma_staging_dir_is_released(w: ArchiveWriterView, event: WriterEventView)
    requires
        w.step != WriterStep::Finished,
    ensures
        w.staging_dir is Some ==> writer_step(w, event).0.staging_dir == w.staging_dir
            || w.step == WriterStep::StagingDir,
        writer_step(w, event).1 matches WriterActionView::Finish { remove, .. } ==> remove
            == w.staging_dir,
        writer_step(w, event).0.step == WriterStep::Finished <==> writer_step(w, event).1 is Finish,
{
}

/// No name that starts with the prefix of temporary files is the name of a snapshot
/// archive: what is being written is never taken for an archive, and never purged.
pub proof fn lemma_tmp_names_are_no_archives(rest: Seq<char>)
    ensures
        parsed_snapshot_archive_filename("tmp-snapshot-"@ + rest) is None,
        parsed_incremental_snapshot_archive_filename("tmp-snapshot-"@ + rest) is None,
        parsed_snapshot_archive_filename("tmp-incremental-snapshot-"@ + rest) is None,
        parsed_incremental_snapshot_archive_filename("tmp-incremental-snapshot-"@ + rest) is None,
{
    reveal_strlit("tmp-snapshot-");
    reveal_strlit("tmp-incremental-snapshot-");
    reveal_strlit("snapshot-");
    reveal_strlit("incremental-snapshot-");
    let a = "tmp-snapshot-"@ + rest;
    let b = "tmp-incremental-snapshot-"@ + rest;
    assert(a[0] == 't');
    assert(b[0] == 't');
    assert("snapshot-"@[0] == 's');
    assert("incremental-snapshot-"@[0] == 'i');
    if a.len() >= 9 {
        assert(a.subrange(0, 9)[0] == 't');
    }
    if a.len() >= 21 {
        assert(a.subrange(0, 21)[0] == 't');
    }
    if b.len() >= 9 {
        assert(b.subrange(0, 9)[0] == 't');
    }
    if b.len() >= 21 {
        assert(b.subrange(0, 21)[0] == 't');
    }
}

/// The storages of a package in one list.
fn flatten(storages: &Vec<Vec<StorageEntry>>) -> (r: Vec<StorageEntry>)
    ensures
        storage_views(r@) == flattened(storages@),
{
    let mut r: Vec<StorageEntry> = Vec::new();
    let mut i: usize = 0;
    assert(storages@.take(0) =~= Seq::<Vec<StorageEntry>>::empty());
    while i < storages.len()
        invariant
            i <= storages@.len(),
            storage_views(r@) == flattened(storages@.take(i as int)),
        decreases storages@.len() - i,
    {
        let storage = &storages[i];
        let ghost before = storage_views(r@);
        let mut j: usize = 0;
        while j < storage.len()
            invariant
                j <= storage@.len(),
                storage_views(r@) == before + storage_views(storage@.take(j as int)),
            decreases storage@.len() - j,
        {
            let ghost sofar = storage_views(r@);
            r.push(
                StorageEntry {
                    slot: storage[j].slot,
                    append_vec_id: storage[j].append_vec_id,
                    path: storage[j].path.clone(),
                },
            );
            proof {
                assert(storage_views(r@) =~= sofar.push(storage@[j as int]@));
                assert(storage_views(storage@.take(j + 1)) =~= storage_views(
                    storage@.take(j as int),
                ).push(storage@[j as int]@));
            }
            j += 1;
        }
        proof {
            assert(storage@.take(j as int) =~= storage@);
            assert(storages@.take(i + 1).drop_last() =~= storages@.take(i as int));
            assert(storages@.take(i + 1).last() == storages@[i as int]);
        }
        i += 1;
    }
    assert(storages@.take(i as int) =~= storages@);
    r
}

impl ArchiveWriter {
    /// The writer of the archive of `snapshot_package`, and its first action.
    pub fn new<D>(
        snapshot_package: &AccountsPackage<D>,
        maximum_snapshots_to_retain: usize,
    ) -> (r: (ArchiveWriter, WriterAction))
        ensures
            r.0@ == (ArchiveWriterView {
                step: WriterStep::StatusCache,
                slot: snapshot_package.slot,
                snapshot_links: snapshot_package.snapshot_links@,
                storages: flattened(snapshot_package.storages@),
                snapshot_version: snapshot_package.snapshot_version,
                archive_format: snapshot_package.archive_format,
                tar_dir: snapshot_package.snapshot_output_dir@,
                tar_output_file: snapshot_package.tar_output_file@,
                maximum_snapshots_to_retain,
                staging_dir: None,
                archive_size: 0,
            }),
            r.1@ == first_action(r.0@),
    {
        let writer = ArchiveWriter {
            step: WriterStep::StatusCache,
            slot: snapshot_package.slot,
            snapshot_links: snapshot_package.snapshot_links.clone(),
            storages: flatten(&snapshot_package.storages),
            snapshot_version: snapshot_package.snapshot_version,
            archive_format: snapshot_package.archive_format,
            tar_dir: snapshot_package.snapshot_output_dir.clone(),
            tar_output_file: snapshot_package.tar_output_file.clone(),
            maximum_snapshots_to_retain,
            staging_dir: None,
            archive_size: 0,
        };
        let path = join_path(writer.snapshot_links.as_str(), SNAPSHOT_STATUS_CACHE_FILE_NAME);
        (writer, WriterAction::SerializeStatusCache { path })
    }

    /// Where the writer stands.
    pub fn step(&self) -> (step: WriterStep)
        ensures
            step == self@.step,
    {
        self.step
    }

    /// Whether the writing has ended.
    pub fn is_finished(&self) -> (r: bool)
        ensures
            r == (self@.step == WriterStep::Finished),
    {
        match self.step {
            WriterStep::Finished => true,
            _ => false,
        }
    }

    /// Takes in how the last action ended, and says which action comes next.
    pub fn advance(&mut self, event: WriterEvent) -> (action: WriterAction)
        ensures
            (final(self)@, action@) == writer_step(old(self)@, event@),
    {
        match self.step {
            WriterStep::Finished => {
                return WriterAction::Finish { result: Err(unexpected()), remove: None };
            },
            WriterStep::Purge => {
                return self.end(Ok(ArchiveReport { slot: self.slot, size: self.archive_size }));
            },
            _ => {},
        }
        match (self.step, event) {
            (_, WriterEvent::Failed(error)) => self.end(Err(error)),
            (WriterStep::StatusCache, WriterEvent::Size(consumed_size)) => {
                let path = join_path(
                    self.snapshot_links.as_str(),
                    SNAPSHOT_STATUS_CACHE_FILE_NAME,
                );
                match serialize_snapshot_data_file(path.as_str(), consumed_size) {
                    Err(error) => self.end(Err(error)),
                    Ok(_) => {
                        self.step = WriterStep::TarDir;
                        WriterAction::CreateDirAll { path: self.tar_dir.clone() }
                    },
                }
            },
            (WriterStep::TarDir, WriterEvent::Done) => {
                self.step = WriterStep::StagingDir;
                WriterAction::CreateTempDir {
                    dir: self.tar_dir.clone(),
                    prefix: get_snapshot_tmpdir_prefix(self.slot),
                }
            },
            (WriterStep::StagingDir, WriterEvent::TempDir(dir)) => {
                let path = join_path(dir.as_str(), "accounts");
                self.step = WriterStep::AccountsDir;
                self.staging_dir = Some(dir);
                WriterAction::CreateDirAll { path }
            },
            (WriterStep::AccountsDir, WriterEvent::Done) => {
                let staging = self.staging();
                self.step = WriterStep::SnapshotsLink;
                WriterAction::SymlinkDir {
                    source: self.snapshot_links.clone(),
                    target: join_path(staging.as_str(), "snapshots"),
                }
            },
            (WriterStep::SnapshotsLink, WriterEvent::Done) => self.link(0),
            (WriterStep::Storage(index), WriterEvent::StorageLinked { is_file }) => {
                if is_file {
                    if index == usize::MAX {
                        self.link_none()
                    } else {
                        self.link(index + 1)
                    }
                } else {
                    self.end(Err(SnapshotError::StoragePathSymlinkInvalid))
                }
            },
            (WriterStep::Version, WriterEvent::Done) => {
                let staging_dir = self.staging();
                let archive_path = self.archive_path();
                self.step = WriterStep::Tar;
                WriterAction::RunTar {
                    staging_dir,
                    archive_path,
                    archive_format: self.archive_format,
                }
            },
            (WriterStep::Tar, WriterEvent::TarExited { success, code }) => {
                if success {
                    let path = self.archive_path();
                    self.step = WriterStep::Metadata;
                    WriterAction::Metadata { path }
                } else {
                    self.end(Err(SnapshotError::ArchiveGenerationFailure(code)))
                }
            },
            (WriterStep::Metadata, WriterEvent::Size(size)) => {
                let from = self.archive_path();
                self.step = WriterStep::Rename;
                self.archive_size = size;
                WriterAction::Rename { from, to: self.tar_output_file.clone() }
            },
            (WriterStep::Rename, WriterEvent::Done) => {
                self.step = WriterStep::Purge;
                WriterAction::Purge {
                    dir: self.tar_dir.clone(),
                    maximum_snapshots_to_retain: self.maximum_snapshots_to_retain,
                }
            },
            _ => self.end(Err(unexpected())),
        }
    }

    /// Ends the writing with `result`.
    fn end(&mut self, result: Result<ArchiveReport, SnapshotError>) -> (action: WriterAction)
        ensures
            (final(self)@, action@) == finish(
                old(self)@,
                match result {
                    Ok(report) => Ok(report),
                    Err(error) => Err(error@),
                },
            ),
    {
        self.step = WriterStep::Finished;
        let remove = match &self.staging_dir {
            Some(dir) => Some(dir.clone()),
            None => None,
        };
        WriterAction::Finish { result, remove }
    }

    /// The staging directory, or the empty path before there is one.
    fn staging(&self) -> (dir: String)
        ensures
            dir@ == staging_of(self@),
    {
        match &self.staging_dir {
            Some(dir) => dir.clone(),
            None => String::new(),
        }
    }

    /// The path of the temporary file to which the archive is written.
    fn archive_path(&self) -> (path: String)
        ensures
            path@ == tmp_archive_path(self@),
    {
        let mut name = String::from_str("tmp-snapshot-");
        append_decimal(&mut name, self.slot);
        name.append(".");
        name.append(get_archive_ext(self.archive_format));
        join_path(self.tar_dir.as_str(), name.as_str())
    }

    /// Goes on to the link of the storage with the number `index`, or to the version file
    /// when there is no such storage.
    fn link(&mut self, index: usize) -> (action: WriterAction)
        ensures
            (final(self)@, action@) == link_from(old(self)@, index as int),
    {
        if index < self.storages.len() {
            let staging = self.staging();
            let accounts = join_path(staging.as_str(), "accounts");
            let storage = &self.storages[index];
            let mut name = String::new();
            append_decimal(&mut name, storage.slot);
            name.append(".");
            append_decimal(&mut name, storage.append_vec_id as u64);
            assert(name@ =~= storage_file_name(storage.slot, storage.append_vec_id));
            let action = WriterAction::LinkStorage {
                index,
                source: storage.path.clone(),
                target: join_path(accounts.as_str(), name.as_str()),
            };
            self.step = WriterStep::Storage(index);
            action
        } else {
            self.link_none()
        }
    }

    /// Goes on to the version file.
    fn link_none(&mut self) -> (action: WriterAction)
        ensures
            final(self)@ == at_step(old(self)@, WriterStep::Version),
            action@ == (WriterActionView::WriteFile {
                path: joined(staging_of(old(self)@), "version"@),
                contents: version_string(old(self)@.snapshot_version),
            }),
    {
        let staging = self.staging();
        self.step = WriterStep::Version;
        WriterAction::WriteFile {
            path: join_path(staging.as_str(), "version"),
            contents: String::from_str(self.snapshot_version.as_str()),
        }
    }
}

/// Make a snapshot archive out of the AccountsPackage
///
/// Returns the writer of the archive and its first action. The caller carries out each
/// action and hands its end to [`ArchiveWriter::advance`], until the action is
/// [`WriterAction::Finish`].
pub fn archive_snapshot_package<D>(
    snapshot_package: &AccountsPackage<D>,
    maximum_snapshots_to_retain: usize,
) -> (r: (ArchiveWriter, WriterAction))
    ensures
        r.0@ == (ArchiveWriterView {
            step: WriterStep::StatusCache,
            slot: snapshot_package.slot,
            snapshot_links: snapshot_package.snapshot_links@,
            storages: flattened(snapshot_package.storages@),
            snapshot_version: snapshot_package.snapshot_version,
            archive_format: snapshot_package.archive_format,
            tar_dir: snapshot_package.snapshot_output_dir@,
            tar_output_file: snapshot_package.tar_output_file@,
            maximum_snapshots_to_retain,
            staging_dir: None,
            archive_size: 0,
        }),
        r.1@ == first_action(r.0@),
{
    ArchiveWriter::new(snapshot_package, maximum_snapshots_to_retain)
}

/// The arguments of the `tar` program for the staging directory `staging_dir`: the
/// entries `accounts`, `snapshots` and `version` of that directory are put into a stream
/// on the standard output, links are followed, and sparse files are kept sparse.
pub open spec fn tar_args(staging_dir: Seq<char>) -> Seq<Seq<char>> {
    seq!["chS"@, "-C"@, staging_dir, "accounts"@, "snapshots"@, "version"@]
}

/// The arguments of the `tar` program for the staging directory `staging_dir`.
pub fn tar_arguments(staging_dir: &str) -> (args: Vec<String>)
    ensures
        crate::ranking::views_of(args@) == tar_args(staging_dir@),
{
    let mut args: Vec<String> = Vec::new();
    args.push(String::from_str("chS"));
    args.push(String::from_str("-C"));
    args.push(String::from_str(staging_dir));
    args.push(String::from_str("accounts"));
    args.push(String::from_str("snapshots"));
    args.push(String::from_str("version"));
    assert(crate::ranking::views_of(args@) =~= tar_args(staging_dir@));
    args
}

/// The error for an answer that does not fit the action.
fn unexpected() -> (error: SnapshotError)
    ensures
        error@ == unexpected_event(),
{
    SnapshotError::Io(String::from_str("unexpected answer to an action of the archive writer"))
}

} // verus!
