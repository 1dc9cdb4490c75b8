//! The snapshots of single slots in a snapshot directory, before they are archived.
//!
//! The snapshot of slot `s` is the file `<s>/<s>` below the snapshot directory: every
//! entry of the directory whose name is a number stands for one.

use std::cmp::Ordering;
use vstd::prelude::*;
use vstd::std_specs::cmp::{PartialEqSpecImpl, PartialOrdSpecImpl};
use vstd::string::StringExecFns;

use crate::archive_info::{DirEntry, DirEntryView};
use crate::archive_name::Slot;
use crate::data_file::{
    serialize_snapshot_data_file, serialized_within, MAX_SNAPSHOT_DATA_FILE_SIZE,
};
use crate::decimal::{decimal_digits, decimal_string, parse_u64, parsed_u64};
use crate::error::{SnapshotError, SnapshotErrorView};
use crate::path::{file_name, file_name_of, join_path, joined};
use crate::ranking::{
    lemma_sorted_descending, rank_above, rank_fn, sort_descending, sorted_descending, views_of,
    Rank, Ranked,
};
use crate::snapshot_version::{version_of_string, SnapshotVersion};

verus! {

/// How many snapshots of single slots are kept in a snapshot directory.
pub const MAX_SNAPSHOTS: usize = 8;

/// The snapshot of one slot that has not been archived: the slot and the path of the file
/// that holds the state.
#[derive(Debug)]
pub struct SlotSnapshotPaths {
    pub slot: Slot,
    pub snapshot_file_path: String,
}

/// The view of a [`SlotSnapshotPaths`].
pub struct SlotSnapshotPathsView {
    pub slot: Slot,
    pub snapshot_file_path: Seq<char>,
}

impl View for SlotSnapshotPaths {
    type V = SlotSnapshotPathsView;

    open spec fn view(&self) -> SlotSnapshotPathsView {
        SlotSnapshotPathsView { slot: self.slot, snapshot_file_path: self.snapshot_file_path@ }
    }
}

impl DeepView for SlotSnapshotPaths {
    type V = SlotSnapshotPathsView;

    open spec fn deep_view(&self) -> SlotSnapshotPathsView {
        self@
    }
}

impl PartialEq for SlotSnapshotPaths {
    fn eq(&self, other: &SlotSnapshotPaths) -> (r: bool) {
        self.slot == other.slot && self.snapshot_file_path == other.snapshot_file_path
    }
}

impl Eq for SlotSnapshotPaths {

}

impl PartialEqSpecImpl for SlotSnapshotPaths {
    open spec fn obeys_eq_spec() -> bool {
        true
    }

    open spec fn eq_spec(&self, other: &SlotSnapshotPaths) -> bool {
        self@ == other@
    }
}

impl PartialOrd for SlotSnapshotPaths {
    /// Snapshots are ordered by their slots.
    fn partial_cmp(&self, other: &SlotSnapshotPaths) -> (r: Option<Ordering>) {
        if self.slot < other.slot {
            Some(Ordering::Less)
        } else if self.slot > other.slot {
            Some(Ordering::Greater)
        } else {
            Some(Ordering::Equal)
        }
    }
}

impl PartialOrdSpecImpl for SlotSnapshotPaths {
    open spec fn obeys_partial_cmp_spec() -> bool {
        true
    }

    open spec fn partial_cmp_spec(&self, other: &SlotSnapshotPaths) -> Option<Ordering> {
        if self.slot < other.slot {
            Some(Ordering::Less)
        } else if self.slot > other.slot {
            Some(Ordering::Greater)
        } else {
            Some(Ordering::Equal)
        }
    }
}

impl Ranked for SlotSnapshotPaths {
    /// The lower the slot, the higher the rank: in descending order of rank the slots
    /// ascend.
    open spec fn rank_of(v: SlotSnapshotPathsView) -> Rank {
        ((u64::MAX - v.slot) as u64, 0)
    }

    fn rank(&self) -> (r: Rank) {
        (u64::MAX - self.slot, 0)
    }
}

/// The name of the file that holds the state of `slot`: the slot in decimal notation.
pub open spec fn snapshot_file_name(slot: Slot) -> Seq<char> {
    decimal_digits(slot as nat)
}

/// The directory of the snapshot of `slot` below `path`.
pub open spec fn bank_snapshot_dir(path: Seq<char>, slot: Slot) -> Seq<char> {
    joined(path, decimal_digits(slot as nat))
}

/// The path of the file that holds the state of `slot` below `snapshot_path`.
pub open spec fn snapshot_file_path(snapshot_path: Seq<char>, slot: Slot) -> Seq<char> {
    joined(bank_snapshot_dir(snapshot_path, slot), snapshot_file_name(slot))
}

/// The snapshot that an entry of the snapshot directory stands for: one if the name of
/// the entry is a number.
pub open spec fn snapshot_of_entry(snapshot_path: Seq<char>, entry: DirEntryView) -> Option<
    SlotSnapshotPathsView,
> {
    match file_name_of(entry.path) {
        Some(name) => match parsed_u64(name) {
            Some(slot) => Some(
                SlotSnapshotPathsView {
                    slot,
                    snapshot_file_path: snapshot_file_path(snapshot_path, slot),
                },
            ),
            None => None,
        },
        None => None,
    }
}

/// The snapshots that the entries stand for, in the order of the entries.
pub open spec fn snapshots_of(snapshot_path: Seq<char>, entries: Seq<DirEntryView>) -> Seq<
    SlotSnapshotPathsView,
>
    decreases entries.len(),
{
    if entries.len() == 0 {
        Seq::empty()
    } else {
        let before = snapshots_of(snapshot_path, entries.drop_last());
        match snapshot_of_entry(snapshot_path, entries.last()) {
            Some(paths) => before.push(paths),
            None => before,
        }
    }
}

/// The snapshots that the entries stand for, from the lowest slot to the highest.
pub open spec fn snapshot_paths_of(snapshot_path: Seq<char>, entries: Seq<DirEntryView>) -> Seq<
    SlotSnapshotPathsView,
> {
    sorted_descending(snapshots_of(snapshot_path, entries), rank_fn::<SlotSnapshotPaths>())
}

/// Whether the slots of `paths` ascend.
pub open spec fn slots_ascend(paths: Seq<SlotSnapshotPathsView>) -> bool {
    forall|i: int, j: int| 0 <= i < j < paths.len() ==> paths[i].slot <= paths[j].slot
}

/// The snapshots of a directory are listed from the lowest slot to the highest, and each
/// of them is listed.
pub proof fn lemma_snapshot_paths_ascend(snapshot_path: Seq<char>, entries: Seq<DirEntryView>)
    ensures
        slots_ascend(snapshot_paths_of(snapshot_path, entries)),
        snapshot_paths_of(snapshot_path, entries).to_multiset() == snapshots_of(
            snapshot_path,
            entries,
        ).to_multiset(),
{
    let listed = snapshots_of(snapshot_path, entries);
    let rank = rank_fn::<SlotSnapshotPaths>();
    lemma_sorted_descending(listed, rank);
    let sorted = snapshot_paths_of(snapshot_path, entries);
    assert forall|i: int, j: int| 0 <= i < j < sorted.len() implies sorted[i].slot
        <= sorted[j].slot by {
        assert(!rank_above(rank(sorted[j]), rank(sorted[i])));
    }
}

/// The name of the file that holds the state of `slot`.
pub fn get_snapshot_file_name(slot: Slot) -> (name: String)
    ensures
        name@ == snapshot_file_name(slot),
{
    decimal_string(slot)
}

/// The directory of the snapshot of `slot` below `path`.
pub fn get_bank_snapshot_dir(path: &str, slot: Slot) -> (dir: String)
    ensures
        dir@ == bank_snapshot_dir(path@, slot),
{
    let name = decimal_string(slot);
    join_path(path, name.as_str())
}

/// The snapshots of single slots in the snapshot directory at `snapshot_path`, from the
/// lowest slot to the highest.
///
/// `entries` are the entries of the directory. An entry whose name is no number is passed
/// over.
pub fn get_snapshot_paths(snapshot_path: &str, entries: &Vec<DirEntry>) -> (names: Vec<
    SlotSnapshotPaths,
>)
    ensures
        views_of(names@) == snapshot_paths_of(snapshot_path@, views_of(entries@)),
{
    let mut names: Vec<SlotSnapshotPaths> = Vec::new();
    let mut i: usize = 0;
    while i < entries.len()
        invariant
            i <= entries@.len(),
            views_of(names@) == snapshots_of(snapshot_path@, views_of(entries@).take(i as int)),
        decreases entries@.len() - i,
    {
        let ghost before = views_of(names@);
        proof {
            let upto = views_of(entries@).take(i + 1);
            assert(upto.drop_last() =~= views_of(entries@).take(i as int));
            assert(upto.last() == entries@[i as int]@);
        }
        let found = match file_name(entries[i].path.as_str()) {
            Some(name) => parse_u64(name.as_str()),
            None => None,
        };
        match found {
            Some(slot) => {
                let dir = get_bank_snapshot_dir(snapshot_path, slot);
                let file = get_snapshot_file_name(slot);
                let paths = SlotSnapshotPaths {
                    slot,
                    snapshot_file_path: join_path(dir.as_str(), file.as_str()),
                };
                names.push(paths);
                assert(views_of(names@) =~= before.push(paths@));
            },
            None => {},
        }
        i += 1;
    }
    assert(views_of(entries@).take(i as int) =~= views_of(entries@));
    sort_descending(&mut names);
    names
}

/// The path of the file that holds the state of `slot` below `snapshot_path`.
pub fn get_snapshot_file_path(snapshot_path: &str, slot: Slot) -> (path: String)
    ensures
        path@ == snapshot_file_path(snapshot_path@, slot),
{
    let dir = get_bank_snapshot_dir(snapshot_path, slot);
    let file = get_snapshot_file_name(slot);
    join_path(dir.as_str(), file.as_str())
}

/// What adding the snapshot of a slot gives, once its state file of `consumed_size`
/// bytes is written: the slot with the path of the file, or an error if the file is
/// above the size limit.
pub open spec fn added_snapshot(snapshot_path: Seq<char>, slot: Slot, consumed_size: u64) -> Result<
    SlotSnapshotPathsView,
    SnapshotErrorView,
> {
    match serialized_within(
        snapshot_file_path(snapshot_path, slot),
        MAX_SNAPSHOT_DATA_FILE_SIZE,
        consumed_size,
    ) {
        Err(error) => Err(error),
        Ok(_) => Ok(
            SlotSnapshotPathsView {
                slot,
                snapshot_file_path: snapshot_file_path(snapshot_path, slot),
            },
        ),
    }
}

/// Adds the snapshot of `slot` to the snapshot directory at `snapshot_path`.
///
/// The state is written by the caller, to the file at [`get_snapshot_file_path`] in the
/// directory at [`get_bank_snapshot_dir`]; `consumed_size` is the number of bytes that
/// were written. Returns the slot with the path of the file, or an error if more was
/// written than a data file may hold.
pub fn add_snapshot(snapshot_path: &str, slot: Slot, consumed_size: u64) -> (r: Result<
    SlotSnapshotPaths,
    SnapshotError,
>)
    ensures
        match r {
            Ok(paths) => added_snapshot(snapshot_path@, slot, consumed_size) == Ok::<
                SlotSnapshotPathsView,
                SnapshotErrorView,
            >(paths@),
            Err(error) => added_snapshot(snapshot_path@, slot, consumed_size) == Err::<
                SlotSnapshotPathsView,
                SnapshotErrorView,
            >(error@),
        },
{
    let snapshot_bank_file_path = get_snapshot_file_path(snapshot_path, slot);
    match serialize_snapshot_data_file(snapshot_bank_file_path.as_str(), consumed_size) {
        Err(error) => Err(error),
        Ok(_) => Ok(SlotSnapshotPaths { slot, snapshot_file_path: snapshot_bank_file_path }),
    }
}

/// The snapshot of the highest slot in the snapshot directory at `snapshot_path`, if
/// the directory holds any: the one that is packaged.
pub fn get_latest_snapshot_paths(snapshot_path: &str, entries: &Vec<DirEntry>) -> (r: Option<
    SlotSnapshotPaths,
>)
    ensures
        match r {
            Some(paths) => snapshot_paths_of(snapshot_path@, views_of(entries@)).len() > 0
                && paths@ == snapshot_paths_of(snapshot_path@, views_of(entries@)).last(),
            None => snapshot_paths_of(snapshot_path@, views_of(entries@)).len() == 0,
        },
{
    let mut slot_snapshot_paths = get_snapshot_paths(snapshot_path, entries);
    let ghost paths = views_of(slot_snapshot_paths@);
    match slot_snapshot_paths.pop() {
        Some(last) => {
            assert(last@ == paths[paths.len() - 1]);
            Some(last)
        },
        None => None,
    }
}

/// The slots whose snapshots are to be removed from the snapshot directory, given its
/// snapshots from the lowest slot to the highest: those of all but the last
/// [`MAX_SNAPSHOTS`].
pub open spec fn slots_to_purge(paths: Seq<SlotSnapshotPathsView>) -> Seq<Slot> {
    if paths.len() <= MAX_SNAPSHOTS {
        Seq::empty()
    } else {
        Seq::new((paths.len() - MAX_SNAPSHOTS) as nat, |i: int| paths[i].slot)
    }
}

/// Remove outdated snapshots
///
/// Returns the slots whose snapshots are outdated: the lowest ones, so that the
/// [`MAX_SNAPSHOTS`] highest stay. The caller removes their directories.
pub fn purge_old_snapshots(snapshot_path: &str, entries: &Vec<DirEntry>) -> (slots: Vec<Slot>)
    ensures
        slots@ == slots_to_purge(snapshot_paths_of(snapshot_path@, views_of(entries@))),
{
    let slot_snapshot_paths = get_snapshot_paths(snapshot_path, entries);
    let ghost paths = views_of(slot_snapshot_paths@);
    let num_to_remove: usize = if slot_snapshot_paths.len() > MAX_SNAPSHOTS {
        slot_snapshot_paths.len() - MAX_SNAPSHOTS
    } else {
        0
    };
    let mut slots: Vec<Slot> = Vec::new();
    let mut i: usize = 0;
    while i < num_to_remove
        invariant
            i <= num_to_remove <= slot_snapshot_paths@.len(),
            paths == views_of(slot_snapshot_paths@),
            slots@ == Seq::new(i as nat, |k: int| paths[k].slot),
        decreases num_to_remove - i,
    {
        slots.push(slot_snapshot_paths[i].slot);
        assert(slots@ =~= Seq::new((i + 1) as nat, |k: int| paths[k].slot));
        i += 1;
    }
    assert(slots@ =~= slots_to_purge(paths));
    slots
}

/// What is found of an unpacked snapshot: the version that the text of its version file
/// names, and the one snapshot in its snapshots directory. An error where the version is
/// not supported, where the directory holds more than one snapshot, and where it holds
/// none, in this order.
pub open spec fn version_and_folder(
    snapshot_version: Seq<char>,
    unpacked_snapshots_dir: Seq<char>,
    entries: Seq<DirEntryView>,
) -> Result<(SnapshotVersion, SlotSnapshotPathsView), SnapshotErrorView> {
    let paths = snapshot_paths_of(unpacked_snapshots_dir, entries);
    match version_of_string(snapshot_version) {
        None => Err(SnapshotErrorView::Io("unsupported snapshot version: "@ + snapshot_version)),
        Some(version) => if paths.len() > 1 {
            Err(SnapshotErrorView::Io("invalid snapshot format"@))
        } else if paths.len() == 0 {
            Err(SnapshotErrorView::Io("No snapshots found in snapshots directory"@))
        } else {
            Ok((version, paths[0]))
        },
    }
}

/// The view of what [`verify_snapshot_version_and_folder`] returns.
pub open spec fn version_and_folder_view(
    r: Result<(SnapshotVersion, SlotSnapshotPaths), SnapshotError>,
) -> Result<(SnapshotVersion, SlotSnapshotPathsView), SnapshotErrorView> {
    match r {
        Ok((version, paths)) => Ok((version, paths@)),
        Err(e) => Err(e@),
    }
}

/// Checks the version of an unpacked snapshot and finds its state file.
///
/// `snapshot_version` is the text of the version file, without white space around it,
/// and `entries` are the entries of the directory `unpacked_snapshots_dir`, which must
/// hold the snapshot of exactly one slot.
pub fn verify_snapshot_version_and_folder(
    snapshot_version: &str,
    unpacked_snapshots_dir: &str,
    entries: &Vec<DirEntry>,
) -> (r: Result<(SnapshotVersion, SlotSnapshotPaths), SnapshotError>)
    ensures
        version_and_folder_view(r) == version_and_folder(
            snapshot_version@,
            unpacked_snapshots_dir@,
            views_of(entries@),
        ),
{
    let snapshot_version_enum = match SnapshotVersion::maybe_from_string(snapshot_version) {
        Some(version) => version,
        None => {
            let mut message = String::from_str("unsupported snapshot version: ");
            message.append(snapshot_version);
            return Err(SnapshotError::Io(message));
        },
    };
    let mut snapshot_paths = get_snapshot_paths(unpacked_snapshots_dir, entries);
    if snapshot_paths.len() > 1 {
        return Err(SnapshotError::Io(String::from_str("invalid snapshot format")));
    }
    let ghost paths = views_of(snapshot_paths@);
    match snapshot_paths.pop() {
        Some(root_paths) => {
            assert(root_paths@ == paths[0]);
            Ok((snapshot_version_enum, root_paths))
        },
        None => Err(
            SnapshotError::Io(String::from_str("No snapshots found in snapshots directory")),
        ),
    }
}

} // verus!
