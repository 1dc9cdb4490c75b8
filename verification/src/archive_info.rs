//! The snapshot archives of a directory: what their names say, and which is the newest.
//!
//! The caller lists the directory and hands over its entries. What is known of an archive
//! is read from its file name alone, and found anew at every listing.

use vstd::prelude::*;

use crate::archive_format::ArchiveFormat;
use crate::archive_name::{
    parse_incremental_snapshot_archive_filename, parse_snapshot_archive_filename,
    parsed_incremental_snapshot_archive_filename, parsed_snapshot_archive_filename, Slot,
};
use crate::path::{file_name, file_name_of};
use crate::ranking::{
    lemma_reverse_without_last, lemma_sorted_descending, lemma_sorted_descending_first,
    move_reversed, rank_above, rank_fn, sort_descending, sorted_descending,
    views_of, Rank, Ranked,
};

verus! {

/// An entry of a directory, as the caller found it.
#[derive(Debug)]
pub struct DirEntry {
    /// The path of the entry.
    pub path: String,
    /// Whether the entry is a regular file.
    pub is_file: bool,
}

/// The view of a [`DirEntry`].
pub struct DirEntryView {
    pub path: Seq<char>,
    pub is_file: bool,
}

impl View for DirEntry {
    type V = DirEntryView;

    open spec fn view(&self) -> DirEntryView {
        DirEntryView { path: self.path@, is_file: self.is_file }
    }
}

impl DeepView for DirEntry {
    type V = DirEntryView;

    open spec fn deep_view(&self) -> DirEntryView {
        self@
    }
}

/// Information about a snapshot archive: its path, slot, hash, and archive format
#[derive(Debug)]
pub struct SnapshotArchiveInfo {
    /// Path to the snapshot archive file
    pub path: String,
    /// Slot that the snapshot was made
    pub slot: Slot,
    /// Hash of the accounts at this slot
    pub hash: crate::hash::Hash,
    /// Archive format for the snapshot file
    pub archive_format: ArchiveFormat,
}

/// The view of a [`SnapshotArchiveInfo`].
pub struct SnapshotArchiveInfoView {
    pub path: Seq<char>,
    pub slot: Slot,
    pub hash: Seq<char>,
    pub archive_format: ArchiveFormat,
}

impl View for SnapshotArchiveInfo {
    type V = SnapshotArchiveInfoView;

    open spec fn view(&self) -> SnapshotArchiveInfoView {
        SnapshotArchiveInfoView {
            path: self.path@,
            slot: self.slot,
            hash: self.hash@,
            archive_format: self.archive_format,
        }
    }
}

impl DeepView for SnapshotArchiveInfo {
    type V = SnapshotArchiveInfoView;

    open spec fn deep_view(&self) -> SnapshotArchiveInfoView {
        self@
    }
}

impl Ranked for SnapshotArchiveInfo {
    open spec fn rank_of(v: SnapshotArchiveInfoView) -> Rank {
        (v.slot, 0)
    }

    fn rank(&self) -> (r: Rank) {
        (self.slot, 0)
    }
}

/// Information about an incremental snapshot archive: its path, slot, base slot, hash, and
/// archive format
#[derive(Debug)]
pub struct IncrementalSnapshotArchiveInfo {
    /// Path to the incremental snapshot archive file
    pub path: String,
    /// The slot that the incremental snapshot was based from.  This is the same as the full
    /// snapshot slot used when making the incremental snapshot.
    pub base_slot: Slot,
    /// Slot that the incremental snapshot was made
    pub slot: Slot,
    /// Hash of the accounts at this slot
    pub hash: crate::hash::Hash,
    /// Archive format for the incremental snapshot file
    pub archive_format: ArchiveFormat,
}

/// The view of an [`IncrementalSnapshotArchiveInfo`].
pub struct IncrementalSnapshotArchiveInfoView {
    pub path: Seq<char>,
    pub base_slot: Slot,
    pub slot: Slot,
    pub hash: Seq<char>,
    pub archive_format: ArchiveFormat,
}

impl View for IncrementalSnapshotArchiveInfo {
    type V = IncrementalSnapshotArchiveInfoView;

    open spec fn view(&self) -> IncrementalSnapshotArchiveInfoView {
        IncrementalSnapshotArchiveInfoView {
            path: self.path@,
            base_slot: self.base_slot,
            slot: self.slot,
            hash: self.hash@,
            archive_format: self.archive_format,
        }
    }
}

impl DeepView for IncrementalSnapshotArchiveInfo {
    type V = IncrementalSnapshotArchiveInfoView;

    open spec fn deep_view(&self) -> IncrementalSnapshotArchiveInfoView {
        self@
    }
}

impl Ranked for IncrementalSnapshotArchiveInfo {
    open spec fn rank_of(v: IncrementalSnapshotArchiveInfoView) -> Rank {
        (v.base_slot, v.slot)
    }

    fn rank(&self) -> (r: Rank) {
        (self.base_slot, self.slot)
    }
}

/// What the entry says of a full snapshot archive: something if it is a file whose name
/// is that of one, nothing otherwise.
pub open spec fn snapshot_archive_of_entry(entry: DirEntryView) -> Option<SnapshotArchiveInfoView> {
    if !entry.is_file {
        None
    } else {
        match file_name_of(entry.path) {
            Some(name) => match parsed_snapshot_archive_filename(name) {
                Some((slot, hash, archive_format)) => Some(
                    SnapshotArchiveInfoView { path: entry.path, slot, hash, archive_format },
                ),
                None => None,
            },
            None => None,
        }
    }
}

/// What the entry says of an incremental snapshot archive: something if it is a file
/// whose name is that of one, nothing otherwise.
pub open spec fn incremental_snapshot_archive_of_entry(entry: DirEntryView) -> Option<
    IncrementalSnapshotArchiveInfoView,
> {
    if !entry.is_file {
        None
    } else {
        match file_name_of(entry.path) {
            Some(name) => match parsed_incremental_snapshot_archive_filename(name) {
                Some((base_slot, slot, hash, archive_format)) => Some(
                    IncrementalSnapshotArchiveInfoView {
                        path: entry.path,
                        base_slot,
                        slot,
                        hash,
                        archive_format,
                    },
                ),
                None => None,
            },
            None => None,
        }
    }
}

/// The full snapshot archives among the entries, in the order of the entries.
pub open spec fn snapshot_archives_of(entries: Seq<DirEntryView>) -> Seq<SnapshotArchiveInfoView>
    decreases entries.len(),
{
    if entries.len() == 0 {
        Seq::empty()
    } else {
        let before = snapshot_archives_of(entries.drop_last());
        match snapshot_archive_of_entry(entries.last()) {
            Some(info) => before.push(info),
            None => before,
        }
    }
}

/// The incremental snapshot archives among the entries, in the order of the entries.
pub open spec fn incremental_snapshot_archives_of(entries: Seq<DirEntryView>) -> Seq<
    IncrementalSnapshotArchiveInfoView,
>
    decreases entries.len(),
{
    if entries.len() == 0 {
        Seq::empty()
    } else {
        let before = incremental_snapshot_archives_of(entries.drop_last());
        match incremental_snapshot_archive_of_entry(entries.last()) {
            Some(info) => before.push(info),
            None => before,
        }
    }
}

/// The incremental snapshot archives of `archives` that build on the full snapshot of
/// `full_snapshot_slot`, in their order.
pub open spec fn incrementals_with_base(
    archives: Seq<IncrementalSnapshotArchiveInfoView>,
    full_snapshot_slot: Slot,
) -> Seq<IncrementalSnapshotArchiveInfoView>
    decreases archives.len(),
{
    if archives.len() == 0 {
        Seq::empty()
    } else {
        let before = incrementals_with_base(archives.drop_last(), full_snapshot_slot);
        if archives.last().base_slot == full_snapshot_slot {
            before.push(archives.last())
        } else {
            before
        }
    }
}

/// The full snapshot archives from the highest slot to the lowest.
pub open spec fn sorted_snapshot_archives(archives: Seq<SnapshotArchiveInfoView>) -> Seq<
    SnapshotArchiveInfoView,
> {
    sorted_descending(archives, rank_fn::<SnapshotArchiveInfo>())
}

/// The incremental snapshot archives from the highest base slot to the lowest and, among
/// those with one base slot, from the highest slot to the lowest.
pub open spec fn sorted_incremental_snapshot_archives(
    archives: Seq<IncrementalSnapshotArchiveInfoView>,
) -> Seq<IncrementalSnapshotArchiveInfoView> {
    sorted_descending(archives, rank_fn::<IncrementalSnapshotArchiveInfo>())
}

/// The full snapshot archive with the highest slot, if there is any archive.
pub open spec fn highest_snapshot_archive(archives: Seq<SnapshotArchiveInfoView>) -> Option<
    SnapshotArchiveInfoView,
> {
    if archives.len() == 0 {
        None
    } else {
        Some(sorted_snapshot_archives(archives)[0])
    }
}

/// Among the incremental snapshot archives that build on the full snapshot of
/// `full_snapshot_slot`, the one with the highest slot, if there is any.
pub open spec fn highest_incremental_snapshot_archive(
    archives: Seq<IncrementalSnapshotArchiveInfoView>,
    full_snapshot_slot: Slot,
) -> Option<IncrementalSnapshotArchiveInfoView> {
    let with_base = incrementals_with_base(archives, full_snapshot_slot);
    if with_base.len() == 0 {
        None
    } else {
        Some(sorted_incremental_snapshot_archives(with_base)[0])
    }
}

/// The sorted list of full snapshot archives holds the archives that were given, each as
/// often as it was given, and no archive stands before one of a higher slot.
pub proof fn lemma_sorted_snapshot_archives(archives: Seq<SnapshotArchiveInfoView>)
    ensures
        sorted_snapshot_archives(archives).to_multiset() == archives.to_multiset(),
        sorted_snapshot_archives(archives).len() == archives.len(),
        forall|i: int, j: int|
            0 <= i < j < archives.len() ==> (#[trigger] sorted_snapshot_archives(archives)[i]).slot
                >= (#[trigger] sorted_snapshot_archives(archives)[j]).slot,
{
    let rank = rank_fn::<SnapshotArchiveInfo>();
    lemma_sorted_descending(archives, rank);
    let sorted = sorted_snapshot_archives(archives);
    assert forall|i: int, j: int| 0 <= i < j < archives.len() implies (#[trigger] sorted[i]).slot
        >= (#[trigger] sorted[j]).slot by {
        assert(!rank_above(rank(sorted[j]), rank(sorted[i])));
    }
}

/// Whether the incremental snapshot archive `a` may stand before `b` in the sorted list:
/// it is of a higher base slot, or of the same base slot and no lower slot.
pub open spec fn stands_before(
    a: IncrementalSnapshotArchiveInfoView,
    b: IncrementalSnapshotArchiveInfoView,
) -> bool {
    a.base_slot > b.base_slot || (a.base_slot == b.base_slot && a.slot >= b.slot)
}

/// The sorted list of incremental snapshot archives holds the archives that were given,
/// each as often as it was given, and no archive stands before one of a higher base
/// slot, or of the same base slot and a higher slot.
pub proof fn lemma_sorted_incremental_snapshot_archives(
    archives: Seq<IncrementalSnapshotArchiveInfoView>,
)
    ensures
        sorted_incremental_snapshot_archives(archives).to_multiset() == archives.to_multiset(),
        sorted_incremental_snapshot_archives(archives).len() == archives.len(),
        forall|i: int, j: int|
            0 <= i < j < archives.len() ==> stands_before(
                #[trigger] sorted_incremental_snapshot_archives(archives)[i],
                #[trigger] sorted_incremental_snapshot_archives(archives)[j],
            ),
{
    let rank = rank_fn::<IncrementalSnapshotArchiveInfo>();
    lemma_sorted_descending(archives, rank);
    let sorted = sorted_incremental_snapshot_archives(archives);
    assert forall|i: int, j: int| 0 <= i < j < archives.len() implies stands_before(
        #[trigger] sorted[i],
        #[trigger] sorted[j],
    ) by {
        assert(!rank_above(rank(sorted[j]), rank(sorted[i])));
    }
}

/// The highest full snapshot archive is one of the archives, and none is of a higher
/// slot. There is one unless there is no archive.
pub proof fn lemma_highest_snapshot_archive(archives: Seq<SnapshotArchiveInfoView>)
    ensures
        highest_snapshot_archive(archives) is None <==> archives.len() == 0,
        highest_snapshot_archive(archives) matches Some(highest) ==> archives.contains(highest)
            && forall|i: int| 0 <= i < archives.len() ==> (#[trigger] archives[i]).slot
            <= highest.slot,
{
    if archives.len() > 0 {
        let rank = rank_fn::<SnapshotArchiveInfo>();
        lemma_sorted_descending_first(archives, rank);
        let highest = sorted_snapshot_archives(archives)[0];
        assert forall|i: int| 0 <= i < archives.len() implies (#[trigger] archives[i]).slot
            <= highest.slot by {
            assert(!rank_above(rank(archives[i]), rank(highest)));
        }
    }
}

/// The archives that are kept for a base slot are those of the given archives that build
/// on it.
pub proof fn lemma_incrementals_with_base(
    archives: Seq<IncrementalSnapshotArchiveInfoView>,
    full_snapshot_slot: Slot,
)
    ensures
        forall|a: IncrementalSnapshotArchiveInfoView|
            #![trigger incrementals_with_base(archives, full_snapshot_slot).contains(a)]
            incrementals_with_base(archives, full_snapshot_slot).contains(a) <==> (
            archives.contains(a) && a.base_slot == full_snapshot_slot),
    decreases archives.len(),
{
    let kept = incrementals_with_base(archives, full_snapshot_slot);
    if archives.len() > 0 {
        let before = incrementals_with_base(archives.drop_last(), full_snapshot_slot);
        lemma_incrementals_with_base(archives.drop_last(), full_snapshot_slot);
        assert forall|a: IncrementalSnapshotArchiveInfoView|
            kept.contains(a) <==> (archives.contains(a) && a.base_slot == full_snapshot_slot) by {
            if kept.contains(a) {
                let i = choose|i: int| 0 <= i < kept.len() && kept[i] == a;
                if i < before.len() {
                    assert(before.contains(a));
                    let j = choose|j: int|
                        0 <= j < archives.drop_last().len() && archives.drop_last()[j] == a;
                    assert(archives[j] == a);
                } else {
                    assert(archives[archives.len() - 1] == a);
                }
            }
            if archives.contains(a) && a.base_slot == full_snapshot_slot {
                let j = choose|j: int| 0 <= j < archives.len() && archives[j] == a;
                if j < archives.len() - 1 {
                    assert(archives.drop_last()[j] == a);
                    assert(before.contains(a));
                    let i = choose|i: int| 0 <= i < before.len() && before[i] == a;
                    assert(kept[i] == a);
                } else {
                    assert(kept[kept.len() - 1] == a);
                }
            }
        }
    } else {
        assert forall|a: IncrementalSnapshotArchiveInfoView|
            kept.contains(a) <==> (archives.contains(a) && a.base_slot == full_snapshot_slot) by {}
    }
}

/// The highest incremental snapshot archive for a full snapshot is one of the archives
/// that build on that snapshot, and none of them is of a higher slot. There is one
/// unless no archive builds on that snapshot.
pub proof fn lemma_highest_incremental_snapshot_archive(
    archives: Seq<IncrementalSnapshotArchiveInfoView>,
    full_snapshot_slot: Slot,
)
    ensures
        highest_incremental_snapshot_archive(archives, full_snapshot_slot) is None <==> forall|
            i: int,
        |
            0 <= i < archives.len() ==> (#[trigger] archives[i]).base_slot != full_snapshot_slot,
        highest_incremental_snapshot_archive(archives, full_snapshot_slot) matches Some(highest)
            ==> archives.contains(highest) && highest.base_slot == full_snapshot_slot && forall|
            i: int,
        |
            0 <= i < archives.len() && (#[trigger] archives[i]).base_slot == full_snapshot_slot
                ==> archives[i].slot <= highest.slot,
{
    let with_base = incrementals_with_base(archives, full_snapshot_slot);
    lemma_incrementals_with_base(archives, full_snapshot_slot);
    if with_base.len() > 0 {
        let rank = rank_fn::<IncrementalSnapshotArchiveInfo>();
        lemma_sorted_descending_first(with_base, rank);
        let highest = sorted_incremental_snapshot_archives(with_base)[0];
        assert(with_base.contains(highest));
        assert(archives.contains(highest));
        let k = choose|k: int| 0 <= k < archives.len() && archives[k] == highest;
        assert(archives[k].base_slot == full_snapshot_slot);
        assert forall|i: int|
            0 <= i < archives.len() && (#[trigger] archives[i]).base_slot
                == full_snapshot_slot implies archives[i].slot <= highest.slot by {
            assert(archives.contains(archives[i]));
            assert(with_base.contains(archives[i]));
            let j = choose|j: int| 0 <= j < with_base.len() && with_base[j] == archives[i];
            assert(!rank_above(rank(with_base[j]), rank(highest)));
        }
    } else {
        assert forall|i: int| 0 <= i < archives.len() implies (#[trigger] archives[i]).base_slot
            != full_snapshot_slot by {
            if archives[i].base_slot == full_snapshot_slot {
                assert(archives.contains(archives[i]));
                assert(with_base.contains(archives[i]));
            }
        }
    }
}

/// Whether what is known of a full snapshot archive is what the name of its file says.
pub open spec fn is_read_from_name(info: SnapshotArchiveInfoView) -> bool {
    match file_name_of(info.path) {
        Some(name) => parsed_snapshot_archive_filename(name) == Some(
            (info.slot, info.hash, info.archive_format),
        ),
        None => false,
    }
}

/// Whether what is known of an incremental snapshot archive is what the name of its file
/// says.
pub open spec fn is_incremental_read_from_name(info: IncrementalSnapshotArchiveInfoView) -> bool {
    match file_name_of(info.path) {
        Some(name) => parsed_incremental_snapshot_archive_filename(name) == Some(
            (info.base_slot, info.slot, info.hash, info.archive_format),
        ),
        None => false,
    }
}

/// What is listed of the archives of a directory is read from the names of its files,
/// and from nothing else.
pub proof fn lemma_archives_are_read_from_names(entries: Seq<DirEntryView>)
    ensures
        forall|i: int|
            0 <= i < snapshot_archives_of(entries).len() ==> is_read_from_name(
                #[trigger] snapshot_archives_of(entries)[i],
            ),
        forall|i: int|
            0 <= i < incremental_snapshot_archives_of(entries).len()
                ==> is_incremental_read_from_name(
                #[trigger] incremental_snapshot_archives_of(entries)[i],
            ),
    decreases entries.len(),
{
    if entries.len() > 0 {
        lemma_archives_are_read_from_names(entries.drop_last());
        let full = snapshot_archives_of(entries);
        let full_before = snapshot_archives_of(entries.drop_last());
        assert forall|i: int| 0 <= i < full.len() implies is_read_from_name(#[trigger] full[i]) by {
            if i < full_before.len() {
                assert(full[i] == full_before[i]);
            } else {
                assert(snapshot_archive_of_entry(entries.last()) == Some(full[i]));
            }
        }
        let incremental = incremental_snapshot_archives_of(entries);
        let incremental_before = incremental_snapshot_archives_of(entries.drop_last());
        assert forall|i: int| 0 <= i < incremental.len() implies is_incremental_read_from_name(
            #[trigger] incremental[i],
        ) by {
            if i < incremental_before.len() {
                assert(incremental[i] == incremental_before[i]);
            } else {
                assert(incremental_snapshot_archive_of_entry(entries.last()) == Some(
                    incremental[i],
                ));
            }
        }
    }
}

/// Every archive that is listed is what an entry of the directory says.
pub proof fn lemma_archives_are_of_entries(entries: Seq<DirEntryView>)
    ensures
        forall|i: int|
            0 <= i < snapshot_archives_of(entries).len() ==> exists|j: int|
                0 <= j < entries.len() && snapshot_archive_of_entry(entries[j]) == Some(
                    #[trigger] snapshot_archives_of(entries)[i],
                ),
        forall|i: int|
            0 <= i < incremental_snapshot_archives_of(entries).len() ==> exists|j: int|
                0 <= j < entries.len() && incremental_snapshot_archive_of_entry(entries[j])
                    == Some(#[trigger] incremental_snapshot_archives_of(entries)[i]),
    decreases entries.len(),
{
    if entries.len() > 0 {
        let before = entries.drop_last();
        lemma_archives_are_of_entries(before);
        let last = entries.len() - 1;
        let full = snapshot_archives_of(entries);
        let full_before = snapshot_archives_of(before);
        assert forall|i: int| 0 <= i < full.len() implies exists|j: int|
            0 <= j < entries.len() && snapshot_archive_of_entry(entries[j]) == Some(
                #[trigger] full[i],
            ) by {
            if i < full_before.len() {
                assert(full[i] == full_before[i]);
                let j = choose|j: int|
                    0 <= j < before.len() && snapshot_archive_of_entry(before[j]) == Some(
                        full_before[i],
                    );
                assert(entries[j] == before[j]);
            } else {
                assert(snapshot_archive_of_entry(entries[last]) == Some(full[i]));
            }
        }
        let incremental = incremental_snapshot_archives_of(entries);
        let incremental_before = incremental_snapshot_archives_of(before);
        assert forall|i: int| 0 <= i < incremental.len() implies exists|j: int|
            0 <= j < entries.len() && incremental_snapshot_archive_of_entry(entries[j]) == Some(
                #[trigger] incremental[i],
            ) by {
            if i < incremental_before.len() {
                assert(incremental[i] == incremental_before[i]);
                let j = choose|j: int|
                    0 <= j < before.len() && incremental_snapshot_archive_of_entry(before[j])
                        == Some(incremental_before[i]);
                assert(entries[j] == before[j]);
            } else {
                assert(incremental_snapshot_archive_of_entry(entries[last]) == Some(
                    incremental[i],
                ));
            }
        }
    }
}

/// What a name says of a full snapshot archive with the given path.
fn snapshot_archive_info_of(entry: &DirEntry) -> (r: Option<SnapshotArchiveInfo>)
    ensures
        match r {
            Some(info) => snapshot_archive_of_entry(entry@) == Some(info@),
            None => snapshot_archive_of_entry(entry@) is None,
        },
{
    if !entry.is_file {
        return None;
    }
    match file_name(entry.path.as_str()) {
        Some(name) => match parse_snapshot_archive_filename(name.as_str()) {
            Some((slot, hash, archive_format)) => Some(
                SnapshotArchiveInfo { path: entry.path.clone(), slot, hash, archive_format },
            ),
            None => None,
        },
        None => None,
    }
}

/// What a name says of an incremental snapshot archive with the given path.
fn incremental_snapshot_archive_info_of(entry: &DirEntry) -> (r: Option<
    IncrementalSnapshotArchiveInfo,
>)
    ensures
        match r {
            Some(info) => incremental_snapshot_archive_of_entry(entry@) == Some(info@),
            None => incremental_snapshot_archive_of_entry(entry@) is None,
        },
{
    if !entry.is_file {
        return None;
    }
    match file_name(entry.path.as_str()) {
        Some(name) => match parse_incremental_snapshot_archive_filename(name.as_str()) {
            Some((base_slot, slot, hash, archive_format)) => Some(
                IncrementalSnapshotArchiveInfo {
                    path: entry.path.clone(),
                    base_slot,
                    slot,
                    hash,
                    archive_format,
                },
            ),
            None => None,
        },
        None => None,
    }
}

/// Get a list of the snapshot archives in a directory
///
/// `entries` are the entries of the directory. An entry that is no file, or whose name is
/// not that of a full snapshot archive, is passed over.
pub fn get_snapshot_archives(entries: &Vec<DirEntry>) -> (archives: Vec<SnapshotArchiveInfo>)
    ensures
        views_of(archives@) == snapshot_archives_of(views_of(entries@)),
{
    let mut archives: Vec<SnapshotArchiveInfo> = Vec::new();
    let mut i: usize = 0;
    while i < entries.len()
        invariant
            i <= entries@.len(),
            views_of(archives@) == snapshot_archives_of(views_of(entries@).take(i as int)),
        decreases entries@.len() - i,
    {
        let ghost before = views_of(archives@);
        let found = snapshot_archive_info_of(&entries[i]);
        proof {
            let upto = views_of(entries@).take(i + 1);
            assert(upto.drop_last() =~= views_of(entries@).take(i as int));
            assert(upto.last() == entries@[i as int]@);
        }
        match found {
            Some(info) => {
                archives.push(info);
                assert(views_of(archives@) =~= before.push(info@));
            },
            None => {},
        }
        i += 1;
    }
    assert(views_of(entries@).take(i as int) =~= views_of(entries@));
    archives
}

/// Get a list of the incremental snapshot archives in a directory
///
/// `entries` are the entries of the directory. An entry that is no file, or whose name is
/// not that of an incremental snapshot archive, is passed over.
pub fn get_incremental_snapshot_archives(entries: &Vec<DirEntry>) -> (archives: Vec<
    IncrementalSnapshotArchiveInfo,
>)
    ensures
        views_of(archives@) == incremental_snapshot_archives_of(views_of(entries@)),
{
    let mut archives: Vec<IncrementalSnapshotArchiveInfo> = Vec::new();
    let mut i: usize = 0;
    while i < entries.len()
        invariant
            i <= entries@.len(),
            views_of(archives@) == incremental_snapshot_archives_of(
                views_of(entries@).take(i as int),
            ),
        decreases entries@.len() - i,
    {
        let ghost before = views_of(archives@);
        let found = incremental_snapshot_archive_info_of(&entries[i]);
        proof {
            let upto = views_of(entries@).take(i + 1);
            assert(upto.drop_last() =~= views_of(entries@).take(i as int));
            assert(upto.last() == entries@[i as int]@);
        }
        match found {
            Some(info) => {
                archives.push(info);
                assert(views_of(archives@) =~= before.push(info@));
            },
            None => {},
        }
        i += 1;
    }
    assert(views_of(entries@).take(i as int) =~= views_of(entries@));
    archives
}

/// Sort the list of snapshot archives by slot, in descending order
pub fn sort_snapshot_archives(snapshot_archives: &mut Vec<SnapshotArchiveInfo>)
    ensures
        views_of(final(snapshot_archives)@) == sorted_snapshot_archives(
            views_of(old(snapshot_archives)@),
        ),
{
    sort_descending(snapshot_archives);
}

/// Sort the list of incremental snapshot archives, first by full snapshot slot in descending
/// order, then by incremental snapshot slot in descending order
pub fn sort_incremental_snapshot_archives(
    incremental_snapshot_archives: &mut Vec<IncrementalSnapshotArchiveInfo>,
)
    ensures
        views_of(final(incremental_snapshot_archives)@) == sorted_incremental_snapshot_archives(
            views_of(old(incremental_snapshot_archives)@),
        ),
{
    sort_descending(incremental_snapshot_archives);
}

/// Get a sorted list of the snapshot archives in a directory
pub fn get_sorted_snapshot_archives(entries: &Vec<DirEntry>) -> (archives: Vec<
    SnapshotArchiveInfo,
>)
    ensures
        views_of(archives@) == sorted_snapshot_archives(
            snapshot_archives_of(views_of(entries@)),
        ),
{
    let mut snapshot_archives = get_snapshot_archives(entries);
    sort_snapshot_archives(&mut snapshot_archives);
    snapshot_archives
}

/// Get a sorted list of the incremental snapshot archives in a directory
pub fn get_sorted_incremental_snapshot_archives(entries: &Vec<DirEntry>) -> (archives: Vec<
    IncrementalSnapshotArchiveInfo,
>)
    ensures
        views_of(archives@) == sorted_incremental_snapshot_archives(
            incremental_snapshot_archives_of(views_of(entries@)),
        ),
{
    let mut incremental_snapshot_archives = get_incremental_snapshot_archives(entries);
    sort_incremental_snapshot_archives(&mut incremental_snapshot_archives);
    incremental_snapshot_archives
}

/// Get the path (and metadata) for the snapshot archive with the highest slot in a directory
pub fn get_highest_snapshot_archive_info(entries: &Vec<DirEntry>) -> (r: Option<
    SnapshotArchiveInfo,
>)
    ensures
        match r {
            Some(info) => highest_snapshot_archive(snapshot_archives_of(views_of(entries@)))
                == Some(info@),
            None => highest_snapshot_archive(snapshot_archives_of(views_of(entries@))) is None,
        },
{
    let mut archives = get_sorted_snapshot_archives(entries);
    proof {
        lemma_sorted_descending(
            snapshot_archives_of(views_of(entries@)),
            rank_fn::<SnapshotArchiveInfo>(),
        );
    }
    if archives.len() == 0 {
        None
    } else {
        let ghost sorted = views_of(archives@);
        let first = archives.swap_remove(0);
        assert(first@ == sorted[0]);
        Some(first)
    }
}

/// Get the highest slot of the snapshots in a directory
pub fn get_highest_snapshot_archive_slot(entries: &Vec<DirEntry>) -> (r: Option<Slot>)
    ensures
        r == match highest_snapshot_archive(snapshot_archives_of(views_of(entries@))) {
            Some(info) => Some(info.slot),
            None => None,
        },
{
    match get_highest_snapshot_archive_info(entries) {
        Some(info) => Some(info.slot),
        None => None,
    }
}

/// Get the path for the incremental snapshot archive with the highest slot, for a given full
/// snapshot slot, in a directory
pub fn get_highest_incremental_snapshot_archive_info(
    entries: &Vec<DirEntry>,
    full_snapshot_slot: Slot,
) -> (r: Option<IncrementalSnapshotArchiveInfo>)
    ensures
        match r {
            Some(info) => highest_incremental_snapshot_archive(
                incremental_snapshot_archives_of(views_of(entries@)),
                full_snapshot_slot,
            ) == Some(info@),
            None => highest_incremental_snapshot_archive(
                incremental_snapshot_archives_of(views_of(entries@)),
                full_snapshot_slot,
            ) is None,
        },
{
    let all = get_incremental_snapshot_archives(entries);
    let mut archives = keep_with_base(all, full_snapshot_slot);
    let ghost with_base = views_of(archives@);
    sort_incremental_snapshot_archives(&mut archives);
    proof {
        lemma_sorted_descending(with_base, rank_fn::<IncrementalSnapshotArchiveInfo>());
    }
    if archives.len() == 0 {
        None
    } else {
        let ghost sorted = views_of(archives@);
        let first = archives.swap_remove(0);
        assert(first@ == sorted[0]);
        Some(first)
    }
}

/// Get the highest slot of the incremental snapshots in a directory, for a given full
/// snapshot slot
pub fn get_highest_incremental_snapshot_archive_slot(
    entries: &Vec<DirEntry>,
    full_snapshot_slot: Slot,
) -> (r: Option<Slot>)
    ensures
        r == match highest_incremental_snapshot_archive(
            incremental_snapshot_archives_of(views_of(entries@)),
            full_snapshot_slot,
        ) {
            Some(info) => Some(info.slot),
            None => None,
        },
{
    match get_highest_incremental_snapshot_archive_info(entries, full_snapshot_slot) {
        Some(info) => Some(info.slot),
        None => None,
    }
}

/// Keeps the incremental snapshot archives that build on the full snapshot of
/// `full_snapshot_slot`.
fn keep_with_base(archives: Vec<IncrementalSnapshotArchiveInfo>, full_snapshot_slot: Slot) -> (r:
    Vec<IncrementalSnapshotArchiveInfo>)
    ensures
        views_of(r@) == incrementals_with_base(views_of(archives@), full_snapshot_slot),
{
    let ghost given = views_of(archives@);
    let mut archives = archives;
    let mut rest: Vec<IncrementalSnapshotArchiveInfo> = Vec::new();
    move_reversed(&mut archives, &mut rest);
    let mut kept: Vec<IncrementalSnapshotArchiveInfo> = Vec::new();
    let ghost mut done: int = 0;
    proof {
        assert(views_of(rest@) =~= given.reverse());
        assert(given.skip(0) =~= given);
    }
    while rest.len() > 0
        invariant
            0 <= done <= given.len(),
            rest@.len() == given.len() - done,
            views_of(rest@) == given.skip(done).reverse(),
            views_of(kept@) == incrementals_with_base(given.take(done), full_snapshot_slot),
        decreases rest.len(),
    {
        let ghost before_rest = views_of(rest@);
        let ghost before = views_of(kept@);
        let info = rest.pop().unwrap();
        proof {
            lemma_reverse_without_last(given, done);
            assert(views_of(rest@) =~= before_rest.drop_last());
            assert(given.take(done + 1).drop_last() =~= given.take(done));
            assert(given.take(done + 1).last() == info@);
        }
        if info.base_slot == full_snapshot_slot {
            kept.push(info);
            assert(views_of(kept@) =~= before.push(info@));
        }
        proof {
            done = done + 1;
        }
    }
    assert(given.take(done) =~= given);
    kept
}

} // verus!
