//! Which snapshot archives of a directory are kept and which are removed.
//!
//! Of the full snapshot archives the oldest is always kept, so that the ledger can be
//! replayed from a known early point, and of the others the newest ones, at least one.
//! Incremental snapshot archives are kept only where they build on the newest full
//! snapshot. The caller removes the files; a removal that fails is the caller's to log.

use vstd::prelude::*;

use crate::archive_info::{
    get_incremental_snapshot_archives, get_sorted_snapshot_archives,
    incremental_snapshot_archive_of_entry, incremental_snapshot_archives_of,
    lemma_archives_are_of_entries, lemma_sorted_snapshot_archives, snapshot_archive_of_entry,
    snapshot_archives_of, sorted_snapshot_archives, DirEntry,
    DirEntryView, IncrementalSnapshotArchiveInfoView, SnapshotArchiveInfoView,
};
use crate::archive_name::Slot;
use crate::path::{file_name, file_name_of};
use crate::ranking::views_of;
use crate::text::to_chars;

verus! {

/// How many of the newest full snapshot archives are kept where nothing else is asked
/// for.
pub const DEFAULT_MAX_SNAPSHOTS_TO_RETAIN: usize = 2;

/// How many of the newest full snapshot archives are kept, besides the oldest: as many as
/// asked for, and at least one.
pub open spec fn newest_to_retain(maximum_snapshots_to_retain: nat) -> nat {
    if maximum_snapshots_to_retain < 1 {
        1
    } else {
        maximum_snapshots_to_retain
    }
}

/// The position in the sorted list at which the archives to remove begin. They end before
/// the last position, which is that of the oldest archive.
pub open spec fn first_to_purge(count: nat, maximum_snapshots_to_retain: nat) -> int {
    if count == 0 {
        0
    } else if newest_to_retain(maximum_snapshots_to_retain) < count - 1 {
        newest_to_retain(maximum_snapshots_to_retain) as int
    } else {
        count - 1
    }
}

/// The full snapshot archives to remove, given all of them from the newest to the oldest:
/// all but the last, after the first `newest_to_retain(..)`.
pub open spec fn full_archives_to_purge(
    sorted: Seq<SnapshotArchiveInfoView>,
    maximum_snapshots_to_retain: nat,
) -> Seq<SnapshotArchiveInfoView> {
    if sorted.len() == 0 {
        Seq::empty()
    } else {
        sorted.subrange(
            first_to_purge(sorted.len(), maximum_snapshots_to_retain),
            sorted.len() - 1,
        )
    }
}

/// The slot of the newest full snapshot archive, if there is any archive.
pub open spec fn highest_slot(sorted: Seq<SnapshotArchiveInfoView>) -> Option<Slot> {
    if sorted.len() == 0 {
        None
    } else {
        Some(sorted[0].slot)
    }
}

/// The incremental snapshot archives to remove, in their order: where there is a full
/// snapshot archive, those that do not build on the newest one; none where there is no
/// full snapshot archive.
pub open spec fn incremental_archives_to_purge(
    archives: Seq<IncrementalSnapshotArchiveInfoView>,
    last_full_snapshot_slot: Option<Slot>,
) -> Seq<IncrementalSnapshotArchiveInfoView>
    decreases archives.len(),
{
    if archives.len() == 0 {
        Seq::empty()
    } else {
        let before = incremental_archives_to_purge(
            archives.drop_last(),
            last_full_snapshot_slot,
        );
        if is_outdated(archives.last(), last_full_snapshot_slot) {
            before.push(archives.last())
        } else {
            before
        }
    }
}

/// Whether an incremental snapshot archive is to be removed: there is a full snapshot
/// archive, and the newest one is not its base.
pub open spec fn is_outdated(
    archive: IncrementalSnapshotArchiveInfoView,
    last_full_snapshot_slot: Option<Slot>,
) -> bool {
    match last_full_snapshot_slot {
        Some(slot) => archive.base_slot != slot,
        None => false,
    }
}

/// The paths of full snapshot archives.
pub open spec fn full_paths(archives: Seq<SnapshotArchiveInfoView>) -> Seq<Seq<char>> {
    Seq::new(archives.len(), |i: int| archives[i].path)
}

/// The paths of incremental snapshot archives.
pub open spec fn incremental_paths(archives: Seq<IncrementalSnapshotArchiveInfoView>) -> Seq<
    Seq<char>,
> {
    Seq::new(archives.len(), |i: int| archives[i].path)
}

/// The paths to remove from a directory with the given entries: first those of the full
/// snapshot archives, from the newest on, then those of the incremental snapshot archives,
/// in the order of the entries.
pub open spec fn paths_to_purge(
    entries: Seq<DirEntryView>,
    maximum_snapshots_to_retain: nat,
) -> Seq<Seq<char>> {
    let sorted = sorted_snapshot_archives(snapshot_archives_of(entries));
    full_paths(full_archives_to_purge(sorted, maximum_snapshots_to_retain)) + incremental_paths(
        incremental_archives_to_purge(
            incremental_snapshot_archives_of(entries),
            highest_slot(sorted),
        ),
    )
}

/// To retain none of the newest archives is to retain one.
pub proof fn lemma_retain_none_is_retain_one(entries: Seq<DirEntryView>)
    ensures
        paths_to_purge(entries, 0) == paths_to_purge(entries, 1),
{
}

/// Of the full snapshot archives, listed from the newest to the oldest, exactly those are
/// removed that stand after the newest `newest_to_retain(..)` and before the last: the
/// oldest archive and the newest ones stay, and where there are no more than those, all
/// stay.
pub proof fn lemma_full_archives_purged(
    sorted: Seq<SnapshotArchiveInfoView>,
    maximum_snapshots_to_retain: nat,
)
    ensures
        ({
            let purged = full_archives_to_purge(sorted, maximum_snapshots_to_retain);
            let newest = newest_to_retain(maximum_snapshots_to_retain);
            &&& sorted.len() <= newest + 1 ==> purged.len() == 0
            &&& sorted.len() > newest + 1 ==> purged.len() == sorted.len() - 1 - newest
            &&& forall|i: int|
                newest <= i < sorted.len() - 1 ==> purged[i - newest] == #[trigger] sorted[i]
        }),
{
}

/// An incremental snapshot archive is removed if and only if there is a full snapshot
/// archive and the newest full snapshot is not its base: every archive that is removed is
/// such a one, and every such one is removed.
pub proof fn lemma_incremental_archives_purged(
    archives: Seq<IncrementalSnapshotArchiveInfoView>,
    last_full_snapshot_slot: Option<Slot>,
)
    ensures
        forall|a: IncrementalSnapshotArchiveInfoView|
            #![trigger incremental_archives_to_purge(archives, last_full_snapshot_slot).contains(a)]
            incremental_archives_to_purge(archives, last_full_snapshot_slot).contains(a) <==> (
            archives.contains(a) && is_outdated(a, last_full_snapshot_slot)),
    decreases archives.len(),
{
    let purged = incremental_archives_to_purge(archives, last_full_snapshot_slot);
    if archives.len() > 0 {
        let before = incremental_archives_to_purge(archives.drop_last(), last_full_snapshot_slot);
        lemma_incremental_archives_purged(archives.drop_last(), last_full_snapshot_slot);
        assert forall|a: IncrementalSnapshotArchiveInfoView|
            purged.contains(a) <==> (archives.contains(a) && is_outdated(
                a,
                last_full_snapshot_slot,
            )) by {
            if purged.contains(a) {
                let i = choose|i: int| 0 <= i < purged.len() && purged[i] == a;
                if i < before.len() {
                    assert(before.contains(a));
                    let j = choose|j: int|
                        0 <= j < archives.drop_last().len() && archives.drop_last()[j] == a;
                    assert(archives[j] == a);
                } else {
                    assert(a == archives.last());
                    assert(archives[archives.len() - 1] == a);
                }
            }
            if archives.contains(a) && is_outdated(a, last_full_snapshot_slot) {
                let j = choose|j: int| 0 <= j < archives.len() && archives[j] == a;
                if j < archives.len() - 1 {
                    assert(archives.drop_last()[j] == a);
                    assert(before.contains(a));
                    let i = choose|i: int| 0 <= i < before.len() && before[i] == a;
                    assert(purged[i] == a);
                } else {
                    assert(purged[purged.len() - 1] == a);
                }
            }
        }
    } else {
        assert forall|a: IncrementalSnapshotArchiveInfoView|
            purged.contains(a) <==> (archives.contains(a) && is_outdated(
                a,
                last_full_snapshot_slot,
            )) by {}
    }
}

/// Whether the entry is a snapshot archive, full or incremental, by the name of its file.
pub open spec fn is_archive_entry(entry: DirEntryView) -> bool {
    snapshot_archive_of_entry(entry) is Some || incremental_snapshot_archive_of_entry(entry)
        is Some
}

/// Only snapshot archives are removed: every path to remove is that of an entry of the
/// directory whose name is that of an archive. A file that is being written, or any
/// other file, stays.
pub proof fn lemma_only_archives_are_purged(
    entries: Seq<DirEntryView>,
    maximum_snapshots_to_retain: nat,
)
    ensures
        forall|k: int|
            0 <= k < paths_to_purge(entries, maximum_snapshots_to_retain).len() ==> exists|j: int|
                0 <= j < entries.len() && is_archive_entry(entries[j]) && entries[j].path
                    == #[trigger] paths_to_purge(entries, maximum_snapshots_to_retain)[k],
{
    broadcast use vstd::seq_lib::group_to_multiset_ensures;

    let archives = snapshot_archives_of(entries);
    let sorted = sorted_snapshot_archives(archives);
    let full = full_archives_to_purge(sorted, maximum_snapshots_to_retain);
    let incrementals = incremental_snapshot_archives_of(entries);
    let outdated = incremental_archives_to_purge(incrementals, highest_slot(sorted));
    let paths = paths_to_purge(entries, maximum_snapshots_to_retain);
    lemma_archives_are_of_entries(entries);
    lemma_sorted_snapshot_archives(archives);
    lemma_incremental_archives_purged(incrementals, highest_slot(sorted));
    assert forall|k: int| 0 <= k < paths.len() implies exists|j: int|
        0 <= j < entries.len() && is_archive_entry(entries[j]) && entries[j].path
            == #[trigger] paths[k] by {
        if k < full.len() {
            let info = full[k];
            assert(paths[k] == info.path);
            let first = first_to_purge(sorted.len(), maximum_snapshots_to_retain);
            assert(info == sorted[first + k]);
            assert(sorted.to_multiset().count(info) > 0);
            assert(archives.contains(info));
            let i = choose|i: int| 0 <= i < archives.len() && archives[i] == info;
            let j = choose|j: int|
                0 <= j < entries.len() && snapshot_archive_of_entry(entries[j]) == Some(
                    archives[i],
                );
            assert(is_archive_entry(entries[j]) && entries[j].path == paths[k]);
        } else {
            let info = outdated[k - full.len()];
            assert(paths[k] == info.path);
            assert(outdated.contains(info));
            assert(incrementals.contains(info));
            let i = choose|i: int| 0 <= i < incrementals.len() && incrementals[i] == info;
            let j = choose|j: int|
                0 <= j < entries.len() && incremental_snapshot_archive_of_entry(entries[j])
                    == Some(incrementals[i]);
            assert(is_archive_entry(entries[j]) && entries[j].path == paths[k]);
        }
    }
}

/// Whether `s` starts with `prefix`.
pub open spec fn starts_with(s: Seq<char>, prefix: Seq<char>) -> bool {
    prefix.len() <= s.len() && s.subrange(0, prefix.len() as int) == prefix
}

/// Whether the entry is left over from a writing that did not end: its name starts with
/// the prefix of temporary files.
pub open spec fn is_tmp_snapshot_entry(entry: DirEntryView) -> bool {
    match file_name_of(entry.path) {
        Some(name) => starts_with(name, "tmp-snapshot-"@),
        None => false,
    }
}

/// Which entries are left over, entry by entry.
pub open spec fn tmp_snapshot_entries(entries: Seq<DirEntryView>) -> Seq<bool> {
    Seq::new(entries.len(), |i: int| is_tmp_snapshot_entry(entries[i]))
}

/// Tests whether `s` starts with `prefix`.
fn has_prefix(s: &str, prefix: &str) -> (r: bool)
    ensures
        r == starts_with(s@, prefix@),
{
    let chars = to_chars(s);
    let prefix_chars = to_chars(prefix);
    if prefix_chars.len() > chars.len() {
        return false;
    }
    let mut i: usize = 0;
    while i < prefix_chars.len()
        invariant
            i <= prefix_chars@.len() <= chars@.len(),
            chars@ == s@,
            prefix_chars@ == prefix@,
            s@.subrange(0, i as int) == prefix@.subrange(0, i as int),
        decreases prefix_chars@.len() - i,
    {
        if chars[i] != prefix_chars[i] {
            assert(s@.subrange(0, prefix@.len() as int)[i as int] != prefix@[i as int]);
            return false;
        }
        proof {
            assert(s@.subrange(0, i + 1) =~= s@.subrange(0, i as int).push(s@[i as int]));
            assert(prefix@.subrange(0, i + 1) =~= prefix@.subrange(0, i as int).push(
                prefix@[i as int],
            ));
        }
        i += 1;
    }
    assert(prefix@.subrange(0, prefix@.len() as int) =~= prefix@);
    true
}

/// If the validator is halted in the middle of `archive_snapshot_package` the temporary staging
/// directory won't be cleaned up.  Call this function to clean them up
///
/// `entries` are the entries of the snapshot directory. Says of each whether it is to be
/// removed: those whose names start with the prefix of temporary files. The caller
/// removes them, files as files and directories with all they hold.
pub fn remove_tmp_snapshot_archives(entries: &Vec<DirEntry>) -> (remove: Vec<bool>)
    ensures
        remove@ == tmp_snapshot_entries(views_of(entries@)),
{
    let mut remove: Vec<bool> = Vec::new();
    let mut i: usize = 0;
    while i < entries.len()
        invariant
            i <= entries@.len(),
            remove@ == tmp_snapshot_entries(views_of(entries@)).take(i as int),
        decreases entries@.len() - i,
    {
        let is_tmp = match file_name(entries[i].path.as_str()) {
            Some(name) => has_prefix(name.as_str(), "tmp-snapshot-"),
            None => false,
        };
        remove.push(is_tmp);
        assert(remove@ =~= tmp_snapshot_entries(views_of(entries@)).take(i + 1));
        i += 1;
    }
    assert(remove@ =~= tmp_snapshot_entries(views_of(entries@)));
    remove
}

/// The paths of the snapshot archives to remove from a directory.
///
/// `entries` are the entries of the directory. Of the full snapshot archives the oldest is
/// kept, and of the others the `maximum_snapshots_to_retain` newest, at least one. Of the
/// incremental snapshot archives those are kept that build on the newest full snapshot.
/// The paths of all others are returned: the caller removes them.
pub fn purge_old_snapshot_archives(
    entries: &Vec<DirEntry>,
    maximum_snapshots_to_retain: usize,
) -> (paths: Vec<String>)
    ensures
        views_of(paths@) == paths_to_purge(views_of(entries@), maximum_snapshots_to_retain as nat),
{
    let archives = get_sorted_snapshot_archives(entries);
    let ghost sorted = views_of(archives@);
    let count: usize = archives.len();
    let max_snaps: usize = if maximum_snapshots_to_retain < 1 {
        1
    } else {
        maximum_snapshots_to_retain
    };
    let first: usize = if count == 0 {
        0
    } else if max_snaps < count - 1 {
        max_snaps
    } else {
        count - 1
    };
    let ghost to_purge = full_archives_to_purge(sorted, maximum_snapshots_to_retain as nat);
    let mut paths: Vec<String> = Vec::new();
    let mut i: usize = first;
    while i + 1 < count
        invariant
            count == archives@.len(),
            sorted == views_of(archives@),
            first == first_to_purge(count as nat, maximum_snapshots_to_retain as nat),
            first <= i,
            count > 0 ==> i <= count - 1,
            count == 0 ==> i == 0,
            views_of(paths@) == full_paths(sorted.subrange(first as int, i as int)),
        decreases count - i,
    {
        let ghost before = views_of(paths@);
        paths.push(archives[i].path.clone());
        proof {
            assert(sorted.subrange(first as int, i + 1) =~= sorted.subrange(
                first as int,
                i as int,
            ).push(sorted[i as int]));
            assert(views_of(paths@) =~= before.push(sorted[i as int].path));
            assert(views_of(paths@) =~= full_paths(sorted.subrange(first as int, i + 1)));
        }
        i += 1;
    }
    proof {
        if count == 0 {
            assert(sorted.subrange(0, 0) =~= Seq::<SnapshotArchiveInfoView>::empty());
            assert(full_paths(Seq::<SnapshotArchiveInfoView>::empty()) =~= views_of(paths@));
        }
        assert(views_of(paths@) == full_paths(to_purge));
    }
    let last_full_snapshot_slot: Option<Slot> = if count == 0 {
        None
    } else {
        Some(archives[0].slot)
    };
    let incrementals = get_incremental_snapshot_archives(entries);
    let ghost all = views_of(incrementals@);
    let ghost full = views_of(paths@);
    let mut k: usize = 0;
    while k < incrementals.len()
        invariant
            k <= incrementals@.len(),
            all == views_of(incrementals@),
            last_full_snapshot_slot == highest_slot(sorted),
            views_of(paths@) == full + incremental_paths(
                incremental_archives_to_purge(all.take(k as int), last_full_snapshot_slot),
            ),
        decreases incrementals@.len() - k,
    {
        let ghost before = views_of(paths@);
        let ghost purged = incremental_archives_to_purge(
            all.take(k as int),
            last_full_snapshot_slot,
        );
        proof {
            assert(all.take(k + 1).drop_last() =~= all.take(k as int));
            assert(all.take(k + 1).last() == incrementals@[k as int]@);
        }
        let outdated = match last_full_snapshot_slot {
            Some(slot) => incrementals[k].base_slot != slot,
            None => false,
        };
        if outdated {
            paths.push(incrementals[k].path.clone());
            proof {
                assert(views_of(paths@) =~= before.push(all[k as int].path));
                assert(incremental_paths(purged.push(all[k as int])) =~= incremental_paths(
                    purged,
                ).push(all[k as int].path));
                assert(views_of(paths@) =~= full + incremental_paths(
                    purged.push(all[k as int]),
                ));
            }
        }
        k += 1;
    }
    proof {
        assert(all.take(k as int) =~= all);
    }
    paths
}

} // verus!
