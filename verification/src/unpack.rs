//! Unpacking an archive with several workers.
//!
//! The archive is decompressed once, and every worker walks the one decompressed stream.
//! Each worker extracts the entries that fall to it by their position in the archive, so
//! that every entry is extracted by exactly one worker. What the workers unpacked is put
//! together at the end.

use vstd::multiset::Multiset;
use vstd::prelude::*;
use vstd::string::{StrSliceExecFns, StringExecFns};

use crate::error::{SnapshotError, SnapshotErrorView};
use crate::path::is_entry_name;
use crate::text::to_chars;

verus! {

/// The number of workers that is aimed at. From testing, 4 seems to be a sweet spot for
/// ranges of 60M-360M accounts and 16-64 cores.
pub const PARALLEL_UNTAR_READERS_DEFAULT: usize = 4;

/// The number of logical processors of the machine, as `num_cpus::get` reports it.
/// Nothing is claimed of the number: it depends on the machine and on the limits set
/// for the process.
#[verifier::external_body]
fn available_cpus() -> (cpus: usize) {
    num_cpus::get()
}

/// The number of workers for a machine with `cpus` processors: one for every four
/// processors, at least one and at most [`PARALLEL_UNTAR_READERS_DEFAULT`].
pub open spec fn workers_for(cpus: usize) -> usize {
    if cpus / 4 < 1 {
        1
    } else if cpus / 4 > PARALLEL_UNTAR_READERS_DEFAULT {
        PARALLEL_UNTAR_READERS_DEFAULT
    } else {
        cpus / 4
    }
}

/// The number of workers for a machine with `cpus` processors.
pub fn parallel_divisions_for(cpus: usize) -> (divisions: usize)
    ensures
        divisions == workers_for(cpus),
        1 <= divisions <= PARALLEL_UNTAR_READERS_DEFAULT,
{
    let quarter: usize = cpus / 4;
    let at_least_one: usize = if quarter < 1 {
        1
    } else {
        quarter
    };
    if at_least_one > PARALLEL_UNTAR_READERS_DEFAULT {
        PARALLEL_UNTAR_READERS_DEFAULT
    } else {
        at_least_one
    }
}

/// The number of workers for this machine: at least one and at most
/// [`PARALLEL_UNTAR_READERS_DEFAULT`], whatever the machine.
pub fn parallel_divisions() -> (divisions: usize)
    ensures
        1 <= divisions <= PARALLEL_UNTAR_READERS_DEFAULT,
{
    parallel_divisions_for(available_cpus())
}

/// The share of one worker: of `divisions` workers, the one with the number `index`.
#[derive(Copy, Clone, Debug, PartialEq, Eq, Structural)]
pub struct ParallelSelector {
    pub index: usize,
    pub divisions: usize,
}

/// Whether the entry at position `entry` of the archive falls to the worker `index` of
/// `divisions` workers.
pub open spec fn falls_to(index: int, divisions: int, entry: int) -> bool {
    entry % divisions == index
}

/// The worker to which the entry at position `entry` falls.
pub open spec fn worker_of(divisions: int, entry: int) -> int {
    entry % divisions
}

impl ParallelSelector {
    /// The selector of the worker `index` of `divisions` workers, if there is such a
    /// worker.
    pub fn new(index: usize, divisions: usize) -> (r: Option<ParallelSelector>)
        ensures
            r == if index < divisions {
                Some(ParallelSelector { index, divisions })
            } else {
                None
            },
    {
        if index < divisions {
            Some(ParallelSelector { index, divisions })
        } else {
            None
        }
    }

    /// Whether the entry at position `index` of the archive falls to this worker.
    pub fn select_index(&self, index: usize) -> (r: bool)
        requires
            self.divisions > 0,
        ensures
            r == falls_to(self.index as int, self.divisions as int, index as int),
    {
        index % self.divisions == self.index
    }
}

/// A selector for each of `parallel_archivers` workers, in the order of the workers.
pub fn selectors(parallel_archivers: usize) -> (r: Vec<ParallelSelector>)
    requires
        parallel_archivers > 0,
    ensures
        r@.len() == parallel_archivers,
        forall|i: int|
            0 <= i < r@.len() ==> #[trigger] r@[i] == (ParallelSelector {
                index: i as usize,
                divisions: parallel_archivers,
            }),
{
    let mut r: Vec<ParallelSelector> = Vec::new();
    let mut index: usize = 0;
    while index < parallel_archivers
        invariant
            index <= parallel_archivers,
            r@.len() == index,
            forall|i: int|
                0 <= i < r@.len() ==> #[trigger] r@[i] == (ParallelSelector {
                    index: i as usize,
                    divisions: parallel_archivers,
                }),
        decreases parallel_archivers - index,
    {
        r.push(ParallelSelector { index, divisions: parallel_archivers });
        index += 1;
    }
    r
}

/// Every entry of an archive falls to exactly one of the workers: to the worker
/// [`worker_of`] the entry, and to no other.
pub proof fn lemma_every_entry_has_one_worker(divisions: int, entry: int)
    requires
        divisions > 0,
        entry >= 0,
    ensures
        0 <= worker_of(divisions, entry) < divisions,
        falls_to(worker_of(divisions, entry), divisions, entry),
        forall|index: int| #[trigger]
            falls_to(index, divisions, entry) ==> index == worker_of(divisions, entry),
{
}

/// The entries of `entries` that fall to the worker `index` of `divisions` workers, in
/// their order.
pub open spec fn share_of<E>(entries: Seq<E>, index: int, divisions: int) -> Seq<E>
    decreases entries.len(),
{
    if entries.len() == 0 {
        Seq::empty()
    } else {
        let before = share_of(entries.drop_last(), index, divisions);
        if falls_to(index, divisions, entries.len() - 1) {
            before.push(entries.last())
        } else {
            before
        }
    }
}

/// What all workers extract, taken together: the shares of the workers below `workers`,
/// as one multiset.
pub open spec fn shares_together<E>(entries: Seq<E>, workers: int, divisions: int) -> Multiset<E>
    decreases workers,
{
    if workers <= 0 {
        Multiset::empty()
    } else {
        shares_together(entries, workers - 1, divisions).add(
            share_of(entries, workers - 1, divisions).to_multiset(),
        )
    }
}

/// With one worker, the worker extracts every entry, in the order of the archive.
pub proof fn lemma_single_worker_takes_all<E>(entries: Seq<E>)
    ensures
        share_of(entries, 0, 1) == entries,
    decreases entries.len(),
{
    if entries.len() > 0 {
        lemma_single_worker_takes_all(entries.drop_last());
        assert(entries.drop_last().push(entries.last()) =~= entries);
    }
}

/// The shares of the workers below `workers` hold each entry as often as it stands at a
/// position that falls to one of them.
proof fn lemma_shares_count<E>(entries: Seq<E>, workers: int, divisions: int, e: E)
    requires
        0 <= workers <= divisions,
        divisions > 0,
    ensures
        shares_together(entries, workers, divisions).count(e) == share_count(
            entries,
            workers,
            divisions,
            e,
        ),
    decreases entries.len(), workers,
{
    broadcast use vstd::seq_lib::group_to_multiset_ensures;

    if workers > 0 {
        lemma_shares_count(entries, workers - 1, divisions, e);
        lemma_share_count_one(entries, workers - 1, divisions, e);
        lemma_share_count_split(entries, workers, divisions, e);
    } else {
        lemma_share_count_none(entries, divisions, e);
    }
}

/// How often `e` stands in `entries` at a position that falls to a worker below
/// `workers`.
pub open spec fn share_count<E>(entries: Seq<E>, workers: int, divisions: int, e: E) -> nat
    decreases entries.len(),
{
    if entries.len() == 0 {
        0
    } else {
        let before = share_count(entries.drop_last(), workers, divisions, e);
        if entries.last() == e && worker_of(divisions, entries.len() - 1) < workers {
            before + 1
        } else {
            before
        }
    }
}

/// No position falls to a worker below the first.
proof fn lemma_share_count_none<E>(entries: Seq<E>, divisions: int, e: E)
    requires
        divisions > 0,
    ensures
        share_count(entries, 0, divisions, e) == 0,
    decreases entries.len(),
{
    if entries.len() > 0 {
        lemma_share_count_none(entries.drop_last(), divisions, e);
        lemma_every_entry_has_one_worker(divisions, entries.len() - 1);
    }
}

/// How often `e` stands in the share of one worker.
proof fn lemma_share_count_one<E>(entries: Seq<E>, index: int, divisions: int, e: E)
    requires
        0 <= index < divisions,
    ensures
        share_of(entries, index, divisions).to_multiset().count(e) == share_count(
            entries,
            index + 1,
            divisions,
            e,
        ) - share_count(entries, index, divisions, e),
    decreases entries.len(),
{
    broadcast use vstd::seq_lib::group_to_multiset_ensures;

    if entries.len() > 0 {
        lemma_share_count_one(entries.drop_last(), index, divisions, e);
        lemma_every_entry_has_one_worker(divisions, entries.len() - 1);
        let before = share_of(entries.drop_last(), index, divisions);
        if falls_to(index, divisions, entries.len() - 1) {
            assert(before.push(entries.last()).to_multiset() =~= before.to_multiset().insert(
                entries.last(),
            ));
        }
    } else {
        assert(Seq::<E>::empty().to_multiset().count(e) == 0);
    }
}

/// With one worker more, no fewer positions are counted.
proof fn lemma_share_count_split<E>(entries: Seq<E>, workers: int, divisions: int, e: E)
    requires
        0 < workers <= divisions,
    ensures
        share_count(entries, workers, divisions, e) >= share_count(
            entries,
            workers - 1,
            divisions,
            e,
        ),
    decreases entries.len(),
{
    if entries.len() > 0 {
        lemma_share_count_split(entries.drop_last(), workers, divisions, e);
    }
}

/// Every position falls to one of all the workers.
proof fn lemma_share_count_all<E>(entries: Seq<E>, divisions: int, e: E)
    requires
        divisions > 0,
    ensures
        share_count(entries, divisions, divisions, e) == entries.to_multiset().count(e),
    decreases entries.len(),
{
    broadcast use vstd::seq_lib::group_to_multiset_ensures;

    if entries.len() > 0 {
        lemma_share_count_all(entries.drop_last(), divisions, e);
        lemma_every_entry_has_one_worker(divisions, entries.len() - 1);
        assert(entries =~= entries.drop_last().push(entries.last()));
        assert(entries.to_multiset() =~= entries.drop_last().to_multiset().insert(entries.last()));
    } else {
        assert(entries.to_multiset().count(e) == 0);
    }
}

/// However many workers there are, together they extract what one worker extracts alone:
/// every entry of the archive, each once.
pub proof fn lemma_workers_extract_the_same<E>(entries: Seq<E>, divisions: int)
    requires
        divisions > 0,
    ensures
        shares_together(entries, divisions, divisions) == entries.to_multiset(),
        shares_together(entries, divisions, divisions) == shares_together(entries, 1, 1),
{
    assert forall|e: E|
        shares_together(entries, divisions, divisions).count(e) == entries.to_multiset().count(
            e,
        ) by {
        lemma_shares_count(entries, divisions, divisions, e);
        lemma_share_count_all(entries, divisions, e);
    }
    assert(shares_together(entries, divisions, divisions) =~= entries.to_multiset());
    assert forall|e: E|
        shares_together(entries, 1, 1).count(e) == entries.to_multiset().count(e) by {
        lemma_shares_count(entries, 1, 1, e);
        lemma_share_count_all(entries, 1, e);
    }
    assert(shares_together(entries, 1, 1) =~= entries.to_multiset());
}

/// The name of the storage that an entry of an archive holds, by the path of the entry:
/// the entries of the directory `accounts` are storages, under their names, and no
/// other entry is one.
pub open spec fn storage_name_of(entry_path: Seq<char>) -> Option<Seq<char>> {
    let name = entry_path.skip(9);
    if entry_path.len() >= 9 && entry_path.take(9) == "accounts/"@ && is_entry_name(name) {
        Some(name)
    } else {
        None
    }
}

/// The name of the storage that the entry at `entry_path` of an archive holds, if it
/// holds one. A storage is unpacked into a directory of accounts; every other entry is
/// unpacked in its place.
pub fn storage_name(entry_path: &str) -> (r: Option<String>)
    ensures
        match r {
            Some(name) => storage_name_of(entry_path@) == Some(name@),
            None => storage_name_of(entry_path@) is None,
        },
{
    proof {
        reveal_strlit("accounts/");
    }
    let chars = to_chars(entry_path);
    let prefix = to_chars("accounts/");
    let n: usize = chars.len();
    if n <= 9 {
        proof {
            if n == 9 {
                assert(entry_path@.skip(9).len() == 0);
            }
        }
        return None;
    }
    let mut i: usize = 0;
    while i < 9
        invariant
            i <= 9 < n,
            n == chars@.len(),
            chars@ == entry_path@,
            prefix@ == "accounts/"@,
            prefix@.len() == 9,
            entry_path@.take(i as int) == prefix@.take(i as int),
        decreases 9 - i,
    {
        if chars[i] != prefix[i] {
            assert(entry_path@.take(9)[i as int] != prefix@[i as int]);
            return None;
        }
        proof {
            assert(entry_path@.take(i + 1) =~= entry_path@.take(i as int).push(
                entry_path@[i as int],
            ));
            assert(prefix@.take(i + 1) =~= prefix@.take(i as int).push(prefix@[i as int]));
        }
        i += 1;
    }
    proof {
        assert(prefix@.take(9) =~= prefix@);
    }
    let ghost name = entry_path@.skip(9);
    let mut k: usize = 9;
    while k < n
        invariant
            9 <= k <= n,
            n == chars@.len(),
            chars@ == entry_path@,
            name == entry_path@.skip(9),
            forall|j: int| 0 <= j < k - 9 ==> #[trigger] name[j] != '/',
        decreases n - k,
    {
        if chars[k] == '/' {
            assert(name[k - 9] == '/');
            return None;
        }
        k += 1;
    }
    let single_dot = n == 10 && chars[9] == '.';
    let double_dot = n == 11 && chars[9] == '.' && chars[10] == '.';
    proof {
        if name == seq!['.'] {
            assert(name.len() == 1 && name[0] == '.');
        }
        if name == seq!['.', '.'] {
            assert(name.len() == 2 && name[0] == '.' && name[1] == '.');
        }
        if single_dot {
            assert(name =~= seq!['.']);
        }
        if double_dot {
            assert(name =~= seq!['.', '.']);
        }
    }
    if single_dot || double_dot {
        return None;
    }
    Some(String::from_str(entry_path.substring_char(9, n)))
}

/// Where the storages of an archive were unpacked: for the name of each storage in the
/// archive, the path of its file. Of two paths for one name the later one counts.
#[derive(Debug)]
pub struct UnpackedAppendVecMap {
    entries: Vec<(String, String)>,
}

/// The map that a list of names and paths stands for.
pub open spec fn map_of(entries: Seq<(Seq<char>, Seq<char>)>) -> Map<Seq<char>, Seq<char>>
    decreases entries.len(),
{
    if entries.len() == 0 {
        Map::empty()
    } else {
        map_of(entries.drop_last()).insert(entries.last().0, entries.last().1)
    }
}

/// The names and paths of a list, as sequences of characters.
pub open spec fn pair_views(entries: Seq<(String, String)>) -> Seq<(Seq<char>, Seq<char>)> {
    Seq::new(entries.len(), |i: int| (entries[i].0@, entries[i].1@))
}

/// The map of two lists, one after the other, is the map of the first with the map of
/// the second laid over it.
pub proof fn lemma_map_of_concat(
    first: Seq<(Seq<char>, Seq<char>)>,
    second: Seq<(Seq<char>, Seq<char>)>,
)
    ensures
        map_of(first + second) == map_of(first).union_prefer_right(map_of(second)),
    decreases second.len(),
{
    if second.len() == 0 {
        assert(first + second =~= first);
        assert(map_of(first).union_prefer_right(map_of(second)) =~= map_of(first));
    } else {
        lemma_map_of_concat(first, second.drop_last());
        assert((first + second).drop_last() =~= first + second.drop_last());
        assert((first + second).last() == second.last());
        assert(map_of(first + second) =~= map_of(first).union_prefer_right(map_of(second)));
    }
}

impl View for UnpackedAppendVecMap {
    type V = Map<Seq<char>, Seq<char>>;

    closed spec fn view(&self) -> Map<Seq<char>, Seq<char>> {
        map_of(pair_views(self.entries@))
    }
}

impl UnpackedAppendVecMap {
    /// The empty map.
    pub fn new() -> (r: UnpackedAppendVecMap)
        ensures
            r@ == Map::<Seq<char>, Seq<char>>::empty(),
    {
        let r = UnpackedAppendVecMap { entries: Vec::new() };
        assert(pair_views(r.entries@) =~= Seq::<(Seq<char>, Seq<char>)>::empty());
        r
    }

    /// Sets the path of the storage `file_name`.
    pub fn insert(&mut self, file_name: String, path: String)
        ensures
            final(self)@ == old(self)@.insert(file_name@, path@),
    {
        let ghost before = pair_views(self.entries@);
        self.entries.push((file_name, path));
        proof {
            assert(pair_views(self.entries@) =~= before.push((file_name@, path@)));
            assert(pair_views(self.entries@).drop_last() =~= before);
        }
    }

    /// Lays `other` over this map: the paths of `other` are added, and where both maps
    /// have a path for a name, that of `other` stays.
    pub fn extend(&mut self, other: UnpackedAppendVecMap)
        ensures
            final(self)@ == old(self)@.union_prefer_right(other@),
    {
        let ghost first = pair_views(self.entries@);
        let ghost second = pair_views(other.entries@);
        let mut other = other;
        self.entries.append(&mut other.entries);
        proof {
            assert(pair_views(self.entries@) =~= first + second);
            lemma_map_of_concat(first, second);
        }
    }

    /// The path of the storage `file_name`, if the map has one.
    pub fn get(&self, file_name: &str) -> (r: Option<&String>)
        ensures
            match r {
                Some(path) => self@.contains_key(file_name@) && self@[file_name@] == path@,
                None => !self@.contains_key(file_name@),
            },
    {
        let ghost all = pair_views(self.entries@);
        let mut i: usize = self.entries.len();
        assert(all.take(i as int) =~= all);
        while i > 0
            invariant
                i <= self.entries@.len(),
                all == pair_views(self.entries@),
                map_of(all).contains_key(file_name@) <==> map_of(all.take(i as int)).contains_key(
                    file_name@,
                ),
                map_of(all).contains_key(file_name@) ==> map_of(all)[file_name@] == map_of(
                    all.take(i as int),
                )[file_name@],
            decreases i,
        {
            proof {
                assert(all.take(i as int).drop_last() =~= all.take(i - 1));
                assert(all.take(i as int).last() == all[i - 1]);
            }
            if str_eq(self.entries[i - 1].0.as_str(), file_name) {
                return Some(&self.entries[i - 1].1);
            }
            i -= 1;
        }
        None
    }

    /// The names and paths of the map as a list of which the later pairs count before
    /// the earlier ones.
    pub fn into_entries(self) -> (entries: Vec<(String, String)>)
        ensures
            map_of(pair_views(entries@)) == self@,
    {
        self.entries
    }

    /// Whether the map holds no path.
    pub fn is_empty(&self) -> (r: bool)
        ensures
            r == (self@ == Map::<Seq<char>, Seq<char>>::empty()),
    {
        proof {
            let all = pair_views(self.entries@);
            if all.len() > 0 {
                assert(map_of(all).contains_key(all.last().0));
                assert(!Map::<Seq<char>, Seq<char>>::empty().contains_key(all.last().0));
            }
        }
        self.entries.len() == 0
    }
}

/// Whether two strings are equal.
fn str_eq(a: &str, b: &str) -> (r: bool)
    ensures
        r == (a@ == b@),
{
    let x = a.to_owned();
    let y = b.to_owned();
    x == y
}

/// What the workers unpacked, put together: the maps of all workers laid over one
/// another in the order of the workers, or the error of the first worker that failed.
pub open spec fn merged(results: Seq<Result<UnpackedAppendVecMap, SnapshotError>>) -> Result<
    Map<Seq<char>, Seq<char>>,
    SnapshotErrorView,
>
    decreases results.len(),
{
    if results.len() == 0 {
        Ok(Map::empty())
    } else {
        match merged(results.drop_last()) {
            Err(error) => Err(error),
            Ok(map) => match results.last() {
                Ok(unpacked) => Ok(map.union_prefer_right(unpacked@)),
                Err(error) => Err(error@),
            },
        }
    }
}

/// Puts together what the workers unpacked.
pub fn merge_unpacked(results: Vec<Result<UnpackedAppendVecMap, SnapshotError>>) -> (r: Result<
    UnpackedAppendVecMap,
    SnapshotError,
>)
    ensures
        match r {
            Ok(map) => merged(results@) == Ok::<Map<Seq<char>, Seq<char>>, SnapshotErrorView>(
                map@,
            ),
            Err(error) => merged(results@) == Err::<Map<Seq<char>, Seq<char>>, SnapshotErrorView>(
                error@,
            ),
        },
{
    let ghost given = results@;
    let mut left = results;
    let mut rest: Vec<Result<UnpackedAppendVecMap, SnapshotError>> = Vec::new();
    // turned over, so that the results can be taken from the end in their order
    while left.len() > 0
        invariant
            left@.len() <= given.len(),
            left@ == given.take(left@.len() as int),
            rest@ == given.skip(left@.len() as int).reverse(),
        decreases left.len(),
    {
        let ghost n = left@.len() as int;
        let x = left.pop().unwrap();
        rest.push(x);
        proof {
            assert(left@ =~= given.take(n - 1));
            assert(given.skip(n - 1) =~= seq![given[n - 1]] + given.skip(n));
            assert(rest@ =~= given.skip(n - 1).reverse());
        }
    }
    let mut unpacked_append_vec_map = UnpackedAppendVecMap::new();
    let ghost mut done: int = 0;
    proof {
        assert(given.skip(0) =~= given);
        assert(given.take(0) =~= Seq::<Result<UnpackedAppendVecMap, SnapshotError>>::empty());
    }
    while rest.len() > 0
        invariant
            given == results@,
            0 <= done <= given.len(),
            rest@.len() == given.len() - done,
            rest@ == given.skip(done).reverse(),
            merged(given.take(done)) == Ok::<Map<Seq<char>, Seq<char>>, SnapshotErrorView>(
                unpacked_append_vec_map@,
            ),
        decreases rest.len(),
    {
        let ghost before = rest@;
        let h = rest.pop().unwrap();
        proof {
            crate::ranking::lemma_reverse_without_last(given, done);
            assert(rest@ =~= before.drop_last());
            assert(h == given[done]);
            assert(given.take(done + 1).drop_last() =~= given.take(done));
            assert(given.take(done + 1).last() == given[done]);
        }
        match h {
            Ok(map) => {
                unpacked_append_vec_map.extend(map);
            },
            Err(error) => {
                proof {
                    assert(merged(given.take(done + 1)) == Err::<
                        Map<Seq<char>, Seq<char>>,
                        SnapshotErrorView,
                    >(error@));
                    lemma_merged_error_stays(given, done + 1);
                }
                return Err(error);
            },
        }
        proof {
            done = done + 1;
        }
    }
    proof {
        assert(given.take(done) =~= given);
    }
    Ok(unpacked_append_vec_map)
}

/// Once a worker has failed, its error is the result, whatever the later workers did.
proof fn lemma_merged_error_stays(
    results: Seq<Result<UnpackedAppendVecMap, SnapshotError>>,
    upto: int,
)
    requires
        0 <= upto <= results.len(),
        merged(results.take(upto)) is Err,
    ensures
        merged(results) == merged(results.take(upto)),
    decreases results.len() - upto,
{
    if upto < results.len() {
        assert(results.take(upto + 1).drop_last() =~= results.take(upto));
        lemma_merged_error_stays(results, upto + 1);
    } else {
        assert(results.take(upto) =~= results);
    }
}

} // verus!
