//! Packages: what is gathered of a frozen state before it is archived.
//!
//! A package is made in two steps. Packaging gathers the state file of the slot, the
//! storages and the status cache deltas into an [`AccountsPackagePre`]. Once the content
//! hash has been computed, the package becomes an [`AccountsPackage`], which names the
//! archive that is to be written. Both steps take the package by value: a package is
//! finished once, and archived once.

use vstd::prelude::*;
use vstd::string::StringExecFns;

use crate::archive_format::ArchiveFormat;
use crate::archive_name::{
    build_incremental_snapshot_archive_path, build_snapshot_archive_path,
    incremental_snapshot_archive_filename, snapshot_archive_filename, Slot,
};
use crate::decimal::{append_decimal, decimal_digits, decimal_string};
use crate::path::{join_path, joined};
use crate::snapshot_paths::{SlotSnapshotPaths, SlotSnapshotPathsView};
use crate::snapshot_version::SnapshotVersion;

verus! {

/// The prefix of the names of temporary directories and files of full snapshots. No
/// snapshot archive has a name that starts so.
pub const TMP_SNAPSHOT_PREFIX: &'static str = "tmp-snapshot-";

/// The prefix of the names of temporary directories of incremental snapshots.
pub const TMP_INCREMENTAL_SNAPSHOT_PREFIX: &'static str = "tmp-incremental-snapshot-";

/// A storage shard: an append-only file that holds the accounts written in a slot.
#[derive(Debug)]
pub struct StorageEntry {
    /// The slot whose accounts the storage holds.
    pub slot: Slot,
    /// The number of the storage.
    pub append_vec_id: usize,
    /// The path of the storage's file.
    pub path: String,
}

/// The view of a [`StorageEntry`].
pub struct StorageEntryView {
    pub slot: Slot,
    pub append_vec_id: usize,
    pub path: Seq<char>,
}

impl View for StorageEntry {
    type V = StorageEntryView;

    open spec fn view(&self) -> StorageEntryView {
        StorageEntryView { slot: self.slot, append_vec_id: self.append_vec_id, path: self.path@ }
    }
}

impl DeepView for StorageEntry {
    type V = StorageEntryView;

    open spec fn deep_view(&self) -> StorageEntryView {
        self@
    }
}

/// The storages of one slot.
pub type SnapshotStorage = Vec<StorageEntry>;

/// The storages of a snapshot, slot by slot.
pub type SnapshotStorages = Vec<SnapshotStorage>;

/// What packaging reads of the frozen state.
#[derive(Debug)]
pub struct BankInfo {
    pub slot: Slot,
    pub block_height: u64,
    /// The content hash of the state.
    pub accounts_hash: crate::hash::Hash,
    /// The sum of all balances.
    pub capitalization: u64,
}

/// A package before its hash has been settled.
///
/// `D` is the type of a status cache delta; the package carries the deltas and does not
/// look into them. `snapshot_links` is the temporary directory that holds the link to the
/// state file: it belongs to the package.
#[derive(Debug)]
pub struct AccountsPackagePre<D> {
    pub slot: Slot,
    pub block_height: u64,
    pub slot_deltas: Vec<D>,
    pub snapshot_links: String,
    pub storages: SnapshotStorages,
    pub hash: crate::hash::Hash,
    pub archive_format: ArchiveFormat,
    pub snapshot_version: SnapshotVersion,
    pub snapshot_output_dir: String,
    pub expected_capitalization: u64,
    pub hash_for_testing: Option<crate::hash::Hash>,
}

/// A package that is ready to be archived.
///
/// `tar_output_file` is the path of the archive in the directory `snapshot_output_dir`;
/// its name holds the slot, the hash and the format of the package.
#[derive(Debug)]
pub struct AccountsPackage<D> {
    pub slot: Slot,
    pub block_height: u64,
    pub slot_deltas: Vec<D>,
    pub snapshot_links: String,
    pub storages: SnapshotStorages,
    pub snapshot_output_dir: String,
    pub tar_output_file: String,
    pub hash: crate::hash::Hash,
    pub archive_format: ArchiveFormat,
    pub snapshot_version: SnapshotVersion,
}

/// The link to the state file that is made for a package: the directory to create, the
/// file to link and the path of the link.
#[derive(Debug)]
pub struct SnapshotLink {
    pub dir: String,
    pub source: String,
    pub target: String,
}

/// The prefix of the name of the temporary directory of the package of a full snapshot.
pub open spec fn snapshot_tmpdir_prefix(slot: Slot) -> Seq<char> {
    "tmp-snapshot-"@ + decimal_digits(slot as nat) + "-"@
}

/// The prefix of the name of the temporary directory of the package of an incremental
/// snapshot.
pub open spec fn incremental_snapshot_tmpdir_prefix(base_slot: Slot, slot: Slot) -> Seq<char> {
    "tmp-incremental-snapshot-"@ + decimal_digits(base_slot as nat) + "-"@ + decimal_digits(
        slot as nat,
    ) + "-"@
}

/// Whether every storage is of a slot above `base_slot`.
pub open spec fn storages_above(storages: Seq<Vec<StorageEntry>>, base_slot: Slot) -> bool {
    forall|i: int, j: int|
        0 <= i < storages.len() && 0 <= j < storages[i]@.len() ==> (
        #[trigger] storages[i]@[j]).slot > base_slot
}

/// The temporary directories of full and of incremental snapshots are told apart by
/// their names: no name starts with the prefix of the one kind and with the prefix of
/// the other.
pub proof fn lemma_tmpdir_prefixes_differ(
    slot: Slot,
    base_slot: Slot,
    incremental_slot: Slot,
    full_rest: Seq<char>,
    incremental_rest: Seq<char>,
)
    ensures
        snapshot_tmpdir_prefix(slot) + full_rest != incremental_snapshot_tmpdir_prefix(
            base_slot,
            incremental_slot,
        ) + incremental_rest,
{
    reveal_strlit("tmp-snapshot-");
    reveal_strlit("tmp-incremental-snapshot-");
    let full = snapshot_tmpdir_prefix(slot) + full_rest;
    let incremental = incremental_snapshot_tmpdir_prefix(base_slot, incremental_slot)
        + incremental_rest;
    assert(full[4] == 's');
    assert(incremental[4] == 'i');
}

/// The prefix of the name of the temporary directory of the package of a full snapshot
/// of `slot`.
pub fn get_snapshot_tmpdir_prefix(slot: Slot) -> (prefix: String)
    ensures
        prefix@ == snapshot_tmpdir_prefix(slot),
{
    let mut prefix = String::from_str(TMP_SNAPSHOT_PREFIX);
    append_decimal(&mut prefix, slot);
    prefix.append("-");
    prefix
}

/// The prefix of the name of the temporary directory of the package of an incremental
/// snapshot of `slot` on the full snapshot of `base_slot`.
pub fn get_incremental_snapshot_tmpdir_prefix(base_slot: Slot, slot: Slot) -> (prefix: String)
    ensures
        prefix@ == incremental_snapshot_tmpdir_prefix(base_slot, slot),
{
    let mut prefix = String::from_str(TMP_INCREMENTAL_SNAPSHOT_PREFIX);
    append_decimal(&mut prefix, base_slot);
    prefix.append("-");
    append_decimal(&mut prefix, slot);
    prefix.append("-");
    prefix
}

/// Tests whether every storage is of a slot above `base_slot`, as the package of an
/// incremental snapshot demands.
pub fn are_storages_above(storages: &SnapshotStorages, base_slot: Slot) -> (r: bool)
    ensures
        r == storages_above(storages@, base_slot),
{
    let mut i: usize = 0;
    while i < storages.len()
        invariant
            i <= storages@.len(),
            forall|a: int, b: int|
                0 <= a < i && 0 <= b < storages@[a]@.len() ==> (#[trigger] storages@[a]@[b]).slot
                    > base_slot,
        decreases storages@.len() - i,
    {
        let storage = &storages[i];
        let mut j: usize = 0;
        while j < storage.len()
            invariant
                j <= storage@.len(),
                storage == storages@[i as int],
                i < storages@.len(),
                forall|b: int| 0 <= b < j ==> (#[trigger] storage@[b]).slot > base_slot,
            decreases storage@.len() - j,
        {
            if storage[j].slot <= base_slot {
                return false;
            }
            j += 1;
        }
        i += 1;
    }
    true
}

/// The link that keeps the state file of the package: in the directory `<slot>` of the
/// package's temporary directory, under the name `<slot>`.
pub open spec fn snapshot_link(
    snapshot_tmpdir: Seq<char>,
    snapshot_files: SlotSnapshotPathsView,
) -> (Seq<char>, Seq<char>, Seq<char>) {
    let dir = joined(snapshot_tmpdir, decimal_digits(snapshot_files.slot as nat));
    (
        dir,
        snapshot_files.snapshot_file_path,
        joined(dir, decimal_digits(snapshot_files.slot as nat)),
    )
}

/// Create a snapshot package
///
/// `snapshot_tmpdir` is the temporary directory that was made for the package. Returns
/// the package and the link to the state file that is to be made in that directory, so
/// that the state file outlasts a cleanup of the snapshot directory.
pub fn do_package_snapshot<D>(
    bank: &BankInfo,
    snapshot_files: &SlotSnapshotPaths,
    status_cache_slot_deltas: Vec<D>,
    snapshot_package_output_path: &str,
    snapshot_storages: SnapshotStorages,
    archive_format: ArchiveFormat,
    snapshot_version: SnapshotVersion,
    hash_for_testing: Option<crate::hash::Hash>,
    snapshot_tmpdir: String,
) -> (r: (AccountsPackagePre<D>, SnapshotLink))
    ensures
        r.0.slot == bank.slot,
        r.0.block_height == bank.block_height,
        r.0.slot_deltas == status_cache_slot_deltas,
        r.0.snapshot_links == snapshot_tmpdir,
        r.0.storages == snapshot_storages,
        r.0.hash@ == bank.accounts_hash@,
        r.0.archive_format == archive_format,
        r.0.snapshot_version == snapshot_version,
        r.0.snapshot_output_dir@ == snapshot_package_output_path@,
        r.0.expected_capitalization == bank.capitalization,
        r.0.hash_for_testing == hash_for_testing,
        (r.1.dir@, r.1.source@, r.1.target@) == snapshot_link(snapshot_tmpdir@, snapshot_files@),
{
    let slot_name = decimal_string(snapshot_files.slot);
    let snapshot_hardlink_dir = join_path(snapshot_tmpdir.as_str(), slot_name.as_str());
    let target = join_path(snapshot_hardlink_dir.as_str(), slot_name.as_str());
    let link = SnapshotLink {
        dir: snapshot_hardlink_dir,
        source: snapshot_files.snapshot_file_path.clone(),
        target,
    };
    let package = AccountsPackagePre {
        slot: bank.slot,
        block_height: bank.block_height,
        slot_deltas: status_cache_slot_deltas,
        snapshot_links: snapshot_tmpdir,
        storages: snapshot_storages,
        hash: bank.accounts_hash.clone(),
        archive_format,
        snapshot_version,
        snapshot_output_dir: String::from_str(snapshot_package_output_path),
        expected_capitalization: bank.capitalization,
        hash_for_testing,
    };
    (package, link)
}

/// Package up slot snapshot files, snapshot storages, and slot deltas for a full snapshot.
///
/// `snapshot_tmpdir` is a temporary directory whose name starts with
/// [`get_snapshot_tmpdir_prefix`] of the bank's slot.
pub fn package_snapshot<D>(
    bank: &BankInfo,
    snapshot_files: &SlotSnapshotPaths,
    snapshot_tmpdir: String,
    status_cache_slot_deltas: Vec<D>,
    snapshot_package_output_path: &str,
    snapshot_storages: SnapshotStorages,
    archive_format: ArchiveFormat,
    snapshot_version: SnapshotVersion,
    hash_for_testing: Option<crate::hash::Hash>,
) -> (r: (AccountsPackagePre<D>, SnapshotLink))
    ensures
        r.0.slot == bank.slot,
        r.0.block_height == bank.block_height,
        r.0.slot_deltas == status_cache_slot_deltas,
        r.0.snapshot_links == snapshot_tmpdir,
        r.0.storages == snapshot_storages,
        r.0.hash@ == bank.accounts_hash@,
        r.0.archive_format == archive_format,
        r.0.snapshot_version == snapshot_version,
        r.0.snapshot_output_dir@ == snapshot_package_output_path@,
        r.0.expected_capitalization == bank.capitalization,
        r.0.hash_for_testing == hash_for_testing,
        (r.1.dir@, r.1.source@, r.1.target@) == snapshot_link(snapshot_tmpdir@, snapshot_files@),
{
    do_package_snapshot(
        bank,
        snapshot_files,
        status_cache_slot_deltas,
        snapshot_package_output_path,
        snapshot_storages,
        archive_format,
        snapshot_version,
        hash_for_testing,
        snapshot_tmpdir,
    )
}

/// Package up slot snapshot files, snapshot storages, and slot deltas for an incremental snapshot.
///
/// Every storage must be of a slot above `incremental_snapshot_base_slot`: a storage at
/// or below it shows a fault in the selection of the storages, and no package is made of
/// such. `snapshot_tmpdir` is a temporary directory whose name starts with
/// [`get_incremental_snapshot_tmpdir_prefix`] of the two slots.
pub fn package_incremental_snapshot<D>(
    bank: &BankInfo,
    incremental_snapshot_base_slot: Slot,
    snapshot_files: &SlotSnapshotPaths,
    snapshot_tmpdir: String,
    status_cache_slot_deltas: Vec<D>,
    snapshot_package_output_path: &str,
    snapshot_storages: SnapshotStorages,
    archive_format: ArchiveFormat,
    snapshot_version: SnapshotVersion,
    hash_for_testing: Option<crate::hash::Hash>,
) -> (r: (AccountsPackagePre<D>, SnapshotLink))
    requires
        storages_above(snapshot_storages@, incremental_snapshot_base_slot),
    ensures
        r.0.slot == bank.slot,
        r.0.block_height == bank.block_height,
        r.0.slot_deltas == status_cache_slot_deltas,
        r.0.snapshot_links == snapshot_tmpdir,
        r.0.storages == snapshot_storages,
        storages_above(r.0.storages@, incremental_snapshot_base_slot),
        r.0.hash@ == bank.accounts_hash@,
        r.0.archive_format == archive_format,
        r.0.snapshot_version == snapshot_version,
        r.0.snapshot_output_dir@ == snapshot_package_output_path@,
        r.0.expected_capitalization == bank.capitalization,
        r.0.hash_for_testing == hash_for_testing,
        (r.1.dir@, r.1.source@, r.1.target@) == snapshot_link(snapshot_tmpdir@, snapshot_files@),
{
    do_package_snapshot(
        bank,
        snapshot_files,
        status_cache_slot_deltas,
        snapshot_package_output_path,
        snapshot_storages,
        archive_format,
        snapshot_version,
        hash_for_testing,
        snapshot_tmpdir,
    )
}

/// What was computed from the storages of a package to check it: the content hash and
/// the sum of all balances.
#[derive(Debug)]
pub struct ComputedHash {
    pub hash: crate::hash::Hash,
    pub lamports: u64,
}

/// Whether a package passes its own check: a package with a hash for testing passes if
/// the hash that was computed from its storages is that hash and the computed sum of
/// balances is the one that the package expects; a package without one passes.
pub open spec fn passes_hash_check<D>(
    accounts_package: AccountsPackagePre<D>,
    computed: Option<ComputedHash>,
) -> bool {
    match accounts_package.hash_for_testing {
        Some(expected_hash) => match computed {
            Some(c) => c.lamports == accounts_package.expected_capitalization && c.hash@
                == expected_hash@,
            None => false,
        },
        None => true,
    }
}

/// Tests whether a package passes its own check.
pub fn check_hash_for_testing<D>(
    accounts_package: &AccountsPackagePre<D>,
    computed: &Option<ComputedHash>,
) -> (r: bool)
    ensures
        r == passes_hash_check(*accounts_package, *computed),
{
    match &accounts_package.hash_for_testing {
        Some(expected_hash) => match computed {
            Some(c) => c.lamports == accounts_package.expected_capitalization && c.hash
                == *expected_hash,
            None => false,
        },
        None => true,
    }
}

/// The path of the archive of a package: that of a full snapshot archive where there is
/// no base slot, that of an incremental one where there is.
pub open spec fn archive_path_of(
    snapshot_output_dir: Seq<char>,
    incremental_snapshot_base_slot: Option<Slot>,
    slot: Slot,
    hash: Seq<char>,
    archive_format: ArchiveFormat,
) -> Seq<char> {
    match incremental_snapshot_base_slot {
        None => joined(snapshot_output_dir, snapshot_archive_filename(slot, hash, archive_format)),
        Some(base_slot) => joined(
            snapshot_output_dir,
            incremental_snapshot_archive_filename(base_slot, slot, hash, archive_format),
        ),
    }
}

/// Finishes a package: settles its hash and names its archive.
///
/// `computed` is what was computed from the storages, where the package has a hash for
/// testing. A package that does not pass its check is not finished.
pub fn do_process_accounts_package_pre<D>(
    accounts_package: AccountsPackagePre<D>,
    computed: Option<ComputedHash>,
    incremental_snapshot_base_slot: Option<Slot>,
) -> (r: AccountsPackage<D>)
    requires
        passes_hash_check(accounts_package, computed),
    ensures
        r.slot == accounts_package.slot,
        r.block_height == accounts_package.block_height,
        r.slot_deltas == accounts_package.slot_deltas,
        r.snapshot_links == accounts_package.snapshot_links,
        r.storages == accounts_package.storages,
        r.snapshot_output_dir == accounts_package.snapshot_output_dir,
        r.hash == accounts_package.hash,
        r.archive_format == accounts_package.archive_format,
        r.snapshot_version == accounts_package.snapshot_version,
        r.tar_output_file@ == archive_path_of(
            accounts_package.snapshot_output_dir@,
            incremental_snapshot_base_slot,
            accounts_package.slot,
            accounts_package.hash@,
            accounts_package.archive_format,
        ),
{
    let tar_output_file = match incremental_snapshot_base_slot {
        None => build_snapshot_archive_path(
            accounts_package.snapshot_output_dir.as_str(),
            accounts_package.slot,
            &accounts_package.hash,
            accounts_package.archive_format,
        ),
        Some(incremental_snapshot_base_slot) => build_incremental_snapshot_archive_path(
            accounts_package.snapshot_output_dir.as_str(),
            incremental_snapshot_base_slot,
            accounts_package.slot,
            &accounts_package.hash,
            accounts_package.archive_format,
        ),
    };
    AccountsPackage {
        slot: accounts_package.slot,
        block_height: accounts_package.block_height,
        slot_deltas: accounts_package.slot_deltas,
        snapshot_links: accounts_package.snapshot_links,
        storages: accounts_package.storages,
        snapshot_output_dir: accounts_package.snapshot_output_dir,
        tar_output_file,
        hash: accounts_package.hash,
        archive_format: accounts_package.archive_format,
        snapshot_version: accounts_package.snapshot_version,
    }
}

/// Finishes the package of a full snapshot.
pub fn process_accounts_package_pre<D>(
    accounts_package: AccountsPackagePre<D>,
    computed: Option<ComputedHash>,
) -> (r: AccountsPackage<D>)
    requires
        passes_hash_check(accounts_package, computed),
    ensures
        r.slot == accounts_package.slot,
        r.block_height == accounts_package.block_height,
        r.slot_deltas == accounts_package.slot_deltas,
        r.snapshot_links == accounts_package.snapshot_links,
        r.storages == accounts_package.storages,
        r.snapshot_output_dir == accounts_package.snapshot_output_dir,
        r.hash == accounts_package.hash,
        r.archive_format == accounts_package.archive_format,
        r.snapshot_version == accounts_package.snapshot_version,
        r.tar_output_file@ == archive_path_of(
            accounts_package.snapshot_output_dir@,
            None,
            accounts_package.slot,
            accounts_package.hash@,
            accounts_package.archive_format,
        ),
{
    do_process_accounts_package_pre(accounts_package, computed, None)
}

/// Finishes the package of an incremental snapshot on the full snapshot of
/// `incremental_snapshot_base_slot`.
pub fn process_accounts_package_pre_for_incremental_snapshot<D>(
    accounts_package: AccountsPackagePre<D>,
    computed: Option<ComputedHash>,
    incremental_snapshot_base_slot: Slot,
) -> (r: AccountsPackage<D>)
    requires
        passes_hash_check(accounts_package, computed),
    ensures
        r.slot == accounts_package.slot,
        r.block_height == accounts_package.block_height,
        r.slot_deltas == accounts_package.slot_deltas,
        r.snapshot_links == accounts_package.snapshot_links,
        r.storages == accounts_package.storages,
        r.snapshot_output_dir == accounts_package.snapshot_output_dir,
        r.hash == accounts_package.hash,
        r.archive_format == accounts_package.archive_format,
        r.snapshot_version == accounts_package.snapshot_version,
        r.tar_output_file@ == archive_path_of(
            accounts_package.snapshot_output_dir@,
            Some(incremental_snapshot_base_slot),
            accounts_package.slot,
            accounts_package.hash@,
            accounts_package.archive_format,
        ),
{
    do_process_accounts_package_pre(
        accounts_package,
        computed,
        Some(incremental_snapshot_base_slot),
    )
}

} // verus!
