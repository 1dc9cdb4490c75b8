//! Snapshot archives of a ledger node: their names, their discovery and retention in a
//! directory, the size limits on their data files, and the plans by which an archive is
//! packaged, written and restored.
//!
//! The library decides and computes; it performs no file or network I/O itself. Callers
//! hand it plain values (paths, directory listings, sizes, exit codes) and carry out the
//! actions it returns.
//!
//! - Names: [`archive_name`] reads and builds the names of archive files, with
//!   [`archive_format`], [`hash`] and [`decimal`] for their parts; [`path`] takes paths
//!   apart and puts them together, and [`text`] reads text.
//! - Discovery and retention: [`archive_info`] lists the archives of a directory and
//!   finds the newest, in the order of [`ranking`]; [`purge`] says which archives are
//!   removed; [`snapshot_paths`] does the same for the snapshots of single slots.
//! - Data files: [`data_file`] holds the size limit on what is written and read.
//! - Writing: [`package`] gathers a state into a package, [`builder`] sets up the
//!   writing, and [`writer`] leads through the writing of the archive.
//! - Restoring: [`restore`] leads through the rebuilding of a state from one or two
//!   archives, after [`compatibility`] has held their names against each other, with
//!   [`unpack`] for the workers that unpack an archive and [`snapshot_version`] for the
//!   version of what they find.
//! - [`error`] holds the errors, and [`memfind`] a search in slices.

pub mod archive_format;
pub mod archive_info;
pub mod archive_name;
pub mod builder;
pub mod compatibility;
pub mod data_file;
pub mod decimal;
pub mod error;
pub mod hash;
pub mod memfind;
pub mod package;
pub mod path;
pub mod purge;
pub mod ranking;
pub mod restore;
pub mod snapshot_paths;
pub mod snapshot_version;
pub mod text;
pub mod unpack;
pub mod writer;
