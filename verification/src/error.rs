//! The errors of the snapshot subsystem.

use vstd::prelude::*;
use vstd::string::StringExecFns;

use crate::archive_name::Slot;
use crate::decimal::{append_decimal, decimal_digits};

verus! {

/// What can go wrong while a snapshot is packaged, archived or restored.
///
/// The conditions that end the process (a restored state that fails verification, an
/// incremental package with a storage at or below its base slot) are no errors: the
/// functions that meet them do not return.
#[derive(Debug)]
pub enum SnapshotError {
    /// An I/O error, with its message. Violations of the size limit on data files, a
    /// version that is not supported and a malformed snapshot directory are reported so.
    Io(String),
    /// Data could not be serialized or deserialized.
    Serialize(String),
    /// The tar step ended with a status other than success; the exit code, if there was
    /// one.
    ArchiveGenerationFailure(Option<i32>),
    /// The link to a storage in the staging directory does not lead to a file.
    StoragePathSymlinkInvalid,
    /// An archive could not be unpacked.
    UnpackError(String),
    /// The package could not be handed on.
    AccountsPackageSendError,
    /// A path is not that of a snapshot archive.
    PathParseError(&'static str),
    /// The base slot of the incremental snapshot is not the slot of the full snapshot:
    /// the full snapshot's slot, then the incremental snapshot's base slot.
    IncompatibleSnapshots(Slot, Slot),
}

/// The view of a [`SnapshotError`]: the same error, with its texts as sequences of
/// characters.
pub enum SnapshotErrorView {
    Io(Seq<char>),
    Serialize(Seq<char>),
    ArchiveGenerationFailure(Option<i32>),
    StoragePathSymlinkInvalid,
    UnpackError(Seq<char>),
    AccountsPackageSendError,
    PathParseError(Seq<char>),
    IncompatibleSnapshots(Slot, Slot),
}

impl View for SnapshotError {
    type V = SnapshotErrorView;

    open spec fn view(&self) -> SnapshotErrorView {
        match self {
            SnapshotError::Io(message) => SnapshotErrorView::Io(message@),
            SnapshotError::Serialize(message) => SnapshotErrorView::Serialize(message@),
            SnapshotError::ArchiveGenerationFailure(code) =>
                SnapshotErrorView::ArchiveGenerationFailure(*code),
            SnapshotError::StoragePathSymlinkInvalid =>
                SnapshotErrorView::StoragePathSymlinkInvalid,
            SnapshotError::UnpackError(message) => SnapshotErrorView::UnpackError(message@),
            SnapshotError::AccountsPackageSendError => SnapshotErrorView::AccountsPackageSendError,
            SnapshotError::PathParseError(reason) => SnapshotErrorView::PathParseError(reason@),
            SnapshotError::IncompatibleSnapshots(full_slot, base_slot) =>
                SnapshotErrorView::IncompatibleSnapshots(*full_slot, *base_slot),
        }
    }
}

/// How an exit code is written: in decimal notation, with a minus sign if it is
/// negative, and as `unknown` where there is none.
pub open spec fn exit_code_text(code: Option<i32>) -> Seq<char> {
    match code {
        Some(code) => if code < 0 {
            "-"@ + decimal_digits((-code) as nat)
        } else {
            decimal_digits(code as nat)
        },
        None => "unknown"@,
    }
}

/// What an error says, in words.
pub open spec fn error_message(error: SnapshotErrorView) -> Seq<char> {
    match error {
        SnapshotErrorView::Io(message) => "I/O error: "@ + message,
        SnapshotErrorView::Serialize(message) => "serialization error: "@ + message,
        SnapshotErrorView::ArchiveGenerationFailure(code) =>
            "archive generation failure exit status: "@ + exit_code_text(code),
        SnapshotErrorView::StoragePathSymlinkInvalid => "storage path symlink is invalid"@,
        SnapshotErrorView::UnpackError(message) => "Unpack error: "@ + message,
        SnapshotErrorView::AccountsPackageSendError => "accounts package send error"@,
        SnapshotErrorView::PathParseError(reason) => "could not parse path: "@ + reason,
        SnapshotErrorView::IncompatibleSnapshots(full_slot, base_slot) =>
            "snapshots are incompatible: full snapshot slot ("@ + decimal_digits(full_slot as nat)
                + ") and incremental snapshot base slot ("@ + decimal_digits(base_slot as nat)
                + ") do not match"@,
    }
}

impl SnapshotError {
    /// What the error says, in words.
    pub fn message(&self) -> (message: String)
        ensures
            message@ == error_message(self@),
    {
        match self {
            SnapshotError::Io(text) => {
                let mut message = String::from_str("I/O error: ");
                message.append(text.as_str());
                message
            },
            SnapshotError::Serialize(text) => {
                let mut message = String::from_str("serialization error: ");
                message.append(text.as_str());
                message
            },
            SnapshotError::ArchiveGenerationFailure(code) => {
                let mut message = String::from_str("archive generation failure exit status: ");
                match code {
                    Some(code) => {
                        if *code < 0 {
                            message.append("-");
                            let magnitude: u64 = (-(*code as i64)) as u64;
                            append_decimal(&mut message, magnitude);
                        } else {
                            append_decimal(&mut message, *code as u64);
                        }
                    },
                    None => {
                        message.append("unknown");
                    },
                }
                message
            },
            SnapshotError::StoragePathSymlinkInvalid => String::from_str(
                "storage path symlink is invalid",
            ),
            SnapshotError::UnpackError(text) => {
                let mut message = String::from_str("Unpack error: ");
                message.append(text.as_str());
                message
            },
            SnapshotError::AccountsPackageSendError => String::from_str(
                "accounts package send error",
            ),
            SnapshotError::PathParseError(reason) => {
                let mut message = String::from_str("could not parse path: ");
                message.append(reason);
                message
            },
            SnapshotError::IncompatibleSnapshots(full_slot, base_slot) => {
                let mut message = String::from_str(
                    "snapshots are incompatible: full snapshot slot (",
                );
                append_decimal(&mut message, *full_slot);
                message.append(") and incremental snapshot base slot (");
                append_decimal(&mut message, *base_slot);
                message.append(") do not match");
                message
            },
        }
    }
}

/// A result with the view of its error.
pub open spec fn result_view<T>(r: Result<T, SnapshotError>) -> Result<T, SnapshotErrorView> {
    match r {
        Ok(value) => Ok(value),
        Err(error) => Err(error@),
    }
}

} // verus!
