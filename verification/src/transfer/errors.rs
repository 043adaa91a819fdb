//! Why a transfer did not come to its end.

use crate::text::{concat2, concat3, signed_decimal, signed_decimal_digits, str_eq};
use vstd::prelude::*;

verus! {

/// The error of a transfer. A cancelled transfer is told apart from a
/// failed one, so that its job is not marked as failed.
#[derive(Debug, PartialEq, Eq)]
pub enum TransferError {
    /// The job was asked to stop.
    Cancelled,
    /// The store or the file system gave an error.
    Failed(String),
    /// The store began a multipart upload without naming it.
    MissingUploadId,
    /// A multipart upload came to its end without a part.
    NoParts,
    /// An archive was asked for without objects.
    NothingSelected,
    /// The key of an archive entry leaves the archive's root.
    InvalidEntryKey(String),
    /// The path of an archive entry does not fit an archive header.
    InvalidEntryPath { path: String, reason: String },
    /// An object gave another number of bytes than it declared.
    SizeMismatch { path: String, expected: i64, downloaded: i64 },
    /// A copy failed, and so did the staged copy that was tried in its
    /// place.
    FallbackFailed { first: Box<TransferError>, fallback: Box<TransferError> },
    /// The caller's reports do not follow the steps that it was given.
    OutOfStep,
}

/// The text of the error of a cancelled transfer.
pub open spec fn cancelled_message() -> Seq<char> {
    "Job cancelled"@
}

impl TransferError {
    pub open spec fn text(self) -> Seq<char>
        decreases self,
    {
        match self {
            TransferError::Cancelled => cancelled_message(),
            TransferError::Failed(message) => message@,
            TransferError::MissingUploadId => "Missing multipart upload id"@,
            TransferError::NoParts => "Multipart upload produced no parts"@,
            TransferError::NothingSelected => "No objects selected for archive"@,
            TransferError::InvalidEntryKey(key) => "Invalid object key for archive entry: "@ + key@,
            TransferError::InvalidEntryPath { path, reason } => "Invalid archive entry path "@
                + path@ + ": "@ + reason@,
            TransferError::SizeMismatch { path, expected, downloaded } => "Unexpected size for "@
                + path@ + " (expected "@ + signed_decimal_digits(expected as int)
                + ", downloaded "@ + signed_decimal_digits(downloaded as int) + ")"@,
            TransferError::FallbackFailed { first, fallback } => first.text()
                + "; fallback copy failed: "@ + fallback.text(),
            TransferError::OutOfStep => "Transfer steps out of order"@,
        }
    }

    /// The error as the message shown to the user.
    pub fn message(&self) -> (out: String)
        ensures
            out@ == self.text(),
        decreases self,
    {
        match self {
            TransferError::Cancelled => "Job cancelled".to_owned(),
            TransferError::Failed(message) => message.clone(),
            TransferError::MissingUploadId => "Missing multipart upload id".to_owned(),
            TransferError::NoParts => "Multipart upload produced no parts".to_owned(),
            TransferError::NothingSelected => "No objects selected for archive".to_owned(),
            TransferError::InvalidEntryKey(key) => concat2(
                "Invalid object key for archive entry: ",
                key.as_str(),
            ),
            TransferError::InvalidEntryPath { path, reason } => {
                let head = concat3("Invalid archive entry path ", path.as_str(), ": ");
                concat2(head.as_str(), reason.as_str())
            },
            TransferError::SizeMismatch { path, expected, downloaded } => {
                let a = concat3("Unexpected size for ", path.as_str(), " (expected ");
                let b = concat3(a.as_str(), signed_decimal(*expected).as_str(), ", downloaded ");
                concat3(b.as_str(), signed_decimal(*downloaded).as_str(), ")")
            },
            TransferError::FallbackFailed { first, fallback } => {
                let head = first.message();
                let rest = fallback.message();
                concat3(head.as_str(), "; fallback copy failed: ", rest.as_str())
            },
            TransferError::OutOfStep => "Transfer steps out of order".to_owned(),
        }
    }

    /// Whether the error stands for a cancellation: it is `Cancelled`, or
    /// a failure whose text is that of a cancellation.
    pub open spec fn is_cancellation(self) -> bool {
        match self {
            TransferError::Cancelled => true,
            TransferError::Failed(message) => message@ == cancelled_message(),
            _ => false,
        }
    }

    /// Whether the error stands for a cancellation.
    pub fn cancelled(&self) -> (out: bool)
        ensures
            out == self.is_cancellation(),
    {
        match self {
            TransferError::Cancelled => true,
            TransferError::Failed(message) => str_eq(message.as_str(), "Job cancelled"),
            _ => false,
        }
    }

    /// The error that a store's or a file system's message stands for: a
    /// cancellation where the message is that of one.
    pub fn from_message(message: String) -> (out: TransferError)
        ensures
            out == if message@ == cancelled_message() {
                TransferError::Cancelled
            } else {
                TransferError::Failed(message)
            },
    {
        if str_eq(message.as_str(), "Job cancelled") {
            TransferError::Cancelled
        } else {
            TransferError::Failed(message)
        }
    }
}

} // verus!
