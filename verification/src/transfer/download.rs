//! The download of one object to a file. Once the file is there, a
//! cancellation or a failure removes what was written so far before the
//! download ends with its error.

use crate::transfer::errors::TransferError;
use vstd::prelude::*;

verus! {

/// Where a download stands.
#[derive(Debug, PartialEq, Eq)]
pub enum DownloadState {
    /// Nothing was done yet.
    Start,
    /// The object was asked for.
    Requesting,
    /// The body is streaming: the next chunk is awaited.
    Streaming { total: i64, transferred: i64 },
    /// A chunk of `len` bytes is being written to the file.
    Writing { total: i64, transferred: i64, len: usize },
    /// The stream is at its end and the file is being flushed.
    Flushing { total: i64, transferred: i64 },
    /// The partial file is being removed because of the error.
    Removing { error: TransferError },
    /// The download is over.
    Done,
}

/// What the caller reports to a download.
#[derive(Debug, PartialEq, Eq)]
pub enum DownloadEvent {
    /// The download is to begin.
    Begin,
    /// The store answered and the file was created; the answer may declare
    /// the length of the object.
    Opened { content_length: Option<i64> },
    /// The stream gave a chunk of `len` bytes.
    Chunk { len: usize },
    /// The chunk was written.
    Written,
    /// The stream is at its end.
    End,
    /// The file was flushed.
    Flushed,
    /// The partial file was removed; how that went does not matter.
    Removed,
    /// The last step failed with the message.
    Failed(String),
}

/// What the caller of a download does next.
#[derive(Debug, PartialEq, Eq)]
pub enum DownloadAction {
    /// Create the parent directories, ask the store for the object and
    /// create the file.
    Open,
    /// Await the next chunk of the body.
    Receive,
    /// Write the chunk to the file.
    Write,
    /// Flush the file.
    Flush,
    /// Remove the partial file.
    RemovePartial,
    /// The download is over: it transferred this many bytes, or failed.
    Finish(Result<i64, TransferError>),
    /// The download was over already.
    Nothing,
}

/// One step of a download: the state it leads to, the progress to report,
/// as bytes transferred and total, and what to do next.
#[derive(Debug, PartialEq, Eq)]
pub struct DownloadStep {
    pub state: DownloadState,
    pub progress: Option<(i64, i64)>,
    pub action: DownloadAction,
}

/// The length that a store declares, as a download counts it: zero where
/// none is declared, and not below zero.
pub open spec fn declared_length(content_length: Option<i64>) -> i64 {
    match content_length {
        Some(n) => if n < 0 {
            0
        } else {
            n
        },
        None => 0,
    }
}

/// The length that a store declares, as a transfer counts it.
pub fn content_length_or_zero(content_length: Option<i64>) -> (out: i64)
    ensures
        out == declared_length(content_length),
{
    match content_length {
        Some(n) => if n < 0 {
            0
        } else {
            n
        },
        None => 0,
    }
}

/// The bytes that a download reports at its end: what was streamed, but
/// no less than the store declared.
pub open spec fn final_count(transferred: i64, total: i64) -> i64 {
    if transferred >= total {
        transferred
    } else {
        total
    }
}

/// Whether the file of the download is there in `state`: from the answer
/// of the store until the download is over or the file is removed.
pub open spec fn has_partial_file(state: DownloadState) -> bool {
    state is Streaming || state is Writing || state is Flushing
}

/// The step that removes the partial file because of `error`.
pub open spec fn removes_partial(error: TransferError) -> DownloadStep {
    DownloadStep {
        state: DownloadState::Removing { error },
        progress: None,
        action: DownloadAction::RemovePartial,
    }
}

/// The step that ends the download with `error`.
pub open spec fn fails_with(error: TransferError) -> DownloadStep {
    DownloadStep {
        state: DownloadState::Done,
        progress: None,
        action: DownloadAction::Finish(Err(error)),
    }
}

/// The step that a download takes in `state` when the caller reports
/// `event`, and `cancelled` says whether the job was asked to stop. Before
/// the file is there an error ends the download at once; once it is there,
/// every error has the partial file removed first.
pub open spec fn download_next(state: DownloadState, event: DownloadEvent, cancelled: bool)
    -> DownloadStep {
    match (state, event) {
        (DownloadState::Done, _) => DownloadStep {
            state: DownloadState::Done,
            progress: None,
            action: DownloadAction::Nothing,
        },
        (DownloadState::Removing { error }, _) => fails_with(error),
        (DownloadState::Start, DownloadEvent::Begin) => if cancelled {
            fails_with(TransferError::Cancelled)
        } else {
            DownloadStep {
                state: DownloadState::Requesting,
                progress: None,
                action: DownloadAction::Open,
            }
        },
        (DownloadState::Start, DownloadEvent::Failed(message)) => fails_with(
            TransferError::Failed(message),
        ),
        (DownloadState::Start, _) => fails_with(TransferError::OutOfStep),
        (DownloadState::Requesting, DownloadEvent::Opened { content_length }) => DownloadStep {
            state: DownloadState::Streaming {
                total: declared_length(content_length),
                transferred: 0,
            },
            progress: None,
            action: DownloadAction::Receive,
        },
        (DownloadState::Requesting, DownloadEvent::Failed(message)) => fails_with(
            TransferError::Failed(message),
        ),
        (DownloadState::Requesting, _) => fails_with(TransferError::OutOfStep),
        (_, DownloadEvent::Failed(message)) => removes_partial(TransferError::Failed(message)),
        (DownloadState::Streaming { total, transferred }, DownloadEvent::Chunk { len }) => {
            if cancelled {
                removes_partial(TransferError::Cancelled)
            } else {
                DownloadStep {
                    state: DownloadState::Writing { total, transferred, len },
                    progress: None,
                    action: DownloadAction::Write,
                }
            }
        },
        (DownloadState::Writing { total, transferred, len }, DownloadEvent::Written) => {
            let sum = crate::transfer::upload::add_bytes(transferred, len);
            DownloadStep {
                state: DownloadState::Streaming { total, transferred: sum },
                progress: Some((sum, total)),
                action: DownloadAction::Receive,
            }
        },
        (DownloadState::Streaming { total, transferred }, DownloadEvent::End) => DownloadStep {
            state: DownloadState::Flushing { total, transferred },
            progress: None,
            action: DownloadAction::Flush,
        },
        (DownloadState::Flushing { total, transferred }, DownloadEvent::Flushed) => DownloadStep {
            state: DownloadState::Done,
            progress: None,
            action: DownloadAction::Finish(Ok(final_count(transferred, total))),
        },
        (_, _) => removes_partial(TransferError::OutOfStep),
    }
}

fn fail_with(error: TransferError) -> (out: DownloadStep)
    ensures
        out == fails_with(error),
{
    DownloadStep {
        state: DownloadState::Done,
        progress: None,
        action: DownloadAction::Finish(Err(error)),
    }
}

fn remove_partial(error: TransferError) -> (out: DownloadStep)
    ensures
        out == removes_partial(error),
{
    DownloadStep {
        state: DownloadState::Removing { error },
        progress: None,
        action: DownloadAction::RemovePartial,
    }
}

/// Takes a download one step further. The job's stop flag is looked at
/// before the download begins and at each chunk of the stream. Once the
/// file is there, a cancellation at a chunk and every failure, of the
/// stream, of a write or of the flush, has the partial file removed before
/// the download ends with that error. At its end a download reports the
/// bytes that were streamed, but no less than the store declared.
pub fn download_step(state: DownloadState, event: DownloadEvent, cancelled: bool) -> (out:
    DownloadStep)
    ensures
        out == download_next(state, event, cancelled),
{
    match state {
        DownloadState::Done => DownloadStep {
            state: DownloadState::Done,
            progress: None,
            action: DownloadAction::Nothing,
        },
        DownloadState::Removing { error } => fail_with(error),
        DownloadState::Start => match event {
            DownloadEvent::Failed(message) => fail_with(TransferError::Failed(message)),
            DownloadEvent::Begin => {
                if cancelled {
                    fail_with(TransferError::Cancelled)
                } else {
                    DownloadStep {
                        state: DownloadState::Requesting,
                        progress: None,
                        action: DownloadAction::Open,
                    }
                }
            },
            _ => fail_with(TransferError::OutOfStep),
        },
        DownloadState::Requesting => match event {
            DownloadEvent::Failed(message) => fail_with(TransferError::Failed(message)),
            DownloadEvent::Opened { content_length } => DownloadStep {
                state: DownloadState::Streaming {
                    total: content_length_or_zero(content_length),
                    transferred: 0,
                },
                progress: None,
                action: DownloadAction::Receive,
            },
            _ => fail_with(TransferError::OutOfStep),
        },
        DownloadState::Streaming { total, transferred } => match event {
            DownloadEvent::Failed(message) => remove_partial(TransferError::Failed(message)),
            DownloadEvent::Chunk { len } => {
                if cancelled {
                    remove_partial(TransferError::Cancelled)
                } else {
                    DownloadStep {
                        state: DownloadState::Writing { total, transferred, len },
                        progress: None,
                        action: DownloadAction::Write,
                    }
                }
            },
            DownloadEvent::End => DownloadStep {
                state: DownloadState::Flushing { total, transferred },
                progress: None,
                action: DownloadAction::Flush,
            },
            _ => remove_partial(TransferError::OutOfStep),
        },
        DownloadState::Writing { total, transferred, len } => match event {
            DownloadEvent::Failed(message) => remove_partial(TransferError::Failed(message)),
            DownloadEvent::Written => {
                let wide: i128 = transferred as i128 + len as i128;
                let sum: i64 = if wide > i64::MAX as i128 {
                    i64::MAX
                } else {
                    wide as i64
                };
                DownloadStep {
                    state: DownloadState::Streaming { total, transferred: sum },
                    progress: Some((sum, total)),
                    action: DownloadAction::Receive,
                }
            },
            _ => remove_partial(TransferError::OutOfStep),
        },
        DownloadState::Flushing { total, transferred } => match event {
            DownloadEvent::Failed(message) => remove_partial(TransferError::Failed(message)),
            DownloadEvent::Flushed => DownloadStep {
                state: DownloadState::Done,
                progress: None,
                action: DownloadAction::Finish(
                    Ok(
                        if transferred >= total {
                            transferred
                        } else {
                            total
                        },
                    ),
                ),
            },
            _ => remove_partial(TransferError::OutOfStep),
        },
    }
}

/// A download that fails while its file is there removes the file first.
/// From a state in which the file is there, a step either goes on, or
/// ends the download well, or asks for the partial file to be removed and
/// keeps the error; and the step after the removal ends the download with
/// that error, whatever the removal came to.
pub proof fn lemma_failed_download_removes_its_file(
    state: DownloadState,
    event: DownloadEvent,
    cancelled: bool,
    after: DownloadEvent,
    still: bool,
)
    requires
        has_partial_file(state),
    ensures
        ({
            let step = download_next(state, event, cancelled);
            ||| has_partial_file(step.state) && !(step.action is Finish)
            ||| step.state is Done && step.action matches DownloadAction::Finish(Ok(_))
            ||| step.state matches DownloadState::Removing { error } && step.action
                == DownloadAction::RemovePartial && download_next(step.state, after, still)
                == fails_with(error)
        }),
        event matches DownloadEvent::Failed(message) ==> download_next(state, event, cancelled)
            == removes_partial(TransferError::Failed(message)),
{
}

} // verus!
