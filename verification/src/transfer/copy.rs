//! Copies and moves between stores. Within one store a copy is first
//! tried on the store's side; where that fails, and between stores, the
//! object is staged through a temporary file. A move deletes the source
//! once the copy is through, unless the job was cancelled by then.

use crate::transfer::errors::TransferError;
use vstd::prelude::*;

verus! {

/// Where a copy or a move stands.
#[derive(Debug, PartialEq, Eq)]
pub enum CopyState {
    /// Nothing was done yet.
    Start,
    /// The store copies on its side.
    Native,
    /// The object is being downloaded to the temporary file; `first` holds
    /// the error of the copy on the store's side, if that was tried.
    StagedDownload { first: Option<TransferError> },
    /// The temporary file is being uploaded.
    StagedUpload { first: Option<TransferError> },
    /// The temporary file is being removed; `result` is how the staged copy
    /// went.
    Cleaning { result: Result<i64, TransferError> },
    /// The source of a move is being deleted after `transferred` bytes were
    /// copied.
    Deleting { transferred: i64 },
    /// The transfer is over.
    Done,
}

/// What the caller reports to a copy or a move.
#[derive(Debug, PartialEq, Eq)]
pub enum CopyEvent {
    /// The transfer is to begin.
    Begin,
    /// The last step came to its end: with the size of the object, or with
    /// an error.
    Came(Result<i64, TransferError>),
    /// The temporary file was removed; how that went does not matter.
    TempRemoved,
}

/// What the caller of a copy or a move does next.
#[derive(Debug, PartialEq, Eq)]
pub enum CopyAction {
    /// Ask the store to copy the object on its side.
    NativeCopy,
    /// Download the object to a temporary file.
    StageDownload,
    /// Upload the temporary file.
    StageUpload,
    /// Remove the temporary file.
    RemoveTemp,
    /// Delete the source object.
    DeleteSource,
    /// The transfer is over: it transferred this many bytes, or failed.
    Finish(Result<i64, TransferError>),
    /// The transfer was over already.
    Nothing,
}

/// One step of a copy or a move.
#[derive(Debug, PartialEq, Eq)]
pub struct CopyStep {
    pub state: CopyState,
    pub action: CopyAction,
}

/// The error of a staged copy: where it stood in for a failed copy on the
/// store's side, both errors in a row.
pub open spec fn staged_error(first: Option<TransferError>, error: TransferError)
    -> TransferError {
    match first {
        Some(f) => TransferError::FallbackFailed { first: Box::new(f), fallback: Box::new(error) },
        None => error,
    }
}

/// What follows a copy that is through: a move goes on to delete its
/// source unless the job was cancelled by then; a copy is over.
pub open spec fn after_copy(is_move: bool, cancelled: bool, transferred: i64) -> CopyStep {
    if !is_move {
        CopyStep { state: CopyState::Done, action: CopyAction::Finish(Ok(transferred)) }
    } else if cancelled {
        CopyStep {
            state: CopyState::Done,
            action: CopyAction::Finish(Err(TransferError::Cancelled)),
        }
    } else {
        CopyStep { state: CopyState::Deleting { transferred }, action: CopyAction::DeleteSource }
    }
}

/// The step that a copy or a move takes in `state` when the caller
/// reports `event`. `same_store` says whether source and destination belong
/// to one store, `is_move` whether the source is to be deleted, `cancelled`
/// whether the job was asked to stop.
pub open spec fn copy_next(
    state: CopyState,
    event: CopyEvent,
    same_store: bool,
    is_move: bool,
    cancelled: bool,
) -> CopyStep {
    match (state, event) {
        (CopyState::Done, _) => CopyStep { state: CopyState::Done, action: CopyAction::Nothing },
        (CopyState::Start, CopyEvent::Begin) => if same_store {
            CopyStep { state: CopyState::Native, action: CopyAction::NativeCopy }
        } else {
            CopyStep {
                state: CopyState::StagedDownload { first: None },
                action: CopyAction::StageDownload,
            }
        },
        (CopyState::Native, CopyEvent::Came(Ok(size))) => after_copy(is_move, cancelled, size),
        (CopyState::Native, CopyEvent::Came(Err(error))) => if error.is_cancellation() {
            CopyStep { state: CopyState::Done, action: CopyAction::Finish(Err(error)) }
        } else {
            CopyStep {
                state: CopyState::StagedDownload { first: Some(error) },
                action: CopyAction::StageDownload,
            }
        },
        (CopyState::StagedDownload { first }, CopyEvent::Came(Ok(_))) => if cancelled {
            CopyStep {
                state: CopyState::Cleaning {
                    result: Err(staged_error(first, TransferError::Cancelled)),
                },
                action: CopyAction::RemoveTemp,
            }
        } else {
            CopyStep { state: CopyState::StagedUpload { first }, action: CopyAction::StageUpload }
        },
        (CopyState::StagedDownload { first }, CopyEvent::Came(Err(error))) => CopyStep {
            state: CopyState::Cleaning { result: Err(staged_error(first, error)) },
            action: CopyAction::RemoveTemp,
        },
        (CopyState::StagedUpload { first }, CopyEvent::Came(Ok(size))) => CopyStep {
            state: CopyState::Cleaning { result: Ok(size) },
            action: CopyAction::RemoveTemp,
        },
        (CopyState::StagedUpload { first }, CopyEvent::Came(Err(error))) => CopyStep {
            state: CopyState::Cleaning { result: Err(staged_error(first, error)) },
            action: CopyAction::RemoveTemp,
        },
        (CopyState::Cleaning { result }, _) => match result {
            Ok(size) => after_copy(is_move, cancelled, size),
            Err(error) => CopyStep {
                state: CopyState::Done,
                action: CopyAction::Finish(Err(error)),
            },
        },
        (CopyState::Deleting { transferred }, CopyEvent::Came(Ok(_))) => CopyStep {
            state: CopyState::Done,
            action: CopyAction::Finish(Ok(transferred)),
        },
        (CopyState::Deleting { transferred }, CopyEvent::Came(Err(error))) => CopyStep {
            state: CopyState::Done,
            action: CopyAction::Finish(Err(error)),
        },
        (_, _) => CopyStep {
            state: CopyState::Done,
            action: CopyAction::Finish(Err(TransferError::OutOfStep)),
        },
    }
}

fn wrap_staged(first: Option<TransferError>, error: TransferError) -> (out: TransferError)
    ensures
        out == staged_error(first, error),
{
    match first {
        Some(f) => TransferError::FallbackFailed { first: Box::new(f), fallback: Box::new(error) },
        None => error,
    }
}

fn continue_after_copy(is_move: bool, cancelled: bool, transferred: i64) -> (out: CopyStep)
    ensures
        out == after_copy(is_move, cancelled, transferred),
{
    if !is_move {
        CopyStep { state: CopyState::Done, action: CopyAction::Finish(Ok(transferred)) }
    } else if cancelled {
        CopyStep {
            state: CopyState::Done,
            action: CopyAction::Finish(Err(TransferError::Cancelled)),
        }
    } else {
        CopyStep { state: CopyState::Deleting { transferred }, action: CopyAction::DeleteSource }
    }
}

fn end_with(error: TransferError) -> (out: CopyStep)
    ensures
        out == (CopyStep { state: CopyState::Done, action: CopyAction::Finish(Err(error)) }),
{
    CopyStep { state: CopyState::Done, action: CopyAction::Finish(Err(error)) }
}

/// Takes a copy or a move one step further. Within one store the copy is
/// first tried on the store's side; unless that is cancelled, its failure
/// leads to a staged copy, whose own failure is reported together with the
/// first. Between stores the copy is staged from the start. The temporary
/// file of a staged copy is removed however the copy went. A move deletes
/// its source once the copy is through, but not if the job was cancelled by
/// then; if the deletion fails, the move ends with that error.
pub fn copy_step(
    state: CopyState,
    event: CopyEvent,
    same_store: bool,
    is_move: bool,
    cancelled: bool,
) -> (out: CopyStep)
    ensures
        out == copy_next(state, event, same_store, is_move, cancelled),
{
    match state {
        CopyState::Done => CopyStep { state: CopyState::Done, action: CopyAction::Nothing },
        CopyState::Start => match event {
            CopyEvent::Begin => {
                if same_store {
                    CopyStep { state: CopyState::Native, action: CopyAction::NativeCopy }
                } else {
                    CopyStep {
                        state: CopyState::StagedDownload { first: None },
                        action: CopyAction::StageDownload,
                    }
                }
            },
            _ => end_with(TransferError::OutOfStep),
        },
        CopyState::Native => match event {
            CopyEvent::Came(Ok(size)) => continue_after_copy(is_move, cancelled, size),
            CopyEvent::Came(Err(error)) => {
                if error.cancelled() {
                    end_with(error)
                } else {
                    CopyStep {
                        state: CopyState::StagedDownload { first: Some(error) },
                        action: CopyAction::StageDownload,
                    }
                }
            },
            _ => end_with(TransferError::OutOfStep),
        },
        CopyState::StagedDownload { first } => match event {
            CopyEvent::Came(Ok(_)) => {
                if cancelled {
                    CopyStep {
                        state: CopyState::Cleaning {
                            result: Err(wrap_staged(first, TransferError::Cancelled)),
                        },
                        action: CopyAction::RemoveTemp,
                    }
                } else {
                    CopyStep {
                        state: CopyState::StagedUpload { first },
                        action: CopyAction::StageUpload,
                    }
                }
            },
            CopyEvent::Came(Err(error)) => CopyStep {
                state: CopyState::Cleaning { result: Err(wrap_staged(first, error)) },
                action: CopyAction::RemoveTemp,
            },
            _ => end_with(TransferError::OutOfStep),
        },
        CopyState::StagedUpload { first } => match event {
            CopyEvent::Came(Ok(size)) => CopyStep {
                state: CopyState::Cleaning { result: Ok(size) },
                action: CopyAction::RemoveTemp,
            },
            CopyEvent::Came(Err(error)) => CopyStep {
                state: CopyState::Cleaning { result: Err(wrap_staged(first, error)) },
                action: CopyAction::RemoveTemp,
            },
            _ => end_with(TransferError::OutOfStep),
        },
        CopyState::Cleaning { result } => match result {
            Ok(size) => continue_after_copy(is_move, cancelled, size),
            Err(error) => end_with(error),
        },
        CopyState::Deleting { transferred } => match event {
            CopyEvent::Came(Ok(_)) => CopyStep {
                state: CopyState::Done,
                action: CopyAction::Finish(Ok(transferred)),
            },
            CopyEvent::Came(Err(error)) => end_with(error),
            _ => end_with(TransferError::OutOfStep),
        },
    }
}

/// The source of a move is deleted only after the copy came through, and
/// never once the job was cancelled: whatever the state and the report, the
/// step that asks for the deletion belongs to a move that is not cancelled
/// and follows a copy that gave its size.
pub proof fn lemma_source_deleted_after_copy(
    state: CopyState,
    event: CopyEvent,
    same_store: bool,
    is_move: bool,
    cancelled: bool,
)
    requires
        copy_next(state, event, same_store, is_move, cancelled).action is DeleteSource,
    ensures
        is_move,
        !cancelled,
        (state is Native && event matches CopyEvent::Came(Ok(_))) || (state
            matches CopyState::Cleaning { result: Ok(_) }),
{
}

/// The progress of a staged copy while its download has moved
/// `transferred` bytes of an object of `size` bytes: the download is the
/// first half.
pub open spec fn staged_download_progress(transferred: i64, size: i64) -> i64 {
    if half(transferred) < size {
        half(transferred)
    } else {
        size
    }
}

/// The progress of a staged copy while its upload has moved `transferred`
/// bytes of an object of `size` bytes: the upload is the second half.
pub open spec fn staged_upload_progress(transferred: i64, size: i64) -> i64 {
    if half(size) + half(transferred) < size {
        (half(size) + half(transferred)) as i64
    } else {
        size
    }
}

/// Half of a count, rounded towards zero.
pub open spec fn half(value: i64) -> i64 {
    if value >= 0 {
        (value / 2) as i64
    } else {
        (-((-value) / 2)) as i64
    }
}

/// The bytes that a staged copy reports while it downloads.
pub fn report_staged_download(transferred: i64, size: i64) -> (out: i64)
    ensures
        out == staged_download_progress(transferred, size),
{
    let h = transferred / 2;
    if h < size {
        h
    } else {
        size
    }
}

/// The bytes that a staged copy reports while it uploads.
pub fn report_staged_upload(transferred: i64, size: i64) -> (out: i64)
    ensures
        out == staged_upload_progress(transferred, size),
{
    let sum: i128 = (size / 2) as i128 + (transferred / 2) as i128;
    if sum < size as i128 {
        sum as i64
    } else {
        size
    }
}

/// What is sent to the store to delete keys.
#[derive(Debug, PartialEq, Eq)]
pub enum DeletePlan {
    /// Nothing: there are no keys.
    Nothing,
    /// One call that deletes the one key.
    Single(String),
    /// One call that deletes all keys together.
    Batch(Vec<String>),
}

/// How keys are deleted: none with no call, one with a call of its own,
/// several with one call for all.
pub fn delete_plan(keys: &Vec<String>) -> (out: DeletePlan)
    ensures
        match out {
            DeletePlan::Nothing => keys@.len() == 0,
            DeletePlan::Single(key) => keys@.len() == 1 && key == keys@[0],
            DeletePlan::Batch(all) => keys@.len() > 1 && all@ == keys@,
        },
{
    if keys.len() == 0 {
        DeletePlan::Nothing
    } else if keys.len() == 1 {
        DeletePlan::Single(keys[0].clone())
    } else {
        DeletePlan::Batch(crate::text::clone_strings(keys))
    }
}

/// Whether a byte stands for itself in the source of a copy: letters,
/// digits and the slash.
pub open spec fn kept_in_copy_source(byte: u8) -> bool {
    (48 <= byte <= 57) || (65 <= byte <= 90) || (97 <= byte <= 122) || byte == 47
}

/// One of the sixteen digits, upper case.
pub open spec fn hex_digit(value: u8) -> char {
    if value == 0 {
        '0'
    } else if value == 1 {
        '1'
    } else if value == 2 {
        '2'
    } else if value == 3 {
        '3'
    } else if value == 4 {
        '4'
    } else if value == 5 {
        '5'
    } else if value == 6 {
        '6'
    } else if value == 7 {
        '7'
    } else if value == 8 {
        '8'
    } else if value == 9 {
        '9'
    } else if value == 10 {
        'A'
    } else if value == 11 {
        'B'
    } else if value == 12 {
        'C'
    } else if value == 13 {
        'D'
    } else if value == 14 {
        'E'
    } else {
        'F'
    }
}

/// A byte as it is written where it cannot stand for itself: a percent
/// sign and its two hexadecimal digits, upper case.
pub open spec fn escaped_byte(byte: u8) -> Seq<char> {
    seq!['%', hex_digit(byte / 16), hex_digit(byte % 16)]
}

/// A key written for the source of a copy: every byte of its UTF-8
/// encoding but letters, digits and slashes becomes a percent sign and two
/// digits, upper case.
pub open spec fn percent_encoded(bytes: Seq<u8>) -> Seq<char>
    decreases bytes.len(),
{
    if bytes.len() == 0 {
        Seq::empty()
    } else if kept_in_copy_source(bytes.last()) {
        percent_encoded(bytes.drop_last()).push(bytes.last() as char)
    } else {
        percent_encoded(bytes.drop_last()) + escaped_byte(bytes.last())
    }
}

/// `percent_encoding::percent_encode_byte`: the percent sign and the two
/// upper-case hexadecimal digits of the byte.
#[verifier::external_body]
fn percent_encode_byte(byte: u8) -> (out: &'static str)
    ensures
        out@ == escaped_byte(byte),
{
    percent_encoding::percent_encode_byte(byte)
}

/// The source of a copy on the store's side: the bucket, a slash, and the
/// key with everything but letters, digits and slashes percent-encoded.
pub fn copy_source(bucket: &str, key: &str) -> (out: String)
    ensures
        out@ == bucket@ + "/"@ + percent_encoded(vstd::utf8::encode_utf8(key@)),
{
    let bytes = key.as_bytes();
    let mut out = crate::text::concat2(bucket, "/");
    let mut i: usize = 0;
    assert(bytes@.take(0) =~= Seq::<u8>::empty());
    assert(out@ =~= bucket@ + "/"@ + percent_encoded(bytes@.take(0)));
    while i < bytes.len()
        invariant
            0 <= i <= bytes.len(),
            bytes@ == vstd::utf8::encode_utf8(key@),
            out@ == bucket@ + "/"@ + percent_encoded(bytes@.take(i as int)),
        decreases bytes.len() - i,
    {
        let byte = bytes[i];
        let ghost before = percent_encoded(bytes@.take(i as int));
        assert(bytes@.take(i + 1).drop_last() =~= bytes@.take(i as int));
        if (48 <= byte && byte <= 57) || (65 <= byte && byte <= 90) || (97 <= byte && byte <= 122)
            || byte == 47 {
            out = crate::text::with_char(out, byte as char);
            assert(out@ =~= bucket@ + "/"@ + before.push(byte as char));
        } else {
            out = crate::text::concat2(out.as_str(), percent_encode_byte(byte));
            assert(out@ =~= bucket@ + "/"@ + (before + escaped_byte(byte)));
        }
        i += 1;
    }
    assert(bytes@.take(i as int) =~= bytes@);
    out
}

} // verus!
