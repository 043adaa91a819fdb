//! The upload of one file: small files go in one put, larger ones in
//! parts that are numbered from one and completed together. Whatever fails
//! once a multipart upload has begun, the upload is aborted before the
//! error is handed on.

use crate::transfer::errors::TransferError;
use vstd::prelude::*;

verus! {

/// The size up to which a file is sent in one put: 5 MiB.
pub const MULTIPART_THRESHOLD_BYTES: i64 = 5242880;

/// The size of a part, which no part exceeds: 8 MiB.
pub const MULTIPART_PART_SIZE_BYTES: usize = 8388608;

/// The highest part number that can follow another.
pub const PART_NUMBER_MAX: i32 = 2147483647;

/// Where an upload stands.
#[derive(Debug, PartialEq, Eq)]
pub enum UploadState {
    /// Nothing was done yet.
    Start { total: i64 },
    /// The put of the whole file is on its way.
    Putting { total: i64 },
    /// The multipart upload is being created.
    Creating { total: i64 },
    /// The next part is being read from the file.
    Reading { total: i64, transferred: i64, next_part: i32 },
    /// A part is on its way to the store.
    Sending { total: i64, transferred: i64, part_number: i32, len: usize },
    /// The multipart upload is being completed.
    Completing { total: i64 },
    /// The multipart upload is being aborted because of the error.
    Aborting { error: TransferError },
    /// The upload is over.
    Done,
}

/// What the caller reports to an upload.
#[derive(Debug, PartialEq, Eq)]
pub enum UploadEvent {
    /// The upload is to begin.
    Begin,
    /// The store did what the last step asked for.
    Stored,
    /// The store created a multipart upload; `named` says whether it gave
    /// the upload an identity.
    Created { named: bool },
    /// The file gave `len` more bytes for the next part; none at its end.
    Read { len: usize },
    /// The last step failed with the message.
    Failed(String),
    /// The abort was sent; how it went does not matter.
    Aborted,
}

/// What the caller of an upload does next.
#[derive(Debug, PartialEq, Eq)]
pub enum UploadAction {
    /// Send the whole file in one put.
    PutObject,
    /// Create a multipart upload.
    CreateMultipart,
    /// Read the next part from the file: `max_len` bytes, and fewer only
    /// where the file ends before.
    ReadPart { max_len: usize },
    /// Send the bytes just read as the part `part_number`.
    UploadPart { part_number: i32, len: usize },
    /// Complete the multipart upload from the parts sent.
    Complete,
    /// Abort the multipart upload.
    Abort,
    /// The upload is over: it transferred this many bytes, or failed.
    Finish(Result<i64, TransferError>),
    /// The upload was over already.
    Nothing,
}

/// One step of an upload: the state it leads to, the progress to report,
/// as bytes transferred and total, and what to do next.
#[derive(Debug, PartialEq, Eq)]
pub struct UploadStep {
    pub state: UploadState,
    pub progress: Option<(i64, i64)>,
    pub action: UploadAction,
}

/// The size of a file as an upload counts it: not below zero.
pub open spec fn counted_size(size: i64) -> i64 {
    if size < 0 {
        0
    } else {
        size
    }
}

/// Whether a file of this size goes in one put.
pub open spec fn single_put(total: i64) -> bool {
    total <= MULTIPART_THRESHOLD_BYTES
}

/// The step that begins or goes on with the reading of parts: a cancelled
/// upload is aborted, any other reads the next part.
pub open spec fn read_or_abort(total: i64, transferred: i64, next_part: i32, cancelled: bool)
    -> (UploadState, UploadAction) {
    if cancelled {
        (UploadState::Aborting { error: TransferError::Cancelled }, UploadAction::Abort)
    } else {
        (
            UploadState::Reading { total, transferred, next_part },
            UploadAction::ReadPart { max_len: MULTIPART_PART_SIZE_BYTES },
        )
    }
}

/// The sum of two byte counts, the largest count where it does not fit.
pub open spec fn add_bytes(transferred: i64, len: usize) -> i64 {
    if transferred + len > i64::MAX {
        i64::MAX
    } else {
        (transferred + len) as i64
    }
}

/// The step that an upload takes in `state` when the caller reports
/// `event`, and `cancelled` says whether the job was asked to stop.
pub open spec fn upload_next(state: UploadState, event: UploadEvent, cancelled: bool) -> UploadStep {
    match (state, event) {
        (UploadState::Start { total }, UploadEvent::Begin) => {
            if cancelled {
                UploadStep {
                    state: UploadState::Done,
                    progress: None,
                    action: UploadAction::Finish(Err(TransferError::Cancelled)),
                }
            } else if single_put(total) {
                UploadStep {
                    state: UploadState::Putting { total },
                    progress: None,
                    action: UploadAction::PutObject,
                }
            } else {
                UploadStep {
                    state: UploadState::Creating { total },
                    progress: None,
                    action: UploadAction::CreateMultipart,
                }
            }
        },
        (UploadState::Putting { total }, UploadEvent::Stored) => UploadStep {
            state: UploadState::Done,
            progress: Some((total, total)),
            action: UploadAction::Finish(Ok(total)),
        },
        (UploadState::Putting { total }, UploadEvent::Failed(message)) => UploadStep {
            state: UploadState::Done,
            progress: None,
            action: UploadAction::Finish(Err(TransferError::Failed(message))),
        },
        (UploadState::Creating { total }, UploadEvent::Created { named }) => {
            if named {
                let (state, action) = read_or_abort(total, 0, 1, cancelled);
                UploadStep { state, progress: None, action }
            } else {
                UploadStep {
                    state: UploadState::Done,
                    progress: None,
                    action: UploadAction::Finish(Err(TransferError::MissingUploadId)),
                }
            }
        },
        (UploadState::Creating { total }, UploadEvent::Failed(message)) => UploadStep {
            state: UploadState::Done,
            progress: None,
            action: UploadAction::Finish(Err(TransferError::Failed(message))),
        },
        (UploadState::Reading { total, transferred, next_part }, UploadEvent::Read { len }) => {
            if len == 0 {
                if next_part == 1 {
                    UploadStep {
                        state: UploadState::Aborting { error: TransferError::NoParts },
                        progress: None,
                        action: UploadAction::Abort,
                    }
                } else {
                    UploadStep {
                        state: UploadState::Completing { total },
                        progress: None,
                        action: UploadAction::Complete,
                    }
                }
            } else if len > MULTIPART_PART_SIZE_BYTES || next_part == PART_NUMBER_MAX {
                UploadStep {
                    state: UploadState::Aborting { error: TransferError::OutOfStep },
                    progress: None,
                    action: UploadAction::Abort,
                }
            } else {
                UploadStep {
                    state: UploadState::Sending { total, transferred, part_number: next_part, len },
                    progress: None,
                    action: UploadAction::UploadPart { part_number: next_part, len },
                }
            }
        },
        (
            UploadState::Sending { total, transferred, part_number, len },
            UploadEvent::Stored,
        ) => {
            let sent = add_bytes(transferred, len);
            let (state, action) = read_or_abort(
                total,
                sent,
                if part_number < PART_NUMBER_MAX {
                    (part_number + 1) as i32
                } else {
                    part_number
                },
                cancelled,
            );
            UploadStep { state, progress: Some((sent, total)), action }
        },
        (UploadState::Completing { total }, UploadEvent::Stored) => UploadStep {
            state: UploadState::Done,
            progress: Some((total, total)),
            action: UploadAction::Finish(Ok(total)),
        },
        (UploadState::Aborting { error }, _) => UploadStep {
            state: UploadState::Done,
            progress: None,
            action: UploadAction::Finish(Err(error)),
        },
        (UploadState::Done, _) => UploadStep {
            state: UploadState::Done,
            progress: None,
            action: UploadAction::Nothing,
        },
        (UploadState::Reading { .. }, UploadEvent::Failed(message)) => UploadStep {
            state: UploadState::Aborting { error: TransferError::Failed(message) },
            progress: None,
            action: UploadAction::Abort,
        },
        (UploadState::Sending { .. }, UploadEvent::Failed(message)) => UploadStep {
            state: UploadState::Aborting { error: TransferError::Failed(message) },
            progress: None,
            action: UploadAction::Abort,
        },
        (UploadState::Completing { .. }, UploadEvent::Failed(message)) => UploadStep {
            state: UploadState::Aborting { error: TransferError::Failed(message) },
            progress: None,
            action: UploadAction::Abort,
        },
        (UploadState::Reading { .. }, _) => UploadStep {
            state: UploadState::Aborting { error: TransferError::OutOfStep },
            progress: None,
            action: UploadAction::Abort,
        },
        (UploadState::Sending { .. }, _) => UploadStep {
            state: UploadState::Aborting { error: TransferError::OutOfStep },
            progress: None,
            action: UploadAction::Abort,
        },
        (UploadState::Completing { .. }, _) => UploadStep {
            state: UploadState::Aborting { error: TransferError::OutOfStep },
            progress: None,
            action: UploadAction::Abort,
        },
        (_, _) => UploadStep {
            state: UploadState::Done,
            progress: None,
            action: UploadAction::Finish(Err(TransferError::OutOfStep)),
        },
    }
}

/// The upload of a file of `size` bytes, before it begins.
pub fn upload_start(size: i64) -> (out: UploadState)
    ensures
        out == (UploadState::Start { total: counted_size(size) }),
{
    UploadState::Start {
        total: if size < 0 {
            0
        } else {
            size
        },
    }
}

fn read_or_abort_step(total: i64, transferred: i64, next_part: i32, cancelled: bool) -> (out: (
    UploadState,
    UploadAction,
))
    ensures
        out == read_or_abort(total, transferred, next_part, cancelled),
{
    if cancelled {
        (UploadState::Aborting { error: TransferError::Cancelled }, UploadAction::Abort)
    } else {
        (
            UploadState::Reading { total, transferred, next_part },
            UploadAction::ReadPart { max_len: MULTIPART_PART_SIZE_BYTES },
        )
    }
}

fn abort_with(error: TransferError) -> (out: UploadStep)
    ensures
        out == (UploadStep {
            state: UploadState::Aborting { error },
            progress: None,
            action: UploadAction::Abort,
        }),
{
    UploadStep { state: UploadState::Aborting { error }, progress: None, action: UploadAction::Abort }
}

fn finish_with(error: TransferError) -> (out: UploadStep)
    ensures
        out == (UploadStep {
            state: UploadState::Done,
            progress: None,
            action: UploadAction::Finish(Err(error)),
        }),
{
    UploadStep {
        state: UploadState::Done,
        progress: None,
        action: UploadAction::Finish(Err(error)),
    }
}

/// Takes an upload one step further. The job's stop flag is looked at
/// before the upload begins and before each part is read. A file of at most
/// 5 MiB is sent in one put; a larger one in parts of at most 8 MiB, numbered
/// from one, that are completed together once the file is at its end. From
/// the moment the multipart upload exists, every failure and every
/// cancellation leads to its abort before the upload ends with the error.
pub fn upload_step(state: UploadState, event: UploadEvent, cancelled: bool) -> (out: UploadStep)
    ensures
        out == upload_next(state, event, cancelled),
{
    match state {
        UploadState::Start { total } => match event {
            UploadEvent::Begin => {
                if cancelled {
                    finish_with(TransferError::Cancelled)
                } else if total <= MULTIPART_THRESHOLD_BYTES {
                    UploadStep {
                        state: UploadState::Putting { total },
                        progress: None,
                        action: UploadAction::PutObject,
                    }
                } else {
                    UploadStep {
                        state: UploadState::Creating { total },
                        progress: None,
                        action: UploadAction::CreateMultipart,
                    }
                }
            },
            _ => finish_with(TransferError::OutOfStep),
        },
        UploadState::Putting { total } => match event {
            UploadEvent::Stored => UploadStep {
                state: UploadState::Done,
                progress: Some((total, total)),
                action: UploadAction::Finish(Ok(total)),
            },
            UploadEvent::Failed(message) => finish_with(TransferError::Failed(message)),
            _ => finish_with(TransferError::OutOfStep),
        },
        UploadState::Creating { total } => match event {
            UploadEvent::Created { named } => {
                if named {
                    let (state, action) = read_or_abort_step(total, 0, 1, cancelled);
                    UploadStep { state, progress: None, action }
                } else {
                    finish_with(TransferError::MissingUploadId)
                }
            },
            UploadEvent::Failed(message) => finish_with(TransferError::Failed(message)),
            _ => finish_with(TransferError::OutOfStep),
        },
        UploadState::Reading { total, transferred, next_part } => match event {
            UploadEvent::Read { len } => {
                if len == 0 {
                    if next_part == 1 {
                        abort_with(TransferError::NoParts)
                    } else {
                        UploadStep {
                            state: UploadState::Completing { total },
                            progress: None,
                            action: UploadAction::Complete,
                        }
                    }
                } else if len > MULTIPART_PART_SIZE_BYTES || next_part == PART_NUMBER_MAX {
                    abort_with(TransferError::OutOfStep)
                } else {
                    UploadStep {
                        state: UploadState::Sending {
                            total,
                            transferred,
                            part_number: next_part,
                            len,
                        },
                        progress: None,
                        action: UploadAction::UploadPart { part_number: next_part, len },
                    }
                }
            },
            UploadEvent::Failed(message) => abort_with(TransferError::Failed(message)),
            _ => abort_with(TransferError::OutOfStep),
        },
        UploadState::Sending { total, transferred, part_number, len } => match event {
            UploadEvent::Stored => {
                let wide: i128 = transferred as i128 + len as i128;
                let sent: i64 = if wide > i64::MAX as i128 {
                    i64::MAX
                } else {
                    wide as i64
                };
                let next_part = if part_number < PART_NUMBER_MAX {
                    part_number + 1
                } else {
                    part_number
                };
                let (state, action) = read_or_abort_step(total, sent, next_part, cancelled);
                UploadStep { state, progress: Some((sent, total)), action }
            },
            UploadEvent::Failed(message) => abort_with(TransferError::Failed(message)),
            _ => abort_with(TransferError::OutOfStep),
        },
        UploadState::Completing { total } => match event {
            UploadEvent::Stored => UploadStep {
                state: UploadState::Done,
                progress: Some((total, total)),
                action: UploadAction::Finish(Ok(total)),
            },
            UploadEvent::Failed(message) => abort_with(TransferError::Failed(message)),
            _ => abort_with(TransferError::OutOfStep),
        },
        UploadState::Aborting { error } => finish_with(error),
        UploadState::Done => UploadStep {
            state: UploadState::Done,
            progress: None,
            action: UploadAction::Nothing,
        },
    }
}

/// The state that an upload comes to, and the steps that its caller was
/// given, when the caller reports `events`, each with the job's stop flag at
/// that time.
pub open spec fn upload_run(state: UploadState, events: Seq<(UploadEvent, bool)>) -> (
    UploadState,
    Seq<UploadAction>,
)
    decreases events.len(),
{
    if events.len() == 0 {
        (state, Seq::empty())
    } else {
        let (before, actions) = upload_run(state, events.drop_last());
        let step = upload_next(before, events.last().0, events.last().1);
        (step.state, actions.push(step.action))
    }
}

/// How many of the steps send a part.
pub open spec fn parts_sent(actions: Seq<UploadAction>) -> nat
    decreases actions.len(),
{
    if actions.len() == 0 {
        0
    } else if actions.last() is UploadPart {
        parts_sent(actions.drop_last()) + 1
    } else {
        parts_sent(actions.drop_last())
    }
}

/// How many of the steps send the whole file in one put.
pub open spec fn puts_sent(actions: Seq<UploadAction>) -> nat
    decreases actions.len(),
{
    if actions.len() == 0 {
        0
    } else if actions.last() is PutObject {
        puts_sent(actions.drop_last()) + 1
    } else {
        puts_sent(actions.drop_last())
    }
}

/// Whether a step is part of a multipart upload.
pub open spec fn is_multipart_call(action: UploadAction) -> bool {
    action is CreateMultipart || action is UploadPart || action is Complete || action is Abort
}

/// What holds of the steps of every upload of a file of `total` bytes.
pub open spec fn orderly(total: i64, actions: Seq<UploadAction>) -> bool {
    &&& single_put(total) ==> puts_sent(actions) <= 1 && forall|i: int|
        0 <= i < actions.len() ==> !is_multipart_call(#[trigger] actions[i])
    &&& !single_put(total) ==> puts_sent(actions) == 0
    &&& forall|i: int|
        0 <= i < actions.len() ==> match #[trigger] actions[i] {
            UploadAction::UploadPart { part_number, len } => {
                &&& 0 < len <= MULTIPART_PART_SIZE_BYTES
                &&& part_number == parts_sent(actions.take(i)) + 1
            },
            UploadAction::Finish(Ok(n)) => n == total,
            UploadAction::ReadPart { max_len } => max_len == MULTIPART_PART_SIZE_BYTES,
            _ => true,
        }
    &&& forall|i: int, j: int|
        0 <= i < j < actions.len() && (#[trigger] actions[i]) is Abort ==> match (
        #[trigger] actions[j]) {
            UploadAction::Finish(Err(_)) => true,
            UploadAction::Nothing => true,
            _ => false,
        }
}

/// How a state fits the steps that led to it.
pub open spec fn fits(total: i64, state: UploadState, actions: Seq<UploadAction>) -> bool {
    match state {
        UploadState::Start { total: t } => t == total && actions.len() == 0,
        UploadState::Putting { total: t } => t == total && single_put(total) && puts_sent(actions)
            == 1,
        UploadState::Creating { total: t } => {
            &&& t == total
            &&& !single_put(total)
            &&& parts_sent(actions) == 0
            &&& no_abort(actions)
        },
        UploadState::Reading { total: t, next_part, .. } => {
            &&& t == total
            &&& !single_put(total)
            &&& next_part == parts_sent(actions) + 1
            &&& no_abort(actions)
        },
        UploadState::Sending { total: t, part_number, .. } => {
            &&& t == total
            &&& !single_put(total)
            &&& part_number == parts_sent(actions)
            &&& part_number < PART_NUMBER_MAX
            &&& no_abort(actions)
        },
        UploadState::Completing { total: t } => t == total && !single_put(total) && no_abort(
            actions,
        ),
        UploadState::Aborting { .. } => !single_put(total),
        UploadState::Done => true,
    }
}

/// No step aborts.
pub open spec fn no_abort(actions: Seq<UploadAction>) -> bool {
    forall|i: int| 0 <= i < actions.len() ==> !((#[trigger] actions[i]) is Abort)
}

/// Whatever the caller reports, and whenever the job is asked to stop: a
/// file of at most 5 MiB is sent in at most one put and in no other call; a
/// larger file is never sent in a put, its parts are at most 8 MiB each and
/// numbered in a row from one; an upload that ends well ends with the size
/// of the file; and once a multipart upload is aborted, nothing follows but
/// the error: no further part and no completion.
pub proof fn lemma_upload_is_orderly(size: i64, events: Seq<(UploadEvent, bool)>)
    ensures
        orderly(
            counted_size(size),
            upload_run(UploadState::Start { total: counted_size(size) }, events).1,
        ),
        fits(
            counted_size(size),
            upload_run(UploadState::Start { total: counted_size(size) }, events).0,
            upload_run(UploadState::Start { total: counted_size(size) }, events).1,
        ),
    decreases events.len(),
{
    let total = counted_size(size);
    let start = UploadState::Start { total };
    if events.len() > 0 {
        lemma_upload_is_orderly(size, events.drop_last());
        let (before, head) = upload_run(start, events.drop_last());
        let step = upload_next(before, events.last().0, events.last().1);
        let actions = head.push(step.action);
        assert(actions.drop_last() =~= head);
        assert(actions.last() == step.action);
        assert(actions.take(head.len() as int) =~= head);
        assert(parts_sent(actions) == parts_sent(head) + if step.action is UploadPart {
            1nat
        } else {
            0nat
        });
        assert(puts_sent(actions) == puts_sent(head) + if step.action is PutObject {
            1nat
        } else {
            0nat
        });
        if head.len() == 0 {
            assert(parts_sent(head) == 0 && puts_sent(head) == 0);
        }
        assert forall|i: int| 0 <= i < head.len() implies actions.take(i) == head.take(i) by {
            assert(actions.take(i) =~= head.take(i));
        }
        assert forall|i: int| 0 <= i < actions.len() implies match #[trigger] actions[i] {
            UploadAction::UploadPart { part_number, len } => {
                &&& 0 < len <= MULTIPART_PART_SIZE_BYTES
                &&& part_number == parts_sent(actions.take(i)) + 1
            },
            UploadAction::Finish(Ok(n)) => n == total,
            UploadAction::ReadPart { max_len } => max_len == MULTIPART_PART_SIZE_BYTES,
            _ => true,
        } by {
            if i < head.len() {
                assert(actions[i] == head[i]);
            }
        }
        assert forall|i: int, j: int|
            0 <= i < j < actions.len() && (#[trigger] actions[i]) is Abort implies match (
            #[trigger] actions[j]) {
            UploadAction::Finish(Err(_)) => true,
            UploadAction::Nothing => true,
            _ => false,
        } by {
            assert(actions[i] == head[i]);
            if j < head.len() {
                assert(actions[j] == head[j]);
            }
        }
        if single_put(total) {
            assert forall|i: int| 0 <= i < actions.len() implies !is_multipart_call(
                #[trigger] actions[i],
            ) by {
                if i < head.len() {
                    assert(actions[i] == head[i]);
                }
            }
        }
        if no_abort(head) && !(step.action is Abort) {
            assert forall|i: int| 0 <= i < actions.len() implies !((#[trigger] actions[i])
                is Abort) by {
                if i < head.len() {
                    assert(actions[i] == head[i]);
                }
            }
        }
    }
}

/// An upload that is not cancelled begins with exactly the call that its
/// size asks for: the put of the whole file up to 5 MiB, the creation of a
/// multipart upload above.
pub proof fn lemma_upload_begins(size: i64)
    ensures
        upload_next(
            UploadState::Start { total: counted_size(size) },
            UploadEvent::Begin,
            false,
        ).action == if single_put(counted_size(size)) {
            UploadAction::PutObject
        } else {
            UploadAction::CreateMultipart
        },
{
}

} // verus!
