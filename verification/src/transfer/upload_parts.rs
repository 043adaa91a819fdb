//! The parts of a multipart upload when nothing goes wrong: the file is
//! read to its end, every call to the store goes through, and the job is
//! not asked to stop. Then the file goes up in full parts and one last part
//! that holds the rest.

use crate::transfer::upload::{
    add_bytes, single_put, upload_next, upload_run, UploadAction, UploadEvent, UploadState,
    MULTIPART_PART_SIZE_BYTES, PART_NUMBER_MAX,
};
use vstd::prelude::*;

verus! {

/// How many parts a file of `total` bytes has: as many as hold it when
/// each but the last is full.
pub open spec fn parts_of(total: int) -> int {
    (total + MULTIPART_PART_SIZE_BYTES - 1) / (MULTIPART_PART_SIZE_BYTES as int)
}

/// How many bytes of a file of `total` bytes lie before its part `k`,
/// counted from zero.
pub open spec fn bytes_before(total: int, k: int) -> int {
    if k * MULTIPART_PART_SIZE_BYTES >= total {
        total
    } else {
        k * MULTIPART_PART_SIZE_BYTES
    }
}

/// How many bytes a read gives for the part `k` of a file of `total`
/// bytes: a full part, or what is left of the file, or nothing at its end.
pub open spec fn part_len(total: int, k: int) -> int {
    bytes_before(total, k + 1) - bytes_before(total, k)
}

/// What the caller reports from the read of the part `k` on, when nothing
/// goes wrong: for each part what the file gave and that the store took it,
/// then the end of the file and that the store completed the upload.
pub open spec fn steady_reports(total: int, k: int) -> Seq<(UploadEvent, bool)>
    decreases parts_of(total) - k,
{
    if k >= parts_of(total) {
        seq![(UploadEvent::Read { len: 0 }, false), (UploadEvent::Stored, false)]
    } else {
        seq![
            (UploadEvent::Read { len: part_len(total, k) as usize }, false),
            (UploadEvent::Stored, false),
        ] + steady_reports(total, k + 1)
    }
}

/// The steps that answer those reports: each part is sent under the next
/// number and the next read is asked for; at the end of the file the upload
/// is completed and ends with the size of the file.
pub open spec fn steady_steps(total: i64, k: int) -> Seq<UploadAction>
    decreases parts_of(total as int) - k,
{
    if k >= parts_of(total as int) {
        seq![UploadAction::Complete, UploadAction::Finish(Ok(total))]
    } else {
        seq![
            UploadAction::UploadPart {
                part_number: (k + 1) as i32,
                len: part_len(total as int, k) as usize,
            },
            UploadAction::ReadPart { max_len: MULTIPART_PART_SIZE_BYTES },
        ] + steady_steps(total, k + 1)
    }
}

/// The reports of a whole upload in which nothing goes wrong.
pub open spec fn steady_upload(total: int) -> Seq<(UploadEvent, bool)> {
    seq![(UploadEvent::Begin, false), (UploadEvent::Created { named: true }, false)]
        + steady_reports(total, 0)
}

/// An upload that takes one series of reports after another comes to what
/// it comes to when it takes the second from where the first led.
pub proof fn lemma_run_in_two(
    state: UploadState,
    first: Seq<(UploadEvent, bool)>,
    second: Seq<(UploadEvent, bool)>,
)
    ensures
        upload_run(state, first + second) == (
            upload_run(upload_run(state, first).0, second).0,
            upload_run(state, first).1 + upload_run(upload_run(state, first).0, second).1,
        ),
    decreases second.len(),
{
    if second.len() == 0 {
        assert(first + second =~= first);
        assert(upload_run(state, first).1 + Seq::<UploadAction>::empty() =~= upload_run(
            state,
            first,
        ).1);
    } else {
        let all = first + second;
        assert(all.drop_last() =~= first + second.drop_last());
        assert(all.last() == second.last());
        lemma_run_in_two(state, first, second.drop_last());
        let middle = upload_run(state, first).0;
        let (before, actions) = upload_run(middle, second.drop_last());
        let step = upload_next(before, second.last().0, second.last().1);
        assert((upload_run(state, first).1 + actions).push(step.action) =~= upload_run(
            state,
            first,
        ).1 + actions.push(step.action));
    }
}

/// What two reports in a row come to.
proof fn lemma_run_of_two(
    state: UploadState,
    first: (UploadEvent, bool),
    second: (UploadEvent, bool),
)
    ensures
        ({
            let one = upload_next(state, first.0, first.1);
            let two = upload_next(one.state, second.0, second.1);
            upload_run(state, seq![first, second]) == (two.state, seq![one.action, two.action])
        }),
{
    let events = seq![first, second];
    assert(events.drop_last() =~= seq![first]);
    assert(seq![first].drop_last() =~= Seq::<(UploadEvent, bool)>::empty());
    assert(upload_run(state, Seq::<(UploadEvent, bool)>::empty()) == (
        state,
        Seq::<UploadAction>::empty(),
    ));
    let one = upload_next(state, first.0, first.1);
    assert(seq![first].last() == first);
    assert(upload_run(state, seq![first]) == (
        one.state,
        Seq::<UploadAction>::empty().push(one.action),
    ));
    let two = upload_next(one.state, second.0, second.1);
    assert(Seq::<UploadAction>::empty().push(one.action).push(two.action) =~= seq![
        one.action,
        two.action,
    ]);
}

/// The parts of a file: each lies within the size of a part; all before
/// the last are full and the last is not empty; and before the part `k` lie
/// `k` full parts.
pub proof fn lemma_parts_of_a_file(total: int, k: int)
    requires
        0 < total,
        0 <= k < parts_of(total),
    ensures
        0 < part_len(total, k) <= MULTIPART_PART_SIZE_BYTES,
        k < parts_of(total) - 1 ==> part_len(total, k) == MULTIPART_PART_SIZE_BYTES,
        bytes_before(total, k) == k * MULTIPART_PART_SIZE_BYTES,
        bytes_before(total, parts_of(total)) == total,
        k == parts_of(total) - 1 ==> bytes_before(total, k) + part_len(total, k) == total,
{
}

/// From the read of the part `k` on, an upload in which nothing goes wrong
/// takes the steady steps and ends.
proof fn lemma_steady_from(total: i64, k: int)
    requires
        !single_put(total),
        parts_of(total as int) < PART_NUMBER_MAX,
        0 <= k <= parts_of(total as int),
    ensures
        upload_run(
            UploadState::Reading {
                total,
                transferred: bytes_before(total as int, k) as i64,
                next_part: (k + 1) as i32,
            },
            steady_reports(total as int, k),
        ) == (UploadState::Done, steady_steps(total, k)),
    decreases parts_of(total as int) - k,
{
    let state = UploadState::Reading {
        total,
        transferred: bytes_before(total as int, k) as i64,
        next_part: (k + 1) as i32,
    };
    if k >= parts_of(total as int) {
        lemma_run_of_two(
            state,
            (UploadEvent::Read { len: 0 }, false),
            (UploadEvent::Stored, false),
        );
    } else {
        lemma_parts_of_a_file(total as int, k);
        let len = part_len(total as int, k) as usize;
        let head = seq![(UploadEvent::Read { len }, false), (UploadEvent::Stored, false)];
        lemma_run_of_two(state, (UploadEvent::Read { len }, false), (UploadEvent::Stored, false));
        assert(add_bytes(bytes_before(total as int, k) as i64, len) == bytes_before(
            total as int,
            k + 1,
        ));
        lemma_steady_from(total, k + 1);
        lemma_run_in_two(state, head, steady_reports(total as int, k + 1));
    }
}

/// A file above 5 MiB goes up in full parts and one last part. When the
/// job is not asked to stop, the store takes every call, and the file is
/// read to its end, one read for each part, the upload takes these steps
/// and no other: it creates a multipart upload; it sends the parts one
/// after the other, numbered from one, as many as hold the file, each of
/// 8 MiB but the last, which holds the rest; it completes the upload; and
/// it ends with the size of the file. No put is sent.
pub proof fn lemma_steady_upload_sends_full_parts(total: i64)
    requires
        !single_put(total),
        parts_of(total as int) < PART_NUMBER_MAX,
    ensures
        upload_run(UploadState::Start { total }, steady_upload(total as int)) == (
            UploadState::Done,
            seq![
                UploadAction::CreateMultipart,
                UploadAction::ReadPart { max_len: MULTIPART_PART_SIZE_BYTES },
            ] + steady_steps(total, 0),
        ),
{
    let start = UploadState::Start { total };
    let head = seq![(UploadEvent::Begin, false), (UploadEvent::Created { named: true }, false)];
    lemma_run_of_two(
        start,
        (UploadEvent::Begin, false),
        (UploadEvent::Created { named: true }, false),
    );
    lemma_steady_from(total, 0);
    lemma_run_in_two(start, head, steady_reports(total as int, 0));
}

} // verus!
