//! What an archive holds when it is done: one member for each object that
//! has a name, in the order of the keys, each under the header block that
//! `tar` writes for its name and its size and with as many bytes of body as
//! that size, and the end of the stream behind the last one.

use crate::keys::escapes_root;
use crate::transfer::archive::{
    archive_stepped, entry_header, entry_name, goes_on, next_entry, padding_after,
    starts_entry,
    ArchiveAction, ArchiveEvent, ArchiveJob, ArchiveState, ArchiveStep, TAR_BLOCK_SIZE,
};
use vstd::prelude::*;

verus! {

/// One turn of an archive: what the caller reported, whether the job was
/// asked to stop, and the step that the archive took.
pub ghost struct Turn {
    pub event: ArchiveEvent,
    pub cancelled: bool,
    pub step: ArchiveStep,
}

/// One member of the tar stream: the object `index` of the job, the size
/// that the store declared for it, the header block that was written, and
/// the bytes of body written behind the header.
pub ghost struct Member {
    pub index: int,
    pub size: int,
    pub header: Seq<u8>,
    pub body: int,
}

/// The tar stream as the caller has written it: its members, and the
/// number of its bytes.
pub ghost struct Layout {
    pub members: Seq<Member>,
    pub bytes: int,
}

/// The state after the turns; an archive begins in `Start`.
pub open spec fn state_after(turns: Seq<Turn>) -> ArchiveState {
    if turns.len() == 0 {
        ArchiveState::Start
    } else {
        turns.last().step.state
    }
}

/// Whether the turns are a run of the archive from its start: each step is
/// the one that the archive takes in the state that the turn before led to.
pub open spec fn is_run(job: ArchiveJob, turns: Seq<Turn>) -> bool
    decreases turns.len(),
{
    turns.len() == 0 || {
        &&& is_run(job, turns.drop_last())
        &&& archive_stepped(
            job,
            state_after(turns.drop_last()),
            turns.last().event,
            turns.last().cancelled,
            turns.last().step,
        )
    }
}

/// The layout with `len` more bytes in the body of its last member.
pub open spec fn with_body(before: Layout, len: int) -> Layout {
    if before.members.len() == 0 {
        Layout { members: before.members, bytes: before.bytes + len }
    } else {
        let last = before.members.last();
        Layout {
            members: before.members.drop_last().push(
                Member {
                    index: last.index,
                    size: last.size,
                    header: last.header,
                    body: last.body + len,
                },
            ),
            bytes: before.bytes + len,
        }
    }
}

/// The stream after one more turn, taken in `state`. The caller writes the
/// bytes that the step gives, and the chunk where the step says so. A step
/// that leads into the body of an object has given the header block of a
/// new member; a chunk written while a body streams belongs to the last
/// member.
pub open spec fn laid(before: Layout, state: ArchiveState, turn: Turn) -> Layout {
    let given = turn.step.write@.len() as int;
    match turn.step.state {
        ArchiveState::Streaming { index, expected, .. } => match state {
            ArchiveState::Streaming { .. } => match turn.event {
                ArchiveEvent::Chunk { len } => with_body(before, given + len),
                _ => Layout { members: before.members, bytes: before.bytes + given },
            },
            _ => Layout {
                members: before.members.push(
                    Member {
                        index: index as int,
                        size: expected as int,
                        header: turn.step.write@,
                        body: 0,
                    },
                ),
                bytes: before.bytes + given,
            },
        },
        _ => Layout { members: before.members, bytes: before.bytes + given },
    }
}

/// The stream after the turns.
pub open spec fn layout(turns: Seq<Turn>) -> Layout
    decreases turns.len(),
{
    if turns.len() == 0 {
        Layout { members: Seq::empty(), bytes: 0 }
    } else {
        laid(layout(turns.drop_last()), state_after(turns.drop_last()), turns.last())
    }
}

/// Whether the object `index` has a name in the archive.
pub open spec fn is_named(job: ArchiveJob, index: int) -> bool {
    0 <= index < job.keys@.len() && entry_name(job.common_prefix@, job.keys@[index]@).len() > 0
}

/// The objects before `upto` that have a name in the archive, in the
/// order of the keys.
pub open spec fn named_upto(job: ArchiveJob, upto: int) -> Seq<int>
    decreases upto,
{
    if upto <= 0 {
        Seq::empty()
    } else if is_named(job, upto - 1) {
        named_upto(job, upto - 1).push(upto - 1)
    } else {
        named_upto(job, upto - 1)
    }
}

/// How many bytes the members take: for each its header block, its body,
/// and the zeros that bring its declared size to the next block.
pub open spec fn stream_len(members: Seq<Member>) -> int
    decreases members.len(),
{
    if members.len() == 0 {
        0
    } else {
        stream_len(members.drop_last()) + TAR_BLOCK_SIZE + members.last().body + padding_after(
            members.last().size,
        )
    }
}

/// Whether the header of a member is the block of 512 bytes that `tar`
/// writes for a regular entry under the name of the member's object, which
/// is its key without the common prefix, and of the member's size.
pub open spec fn is_headed(job: ArchiveJob, member: Member) -> bool {
    &&& member.header.len() == TAR_BLOCK_SIZE
    &&& entry_header(
        entry_name(job.common_prefix@, job.keys@[member.index]@),
        member.size as u64,
    ) == Ok::<Seq<u8>, Seq<char>>(member.header)
}

/// Whether a member is whole: it stands for an object whose name is not
/// empty and stays below the root of the archive, its header is the one
/// that `tar` writes for that name and its size, and its body has as many
/// bytes as that size. Only the largest size there is may be followed by
/// more.
pub open spec fn is_whole(job: ArchiveJob, member: Member) -> bool {
    &&& is_named(job, member.index)
    &&& !escapes_root(entry_name(job.common_prefix@, job.keys@[member.index]@))
    &&& 0 <= member.size <= i64::MAX
    &&& is_headed(job, member)
    &&& member.body == member.size || (member.size == i64::MAX && member.body > member.size)
}

/// Whether the members are whole and stand, one for one and in order, for
/// the objects before `upto` that have a name.
pub open spec fn covers(job: ArchiveJob, members: Seq<Member>, upto: int) -> bool {
    &&& members.len() == named_upto(job, upto).len()
    &&& forall|j: int|
        0 <= j < members.len() ==> (#[trigger] members[j]).index == named_upto(job, upto)[j]
    &&& forall|j: int| 0 <= j < members.len() ==> is_whole(job, #[trigger] members[j])
}

/// Whether the stream is a whole archive of the job: its members stand for
/// all the objects that have a name, and behind them lie the two blocks
/// that end a tar stream.
pub open spec fn is_whole_archive(job: ArchiveJob, stream: Layout) -> bool {
    &&& covers(job, stream.members, job.keys@.len() as int)
    &&& stream.bytes == stream_len(stream.members) + 2 * TAR_BLOCK_SIZE
}

/// A count of bytes as the archive keeps it: no more than the largest
/// `i64`.
pub open spec fn counted(bytes: int) -> int {
    if bytes > i64::MAX {
        i64::MAX as int
    } else {
        bytes
    }
}

/// What holds of the stream in each state of a run.
pub open spec fn in_step(job: ArchiveJob, state: ArchiveState, stream: Layout) -> bool {
    match state {
        ArchiveState::Start => stream.members.len() == 0 && stream.bytes == 0,
        ArchiveState::Opening => stream.members.len() == 0 && stream.bytes == 0,
        ArchiveState::Fetching { index, .. } => between_members(job, index as int, stream),
        ArchiveState::Probing { index, .. } => between_members(job, index as int, stream),
        ArchiveState::Streaming { index, expected, received, .. } => {
            &&& stream.members.len() > 0
            &&& covers(job, stream.members.drop_last(), index as int)
            &&& is_named(job, index as int)
            &&& !escapes_root(entry_name(job.common_prefix@, job.keys@[index as int]@))
            &&& stream.members.last().index == index
            &&& stream.members.last().size == expected
            &&& is_headed(job, stream.members.last())
            &&& 0 <= expected
            &&& 0 <= stream.members.last().body
            &&& received == counted(stream.members.last().body)
            &&& stream.bytes == stream_len(stream.members.drop_last()) + TAR_BLOCK_SIZE
                + stream.members.last().body
        },
        ArchiveState::Sealing { .. } => is_whole_archive(job, stream),
        ArchiveState::Removing { .. } => true,
        ArchiveState::Done => true,
    }
}

/// What holds of the stream while the object `index` is asked for: the
/// members before it are whole, and the object has a name that stays below
/// the root.
pub open spec fn between_members(job: ArchiveJob, index: int, stream: Layout) -> bool {
    &&& covers(job, stream.members, index)
    &&& is_named(job, index)
    &&& !escapes_root(entry_name(job.common_prefix@, job.keys@[index]@))
    &&& stream.bytes == stream_len(stream.members)
}

/// No object between `from` and the next one that gets an entry has a
/// name.
pub proof fn lemma_next_entry_is_next_named(job: ArchiveJob, from: int)
    requires
        0 <= from <= job.keys@.len(),
    ensures
        from <= next_entry(job, from) <= job.keys@.len(),
        named_upto(job, next_entry(job, from)) == named_upto(job, from),
        next_entry(job, from) < job.keys@.len() ==> is_named(job, next_entry(job, from)),
    decreases job.keys@.len() - from,
{
    if from < job.keys@.len() && entry_name(job.common_prefix@, job.keys@[from]@).len() == 0 {
        lemma_next_entry_is_next_named(job, from + 1);
        assert(!is_named(job, from));
        assert(named_upto(job, from + 1) == named_upto(job, from));
    }
}

proof fn lemma_goes_on(
    job: ArchiveJob,
    from: int,
    transferred: i64,
    total: i64,
    cancelled: bool,
    lead: Seq<u8>,
    progress: Option<(i64, i64)>,
    step: ArchiveStep,
    members: Seq<Member>,
    base: int,
)
    requires
        0 <= from <= job.keys@.len(),
        covers(job, members, from),
        base + lead.len() == stream_len(members),
        goes_on(job, from, transferred, total, cancelled, lead, progress, step),
    ensures
        !(step.state is Streaming),
        in_step(job, step.state, Layout { members, bytes: base + step.write@.len() }),
{
    lemma_next_entry_is_next_named(job, from);
    assert(job.keys.len() == job.keys@.len());
}

proof fn lemma_starts_entry(
    job: ArchiveJob,
    index: usize,
    expected: i64,
    transferred: i64,
    total: i64,
    step: ArchiveStep,
    stream: Layout,
)
    requires
        between_members(job, index as int, stream),
        0 <= expected,
        starts_entry(job, index, expected, transferred, total, step),
    ensures
        in_step(
            job,
            step.state,
            Layout {
                members: if step.state is Streaming {
                    stream.members.push(
                        Member {
                            index: index as int,
                            size: expected as int,
                            header: step.write@,
                            body: 0,
                        },
                    )
                } else {
                    stream.members
                },
                bytes: stream.bytes + step.write@.len(),
            },
        ),
{
    if step.state is Streaming {
        let member = Member {
            index: index as int,
            size: expected as int,
            header: step.write@,
            body: 0,
        };
        assert(stream.members.push(member).drop_last() =~= stream.members);
    }
}

/// A step of the archive keeps what holds of the stream.
pub proof fn lemma_step_keeps_layout(
    job: ArchiveJob,
    state: ArchiveState,
    stream: Layout,
    turn: Turn,
)
    requires
        in_step(job, state, stream),
        archive_stepped(job, state, turn.event, turn.cancelled, turn.step),
    ensures
        in_step(job, turn.step.state, laid(stream, state, turn)),
{
    let step = turn.step;
    let after = laid(stream, state, turn);
    match state {
        ArchiveState::Done => {},
        ArchiveState::Removing { .. } => {},
        ArchiveState::Start => {},
        ArchiveState::Opening => {
            match turn.event {
                ArchiveEvent::Opened => {
                    lemma_goes_on(
                        job,
                        0,
                        0,
                        0,
                        turn.cancelled,
                        Seq::empty(),
                        Some((0i64, 0i64)),
                        step,
                        stream.members,
                        0,
                    );
                },
                _ => {},
            }
        },
        ArchiveState::Fetching { index, transferred, total } => {
            match turn.event {
                ArchiveEvent::Answered { content_length } => {
                    if index < job.keys@.len() && content_length is Some {
                        lemma_starts_entry(
                            job,
                            index,
                            crate::transfer::download::declared_length(content_length),
                            transferred,
                            total,
                            step,
                            stream,
                        );
                    }
                },
                _ => {},
            }
        },
        ArchiveState::Probing { index, transferred, total } => {
            match turn.event {
                ArchiveEvent::Answered { content_length } => {
                    if index < job.keys@.len() {
                        lemma_starts_entry(
                            job,
                            index,
                            crate::transfer::download::declared_length(content_length),
                            transferred,
                            total,
                            step,
                            stream,
                        );
                    }
                },
                _ => {},
            }
        },
        ArchiveState::Streaming { index, expected, received, transferred, total } => {
            let last = stream.members.last();
            match turn.event {
                ArchiveEvent::Chunk { len } => {
                    if !turn.cancelled {
                        let grown = Member {
                            index: last.index,
                            size: last.size,
                            header: last.header,
                            body: last.body + len,
                        };
                        assert(after.members == stream.members.drop_last().push(grown));
                        assert(after.members.drop_last() =~= stream.members.drop_last());
                    }
                },
                ArchiveEvent::End => {
                    if index < job.keys@.len() && received == expected && received >= 0 {
                        let lead = choose|lead: Seq<u8>|
                            lead.len() == padding_after(received as int) && #[trigger] goes_on(
                                job,
                                index + 1,
                                crate::transfer::archive::sum_bytes(transferred, received),
                                crate::transfer::archive::sum_bytes(total, expected),
                                turn.cancelled,
                                lead,
                                Some(
                                    (
                                        crate::transfer::archive::sum_bytes(transferred, received),
                                        crate::transfer::archive::sum_bytes(total, expected),
                                    ),
                                ),
                                step,
                            );
                        let head = stream.members.drop_last();
                        assert(stream.members =~= head.push(last));
                        assert(named_upto(job, index + 1) == named_upto(job, index as int).push(
                            index as int,
                        ));
                        assert(is_whole(job, last));
                        assert(covers(job, stream.members, index + 1)) by {
                            assert forall|j: int| 0 <= j < stream.members.len() implies (
                            #[trigger] stream.members[j]).index == named_upto(job, index + 1)[j]
                                && is_whole(job, stream.members[j]) by {
                                if j < head.len() {
                                    assert(stream.members[j] == head[j]);
                                }
                            }
                        }
                        lemma_goes_on(
                            job,
                            index + 1,
                            crate::transfer::archive::sum_bytes(transferred, received),
                            crate::transfer::archive::sum_bytes(total, expected),
                            turn.cancelled,
                            lead,
                            Some(
                                (
                                    crate::transfer::archive::sum_bytes(transferred, received),
                                    crate::transfer::archive::sum_bytes(total, expected),
                                ),
                            ),
                            step,
                            stream.members,
                            stream.bytes,
                        );
                    }
                },
                _ => {},
            }
        },
        ArchiveState::Sealing { .. } => {},
    }
}

/// In every run of the archive, the stream is as the state says.
pub proof fn lemma_run_keeps_layout(job: ArchiveJob, turns: Seq<Turn>)
    requires
        is_run(job, turns),
    ensures
        in_step(job, state_after(turns), layout(turns)),
    decreases turns.len(),
{
    if turns.len() > 0 {
        lemma_run_keeps_layout(job, turns.drop_last());
        lemma_step_keeps_layout(
            job,
            state_after(turns.drop_last()),
            layout(turns.drop_last()),
            turns.last(),
        );
    }
}

/// An archive that ends well is whole. In every run that ends with the
/// report of success, the stream that the caller has written holds one
/// member for each object whose name in the archive is not empty, in the
/// order of the keys and for no other object; each name stays below the
/// root; the header of each member is the block that `tar` writes for that
/// name, which is the key without the common prefix, and for the size that
/// the store declared; the body of each member has exactly as many bytes
/// as that size; and the stream is as long as the header blocks, the
/// bodies, the zeros that fill each body up to a whole block, and the two
/// blocks at the end are together.
pub proof fn lemma_finished_archive_is_whole(job: ArchiveJob, turns: Seq<Turn>)
    requires
        is_run(job, turns),
        turns.len() > 0,
        turns.last().step.action matches ArchiveAction::Finish(Ok(_)),
    ensures
        is_whole_archive(job, layout(turns)),
{
    lemma_run_keeps_layout(job, turns.drop_last());
}

} // verus!
