//! The archive of several objects: a tar stream of regular entries, each a
//! header block, the object's bytes and zeros up to the next block, with two
//! zero blocks at the end. An object that gives another number of bytes than
//! the store declared fails the whole archive, and whatever fails removes
//! the partial output.

use crate::keys::{escapes_root, sanitize_relative_path, strip_key_prefix};
use crate::transfer::download::{content_length_or_zero, declared_length, final_count};
use crate::transfer::errors::TransferError;
use crate::transfer::upload::add_bytes;
use vstd::prelude::*;

verus! {

/// The size of a block of a tar stream.
pub const TAR_BLOCK_SIZE: usize = 512;

/// The access mode of every entry: read and write for the owner, read for
/// the others.
pub const ENTRY_MODE: u32 = 420;

/// The type of every entry: a regular file, which a tar header writes as
/// the digit zero.
pub const REGULAR_ENTRY: u8 = 48;

/// A tar header block in the making.
#[verifier::external_type_specification]
#[verifier::external_body]
pub struct ExHeader(tar::Header);

/// The 512 bytes that a header holds.
pub uninterp spec fn header_block(header: tar::Header) -> Seq<u8>;

/// What `tar` makes of a header block when the type of the entry is set.
pub uninterp spec fn block_with_entry_type(block: Seq<u8>, entry_type: u8) -> Seq<u8>;

/// What `tar` makes of a header block when the path of the entry is set:
/// the block with the path in it, or the words with which it refuses the
/// path.
pub uninterp spec fn block_with_path(block: Seq<u8>, path: Seq<char>) -> Result<
    Seq<u8>,
    Seq<char>,
>;

/// What `tar` makes of a header block when the size of the entry is set.
pub uninterp spec fn block_with_size(block: Seq<u8>, size: u64) -> Seq<u8>;

/// What `tar` makes of a header block when the access mode is set.
pub uninterp spec fn block_with_mode(block: Seq<u8>, mode: u32) -> Seq<u8>;

/// What `tar` makes of a header block when the time of the last change is
/// set.
pub uninterp spec fn block_with_mtime(block: Seq<u8>, mtime: u64) -> Seq<u8>;

/// What `tar` makes of a header block when its checksum is set.
pub uninterp spec fn block_with_cksum(block: Seq<u8>) -> Seq<u8>;

/// The blank block of the GNU format: zeros, but for the time of the last
/// change, which is zero written as eleven octal digits, and for the magic
/// `ustar` with a space, and the version, a space and a zero byte, behind it.
pub open spec fn gnu_blank_block() -> Seq<u8> {
    Seq::new(
        512,
        |i: int|
            if 136 <= i < 147 {
                48u8
            } else if i == 257 {
                117u8
            } else if i == 258 {
                115u8
            } else if i == 259 {
                116u8
            } else if i == 260 {
                97u8
            } else if i == 261 {
                114u8
            } else if i == 262 || i == 263 {
                32u8
            } else {
                0u8
            },
    )
}

/// `tar::Header::new_gnu`: a header that holds the blank block of the GNU
/// format.
#[verifier::external_body]
fn header_new() -> (out: tar::Header)
    ensures
        header_block(out) == gnu_blank_block(),
{
    tar::Header::new_gnu()
}

/// `tar::Header::set_entry_type`, with the type that `tar::EntryType::new`
/// reads from the byte. The block after the call is named.
#[verifier::external_body]
fn header_set_entry_type(header: &mut tar::Header, entry_type: u8)
    ensures
        header_block(*final(header)) == block_with_entry_type(
            header_block(*old(header)),
            entry_type,
        ),
{
    header.set_entry_type(tar::EntryType::new(entry_type))
}

/// `tar::Header::set_path`: it may refuse the path, and then gives its
/// reason as text. The block after a call that went well, and the reason of
/// a refusal, are named: both depend on the block before and the path alone.
#[verifier::external_body]
fn header_set_path(header: &mut tar::Header, path: &str) -> (out: Result<(), String>)
    ensures
        match block_with_path(header_block(*old(header)), path@) {
            Ok(block) => out is Ok && header_block(*final(header)) == block,
            Err(reason) => out matches Err(words) && words@ == reason,
        },
{
    match header.set_path(path) {
        Ok(()) => Ok(()),
        Err(err) => Err(err.to_string()),
    }
}

/// `tar::Header::set_size`. The block after the call is named.
#[verifier::external_body]
fn header_set_size(header: &mut tar::Header, size: u64)
    ensures
        header_block(*final(header)) == block_with_size(header_block(*old(header)), size),
{
    header.set_size(size)
}

/// `tar::Header::set_mode`. The block after the call is named.
#[verifier::external_body]
fn header_set_mode(header: &mut tar::Header, mode: u32)
    ensures
        header_block(*final(header)) == block_with_mode(header_block(*old(header)), mode),
{
    header.set_mode(mode)
}

/// `tar::Header::set_mtime`. The block after the call is named.
#[verifier::external_body]
fn header_set_mtime(header: &mut tar::Header, mtime: u64)
    ensures
        header_block(*final(header)) == block_with_mtime(header_block(*old(header)), mtime),
{
    header.set_mtime(mtime)
}

/// `tar::Header::set_cksum`. The block after the call is named.
#[verifier::external_body]
fn header_set_cksum(header: &mut tar::Header)
    ensures
        header_block(*final(header)) == block_with_cksum(header_block(*old(header))),
{
    header.set_cksum()
}

/// `tar::Header::as_bytes`, copied out: the block that the header holds,
/// which has 512 bytes.
#[verifier::external_body]
fn header_bytes(header: &tar::Header) -> (out: Vec<u8>)
    ensures
        out@ == header_block(*header),
        out@.len() == 512,
{
    header.as_bytes().to_vec()
}

/// The name of an object in an archive: what is left of the key behind the
/// common prefix, or the key itself where there is no prefix or the key does
/// not begin with it.
pub open spec fn entry_name(common_prefix: Seq<char>, key: Seq<char>) -> Seq<char> {
    if common_prefix.len() > 0 && common_prefix.is_prefix_of(key) {
        key.skip(common_prefix.len() as int)
    } else {
        key
    }
}

/// The name under which an object goes into an archive. An object whose
/// name is empty is left out; a name that leaves the archive's root is an
/// error that names the key.
pub fn archive_entry_name(common_prefix: &str, key: &str) -> (out: Result<
    Option<String>,
    TransferError,
>)
    ensures
        match out {
            Ok(None) => entry_name(common_prefix@, key@).len() == 0,
            Ok(Some(name)) => {
                &&& name@ == entry_name(common_prefix@, key@)
                &&& name@.len() > 0
                &&& !escapes_root(name@)
            },
            Err(TransferError::InvalidEntryKey(k)) => {
                &&& k@ == key@
                &&& entry_name(common_prefix@, key@).len() > 0
                &&& escapes_root(entry_name(common_prefix@, key@))
            },
            Err(_) => false,
        },
{
    let relative: String = if common_prefix.is_empty() {
        key.to_owned()
    } else {
        match strip_key_prefix(common_prefix, key) {
            Some(rest) => rest,
            None => key.to_owned(),
        }
    };
    if relative.as_str().is_empty() {
        return Ok(None);
    }
    match sanitize_relative_path(relative.as_str()) {
        Some(name) => Ok(Some(name)),
        None => Err(TransferError::InvalidEntryKey(key.to_owned())),
    }
}

/// The header block of a regular entry of `size` bytes under `name`, as
/// `tar` writes it: on the blank block of the GNU format the type, the path,
/// the size, the access mode, zero as the time of the last change and the
/// checksum are set in this order. Where `tar` refuses the path, its words
/// stand for the block.
pub open spec fn entry_header(name: Seq<char>, size: u64) -> Result<Seq<u8>, Seq<char>> {
    match block_with_path(block_with_entry_type(gnu_blank_block(), REGULAR_ENTRY), name) {
        Ok(block) => Ok(
            block_with_cksum(
                block_with_mtime(block_with_mode(block_with_size(block, size), ENTRY_MODE), 0),
            ),
        ),
        Err(reason) => Err(reason),
    }
}

/// Whether `out` is the header block, or the refusal, that `tar` gives for
/// an entry of `size` bytes under `name`.
pub open spec fn is_entry_header(out: Result<Vec<u8>, TransferError>, name: Seq<char>, size: u64)
    -> bool {
    match entry_header(name, size) {
        Ok(block) => out matches Ok(b) && b@ == block && b@.len() == TAR_BLOCK_SIZE,
        Err(reason) => out matches Err(TransferError::InvalidEntryPath { path, reason: words })
            && path@ == name && words@ == reason,
    }
}

/// The header block of a regular entry of `size` bytes under `name`, or
/// the error that carries the reason for which the name does not fit a
/// header.
pub fn archive_entry_header(name: &str, size: i64) -> (out: Result<Vec<u8>, TransferError>)
    requires
        size >= 0,
    ensures
        is_entry_header(out, name@, size as u64),
{
    let mut header = header_new();
    header_set_entry_type(&mut header, REGULAR_ENTRY);
    match header_set_path(&mut header, name) {
        Ok(()) => {},
        Err(reason) => {
            return Err(TransferError::InvalidEntryPath { path: name.to_owned(), reason });
        },
    }
    header_set_size(&mut header, size as u64);
    header_set_mode(&mut header, ENTRY_MODE);
    header_set_mtime(&mut header, 0);
    header_set_cksum(&mut header);
    Ok(header_bytes(&header))
}

/// How many zeros follow an entry of `len` bytes: as many as bring the
/// stream to the next block.
pub open spec fn padding_after(len: int) -> int {
    (512 - len % 512) % 512
}

/// How many zeros follow the bytes of an entry.
pub fn tar_padding(len: i64) -> (out: usize)
    requires
        len >= 0,
    ensures
        out == padding_after(len as int),
        0 <= out < 512,
        (len + out) % 512 == 0,
{
    let rest: i64 = len % 512;
    let pad: i64 = (512 - rest) % 512;
    pad as usize
}

/// `count` zeros.
pub fn zero_bytes(count: usize) -> (out: Vec<u8>)
    ensures
        out@.len() == count,
        forall|i: int| 0 <= i < out@.len() ==> out@[i] == 0,
{
    let mut out: Vec<u8> = Vec::new();
    let mut i: usize = 0;
    while i < count
        invariant
            0 <= i <= count,
            out@.len() == i,
            forall|k: int| 0 <= k < out@.len() ==> out@[k] == 0,
        decreases count - i,
    {
        out.push(0);
        i += 1;
    }
    out
}

/// Whether all bytes are zero.
pub open spec fn all_zero(bytes: Seq<u8>) -> bool {
    forall|i: int| 0 <= i < bytes.len() ==> bytes[i] == 0
}

/// The objects of an archive.
#[derive(Debug, PartialEq, Eq)]
pub struct ArchiveJob {
    pub keys: Vec<String>,
    pub common_prefix: String,
}

/// Where an archive stands.
#[derive(Debug, PartialEq, Eq)]
pub enum ArchiveState {
    /// Nothing was done yet.
    Start,
    /// The output is being created.
    Opening,
    /// The object `index` was asked for.
    Fetching { index: usize, transferred: i64, total: i64 },
    /// The store did not declare the length of the object `index`: its
    /// metadata was asked for.
    Probing { index: usize, transferred: i64, total: i64 },
    /// The body of the object `index` is streaming; `received` bytes of the
    /// `expected` came so far.
    Streaming { index: usize, expected: i64, received: i64, transferred: i64, total: i64 },
    /// The end of the archive is written and the compression is being
    /// finished.
    Sealing { transferred: i64, total: i64 },
    /// The partial output is being removed because of the error.
    Removing { error: TransferError },
    /// The archive is over.
    Done,
}

/// What the caller reports to an archive.
#[derive(Debug, PartialEq, Eq)]
pub enum ArchiveEvent {
    /// The archive is to begin.
    Begin,
    /// The output was created.
    Opened,
    /// The store answered for the object, or for its metadata; the answer
    /// may declare the length of the object.
    Answered { content_length: Option<i64> },
    /// The stream gave a chunk of `len` bytes.
    Chunk { len: usize },
    /// The stream is at its end.
    End,
    /// The compression was finished.
    Sealed,
    /// The partial output was removed; how that went does not matter.
    Removed,
    /// The last step failed with the message.
    Failed(String),
}

/// What the caller of an archive does next, after it has written what the
/// step gave it to write.
#[derive(Debug, PartialEq, Eq)]
pub enum ArchiveAction {
    /// Create the parent directories and the output.
    Open,
    /// Ask the store for the object.
    Fetch { key: String },
    /// Ask the store for the metadata of the object.
    Probe { key: String },
    /// Await the next chunk of the body.
    Receive,
    /// Write the chunk, then await the next one.
    WriteChunk,
    /// Finish the compression.
    Seal,
    /// Remove the partial output.
    Remove,
    /// The archive is over: it transferred this many bytes, or failed.
    Finish(Result<i64, TransferError>),
    /// The archive was over already.
    Nothing,
}

/// One step of an archive: the state it leads to, the bytes to write to
/// the tar stream first, the progress to report, as bytes transferred and
/// total, and what to do next.
#[derive(Debug, PartialEq, Eq)]
pub struct ArchiveStep {
    pub state: ArchiveState,
    pub write: Vec<u8>,
    pub progress: Option<(i64, i64)>,
    pub action: ArchiveAction,
}

/// The sum of two byte counts, kept within the range of `i64`.
pub open spec fn sum_bytes(a: i64, b: i64) -> i64 {
    crate::sync::pass::sat_add(a, b)
}

/// The larger of two counts.
pub open spec fn larger(a: i64, b: i64) -> i64 {
    if a >= b {
        a
    } else {
        b
    }
}

/// The first object from `index` on that gets an entry, if the names of
/// all objects before it are in order.
pub open spec fn next_entry(job: ArchiveJob, index: int) -> int
    decreases job.keys@.len() - index,
{
    if index < 0 || index >= job.keys@.len() {
        job.keys@.len() as int
    } else if entry_name(job.common_prefix@, job.keys@[index]@).len() == 0 {
        next_entry(job, index + 1)
    } else {
        index
    }
}

/// Whether `step` removes the partial output because of `error`.
pub open spec fn removes_because(step: ArchiveStep, error: TransferError) -> bool {
    &&& step.state == (ArchiveState::Removing { error })
    &&& step.write@.len() == 0
    &&& step.progress is None
    &&& step.action == ArchiveAction::Remove
}

/// Whether `step` is what follows the end of the entries before `from`:
/// the next object that gets an entry is asked for, and when none is left
/// the end of the archive is written.
pub open spec fn goes_on(
    job: ArchiveJob,
    from: int,
    transferred: i64,
    total: i64,
    cancelled: bool,
    lead: Seq<u8>,
    progress: Option<(i64, i64)>,
    step: ArchiveStep,
) -> bool {
    let next = next_entry(job, from);
    if cancelled {
        removes_because(step, TransferError::Cancelled)
    } else if next < job.keys@.len() && escapes_root(
        entry_name(job.common_prefix@, job.keys@[next]@),
    ) {
        &&& step.state matches ArchiveState::Removing { error: TransferError::InvalidEntryKey(k) }
        &&& k@ == job.keys@[next]@
        &&& step.write@.len() == 0
        &&& step.progress is None
        &&& step.action == ArchiveAction::Remove
    } else if next < job.keys@.len() {
        &&& step.state == (ArchiveState::Fetching { index: next as usize, transferred, total })
        &&& step.write@ == lead
        &&& step.progress == progress
        &&& step.action matches ArchiveAction::Fetch { key } && key == job.keys@[next]
    } else {
        &&& step.state == (ArchiveState::Sealing { transferred, total })
        &&& step.write@.len() == lead.len() + 2 * TAR_BLOCK_SIZE
        &&& step.write@.take(lead.len() as int) == lead
        &&& all_zero(step.write@.skip(lead.len() as int))
        &&& step.progress == progress
        &&& step.action == ArchiveAction::Seal
    }
}

/// Whether `step` starts the entry of the object `index`, whose length is
/// `expected`: the header block that `tar` gives for the name and the
/// length is written and the body awaited; where `tar` refuses the name, the
/// partial output is removed because of that.
pub open spec fn starts_entry(
    job: ArchiveJob,
    index: usize,
    expected: i64,
    transferred: i64,
    total: i64,
    step: ArchiveStep,
) -> bool {
    let name = entry_name(job.common_prefix@, job.keys@[index as int]@);
    match entry_header(name, expected as u64) {
        Ok(block) => {
            &&& step.state == (ArchiveState::Streaming {
                index,
                expected,
                received: 0,
                transferred,
                total,
            })
            &&& step.write@ == block
            &&& step.write@.len() == TAR_BLOCK_SIZE
            &&& step.progress is None
            &&& step.action == ArchiveAction::Receive
        },
        Err(reason) => {
            &&& step.state matches ArchiveState::Removing {
                error: TransferError::InvalidEntryPath { path, reason: words },
            }
            &&& path@ == name
            &&& words@ == reason
            &&& step.write@.len() == 0
            &&& step.progress is None
            &&& step.action == ArchiveAction::Remove
        },
    }
}

/// Whether `step` is the step that an archive takes in `state` when the
/// caller reports `event`, and `cancelled` says whether the job was asked to
/// stop.
pub open spec fn archive_stepped(
    job: ArchiveJob,
    state: ArchiveState,
    event: ArchiveEvent,
    cancelled: bool,
    step: ArchiveStep,
) -> bool {
    match (state, event) {
        (ArchiveState::Done, _) => {
            &&& step.state == ArchiveState::Done
            &&& step.write@.len() == 0
            &&& step.progress is None
            &&& step.action == ArchiveAction::Nothing
        },
        (ArchiveState::Removing { error }, _) => {
            &&& step.state == ArchiveState::Done
            &&& step.write@.len() == 0
            &&& step.progress is None
            &&& step.action == ArchiveAction::Finish(Err(error))
        },
        (ArchiveState::Start, ArchiveEvent::Begin) => {
            &&& step.write@.len() == 0
            &&& step.progress is None
            &&& if cancelled {
                step.state == ArchiveState::Done && step.action == ArchiveAction::Finish(
                    Err(TransferError::Cancelled),
                )
            } else if job.keys@.len() == 0 {
                step.state == ArchiveState::Done && step.action == ArchiveAction::Finish(
                    Err(TransferError::NothingSelected),
                )
            } else {
                step.state == ArchiveState::Opening && step.action == ArchiveAction::Open
            }
        },
        (ArchiveState::Start, _) => {
            &&& step.state == ArchiveState::Done
            &&& step.write@.len() == 0
            &&& step.progress is None
            &&& step.action == ArchiveAction::Finish(Err(TransferError::OutOfStep))
        },
        (_, ArchiveEvent::Failed(message)) => removes_because(
            step,
            TransferError::Failed(message),
        ),
        (ArchiveState::Opening, ArchiveEvent::Opened) => goes_on(
            job,
            0,
            0,
            0,
            cancelled,
            Seq::empty(),
            Some((0i64, 0i64)),
            step,
        ),
        (
            ArchiveState::Fetching { index, transferred, total },
            ArchiveEvent::Answered { content_length },
        ) => if index >= job.keys@.len() {
            removes_because(step, TransferError::OutOfStep)
        } else {
            match content_length {
                Some(_) => starts_entry(
                    job,
                    index,
                    declared_length(content_length),
                    transferred,
                    total,
                    step,
                ),
                None => {
                    &&& step.state == (ArchiveState::Probing { index, transferred, total })
                    &&& step.write@.len() == 0
                    &&& step.progress is None
                    &&& step.action matches ArchiveAction::Probe { key } && key
                        == job.keys@[index as int]
                },
            }
        },
        (
            ArchiveState::Probing { index, transferred, total },
            ArchiveEvent::Answered { content_length },
        ) => if index >= job.keys@.len() {
            removes_because(step, TransferError::OutOfStep)
        } else {
            starts_entry(job, index, declared_length(content_length), transferred, total, step)
        },
        (
            ArchiveState::Streaming { index, expected, received, transferred, total },
            ArchiveEvent::Chunk { len },
        ) => if cancelled {
            removes_because(step, TransferError::Cancelled)
        } else {
            &&& step.state == (ArchiveState::Streaming {
                index,
                expected,
                received: add_bytes(received, len),
                transferred,
                total,
            })
            &&& step.write@.len() == 0
            &&& step.progress == Some(
                (
                    sum_bytes(transferred, add_bytes(received, len)),
                    larger(
                        sum_bytes(total, expected),
                        sum_bytes(transferred, add_bytes(received, len)),
                    ),
                ),
            )
            &&& step.action == ArchiveAction::WriteChunk
        },
        (
            ArchiveState::Streaming { index, expected, received, transferred, total },
            ArchiveEvent::End,
        ) => if index >= job.keys@.len() {
            removes_because(step, TransferError::OutOfStep)
        } else if received != expected || received < 0 {
            &&& step.state matches ArchiveState::Removing {
                error: TransferError::SizeMismatch { path, expected: e, downloaded: d },
            }
            &&& path@ == entry_name(job.common_prefix@, job.keys@[index as int]@)
            &&& e == expected
            &&& d == received
            &&& step.write@.len() == 0
            &&& step.progress is None
            &&& step.action == ArchiveAction::Remove
        } else {
            exists|lead: Seq<u8>|
                lead.len() == padding_after(received as int) && all_zero(lead) && #[trigger] goes_on(
                    job,
                    index + 1,
                    sum_bytes(transferred, received),
                    sum_bytes(total, expected),
                    cancelled,
                    lead,
                    Some((sum_bytes(transferred, received), sum_bytes(total, expected))),
                    step,
                )
        },
        (ArchiveState::Sealing { transferred, total }, ArchiveEvent::Sealed) => if cancelled {
            removes_because(step, TransferError::Cancelled)
        } else {
            &&& step.state == ArchiveState::Done
            &&& step.write@.len() == 0
            &&& step.progress is None
            &&& step.action == ArchiveAction::Finish(Ok(final_count(transferred, total)))
        },
        (_, _) => removes_because(step, TransferError::OutOfStep),
    }
}

fn remove_because(error: TransferError) -> (out: ArchiveStep)
    ensures
        removes_because(out, error),
{
    ArchiveStep {
        state: ArchiveState::Removing { error },
        write: Vec::new(),
        progress: None,
        action: ArchiveAction::Remove,
    }
}

fn end_with(action: ArchiveAction) -> (out: ArchiveStep)
    ensures
        out.state == ArchiveState::Done,
        out.write@.len() == 0,
        out.progress is None,
        out.action == action,
{
    ArchiveStep { state: ArchiveState::Done, write: Vec::new(), progress: None, action }
}

/// The step that follows the end of the entries before `from`.
fn go_on(
    job: &ArchiveJob,
    from: usize,
    transferred: i64,
    total: i64,
    cancelled: bool,
    lead: Vec<u8>,
    progress: Option<(i64, i64)>,
) -> (out: ArchiveStep)
    ensures
        goes_on(*job, from as int, transferred, total, cancelled, lead@, progress, out),
{
    if cancelled {
        return remove_because(TransferError::Cancelled);
    }
    let mut index: usize = from;
    while index < job.keys.len()
        invariant
            from <= index,
            !cancelled,
            next_entry(*job, from as int) == next_entry(*job, index as int),
        decreases job.keys.len() - index,
    {
        assert(next_entry(*job, index as int) == if entry_name(
            job.common_prefix@,
            job.keys@[index as int]@,
        ).len() == 0 {
            next_entry(*job, index + 1)
        } else {
            index as int
        });
        match archive_entry_name(job.common_prefix.as_str(), job.keys[index].as_str()) {
            Ok(None) => {
                index += 1;
            },
            Ok(Some(_)) => {
                return ArchiveStep {
                    state: ArchiveState::Fetching { index, transferred, total },
                    write: lead,
                    progress,
                    action: ArchiveAction::Fetch { key: job.keys[index].clone() },
                };
            },
            Err(error) => {
                return ArchiveStep {
                    state: ArchiveState::Removing { error },
                    write: Vec::new(),
                    progress: None,
                    action: ArchiveAction::Remove,
                };
            },
        }
    }
    assert(next_entry(*job, index as int) == job.keys@.len());
    let mut write = lead;
    let ghost head = write@;
    let mut i: usize = 0;
    assert(write@.take(head.len() as int) =~= head);
    while i < 2 * TAR_BLOCK_SIZE
        invariant
            0 <= i <= 2 * TAR_BLOCK_SIZE,
            write@.len() == head.len() + i,
            write@.take(head.len() as int) == head,
            all_zero(write@.skip(head.len() as int)),
        decreases 2 * TAR_BLOCK_SIZE - i,
    {
        let ghost before = write@;
        write.push(0);
        i += 1;
        proof {
            assert(write@.take(head.len() as int) =~= before.take(head.len() as int));
            assert forall|k: int| 0 <= k < write@.skip(head.len() as int).len() implies write@.skip(
                head.len() as int,
            )[k] == 0 by {
                if k < before.skip(head.len() as int).len() {
                    assert(before.skip(head.len() as int)[k] == 0);
                }
            }
        }
    }
    ArchiveStep {
        state: ArchiveState::Sealing { transferred, total },
        write,
        progress,
        action: ArchiveAction::Seal,
    }
}

/// The name of the object `index` in the archive, as it is, empty or not.
fn name_of_entry(job: &ArchiveJob, index: usize) -> (out: String)
    requires
        index < job.keys@.len(),
    ensures
        out@ == entry_name(job.common_prefix@, job.keys@[index as int]@),
{
    if job.common_prefix.as_str().is_empty() {
        job.keys[index].clone()
    } else {
        match strip_key_prefix(job.common_prefix.as_str(), job.keys[index].as_str()) {
            Some(rest) => rest,
            None => job.keys[index].clone(),
        }
    }
}

/// The step that starts the entry of the object `index`.
fn start_entry(job: &ArchiveJob, index: usize, expected: i64, transferred: i64, total: i64)
    -> (out: ArchiveStep)
    requires
        expected >= 0,
    ensures
        index < job.keys@.len() ==> starts_entry(*job, index, expected, transferred, total, out),
        index >= job.keys@.len() ==> removes_because(out, TransferError::OutOfStep),
{
    if index >= job.keys.len() {
        return remove_because(TransferError::OutOfStep);
    }
    let name = name_of_entry(job, index);
    match archive_entry_header(name.as_str(), expected) {
        Ok(block) => ArchiveStep {
            state: ArchiveState::Streaming { index, expected, received: 0, transferred, total },
            write: block,
            progress: None,
            action: ArchiveAction::Receive,
        },
        Err(error) => ArchiveStep {
            state: ArchiveState::Removing { error },
            write: Vec::new(),
            progress: None,
            action: ArchiveAction::Remove,
        },
    }
}

/// Takes an archive one step further. The job's stop flag is looked at
/// before the archive begins, before each object, at each chunk of a body
/// and once the compression is finished. Each object that has a name gets an
/// entry: a header block, its bytes as they stream, and zeros up to the next
/// block; its bytes must be as many as the store declared. After the last
/// entry two zero blocks end the archive. Whatever fails once the output
/// exists, and every cancellation, removes the partial output before the
/// archive ends with the error.
pub fn archive_step(job: &ArchiveJob, state: ArchiveState, event: ArchiveEvent, cancelled: bool)
    -> (out: ArchiveStep)
    ensures
        archive_stepped(*job, state, event, cancelled, out),
{
    match state {
        ArchiveState::Done => end_with(ArchiveAction::Nothing),
        ArchiveState::Removing { error } => end_with(ArchiveAction::Finish(Err(error))),
        ArchiveState::Start => match event {
            ArchiveEvent::Begin => {
                if cancelled {
                    end_with(ArchiveAction::Finish(Err(TransferError::Cancelled)))
                } else if job.keys.len() == 0 {
                    end_with(ArchiveAction::Finish(Err(TransferError::NothingSelected)))
                } else {
                    ArchiveStep {
                        state: ArchiveState::Opening,
                        write: Vec::new(),
                        progress: None,
                        action: ArchiveAction::Open,
                    }
                }
            },
            _ => end_with(ArchiveAction::Finish(Err(TransferError::OutOfStep))),
        },
        ArchiveState::Opening => match event {
            ArchiveEvent::Failed(message) => remove_because(TransferError::Failed(message)),
            ArchiveEvent::Opened => {
                let lead: Vec<u8> = Vec::new();
                assert(lead@ =~= Seq::<u8>::empty());
                go_on(job, 0, 0, 0, cancelled, lead, Some((0, 0)))
            },
            _ => remove_because(TransferError::OutOfStep),
        },
        ArchiveState::Fetching { index, transferred, total } => match event {
            ArchiveEvent::Failed(message) => remove_because(TransferError::Failed(message)),
            ArchiveEvent::Answered { content_length } => {
                if index >= job.keys.len() {
                    remove_because(TransferError::OutOfStep)
                } else {
                    match content_length {
                        Some(_) => start_entry(
                            job,
                            index,
                            content_length_or_zero(content_length),
                            transferred,
                            total,
                        ),
                        None => ArchiveStep {
                            state: ArchiveState::Probing { index, transferred, total },
                            write: Vec::new(),
                            progress: None,
                            action: ArchiveAction::Probe { key: job.keys[index].clone() },
                        },
                    }
                }
            },
            _ => remove_because(TransferError::OutOfStep),
        },
        ArchiveState::Probing { index, transferred, total } => match event {
            ArchiveEvent::Failed(message) => remove_because(TransferError::Failed(message)),
            ArchiveEvent::Answered { content_length } => start_entry(
                job,
                index,
                content_length_or_zero(content_length),
                transferred,
                total,
            ),
            _ => remove_because(TransferError::OutOfStep),
        },
        ArchiveState::Streaming { index, expected, received, transferred, total } => match event {
            ArchiveEvent::Failed(message) => remove_because(TransferError::Failed(message)),
            ArchiveEvent::Chunk { len } => {
                if cancelled {
                    remove_because(TransferError::Cancelled)
                } else {
                    let wide: i128 = received as i128 + len as i128;
                    let now_received: i64 = if wide > i64::MAX as i128 {
                        i64::MAX
                    } else {
                        wide as i64
                    };
                    let so_far = crate::sync::pass::saturating_sum(transferred, now_received);
                    let planned = crate::sync::pass::saturating_sum(total, expected);
                    ArchiveStep {
                        state: ArchiveState::Streaming {
                            index,
                            expected,
                            received: now_received,
                            transferred,
                            total,
                        },
                        write: Vec::new(),
                        progress: Some(
                            (
                                so_far,
                                if planned >= so_far {
                                    planned
                                } else {
                                    so_far
                                },
                            ),
                        ),
                        action: ArchiveAction::WriteChunk,
                    }
                }
            },
            ArchiveEvent::End => {
                if index >= job.keys.len() {
                    remove_because(TransferError::OutOfStep)
                } else if received != expected || received < 0 {
                    let path = name_of_entry(job, index);
                    ArchiveStep {
                        state: ArchiveState::Removing {
                            error: TransferError::SizeMismatch {
                                path,
                                expected,
                                downloaded: received,
                            },
                        },
                        write: Vec::new(),
                        progress: None,
                        action: ArchiveAction::Remove,
                    }
                } else {
                    let lead = zero_bytes(tar_padding(received));
                    let done = crate::sync::pass::saturating_sum(transferred, received);
                    let planned = crate::sync::pass::saturating_sum(total, expected);
                    let ghost lead_view = lead@;
                    let step = go_on(
                        job,
                        index + 1,
                        done,
                        planned,
                        cancelled,
                        lead,
                        Some((done, planned)),
                    );
                    proof {
                        assert(lead_view.len() == padding_after(received as int));
                        assert(all_zero(lead_view));
                        assert(goes_on(
                            *job,
                            index + 1,
                            sum_bytes(transferred, received),
                            sum_bytes(total, expected),
                            cancelled,
                            lead_view,
                            Some((sum_bytes(transferred, received), sum_bytes(total, expected))),
                            step,
                        ));
                    }
                    step
                }
            },
            _ => remove_because(TransferError::OutOfStep),
        },
        ArchiveState::Sealing { transferred, total } => match event {
            ArchiveEvent::Failed(message) => remove_because(TransferError::Failed(message)),
            ArchiveEvent::Sealed => {
                if cancelled {
                    remove_because(TransferError::Cancelled)
                } else {
                    end_with(
                        ArchiveAction::Finish(
                            Ok(
                                if transferred >= total {
                                    transferred
                                } else {
                                    total
                                },
                            ),
                        ),
                    )
                }
            },
            _ => remove_because(TransferError::OutOfStep),
        },
    }
}

} // verus!
