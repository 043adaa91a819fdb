//! One reconciliation pass: the entries of a diff are applied in the order
//! uploads, downloads, local deletions, remote deletions. The pass decides
//! what is done next and keeps the counts; the caller does the work and
//! reports how it went.

use crate::keys::{escapes_root, normalize_prefix, normalized_prefix, sanitize_relative_path};
use crate::sync::diff::{FolderSyncDiffEntryRecord, FolderSyncDiffRecord};
use crate::sync::records::SyncOutcomeStatus;
use crate::sync::types::{direction_of, SyncDirection};
use crate::text::{concat2, concat3};
use vstd::prelude::*;

verus! {

/// Where a pass stands.
#[derive(Clone, Copy, Debug, PartialEq, Eq, Structural)]
pub enum PassStage {
    Uploads,
    Downloads,
    DeleteLocal,
    /// The remote deletions are sent to the store in one batch.
    DeleteRemote,
    /// The batch went through and its objects are gone; the baseline records
    /// of its entries are dropped one by one.
    RemoteRecords,
    Finished,
}

/// The progress of a pass, as sent to listeners.
#[derive(Clone, Copy, Debug, PartialEq, Eq, Structural)]
pub struct FolderSyncProgress {
    pub completed: i64,
    pub total: i64,
    pub bytes_transferred: i64,
    pub bytes_total: i64,
}

/// How a pass ended.
#[derive(Debug, PartialEq, Eq)]
pub struct PassOutcome {
    pub status: SyncOutcomeStatus,
    /// The first error, as the rule records it.
    pub first_error: Option<String>,
    /// All errors in a row, as listeners are told.
    pub report: Option<String>,
}

/// What the caller of a pass does next.
#[derive(Debug, PartialEq, Eq)]
pub enum PassStep {
    /// Upload the local file of the entry `index` of the uploads to
    /// `remote_key`, then report the transfer.
    Upload { index: usize, relative_path: String, remote_key: String },
    /// Download `remote_key` to the local file of the entry `index` of the
    /// downloads, then report the transfer.
    Download { index: usize, relative_path: String, remote_key: String },
    /// Delete the local file and, where the file is gone then, its baseline
    /// record; then report how that went.
    DeleteLocal { index: usize, relative_path: String },
    /// Delete the keys in one batch, then report how the batch went.
    DeleteRemote { keys: Vec<String> },
    /// The objects of the batch are gone: drop the baseline record of the
    /// path, then report how that went.
    ForgetRemote { index: usize, relative_path: String },
    /// An entry with a path that leaves the root was counted as failed; ask
    /// again.
    Skipped,
    /// The rule is paused: the pass rests where it stands.
    Paused,
    /// The rule is stopped: the pass is given up.
    Cancelled,
    /// Nothing is left to do.
    Finished(PassOutcome),
}

/// The kinds of steps.
#[derive(Clone, Copy, Debug, PartialEq, Eq, Structural)]
pub enum StepKind {
    Upload,
    Download,
    DeleteLocal,
    DeleteRemote,
    ForgetRemote,
    Skipped,
    Paused,
    Cancelled,
    Finished,
}

impl PassStep {
    pub open spec fn kind(self) -> StepKind {
        match self {
            PassStep::Upload { .. } => StepKind::Upload,
            PassStep::Download { .. } => StepKind::Download,
            PassStep::DeleteLocal { .. } => StepKind::DeleteLocal,
            PassStep::DeleteRemote { .. } => StepKind::DeleteRemote,
            PassStep::ForgetRemote { .. } => StepKind::ForgetRemote,
            PassStep::Skipped => StepKind::Skipped,
            PassStep::Paused => StepKind::Paused,
            PassStep::Cancelled => StepKind::Cancelled,
            PassStep::Finished(_) => StepKind::Finished,
        }
    }
}

/// A running pass.
#[derive(Debug, PartialEq, Eq)]
pub struct SyncPass {
    pub diff: FolderSyncDiffRecord,
    pub bucket_prefix: String,
    pub files_watching: i64,
    pub stage: PassStage,
    pub next: usize,
    pub completed: i64,
    pub total: i64,
    pub bytes_transferred: i64,
    pub bytes_total: i64,
    pub errors: Vec<String>,
}

/// The sum of two numbers, kept within the range of `i64`.
pub open spec fn sat_add(a: i64, b: i64) -> i64 {
    if a + b > i64::MAX {
        i64::MAX
    } else if a + b < i64::MIN {
        i64::MIN
    } else {
        (a + b) as i64
    }
}

/// Adds within the range of `i64`.
pub fn saturating_sum(a: i64, b: i64) -> (out: i64)
    ensures
        out == sat_add(a, b),
{
    let wide: i128 = a as i128 + b as i128;
    if wide > i64::MAX as i128 {
        i64::MAX
    } else if wide < i64::MIN as i128 {
        i64::MIN
    } else {
        wide as i64
    }
}

/// A count as an `i64`, the largest one where it does not fit.
pub open spec fn count_as_i64(count: int) -> i64 {
    if count > i64::MAX {
        i64::MAX
    } else {
        count as i64
    }
}

/// How many entries of a diff are applied: all but the conflicts.
pub open spec fn total_actions(diff: FolderSyncDiffRecord) -> int {
    (diff.uploads@.len() + diff.downloads@.len() + diff.delete_local@.len()
        + diff.delete_remote@.len()) as int
}

/// The value, or zero where there is none.
pub open spec fn or_zero(value: Option<i64>) -> i64 {
    match value {
        Some(v) => v,
        None => 0,
    }
}

/// The local sizes of the entries, added up within the range of `i64`.
pub open spec fn local_bytes(entries: Seq<FolderSyncDiffEntryRecord>) -> i64
    decreases entries.len(),
{
    if entries.len() == 0 {
        0
    } else {
        sat_add(local_bytes(entries.drop_last()), or_zero(entries.last().local_size))
    }
}

/// The remote sizes of the entries, added up within the range of `i64`.
pub open spec fn remote_bytes(entries: Seq<FolderSyncDiffEntryRecord>) -> i64
    decreases entries.len(),
{
    if entries.len() == 0 {
        0
    } else {
        sat_add(remote_bytes(entries.drop_last()), or_zero(entries.last().remote_size))
    }
}

/// The bytes that a pass plans to transfer: what it uploads and what it
/// downloads.
pub open spec fn planned_bytes(diff: FolderSyncDiffRecord) -> i64 {
    sat_add(local_bytes(diff.uploads@), remote_bytes(diff.downloads@))
}

/// The rank of a stage in the order of a pass.
pub open spec fn stage_rank(stage: PassStage) -> int {
    match stage {
        PassStage::Uploads => 0,
        PassStage::Downloads => 1,
        PassStage::DeleteLocal => 2,
        PassStage::DeleteRemote => 3,
        PassStage::RemoteRecords => 4,
        PassStage::Finished => 5,
    }
}

/// The place from which a pass goes on when it has come to `(stage,
/// next)`: that place itself where it names an entry, else the first entry
/// of the next stage that has one.
pub open spec fn settle(diff: FolderSyncDiffRecord, stage: PassStage, next: int) -> (
    PassStage,
    int,
)
    decreases 5 - stage_rank(stage),
{
    match stage {
        PassStage::Uploads => if next < diff.uploads@.len() {
            (stage, next)
        } else {
            settle(diff, PassStage::Downloads, 0)
        },
        PassStage::Downloads => if next < diff.downloads@.len() {
            (stage, next)
        } else {
            settle(diff, PassStage::DeleteLocal, 0)
        },
        PassStage::DeleteLocal => if next < diff.delete_local@.len() {
            (stage, next)
        } else {
            settle(diff, PassStage::DeleteRemote, 0)
        },
        PassStage::DeleteRemote => if next == 0 && diff.delete_remote@.len() > 0 {
            (stage, 0)
        } else {
            (PassStage::Finished, 0)
        },
        PassStage::RemoteRecords => if next < diff.delete_remote@.len() {
            (stage, next)
        } else {
            (PassStage::Finished, 0)
        },
        PassStage::Finished => (PassStage::Finished, 0),
    }
}

/// The errors in a row, with `; ` between them.
pub open spec fn joined(errors: Seq<String>) -> Seq<char>
    decreases errors.len(),
{
    if errors.len() == 0 {
        Seq::empty()
    } else if errors.len() == 1 {
        errors[0]@
    } else {
        joined(errors.drop_last()) + "; "@ + errors.last()@
    }
}

/// What an entry's failure is recorded as.
pub open spec fn failure_text(stage: PassStage, path: Seq<char>, error: Seq<char>) -> Seq<char> {
    match stage {
        PassStage::Uploads => "Upload "@ + path + ": "@ + error,
        PassStage::Downloads => "Download "@ + path + ": "@ + error,
        PassStage::DeleteLocal => "Delete local "@ + path + ": "@ + error,
        _ => "Delete remote: "@ + error,
    }
}

/// The error of an entry whose path leaves the root.
pub open spec fn invalid_path_text() -> Seq<char> {
    "invalid relative path"@
}

/// The status that a pass ends with: success without errors, error when
/// there are as many errors as entries, partial in between.
pub open spec fn status_of(errors: int, actions: int) -> SyncOutcomeStatus {
    if errors == 0 {
        SyncOutcomeStatus::Success
    } else if errors < actions {
        SyncOutcomeStatus::Partial
    } else {
        SyncOutcomeStatus::Error
    }
}

impl SyncPass {
    /// The entries of the stage `stage`.
    pub open spec fn entries(self, stage: PassStage) -> Seq<FolderSyncDiffEntryRecord> {
        match stage {
            PassStage::Uploads => self.diff.uploads@,
            PassStage::Downloads => self.diff.downloads@,
            PassStage::DeleteLocal => self.diff.delete_local@,
            _ => self.diff.delete_remote@,
        }
    }

    /// The path of the entry at which the pass stands.
    pub open spec fn current_path(self) -> Seq<char> {
        self.entries(self.stage)[self.next as int].relative_path@
    }

    /// The invariant of a pass: it stands at an entry of its stage, or at
    /// the batch of the remote deletions, or at its end.
    pub open spec fn wf(self) -> bool {
        settle(self.diff, self.stage, self.next as int) == (self.stage, self.next as int)
    }

    /// Whether the pass looks at the rule's flags before it goes on: it
    /// does so before each upload, download and local deletion and before
    /// the batch of the remote deletions.
    pub open spec fn gated(self) -> bool {
        self.stage == PassStage::Uploads || self.stage == PassStage::Downloads || self.stage
            == PassStage::DeleteLocal || self.stage == PassStage::DeleteRemote
    }

    /// The kind of step that comes next.
    pub open spec fn step_kind(self, cancelled: bool, paused: bool) -> StepKind {
        if self.stage == PassStage::Finished {
            StepKind::Finished
        } else if self.stage == PassStage::RemoteRecords {
            StepKind::ForgetRemote
        } else if cancelled {
            StepKind::Cancelled
        } else if paused {
            StepKind::Paused
        } else if self.stage == PassStage::DeleteRemote {
            StepKind::DeleteRemote
        } else if escapes_root(self.current_path()) {
            StepKind::Skipped
        } else if self.stage == PassStage::Uploads {
            StepKind::Upload
        } else if self.stage == PassStage::Downloads {
            StepKind::Download
        } else {
            StepKind::DeleteLocal
        }
    }

    /// Whether `after` is this pass after one more entry was counted, with
    /// `bytes` more transferred.
    pub open spec fn counted(self, after: SyncPass, bytes: i64) -> bool {
        &&& after.diff == self.diff
        &&& after.bucket_prefix == self.bucket_prefix
        &&& after.files_watching == self.files_watching
        &&& after.total == self.total
        &&& after.bytes_total == self.bytes_total
        &&& after.completed == sat_add(self.completed, 1)
        &&& after.bytes_transferred == sat_add(self.bytes_transferred, bytes)
        &&& (after.stage, after.next as int) == settle(self.diff, self.stage, self.next + 1)
    }

    /// Whether `outcome` is how the pass ends as it stands.
    pub open spec fn ends_as(self, outcome: PassOutcome) -> bool {
        &&& outcome.status == status_of(self.errors@.len() as int, total_actions(self.diff))
        &&& match outcome.first_error {
            Some(e) => self.errors@.len() > 0 && e@ == self.errors@[0]@,
            None => self.errors@.len() == 0,
        }
        &&& match outcome.report {
            Some(r) => self.errors@.len() > 0 && r@ == joined(self.errors@),
            None => self.errors@.len() == 0,
        }
    }

    fn stage_len(&self, stage: PassStage) -> (out: usize)
        ensures
            out == self.entries(stage).len(),
    {
        match stage {
            PassStage::Uploads => self.diff.uploads.len(),
            PassStage::Downloads => self.diff.downloads.len(),
            PassStage::DeleteLocal => self.diff.delete_local.len(),
            _ => self.diff.delete_remote.len(),
        }
    }

    /// Moves the pass to the place from which it goes on.
    fn settle_at(&mut self, stage: PassStage, next: usize)
        ensures
            (final(self).stage, final(self).next as int) == settle(
                old(self).diff,
                stage,
                next as int,
            ),
            final(self).wf(),
            final(self).diff == old(self).diff,
            final(self).bucket_prefix == old(self).bucket_prefix,
            final(self).files_watching == old(self).files_watching,
            final(self).total == old(self).total,
            final(self).bytes_total == old(self).bytes_total,
            final(self).completed == old(self).completed,
            final(self).bytes_transferred == old(self).bytes_transferred,
            final(self).errors == old(self).errors,
    {
        proof {
            reveal_with_fuel(settle, 6);
        }
        let mut s = stage;
        let mut n = next;
        if s == PassStage::Uploads && n >= self.diff.uploads.len() {
            s = PassStage::Downloads;
            n = 0;
        }
        if s == PassStage::Downloads && n >= self.diff.downloads.len() {
            s = PassStage::DeleteLocal;
            n = 0;
        }
        if s == PassStage::DeleteLocal && n >= self.diff.delete_local.len() {
            s = PassStage::DeleteRemote;
            n = 0;
        }
        if s == PassStage::DeleteRemote && !(n == 0 && self.diff.delete_remote.len() > 0) {
            s = PassStage::Finished;
            n = 0;
        }
        if s == PassStage::RemoteRecords && n >= self.diff.delete_remote.len() {
            s = PassStage::Finished;
            n = 0;
        }
        if s == PassStage::Finished {
            n = 0;
        }
        self.stage = s;
        self.next = n;
    }

    /// Counts one more entry as done, with `bytes` more transferred, and
    /// moves on.
    fn count(&mut self, bytes: i64)
        requires
            old(self).next < old(self).entries(old(self).stage).len(),
        ensures
            old(self).counted(*final(self), bytes),
            final(self).errors == old(self).errors,
            final(self).wf(),
    {
        proof {
            reveal_with_fuel(settle, 6);
        }
        self.completed = saturating_sum(self.completed, 1);
        self.bytes_transferred = saturating_sum(self.bytes_transferred, bytes);
        let stage = self.stage;
        let len = self.stage_len(stage);
        let next = self.next + 1;
        self.settle_at(stage, next);
    }

    /// Begins the pass that applies `diff` for a rule with the given bucket
    /// prefix and direction. Nothing is counted yet; the pass stands at the
    /// first entry, or at its end where the diff has nothing to apply.
    pub fn begin(diff: FolderSyncDiffRecord, bucket_prefix: &str, direction: &str) -> (out:
        SyncPass)
        ensures
            out.diff == diff,
            out.bucket_prefix@ == normalized_prefix(bucket_prefix@),
            out.files_watching == watched_files(direction_of(direction@)),
            (out.stage, out.next as int) == settle(diff, PassStage::Uploads, 0),
            out.completed == 0,
            out.bytes_transferred == 0,
            out.total == count_as_i64(total_actions(diff)),
            out.bytes_total == planned_bytes(diff),
            out.errors@.len() == 0,
            out.wf(),
            (out.stage == PassStage::Finished) == (total_actions(diff) == 0),
    {
        proof {
            reveal_with_fuel(settle, 6);
        }
        let total: u128 = diff.uploads.len() as u128 + diff.downloads.len() as u128
            + diff.delete_local.len() as u128 + diff.delete_remote.len() as u128;
        let mut up: i64 = 0;
        let mut i: usize = 0;
        assert(diff.uploads@.take(0) =~= Seq::<FolderSyncDiffEntryRecord>::empty());
        while i < diff.uploads.len()
            invariant
                0 <= i <= diff.uploads.len(),
                up == local_bytes(diff.uploads@.take(i as int)),
            decreases diff.uploads.len() - i,
        {
            assert(diff.uploads@.take(i + 1).drop_last() =~= diff.uploads@.take(i as int));
            let size = match diff.uploads[i].local_size {
                Some(v) => v,
                None => 0,
            };
            up = saturating_sum(up, size);
            i += 1;
        }
        assert(diff.uploads@.take(i as int) =~= diff.uploads@);
        let mut down: i64 = 0;
        let mut j: usize = 0;
        assert(diff.downloads@.take(0) =~= Seq::<FolderSyncDiffEntryRecord>::empty());
        while j < diff.downloads.len()
            invariant
                0 <= j <= diff.downloads.len(),
                down == remote_bytes(diff.downloads@.take(j as int)),
            decreases diff.downloads.len() - j,
        {
            assert(diff.downloads@.take(j + 1).drop_last() =~= diff.downloads@.take(j as int));
            let size = match diff.downloads[j].remote_size {
                Some(v) => v,
                None => 0,
            };
            down = saturating_sum(down, size);
            j += 1;
        }
        assert(diff.downloads@.take(j as int) =~= diff.downloads@);
        let mut pass = SyncPass {
            diff,
            bucket_prefix: normalize_prefix(bucket_prefix),
            files_watching: files_watching(SyncDirection::parse(direction)),
            stage: PassStage::Uploads,
            next: 0,
            completed: 0,
            total: if total > i64::MAX as u128 {
                i64::MAX
            } else {
                total as i64
            },
            bytes_transferred: 0,
            bytes_total: saturating_sum(up, down),
            errors: Vec::new(),
        };
        pass.settle_at(PassStage::Uploads, 0);
        pass
    }

    /// Whether the pass meets its invariant. Every operation keeps it; a
    /// caller that builds or changes a pass by hand can ask.
    pub fn is_well_formed(&self) -> (out: bool)
        ensures
            out == self.wf(),
    {
        proof {
            reveal_with_fuel(settle, 6);
        }
        match self.stage {
            PassStage::Uploads => self.next < self.diff.uploads.len(),
            PassStage::Downloads => self.next < self.diff.downloads.len(),
            PassStage::DeleteLocal => self.next < self.diff.delete_local.len(),
            PassStage::DeleteRemote => self.next == 0 && self.diff.delete_remote.len() > 0,
            PassStage::RemoteRecords => self.next < self.diff.delete_remote.len(),
            PassStage::Finished => self.next == 0,
        }
    }

    /// Whether the pass has anything left to do.
    pub fn has_work(&self) -> (out: bool)
        ensures
            out == (self.stage != PassStage::Finished),
    {
        match self.stage {
            PassStage::Finished => false,
            _ => true,
        }
    }

    /// The progress of the pass; byte counts below zero count as zero.
    pub fn progress(&self) -> (out: FolderSyncProgress)
        ensures
            out == self.progress_with(0),
    {
        self.progress_during(0)
    }

    /// The progress of the pass while a transfer has moved `transferred`
    /// bytes.
    pub open spec fn progress_with(self, transferred: i64) -> FolderSyncProgress {
        FolderSyncProgress {
            completed: self.completed,
            total: self.total,
            bytes_transferred: {
                let sum = sat_add(self.bytes_transferred, transferred);
                if sum < 0 {
                    0
                } else {
                    sum
                }
            },
            bytes_total: if self.bytes_total < 0 {
                0
            } else {
                self.bytes_total
            },
        }
    }

    /// The progress of the pass while the transfer of the current entry has
    /// moved `transferred` bytes.
    pub fn progress_during(&self, transferred: i64) -> (out: FolderSyncProgress)
        ensures
            out == self.progress_with(transferred),
    {
        let sum = saturating_sum(self.bytes_transferred, transferred);
        FolderSyncProgress {
            completed: self.completed,
            total: self.total,
            bytes_transferred: if sum < 0 {
                0
            } else {
                sum
            },
            bytes_total: if self.bytes_total < 0 {
                0
            } else {
                self.bytes_total
            },
        }
    }

    /// How the pass ends as it stands: with success where no error was
    /// recorded, with an error where as many errors were recorded as the
    /// diff has entries to apply, partially in between.
    pub fn outcome(&self) -> (out: PassOutcome)
        ensures
            self.ends_as(out),
    {
        let total: u128 = self.diff.uploads.len() as u128 + self.diff.downloads.len() as u128
            + self.diff.delete_local.len() as u128 + self.diff.delete_remote.len() as u128;
        if self.errors.len() == 0 {
            return PassOutcome {
                status: SyncOutcomeStatus::Success,
                first_error: None,
                report: None,
            };
        }
        let status = if (self.errors.len() as u128) < total {
            SyncOutcomeStatus::Partial
        } else {
            SyncOutcomeStatus::Error
        };
        let mut report = self.errors[0].clone();
        let mut i: usize = 1;
        assert(self.errors@.take(1) =~= seq![self.errors@[0]]);
        while i < self.errors.len()
            invariant
                1 <= i <= self.errors.len(),
                report@ == joined(self.errors@.take(i as int)),
            decreases self.errors.len() - i,
        {
            assert(self.errors@.take(i + 1).drop_last() =~= self.errors@.take(i as int));
            report = concat3(report.as_str(), "; ", self.errors[i].as_str());
            i += 1;
        }
        assert(self.errors@.take(i as int) =~= self.errors@);
        PassOutcome { status, first_error: Some(self.errors[0].clone()), report: Some(report) }
    }

    /// Says what is done next. At its end the pass says how it ended.
    /// Before each upload, download and local deletion, and before the batch
    /// of remote deletions, the rule's flags decide: a stopped rule gives the
    /// pass up, a paused rule lets it rest, and in both cases the pass stays
    /// as it is. An entry whose path leaves the root is counted as failed and
    /// skipped. Otherwise the step names the entry and the key to work on,
    /// and the pass waits for the report.
    pub fn next_step(&mut self, cancelled: bool, paused: bool) -> (out: PassStep)
        requires
            old(self).wf(),
        ensures
            out.kind() == old(self).step_kind(cancelled, paused),
            final(self).wf(),
            out.kind() != StepKind::Skipped ==> *final(self) == *old(self),
            match out {
                PassStep::Upload { index, relative_path, remote_key } => {
                    &&& index == old(self).next
                    &&& relative_path@ == old(self).current_path()
                    &&& remote_key@ == old(self).bucket_prefix@ + relative_path@
                },
                PassStep::Download { index, relative_path, remote_key } => {
                    &&& index == old(self).next
                    &&& relative_path@ == old(self).current_path()
                    &&& remote_key@ == old(self).bucket_prefix@ + relative_path@
                },
                PassStep::DeleteLocal { index, relative_path } => {
                    &&& index == old(self).next
                    &&& relative_path@ == old(self).current_path()
                },
                PassStep::ForgetRemote { index, relative_path } => {
                    &&& index == old(self).next
                    &&& relative_path@ == old(self).current_path()
                },
                PassStep::DeleteRemote { keys } => {
                    &&& keys@.len() == old(self).diff.delete_remote@.len()
                    &&& forall|i: int|
                        0 <= i < keys@.len() ==> (#[trigger] keys@[i])@ == old(
                            self,
                        ).bucket_prefix@ + old(self).diff.delete_remote@[i].relative_path@
                },
                PassStep::Skipped => {
                    &&& old(self).counted(*final(self), 0)
                    &&& final(self).errors@.len() == old(self).errors@.len() + 1
                    &&& final(self).errors@.drop_last() == old(self).errors@
                    &&& final(self).errors@.last()@ == failure_text(
                        old(self).stage,
                        old(self).current_path(),
                        invalid_path_text(),
                    )
                },
                PassStep::Finished(outcome) => old(self).ends_as(outcome),
                _ => true,
            },
    {
        proof {
            reveal_with_fuel(settle, 6);
        }
        match self.stage {
            PassStage::Finished => {
                return PassStep::Finished(self.outcome());
            },
            PassStage::RemoteRecords => {
                return PassStep::ForgetRemote {
                    index: self.next,
                    relative_path: self.diff.delete_remote[self.next].relative_path.clone(),
                };
            },
            _ => {},
        }
        if cancelled {
            return PassStep::Cancelled;
        }
        if paused {
            return PassStep::Paused;
        }
        match self.stage {
            PassStage::DeleteRemote => {
                let mut keys: Vec<String> = Vec::new();
                let mut i: usize = 0;
                while i < self.diff.delete_remote.len()
                    invariant
                        0 <= i <= self.diff.delete_remote.len(),
                        keys@.len() == i,
                        forall|k: int|
                            0 <= k < i ==> (#[trigger] keys@[k])@ == self.bucket_prefix@
                                + self.diff.delete_remote@[k].relative_path@,
                    decreases self.diff.delete_remote.len() - i,
                {
                    keys.push(
                        concat2(
                            self.bucket_prefix.as_str(),
                            self.diff.delete_remote[i].relative_path.as_str(),
                        ),
                    );
                    i += 1;
                }
                PassStep::DeleteRemote { keys }
            },
            _ => {
                let stage = self.stage;
                let index = self.next;
                let path: String = match stage {
                    PassStage::Uploads => self.diff.uploads[index].relative_path.clone(),
                    PassStage::Downloads => self.diff.downloads[index].relative_path.clone(),
                    _ => self.diff.delete_local[index].relative_path.clone(),
                };
                assert(path@ == self.current_path());
                match sanitize_relative_path(path.as_str()) {
                    Some(relative_path) => {
                        match stage {
                            PassStage::Uploads => PassStep::Upload {
                                index,
                                remote_key: concat2(
                                    self.bucket_prefix.as_str(),
                                    relative_path.as_str(),
                                ),
                                relative_path,
                            },
                            PassStage::Downloads => PassStep::Download {
                                index,
                                remote_key: concat2(
                                    self.bucket_prefix.as_str(),
                                    relative_path.as_str(),
                                ),
                                relative_path,
                            },
                            _ => PassStep::DeleteLocal { index, relative_path },
                        }
                    },
                    None => {
                        let text = failure_message(stage, path.as_str(), "invalid relative path");
                        self.errors.push(text);
                        self.count(0);
                        assert(self.errors@.drop_last() =~= old(self).errors@);
                        PassStep::Skipped
                    },
                }
            },
        }
    }

    /// Takes the report of an upload or a download: the bytes that were
    /// transferred, or the error. The entry is counted; on success the bytes
    /// are added, a negative count as zero, and on failure the error is
    /// recorded under the entry's path. Returns whether the pass stood at a
    /// transfer; if not, nothing changes.
    pub fn record_transfer(&mut self, result: Result<i64, String>) -> (out: bool)
        requires
            old(self).wf(),
        ensures
            out == (old(self).stage == PassStage::Uploads || old(self).stage
                == PassStage::Downloads),
            !out ==> *final(self) == *old(self),
            final(self).wf(),
            out ==> match result {
                Ok(bytes) => {
                    &&& old(self).counted(
                        *final(self),
                        if bytes < 0 {
                            0
                        } else {
                            bytes
                        },
                    )
                    &&& final(self).errors == old(self).errors
                },
                Err(error) => {
                    &&& old(self).counted(*final(self), 0)
                    &&& final(self).errors@.len() == old(self).errors@.len() + 1
                    &&& final(self).errors@.drop_last() == old(self).errors@
                    &&& final(self).errors@.last()@ == failure_text(
                        old(self).stage,
                        old(self).current_path(),
                        error@,
                    )
                },
            },
    {
        proof {
            reveal_with_fuel(settle, 6);
        }
        let path: String = match self.stage {
            PassStage::Uploads => self.diff.uploads[self.next].relative_path.clone(),
            PassStage::Downloads => self.diff.downloads[self.next].relative_path.clone(),
            _ => {
                return false;
            },
        };
        match result {
            Ok(bytes) => {
                self.count(
                    if bytes < 0 {
                        0
                    } else {
                        bytes
                    },
                );
            },
            Err(error) => {
                let text = failure_message(self.stage, path.as_str(), error.as_str());
                self.errors.push(text);
                self.count(0);
                assert(self.errors@.drop_last() =~= old(self).errors@);
            },
        }
        true
    }

    /// Takes the report of a local deletion, or of the dropping of the
    /// baseline record of a remote deletion: the entry is counted, and an
    /// error, if there was one, is recorded under the entry's path. Returns
    /// whether the pass stood at such a step; if not, nothing changes.
    pub fn record_done(&mut self, error: Option<String>) -> (out: bool)
        requires
            old(self).wf(),
        ensures
            out == (old(self).stage == PassStage::DeleteLocal || old(self).stage
                == PassStage::RemoteRecords),
            !out ==> *final(self) == *old(self),
            final(self).wf(),
            out ==> {
                &&& old(self).counted(*final(self), 0)
                &&& match error {
                    Some(e) => {
                        &&& final(self).errors@.len() == old(self).errors@.len() + 1
                        &&& final(self).errors@.drop_last() == old(self).errors@
                        &&& final(self).errors@.last()@ == failure_text(
                            old(self).stage,
                            old(self).current_path(),
                            e@,
                        )
                    },
                    None => final(self).errors == old(self).errors,
                }
            },
    {
        proof {
            reveal_with_fuel(settle, 6);
        }
        let path: String = match self.stage {
            PassStage::DeleteLocal => self.diff.delete_local[self.next].relative_path.clone(),
            PassStage::RemoteRecords => self.diff.delete_remote[self.next].relative_path.clone(),
            _ => {
                return false;
            },
        };
        match error {
            Some(e) => {
                let text = failure_message(self.stage, path.as_str(), e.as_str());
                self.errors.push(text);
                self.count(0);
                assert(self.errors@.drop_last() =~= old(self).errors@);
            },
            None => {
                self.count(0);
            },
        }
        true
    }

    /// Whether `after` is this pass after the batch of remote deletions
    /// failed with `error`: the error is recorded for the batch as a whole,
    /// the entries of the batch are counted, and the pass is at its end. No
    /// baseline record is dropped, for the objects may still be there.
    pub open spec fn batch_failed(self, after: SyncPass, error: Seq<char>) -> bool {
        &&& after.stage == PassStage::Finished
        &&& after.next == 0
        &&& after.completed == sat_add(
            self.completed,
            count_as_i64(self.diff.delete_remote@.len() as int),
        )
        &&& after.errors@.len() == self.errors@.len() + 1
        &&& after.errors@.drop_last() == self.errors@
        &&& after.errors@.last()@ == failure_text(PassStage::DeleteRemote, Seq::empty(), error)
    }

    /// Whether `after` is this pass after the batch of remote deletions went
    /// through: the pass goes on to drop the baseline records of the
    /// batch's entries, and counts each entry when its record is dropped.
    pub open spec fn batch_done(self, after: SyncPass) -> bool {
        &&& after.stage == PassStage::RemoteRecords
        &&& after.next == 0
        &&& after.completed == self.completed
        &&& after.errors == self.errors
    }

    /// Takes the report of the batch of remote deletions. Where the store
    /// gave an error, it is recorded for the batch as a whole and the pass
    /// ends: the baseline records of the batch stay, since a record is
    /// dropped only for a path that is gone on both sides. Where the batch
    /// went through, the pass goes on to drop the baseline records of its
    /// entries. Returns whether the pass stood at the batch; if not, nothing
    /// changes.
    pub fn record_remote_delete(&mut self, error: Option<String>) -> (out: bool)
        requires
            old(self).wf(),
        ensures
            out == (old(self).stage == PassStage::DeleteRemote),
            !out ==> *final(self) == *old(self),
            final(self).wf(),
            out ==> {
                &&& final(self).diff == old(self).diff
                &&& final(self).bucket_prefix == old(self).bucket_prefix
                &&& final(self).files_watching == old(self).files_watching
                &&& final(self).total == old(self).total
                &&& final(self).bytes_total == old(self).bytes_total
                &&& final(self).bytes_transferred == old(self).bytes_transferred
                &&& match error {
                    Some(e) => old(self).batch_failed(*final(self), e@),
                    None => old(self).batch_done(*final(self)),
                }
            },
    {
        proof {
            reveal_with_fuel(settle, 6);
        }
        match self.stage {
            PassStage::DeleteRemote => {
                match error {
                    Some(e) => {
                        self.errors.push(concat2("Delete remote: ", e.as_str()));
                        assert(self.errors@.drop_last() =~= old(self).errors@);
                        let len = self.diff.delete_remote.len();
                        let counted: i64 = if len as u64 > 9223372036854775807u64 {
                            i64::MAX
                        } else {
                            len as i64
                        };
                        self.completed = saturating_sum(self.completed, counted);
                        self.stage = PassStage::Finished;
                        self.next = 0;
                    },
                    None => {
                        self.stage = PassStage::RemoteRecords;
                        self.next = 0;
                    },
                }
                true
            },
            _ => false,
        }
    }
}

/// How the deletion of a local file went.
#[derive(Debug, PartialEq, Eq)]
pub enum LocalDeletion {
    /// The file was deleted.
    Deleted,
    /// There was no such file.
    Missing,
    /// The file is still there; with the reason.
    Failed(String),
}

/// The error that a local deletion is reported with: none where the file
/// is gone, whether it was deleted now or was missing already, and the
/// reason where it is still there. Only without an error is the baseline
/// record of the path dropped.
pub fn local_deletion_error(deletion: LocalDeletion) -> (out: Option<String>)
    ensures
        out == match deletion {
            LocalDeletion::Failed(reason) => Some(reason),
            _ => None::<String>,
        },
{
    match deletion {
        LocalDeletion::Failed(reason) => Some(reason),
        _ => None,
    }
}

/// After a batch of remote deletions that failed, the pass asks for no
/// baseline record to be dropped: its next step is its end, with the error
/// of the batch among its errors.
pub proof fn lemma_failed_batch_keeps_the_records(
    before: SyncPass,
    after: SyncPass,
    error: Seq<char>,
    cancelled: bool,
    paused: bool,
)
    requires
        before.batch_failed(after, error),
    ensures
        after.wf(),
        after.step_kind(cancelled, paused) == StepKind::Finished,
        after.errors@.len() > 0,
{
    reveal_with_fuel(settle, 6);
}

/// How many paths a rule watches for local changes: one for its root,
/// none where it carries changes from the remote side only.
pub open spec fn watched_files(direction: SyncDirection) -> i64 {
    if direction == SyncDirection::RemoteToLocal {
        0
    } else {
        1
    }
}

/// How many paths a rule with this direction watches.
pub fn files_watching(direction: SyncDirection) -> (out: i64)
    ensures
        out == watched_files(direction),
{
    match direction {
        SyncDirection::RemoteToLocal => 0,
        _ => 1,
    }
}

/// The text under which the failure of an entry is recorded.
pub fn failure_message(stage: PassStage, path: &str, error: &str) -> (out: String)
    ensures
        out@ == failure_text(stage, path@, error@),
{
    match stage {
        PassStage::Uploads => concat2(concat3("Upload ", path, ": ").as_str(), error),
        PassStage::Downloads => concat2(concat3("Download ", path, ": ").as_str(), error),
        PassStage::DeleteLocal => concat2(concat3("Delete local ", path, ": ").as_str(), error),
        _ => concat2("Delete remote: ", error),
    }
}

} // verus!
