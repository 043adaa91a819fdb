//! The long-running side of a rule: the turns of its loop, the controls by
//! which a rule is stopped, paused and woken, and the status that listeners
//! see.

use crate::sync::diff::FolderSyncDiffEntryRecord;
use crate::sync::pass::{
    files_watching, watched_files, FolderSyncProgress, StepKind, SyncPass,
};
use crate::sync::types::{direction_of, FolderSyncRuleRecord, SyncDirection};
use crate::text::{concat2, concat3, decimal, decimal_digits, str_before, str_eq, str_lt};
use vstd::prelude::*;

verus! {

/// The shortest wait between two passes, in milliseconds.
pub const POLL_INTERVAL_MIN_MS: i64 = 250;

/// The longest wait between two passes, in milliseconds: a day.
pub const POLL_INTERVAL_MAX_MS: i64 = 86_400_000;

/// The live state of a rule.
#[derive(Clone, Copy, Debug, PartialEq, Eq, Structural)]
pub enum SyncStatusTag {
    Idle,
    Watching,
    Syncing,
    Paused,
    Error,
}

impl SyncStatusTag {
    pub open spec fn text(self) -> Seq<char> {
        match self {
            SyncStatusTag::Idle => "idle"@,
            SyncStatusTag::Watching => "watching"@,
            SyncStatusTag::Syncing => "syncing"@,
            SyncStatusTag::Paused => "paused"@,
            SyncStatusTag::Error => "error"@,
        }
    }

    /// The state's name in events.
    pub fn as_str(&self) -> (out: &'static str)
        ensures
            out@ == self.text(),
    {
        match self {
            SyncStatusTag::Idle => "idle",
            SyncStatusTag::Watching => "watching",
            SyncStatusTag::Syncing => "syncing",
            SyncStatusTag::Paused => "paused",
            SyncStatusTag::Error => "error",
        }
    }
}

/// The wait that a rule's poll interval comes to: between a quarter of a
/// second and a day.
pub open spec fn clamped_wait(poll_interval_ms: i64) -> u64 {
    if poll_interval_ms < POLL_INTERVAL_MIN_MS {
        POLL_INTERVAL_MIN_MS as u64
    } else if poll_interval_ms > POLL_INTERVAL_MAX_MS {
        POLL_INTERVAL_MAX_MS as u64
    } else {
        poll_interval_ms as u64
    }
}

/// How long the loop of a rule waits for a wake before its next turn, in
/// milliseconds.
pub fn poll_wait_ms(poll_interval_ms: i64) -> (out: u64)
    ensures
        out == clamped_wait(poll_interval_ms),
        250 <= out <= 86_400_000,
{
    if poll_interval_ms < POLL_INTERVAL_MIN_MS {
        POLL_INTERVAL_MIN_MS as u64
    } else if poll_interval_ms > POLL_INTERVAL_MAX_MS {
        POLL_INTERVAL_MAX_MS as u64
    } else {
        poll_interval_ms as u64
    }
}

/// Why the loop of a rule ends.
#[derive(Clone, Copy, Debug, PartialEq, Eq, Structural)]
pub enum LoopExit {
    /// The rule was stopped.
    Cancelled,
    /// The rule is gone: this is reported as an error.
    RuleMissing,
    /// The rule is disabled.
    Disabled,
}

/// What the loop of a rule does in one turn.
#[derive(Clone, Copy, Debug, PartialEq, Eq, Structural)]
pub enum LoopTurn {
    /// Leave the loop.
    Exit(LoopExit),
    /// Report the rule as paused and wait for a wake.
    Rest { files_watching: i64, wait_ms: u64 },
    /// Run a pass.
    Run { files_watching: i64 },
}

/// The turn of a loop, from the rule's stop flag, the rule as it is stored
/// now, and the rule's pause flag.
pub open spec fn turn_of(cancelled: bool, rule: Option<FolderSyncRuleRecord>, paused: bool)
    -> LoopTurn {
    if cancelled {
        LoopTurn::Exit(LoopExit::Cancelled)
    } else {
        match rule {
            None => LoopTurn::Exit(LoopExit::RuleMissing),
            Some(r) => if !r.enabled {
                LoopTurn::Exit(LoopExit::Disabled)
            } else if paused {
                LoopTurn::Rest {
                    files_watching: watched_files(direction_of(r.direction@)),
                    wait_ms: clamped_wait(r.poll_interval_ms),
                }
            } else {
                LoopTurn::Run { files_watching: watched_files(direction_of(r.direction@)) }
            },
        }
    }
}

/// Decides the next turn of the loop of a rule. A stopped rule, a rule
/// that is gone and a disabled rule end the loop; a paused rule rests; any
/// other rule runs a pass.
pub fn loop_turn(cancelled: bool, rule: Option<&FolderSyncRuleRecord>, paused: bool) -> (out:
    LoopTurn)
    ensures
        out == turn_of(cancelled, crate::sync::resolve::owned(rule), paused),
{
    if cancelled {
        return LoopTurn::Exit(LoopExit::Cancelled);
    }
    match rule {
        None => LoopTurn::Exit(LoopExit::RuleMissing),
        Some(r) => {
            if !r.enabled {
                LoopTurn::Exit(LoopExit::Disabled)
            } else {
                let watching = files_watching(SyncDirection::parse(r.direction.as_str()));
                if paused {
                    LoopTurn::Rest {
                        files_watching: watching,
                        wait_ms: poll_wait_ms(r.poll_interval_ms),
                    }
                } else {
                    LoopTurn::Run { files_watching: watching }
                }
            }
        },
    }
}

/// How a pass came back to the loop.
#[derive(Debug, PartialEq, Eq)]
pub enum PassResult {
    /// The pass ran to its end, or rested because the rule was paused.
    Completed,
    /// The pass was given up because the rule was stopped.
    Cancelled,
    /// The pass failed as a whole.
    Failed(String),
}

/// What the loop does after a pass.
#[derive(Debug, PartialEq, Eq)]
pub enum AfterPass {
    /// Leave the loop.
    Exit,
    /// Report the status and wait for a wake. A failure is also recorded on
    /// the rule and reported as an error.
    Wait { status: SyncStatusTag, failure: Option<String>, wait_ms: u64 },
}

/// Decides what follows a pass. After a pass that came to its end the
/// rule is reported as paused if it is paused by now, else as watching;
/// after a pass that failed as a whole it is reported as in error, with the
/// failure; in both cases the loop waits for a wake, at most for the poll
/// interval. A pass that was given up ends the loop.
pub fn after_pass(result: PassResult, paused: bool, poll_interval_ms: i64) -> (out: AfterPass)
    ensures
        match result {
            PassResult::Completed => out == (AfterPass::Wait {
                status: if paused {
                    SyncStatusTag::Paused
                } else {
                    SyncStatusTag::Watching
                },
                failure: None,
                wait_ms: clamped_wait(poll_interval_ms),
            }),
            PassResult::Cancelled => out == AfterPass::Exit,
            PassResult::Failed(error) => out == (AfterPass::Wait {
                status: SyncStatusTag::Error,
                failure: Some(error),
                wait_ms: clamped_wait(poll_interval_ms),
            }),
        },
{
    match result {
        PassResult::Completed => AfterPass::Wait {
            status: if paused {
                SyncStatusTag::Paused
            } else {
                SyncStatusTag::Watching
            },
            failure: None,
            wait_ms: poll_wait_ms(poll_interval_ms),
        },
        PassResult::Cancelled => AfterPass::Exit,
        PassResult::Failed(error) => AfterPass::Wait {
            status: SyncStatusTag::Error,
            failure: Some(error),
            wait_ms: poll_wait_ms(poll_interval_ms),
        },
    }
}

/// The status that a rule is left with when its loop has ended: idle,
/// watching nothing, while the rule exists; none once the rule is gone.
pub fn status_after_exit(rule_exists: bool) -> (out: Option<SyncStatusTag>)
    ensures
        out == if rule_exists {
            Some(SyncStatusTag::Idle)
        } else {
            None
        },
{
    if rule_exists {
        Some(SyncStatusTag::Idle)
    } else {
        None
    }
}

/// The live state of one rule, as listeners see it.
#[derive(Debug, PartialEq, Eq)]
pub struct FolderSyncStateRecord {
    pub rule_id: String,
    pub status: SyncStatusTag,
    pub files_watching: i64,
    pub last_change: Option<String>,
    pub current_file: Option<String>,
    pub progress: Option<FolderSyncProgress>,
}

impl Clone for FolderSyncStateRecord {
    fn clone(&self) -> (out: Self)
        ensures
            out == *self,
    {
        FolderSyncStateRecord {
            rule_id: self.rule_id.clone(),
            status: self.status,
            files_watching: self.files_watching,
            last_change: self.last_change.clone(),
            current_file: self.current_file.clone(),
            progress: self.progress,
        }
    }
}

/// The status event of a rule.
#[derive(Debug, PartialEq, Eq)]
pub struct FolderSyncStatusEventPayload {
    pub rule_id: String,
    pub status: SyncStatusTag,
    pub files_watching: i64,
    pub last_change: Option<String>,
    pub current_file: Option<String>,
    pub progress: Option<FolderSyncProgress>,
}

/// The status event that reports a rule's live state: the state as it is.
pub fn folder_sync_status_payload(status: &FolderSyncStateRecord) -> (out:
    FolderSyncStatusEventPayload)
    ensures
        out.rule_id == status.rule_id,
        out.status == status.status,
        out.files_watching == status.files_watching,
        out.last_change == status.last_change,
        out.current_file == status.current_file,
        out.progress == status.progress,
{
    FolderSyncStatusEventPayload {
        rule_id: status.rule_id.clone(),
        status: status.status,
        files_watching: status.files_watching,
        last_change: status.last_change.clone(),
        current_file: status.current_file.clone(),
        progress: status.progress,
    }
}

/// The conflict event of one path.
#[derive(Debug, PartialEq, Eq)]
pub struct FolderSyncConflictEventPayload {
    pub rule_id: String,
    pub relative_path: String,
    pub local_size: i64,
    pub local_mtime: i64,
    pub remote_size: i64,
    pub remote_last_modified: String,
}

/// The conflict event of a diff entry: what is unknown of a side counts as
/// zero, and an unknown remote modification time as `now`.
pub fn conflict_event_payload(rule_id: &str, conflict: &FolderSyncDiffEntryRecord, now: &str)
    -> (out: FolderSyncConflictEventPayload)
    ensures
        out.rule_id@ == rule_id@,
        out.relative_path == conflict.relative_path,
        out.local_size == crate::sync::pass::or_zero(conflict.local_size),
        out.local_mtime == crate::sync::pass::or_zero(conflict.local_mtime),
        out.remote_size == crate::sync::pass::or_zero(conflict.remote_size),
        out.remote_last_modified@ == match conflict.remote_last_modified {
            Some(t) => t@,
            None => now@,
        },
{
    FolderSyncConflictEventPayload {
        rule_id: rule_id.to_owned(),
        relative_path: conflict.relative_path.clone(),
        local_size: match conflict.local_size {
            Some(v) => v,
            None => 0,
        },
        local_mtime: match conflict.local_mtime {
            Some(v) => v,
            None => 0,
        },
        remote_size: match conflict.remote_size {
            Some(v) => v,
            None => 0,
        },
        remote_last_modified: match &conflict.remote_last_modified {
            Some(t) => t.clone(),
            None => now.to_owned(),
        },
    }
}

/// The handle by which the loop of a rule is stopped and paused. Each loop
/// has its own token: a loop whose control is gone is stopped.
#[derive(Debug, PartialEq, Eq)]
pub struct FolderSyncTaskControl {
    pub rule_id: String,
    pub token: u64,
    pub cancel: bool,
    pub pause: bool,
}

/// The controls of the running loops and the live state of the rules.
#[derive(Debug, PartialEq, Eq)]
pub struct FolderSyncRuntime {
    pub tasks: Vec<FolderSyncTaskControl>,
    pub statuses: Vec<FolderSyncStateRecord>,
    pub next_token: u64,
}

/// A loop to wake.
#[derive(Debug, PartialEq, Eq)]
pub struct Wake {
    pub rule_id: String,
    pub token: u64,
}

/// What a request to synchronise a rule now comes to.
#[derive(Clone, Copy, Debug, PartialEq, Eq, Structural)]
pub enum TriggerAction {
    /// The rule's loop runs: wake it.
    Wake { token: u64 },
    /// The rule has no loop: start one.
    Start,
}

/// Whether a control of the rule `rule_id` is among `tasks`.
pub open spec fn has_task(tasks: Seq<FolderSyncTaskControl>, rule_id: Seq<char>) -> bool {
    exists|i: int| 0 <= i < tasks.len() && (#[trigger] tasks[i]).rule_id@ == rule_id
}

/// Whether the first control of the rule `rule_id` stands at `i`.
pub open spec fn is_first_control(tasks: Seq<FolderSyncTaskControl>, rule_id: Seq<char>, i: int)
    -> bool {
    &&& 0 <= i < tasks.len()
    &&& tasks[i].rule_id@ == rule_id
    &&& forall|k: int| 0 <= k < i ==> (#[trigger] tasks[k]).rule_id@ != rule_id
}

/// The controls of the rules other than `rule_id`, in order.
pub open spec fn tasks_without(tasks: Seq<FolderSyncTaskControl>, rule_id: Seq<char>) -> Seq<
    FolderSyncTaskControl,
>
    decreases tasks.len(),
{
    if tasks.len() == 0 {
        tasks
    } else if tasks.last().rule_id@ == rule_id {
        tasks_without(tasks.drop_last(), rule_id)
    } else {
        tasks_without(tasks.drop_last(), rule_id).push(tasks.last())
    }
}

/// The controls but the one of the loop `token` of the rule `rule_id`.
pub open spec fn tasks_without_loop(
    tasks: Seq<FolderSyncTaskControl>,
    rule_id: Seq<char>,
    token: u64,
) -> Seq<FolderSyncTaskControl>
    decreases tasks.len(),
{
    if tasks.len() == 0 {
        tasks
    } else if tasks.last().rule_id@ == rule_id && tasks.last().token == token {
        tasks_without_loop(tasks.drop_last(), rule_id, token)
    } else {
        tasks_without_loop(tasks.drop_last(), rule_id, token).push(tasks.last())
    }
}

/// Whether the loop `token` of the rule `rule_id` is stopped: its control
/// is gone, or the control's stop flag is up.
pub open spec fn loop_stopped(tasks: Seq<FolderSyncTaskControl>, rule_id: Seq<char>, token: u64)
    -> bool {
    forall|i: int|
        0 <= i < tasks.len() && (#[trigger] tasks[i]).rule_id@ == rule_id && tasks[i].token
            == token ==> tasks[i].cancel
}

/// Whether the loop `token` of the rule `rule_id` is paused.
pub open spec fn loop_paused(tasks: Seq<FolderSyncTaskControl>, rule_id: Seq<char>, token: u64)
    -> bool {
    exists|i: int|
        0 <= i < tasks.len() && (#[trigger] tasks[i]).rule_id@ == rule_id && tasks[i].token
            == token && tasks[i].pause
}

/// The statuses of the rules other than `rule_id`, in order.
pub open spec fn statuses_without(statuses: Seq<FolderSyncStateRecord>, rule_id: Seq<char>) -> Seq<
    FolderSyncStateRecord,
>
    decreases statuses.len(),
{
    if statuses.len() == 0 {
        statuses
    } else if statuses.last().rule_id@ == rule_id {
        statuses_without(statuses.drop_last(), rule_id)
    } else {
        statuses_without(statuses.drop_last(), rule_id).push(statuses.last())
    }
}

/// Whether the first status of the rule `rule_id` stands at `i`.
pub open spec fn is_first_status(statuses: Seq<FolderSyncStateRecord>, rule_id: Seq<char>, i: int)
    -> bool {
    &&& 0 <= i < statuses.len()
    &&& statuses[i].rule_id@ == rule_id
    &&& forall|k: int| 0 <= k < i ==> (#[trigger] statuses[k]).rule_id@ != rule_id
}

/// Whether a status of the rule `rule_id` is among `statuses`.
pub open spec fn has_status(statuses: Seq<FolderSyncStateRecord>, rule_id: Seq<char>) -> bool {
    exists|i: int| 0 <= i < statuses.len() && (#[trigger] statuses[i]).rule_id@ == rule_id
}

/// How many of the statuses have the tag `tag`.
pub open spec fn count_status(statuses: Seq<FolderSyncStateRecord>, tag: SyncStatusTag) -> nat
    decreases statuses.len(),
{
    if statuses.len() == 0 {
        0
    } else if statuses.last().status == tag {
        count_status(statuses.drop_last(), tag) + 1
    } else {
        count_status(statuses.drop_last(), tag)
    }
}

/// The pause flags of all controls set to `pause`.
pub open spec fn all_paused(tasks: Seq<FolderSyncTaskControl>, pause: bool) -> Seq<
    FolderSyncTaskControl,
> {
    Seq::new(
        tasks.len(),
        |i: int|
            FolderSyncTaskControl {
                rule_id: tasks[i].rule_id,
                token: tasks[i].token,
                cancel: tasks[i].cancel,
                pause,
            },
    )
}

/// Whether `wakes` names every control of `tasks`, one for one.
pub open spec fn wakes_all(wakes: Seq<Wake>, tasks: Seq<FolderSyncTaskControl>) -> bool {
    &&& wakes.len() == tasks.len()
    &&& forall|i: int|
        0 <= i < wakes.len() ==> (#[trigger] wakes[i]).rule_id == tasks[i].rule_id && wakes[i].token
            == tasks[i].token
}

fn find_status(statuses: &Vec<FolderSyncStateRecord>, rule_id: &str) -> (out: Option<usize>)
    ensures
        match out {
            Some(i) => is_first_status(statuses@, rule_id@, i as int),
            None => !has_status(statuses@, rule_id@),
        },
{
    let mut i: usize = 0;
    while i < statuses.len()
        invariant
            0 <= i <= statuses.len(),
            forall|k: int| 0 <= k < i ==> (#[trigger] statuses@[k]).rule_id@ != rule_id@,
        decreases statuses.len() - i,
    {
        if str_eq(statuses[i].rule_id.as_str(), rule_id) {
            return Some(i);
        }
        i += 1;
    }
    None
}

fn find_control(tasks: &Vec<FolderSyncTaskControl>, rule_id: &str) -> (out: Option<usize>)
    ensures
        match out {
            Some(i) => is_first_control(tasks@, rule_id@, i as int),
            None => !has_task(tasks@, rule_id@),
        },
{
    let mut i: usize = 0;
    while i < tasks.len()
        invariant
            0 <= i <= tasks.len(),
            forall|k: int| 0 <= k < i ==> (#[trigger] tasks@[k]).rule_id@ != rule_id@,
        decreases tasks.len() - i,
    {
        if str_eq(tasks[i].rule_id.as_str(), rule_id) {
            return Some(i);
        }
        i += 1;
    }
    None
}

impl Default for FolderSyncRuntime {
    fn default() -> (out: FolderSyncRuntime)
        ensures
            out.tasks@.len() == 0,
            out.statuses@.len() == 0,
            out.next_token == 0,
    {
        FolderSyncRuntime::new()
    }
}

impl FolderSyncRuntime {
    /// A runtime without loops and without statuses.
    pub fn new() -> (out: FolderSyncRuntime)
        ensures
            out.tasks@.len() == 0,
            out.statuses@.len() == 0,
            out.next_token == 0,
    {
        FolderSyncRuntime { tasks: Vec::new(), statuses: Vec::new(), next_token: 0 }
    }

    /// Sets the live state of a rule, in the place of its first status or
    /// at the end where it has none; a negative number of watched paths
    /// counts as zero. Returns the state for listeners.
    pub fn set_folder_sync_status(
        &mut self,
        rule_id: &str,
        status: SyncStatusTag,
        files_watching: i64,
        last_change: Option<String>,
        current_file: Option<String>,
        progress: Option<FolderSyncProgress>,
    ) -> (out: FolderSyncStateRecord)
        ensures
            out.rule_id@ == rule_id@,
            out.status == status,
            out.files_watching == if files_watching < 0 {
                0
            } else {
                files_watching
            },
            out.last_change == last_change,
            out.current_file == current_file,
            out.progress == progress,
            final(self).tasks == old(self).tasks,
            final(self).next_token == old(self).next_token,
            has_status(old(self).statuses@, rule_id@) ==> exists|i: int|
                is_first_status(old(self).statuses@, rule_id@, i) && final(self).statuses@ == old(
                    self,
                ).statuses@.update(i, out),
            !has_status(old(self).statuses@, rule_id@) ==> final(self).statuses@ == old(
                self,
            ).statuses@.push(out),
    {
        let record = FolderSyncStateRecord {
            rule_id: rule_id.to_owned(),
            status,
            files_watching: if files_watching < 0 {
                0
            } else {
                files_watching
            },
            last_change,
            current_file,
            progress,
        };
        let copy = record.clone();
        match find_status(&self.statuses, rule_id) {
            Some(i) => {
                self.statuses.set(i, record);
            },
            None => {
                self.statuses.push(record);
            },
        }
        copy
    }

    /// Notes a local change of a rule at `now`: the rule's status, watching
    /// where it had none, gets the time of the change and the number of
    /// watched paths, a negative number counting as zero. Returns the state
    /// for listeners.
    pub fn mark_folder_sync_last_change(&mut self, rule_id: &str, files_watching: i64, now: &str)
        -> (out: FolderSyncStateRecord)
        ensures
            out.rule_id@ == rule_id@,
            out.files_watching == if files_watching < 0 {
                0
            } else {
                files_watching
            },
            out.last_change matches Some(t) && t@ == now@,
            final(self).tasks == old(self).tasks,
            final(self).next_token == old(self).next_token,
            has_status(old(self).statuses@, rule_id@) ==> exists|i: int|
                {
                    &&& is_first_status(old(self).statuses@, rule_id@, i)
                    &&& final(self).statuses@ == old(self).statuses@.update(i, out)
                    &&& out.status == old(self).statuses@[i].status
                    &&& out.current_file == old(self).statuses@[i].current_file
                    &&& out.progress == old(self).statuses@[i].progress
                },
            !has_status(old(self).statuses@, rule_id@) ==> {
                &&& final(self).statuses@ == old(self).statuses@.push(out)
                &&& out.status == SyncStatusTag::Watching
                &&& out.current_file is None
                &&& out.progress is None
            },
    {
        let watching = if files_watching < 0 {
            0
        } else {
            files_watching
        };
        match find_status(&self.statuses, rule_id) {
            Some(i) => {
                let mut record = self.statuses[i].clone();
                record.last_change = Some(now.to_owned());
                record.files_watching = watching;
                let copy = record.clone();
                self.statuses.set(i, record);
                copy
            },
            None => {
                let record = FolderSyncStateRecord {
                    rule_id: rule_id.to_owned(),
                    status: SyncStatusTag::Watching,
                    files_watching: watching,
                    last_change: Some(now.to_owned()),
                    current_file: None,
                    progress: None,
                };
                let copy = record.clone();
                self.statuses.push(record);
                copy
            },
        }
    }

    /// Takes the statuses of a rule away.
    pub fn remove_status(&mut self, rule_id: &str)
        ensures
            final(self).statuses@ == statuses_without(old(self).statuses@, rule_id@),
            final(self).tasks == old(self).tasks,
            final(self).next_token == old(self).next_token,
    {
        let ghost before = self.statuses@;
        let mut out: Vec<FolderSyncStateRecord> = Vec::new();
        let mut i: usize = 0;
        assert(before.take(0) =~= Seq::<FolderSyncStateRecord>::empty());
        while i < self.statuses.len()
            invariant
                0 <= i <= self.statuses.len(),
                before == self.statuses@,
                self.tasks == old(self).tasks,
                self.next_token == old(self).next_token,
                out@ == statuses_without(before.take(i as int), rule_id@),
            decreases self.statuses.len() - i,
        {
            assert(before.take(i + 1).drop_last() =~= before.take(i as int));
            if !str_eq(self.statuses[i].rule_id.as_str(), rule_id) {
                out.push(self.statuses[i].clone());
            }
            i += 1;
        }
        assert(before.take(i as int) =~= before);
        self.statuses = out;
    }

    /// The live states of all rules, sorted by rule: each state once, none
    /// before a state of a rule that sorts before its own.
    pub fn folder_sync_statuses_snapshot(&self) -> (out: Vec<FolderSyncStateRecord>)
        ensures
            out@.len() == self.statuses@.len(),
            forall|i: int, j: int|
                0 <= i < j < out@.len() ==> !str_before(
                    (#[trigger] out@[j]).rule_id@,
                    (#[trigger] out@[i]).rule_id@,
                ),
            forall|i: int| 0 <= i < out@.len() ==> self.statuses@.contains(#[trigger] out@[i]),
            forall|i: int|
                0 <= i < self.statuses@.len() ==> out@.contains(#[trigger] self.statuses@[i]),
    {
        let mut out: Vec<FolderSyncStateRecord> = Vec::new();
        let mut n: usize = 0;
        while n < self.statuses.len()
            invariant
                0 <= n <= self.statuses.len(),
                out@.len() == n,
                forall|i: int, j: int|
                    0 <= i < j < out@.len() ==> !str_before(
                        (#[trigger] out@[j]).rule_id@,
                        (#[trigger] out@[i]).rule_id@,
                    ),
                forall|i: int| 0 <= i < out@.len() ==> self.statuses@.contains(#[trigger] out@[i]),
                forall|i: int| 0 <= i < n ==> out@.contains(#[trigger] self.statuses@[i]),
            decreases self.statuses.len() - n,
        {
            let record = self.statuses[n].clone();
            let ghost before = out@;
            let mut at: usize = 0;
            while at < out.len() && !str_lt(
                record.rule_id.as_str(),
                out[at].rule_id.as_str(),
            )
                invariant
                    0 <= at <= out.len(),
                    out@ == before,
                    forall|k: int|
                        0 <= k < at ==> !str_before(record.rule_id@, (#[trigger] out@[k]).rule_id@),
                decreases out.len() - at,
            {
                at += 1;
            }
            proof {
                assert forall|k: int| at <= k < before.len() implies !str_before(
                    (#[trigger] before[k]).rule_id@,
                    record.rule_id@,
                ) by {
                    crate::text::lemma_str_before_order(
                        record.rule_id@,
                        before[at as int].rule_id@,
                        before[k].rule_id@,
                    );
                    crate::text::lemma_str_before_order(
                        before[k].rule_id@,
                        record.rule_id@,
                        before[at as int].rule_id@,
                    );
                    if k > at {
                        assert(!str_before(before[k].rule_id@, before[at as int].rule_id@));
                    }
                }
            }
            out.insert(at, record);
            proof {
                assert forall|i: int, j: int| 0 <= i < j < out@.len() implies !str_before(
                    (#[trigger] out@[j]).rule_id@,
                    (#[trigger] out@[i]).rule_id@,
                ) by {
                    if j < at {
                        assert(!str_before(before[j].rule_id@, before[i].rule_id@));
                    } else if j == at {
                        assert(out@[i] == before[i]);
                    } else if i < at {
                        assert(!str_before(before[j - 1].rule_id@, before[i].rule_id@));
                    } else if i == at {
                        assert(out@[j] == before[j - 1]);
                    } else {
                        assert(!str_before(before[j - 1].rule_id@, before[i - 1].rule_id@));
                    }
                }
                assert forall|i: int| 0 <= i < out@.len() implies self.statuses@.contains(
                    #[trigger] out@[i],
                ) by {
                    if i < at {
                        assert(out@[i] == before[i]);
                    } else if i == at {
                        assert(self.statuses@[n as int] == out@[i]);
                    } else {
                        assert(out@[i] == before[i - 1]);
                    }
                }
                assert forall|i: int| 0 <= i < n + 1 implies out@.contains(
                    #[trigger] self.statuses@[i],
                ) by {
                    if i < n {
                        assert(before.contains(self.statuses@[i]));
                        let k = choose|k: int| 0 <= k < before.len() && before[k] == self.statuses@[i];
                        if k < at {
                            assert(out@[k] == before[k]);
                        } else {
                            assert(out@[k + 1] == before[k]);
                        }
                    } else {
                        assert(out@[at as int] == self.statuses@[i]);
                    }
                }
            }
            n += 1;
        }
        out
    }

    /// How many rules are syncing, watching, paused and in error.
    pub fn folder_sync_status_counts(&self) -> (out: (usize, usize, usize, usize))
        ensures
            out.0 == count_status(self.statuses@, SyncStatusTag::Syncing),
            out.1 == count_status(self.statuses@, SyncStatusTag::Watching),
            out.2 == count_status(self.statuses@, SyncStatusTag::Paused),
            out.3 == count_status(self.statuses@, SyncStatusTag::Error),
    {
        let mut syncing: usize = 0;
        let mut watching: usize = 0;
        let mut paused: usize = 0;
        let mut errors: usize = 0;
        let mut i: usize = 0;
        let ghost all = self.statuses@;
        assert(all.take(0) =~= Seq::<FolderSyncStateRecord>::empty());
        while i < self.statuses.len()
            invariant
                0 <= i <= self.statuses.len(),
                all == self.statuses@,
                syncing == count_status(all.take(i as int), SyncStatusTag::Syncing),
                watching == count_status(all.take(i as int), SyncStatusTag::Watching),
                paused == count_status(all.take(i as int), SyncStatusTag::Paused),
                errors == count_status(all.take(i as int), SyncStatusTag::Error),
                syncing <= i,
                watching <= i,
                paused <= i,
                errors <= i,
            decreases self.statuses.len() - i,
        {
            assert(all.take(i + 1).drop_last() =~= all.take(i as int));
            match self.statuses[i].status {
                SyncStatusTag::Syncing => {
                    syncing += 1;
                },
                SyncStatusTag::Watching => {
                    watching += 1;
                },
                SyncStatusTag::Paused => {
                    paused += 1;
                },
                SyncStatusTag::Error => {
                    errors += 1;
                },
                SyncStatusTag::Idle => {},
            }
            i += 1;
        }
        assert(all.take(i as int) =~= all);
        (syncing, watching, paused, errors)
    }

    /// Whether any loop runs.
    pub fn folder_sync_has_active_tasks(&self) -> (out: bool)
        ensures
            out == (self.tasks@.len() > 0),
    {
        self.tasks.len() > 0
    }

    /// Takes the controls of a rule away: its loops are stopped thereby.
    /// Returns the loops to wake, so that they see it at once.
    pub fn stop_folder_sync_rule(&mut self, rule_id: &str) -> (out: Vec<Wake>)
        ensures
            final(self).tasks@ == tasks_without(old(self).tasks@, rule_id@),
            final(self).statuses == old(self).statuses,
            final(self).next_token == old(self).next_token,
            forall|i: int|
                0 <= i < old(self).tasks@.len() && (#[trigger] old(self).tasks@[i]).rule_id@
                    == rule_id@ ==> exists|k: int|
                    0 <= k < out@.len() && (#[trigger] out@[k]).token == old(self).tasks@[i].token,
            forall|k: int| 0 <= k < out@.len() ==> (#[trigger] out@[k]).rule_id@ == rule_id@,
    {
        let ghost before = self.tasks@;
        let mut kept: Vec<FolderSyncTaskControl> = Vec::new();
        let mut wakes: Vec<Wake> = Vec::new();
        let mut i: usize = 0;
        assert(before.take(0) =~= Seq::<FolderSyncTaskControl>::empty());
        while i < self.tasks.len()
            invariant
                0 <= i <= self.tasks.len(),
                before == self.tasks@,
                self.statuses == old(self).statuses,
                self.next_token == old(self).next_token,
                kept@ == tasks_without(before.take(i as int), rule_id@),
                forall|m: int|
                    0 <= m < i && (#[trigger] before[m]).rule_id@ == rule_id@ ==> exists|k: int|
                        0 <= k < wakes@.len() && (#[trigger] wakes@[k]).token == before[m].token,
                forall|k: int| 0 <= k < wakes@.len() ==> (#[trigger] wakes@[k]).rule_id@ == rule_id@,
            decreases self.tasks.len() - i,
        {
            assert(before.take(i + 1).drop_last() =~= before.take(i as int));
            let ghost wakes_before = wakes@;
            if str_eq(self.tasks[i].rule_id.as_str(), rule_id) {
                wakes.push(Wake { rule_id: self.tasks[i].rule_id.clone(), token: self.tasks[i].token });
                proof {
                    assert(wakes@[wakes@.len() - 1].token == before[i as int].token);
                    assert forall|m: int|
                        0 <= m < i + 1 && (#[trigger] before[m]).rule_id@
                            == rule_id@ implies exists|k: int|
                        0 <= k < wakes@.len() && (#[trigger] wakes@[k]).token
                            == before[m].token by {
                        if m < i {
                            let k = choose|k: int|
                                0 <= k < wakes_before.len() && (#[trigger] wakes_before[k]).token
                                    == before[m].token;
                            assert(wakes@[k].token == before[m].token);
                        }
                    }
                }
            } else {
                kept.push(
                    FolderSyncTaskControl {
                        rule_id: self.tasks[i].rule_id.clone(),
                        token: self.tasks[i].token,
                        cancel: self.tasks[i].cancel,
                        pause: self.tasks[i].pause,
                    },
                );
            }
            i += 1;
        }
        assert(before.take(i as int) =~= before);
        self.tasks = kept;
        wakes
    }

    /// Starts the loop of a rule anew: the controls that the rule had are
    /// taken away, which stops their loops, and a fresh control, neither
    /// stopped nor paused, takes their place. Returns the token of the new
    /// loop and the loops to wake, or nothing, with the runtime unchanged,
    /// when the tokens are used up.
    pub fn begin_rule(&mut self, rule_id: &str) -> (out: Option<(u64, Vec<Wake>)>)
        ensures
            match out {
                Some((token, wakes)) => {
                    &&& token == old(self).next_token
                    &&& final(self).next_token == token + 1
                    &&& final(self).statuses == old(self).statuses
                    &&& final(self).tasks@.len() == tasks_without(
                        old(self).tasks@,
                        rule_id@,
                    ).len() + 1
                    &&& final(self).tasks@.drop_last() == tasks_without(old(self).tasks@, rule_id@)
                    &&& final(self).tasks@.last().rule_id@ == rule_id@
                    &&& final(self).tasks@.last().token == token
                    &&& !final(self).tasks@.last().cancel
                    &&& !final(self).tasks@.last().pause
                    &&& forall|k: int|
                        0 <= k < wakes@.len() ==> (#[trigger] wakes@[k]).rule_id@ == rule_id@
                },
                None => old(self).next_token == u64::MAX && *final(self) == *old(self),
            },
    {
        if self.next_token == u64::MAX {
            return None;
        }
        let token = self.next_token;
        let wakes = self.stop_folder_sync_rule(rule_id);
        let ghost kept = self.tasks@;
        self.tasks.push(
            FolderSyncTaskControl { rule_id: rule_id.to_owned(), token, cancel: false, pause: false },
        );
        assert(self.tasks@.drop_last() =~= kept);
        self.next_token = token + 1;
        Some((token, wakes))
    }

    /// Takes the control of the loop `token` of a rule away when the loop
    /// has ended; the control of a newer loop of the rule stays.
    pub fn end_loop(&mut self, rule_id: &str, token: u64)
        ensures
            final(self).tasks@ == tasks_without_loop(old(self).tasks@, rule_id@, token),
            final(self).statuses == old(self).statuses,
            final(self).next_token == old(self).next_token,
    {
        let ghost before = self.tasks@;
        let mut kept: Vec<FolderSyncTaskControl> = Vec::new();
        let mut i: usize = 0;
        assert(before.take(0) =~= Seq::<FolderSyncTaskControl>::empty());
        while i < self.tasks.len()
            invariant
                0 <= i <= self.tasks.len(),
                before == self.tasks@,
                self.statuses == old(self).statuses,
                self.next_token == old(self).next_token,
                kept@ == tasks_without_loop(before.take(i as int), rule_id@, token),
            decreases self.tasks.len() - i,
        {
            assert(before.take(i + 1).drop_last() =~= before.take(i as int));
            if !(str_eq(self.tasks[i].rule_id.as_str(), rule_id) && self.tasks[i].token == token) {
                kept.push(
                    FolderSyncTaskControl {
                        rule_id: self.tasks[i].rule_id.clone(),
                        token: self.tasks[i].token,
                        cancel: self.tasks[i].cancel,
                        pause: self.tasks[i].pause,
                    },
                );
            }
            i += 1;
        }
        assert(before.take(i as int) =~= before);
        self.tasks = kept;
    }

    /// Whether the loop `token` of a rule is stopped.
    pub fn is_loop_cancelled(&self, rule_id: &str, token: u64) -> (out: bool)
        ensures
            out == loop_stopped(self.tasks@, rule_id@, token),
    {
        let mut i: usize = 0;
        while i < self.tasks.len()
            invariant
                0 <= i <= self.tasks.len(),
                forall|k: int|
                    0 <= k < i && (#[trigger] self.tasks@[k]).rule_id@ == rule_id@
                        && self.tasks@[k].token == token ==> self.tasks@[k].cancel,
            decreases self.tasks.len() - i,
        {
            if self.tasks[i].token == token && !self.tasks[i].cancel && str_eq(
                self.tasks[i].rule_id.as_str(),
                rule_id,
            ) {
                return false;
            }
            i += 1;
        }
        true
    }

    /// Whether the loop `token` of a rule is paused.
    pub fn is_loop_paused(&self, rule_id: &str, token: u64) -> (out: bool)
        ensures
            out == loop_paused(self.tasks@, rule_id@, token),
    {
        let mut i: usize = 0;
        while i < self.tasks.len()
            invariant
                0 <= i <= self.tasks.len(),
                forall|k: int|
                    0 <= k < i ==> !((#[trigger] self.tasks@[k]).rule_id@ == rule_id@
                        && self.tasks@[k].token == token && self.tasks@[k].pause),
            decreases self.tasks.len() - i,
        {
            if self.tasks[i].token == token && self.tasks[i].pause && str_eq(
                self.tasks[i].rule_id.as_str(),
                rule_id,
            ) {
                return true;
            }
            i += 1;
        }
        false
    }

    /// Sets the pause flag of every loop and returns all loops, to wake
    /// them.
    fn set_pause_all(&mut self, pause: bool) -> (out: Vec<Wake>)
        ensures
            final(self).tasks@ == all_paused(old(self).tasks@, pause),
            final(self).statuses == old(self).statuses,
            final(self).next_token == old(self).next_token,
            wakes_all(out@, old(self).tasks@),
    {
        let ghost before = self.tasks@;
        let mut tasks: Vec<FolderSyncTaskControl> = Vec::new();
        let mut wakes: Vec<Wake> = Vec::new();
        let mut i: usize = 0;
        while i < self.tasks.len()
            invariant
                0 <= i <= self.tasks.len(),
                before == self.tasks@,
                self.statuses == old(self).statuses,
                self.next_token == old(self).next_token,
                tasks@ == all_paused(before, pause).take(i as int),
                wakes_all(wakes@, before.take(i as int)),
            decreases self.tasks.len() - i,
        {
            tasks.push(
                FolderSyncTaskControl {
                    rule_id: self.tasks[i].rule_id.clone(),
                    token: self.tasks[i].token,
                    cancel: self.tasks[i].cancel,
                    pause,
                },
            );
            wakes.push(Wake { rule_id: self.tasks[i].rule_id.clone(), token: self.tasks[i].token });
            i += 1;
            assert(tasks@ =~= all_paused(before, pause).take(i as int));
        }
        assert(tasks@ =~= all_paused(before, pause));
        assert(before.take(i as int) =~= before);
        self.tasks = tasks;
        wakes
    }

    /// Pauses every loop, and returns all loops to wake, so that each sees
    /// it at once.
    pub fn pause_all_folder_sync_rules(&mut self) -> (out: Vec<Wake>)
        ensures
            final(self).tasks@ == all_paused(old(self).tasks@, true),
            final(self).statuses == old(self).statuses,
            final(self).next_token == old(self).next_token,
            wakes_all(out@, old(self).tasks@),
    {
        self.set_pause_all(true)
    }

    /// Resumes every loop, and returns all loops to wake, so that none
    /// waits out its poll interval.
    pub fn resume_all_folder_sync_rules(&mut self) -> (out: Vec<Wake>)
        ensures
            final(self).tasks@ == all_paused(old(self).tasks@, false),
            final(self).statuses == old(self).statuses,
            final(self).next_token == old(self).next_token,
            wakes_all(out@, old(self).tasks@),
    {
        self.set_pause_all(false)
    }

    /// The rules that have a loop, in the order of their controls.
    pub fn active_rule_ids(&self) -> (out: Vec<String>)
        ensures
            out@.len() == self.tasks@.len(),
            forall|i: int| 0 <= i < out@.len() ==> (#[trigger] out@[i]) == self.tasks@[i].rule_id,
    {
        let mut out: Vec<String> = Vec::new();
        let mut i: usize = 0;
        while i < self.tasks.len()
            invariant
                0 <= i <= self.tasks.len(),
                out@.len() == i,
                forall|k: int| 0 <= k < i ==> (#[trigger] out@[k]) == self.tasks@[k].rule_id,
            decreases self.tasks.len() - i,
        {
            out.push(self.tasks[i].rule_id.clone());
            i += 1;
        }
        out
    }

    /// What a request to synchronise a rule now comes to: the loop of the
    /// rule is woken where it has one, and a loop is started where it has
    /// none.
    pub fn trigger_folder_sync_now(&self, rule_id: &str) -> (out: TriggerAction)
        ensures
            match out {
                TriggerAction::Wake { token } => exists|i: int|
                    is_first_control(self.tasks@, rule_id@, i) && self.tasks@[i].token == token,
                TriggerAction::Start => !has_task(self.tasks@, rule_id@),
            },
    {
        match find_control(&self.tasks, rule_id) {
            Some(i) => TriggerAction::Wake { token: self.tasks[i].token },
            None => TriggerAction::Start,
        }
    }
}

/// A pause takes hold before the next entry of a pass and shows in the
/// rule's status. While a pass stands before an upload, a download, a local
/// deletion or the batch of remote deletions, a paused rule that is not
/// stopped makes it rest there; when the pass comes back, the loop reports
/// the rule as paused; and in its next turn a loop of a paused rule rests
/// instead of running a pass.
pub proof fn lemma_pause_takes_hold(pass: SyncPass, rule: FolderSyncRuleRecord)
    requires
        pass.gated(),
        rule.enabled,
    ensures
        pass.step_kind(false, true) == StepKind::Paused,
        turn_of(false, Some(rule), true) is Rest,
        !(turn_of(false, Some(rule), false) is Rest),
{
}

/// A resume reaches every loop: after it no loop is paused, and each loop
/// is among those that are woken.
pub proof fn lemma_resume_wakes_every_loop(
    before: Seq<FolderSyncTaskControl>,
    wakes: Seq<Wake>,
    i: int,
)
    requires
        wakes_all(wakes, before),
        0 <= i < before.len(),
    ensures
        !loop_paused(all_paused(before, false), before[i].rule_id@, before[i].token),
        wakes[i].rule_id == before[i].rule_id,
        wakes[i].token == before[i].token,
{
}

/// What is said of the rules in one line: how many are syncing, or else
/// how many are watching, or else how many are paused, and behind that
/// how many are in error.
pub open spec fn status_line(syncing: nat, watching: nat, paused: nat, errors: nat) -> Seq<
    char,
> {
    let head = if syncing > 0 {
        "Syncing "@ + decimal_digits(syncing) + " rule(s)..."@
    } else if watching > 0 {
        "Watching "@ + decimal_digits(watching) + " rule(s)"@
    } else if paused > 0 {
        "Paused ("@ + decimal_digits(paused) + " rule(s))"@
    } else {
        "No active sync rules"@
    };
    if errors > 0 {
        head + " \u{2022} "@ + decimal_digits(errors) + " error(s)"@
    } else {
        head
    }
}

/// The line that says how the rules stand, from the number of rules that
/// are syncing, watching, paused and in error.
pub fn folder_sync_status_line(counts: (usize, usize, usize, usize)) -> (out: String)
    ensures
        out@ == status_line(counts.0 as nat, counts.1 as nat, counts.2 as nat, counts.3 as nat),
{
    let head: String = if counts.0 > 0 {
        let n = decimal(counts.0 as u64);
        concat3("Syncing ", n.as_str(), " rule(s)...")
    } else if counts.1 > 0 {
        let n = decimal(counts.1 as u64);
        concat3("Watching ", n.as_str(), " rule(s)")
    } else if counts.2 > 0 {
        let n = decimal(counts.2 as u64);
        concat3("Paused (", n.as_str(), " rule(s))")
    } else {
        "No active sync rules".to_owned()
    };
    if counts.3 > 0 {
        let n = decimal(counts.3 as u64);
        let tail = concat3(" \u{2022} ", n.as_str(), " error(s)");
        let out = concat2(head.as_str(), tail.as_str());
        assert(head@ + (" \u{2022} "@ + n@ + " error(s)"@) =~= head@ + " \u{2022} "@ + n@
            + " error(s)"@);
        out
    } else {
        head
    }
}

} // verus!
