//! The scheduler as a mathematical state and its transitions.

use crate::jobs::types::{is_terminal, percentage_of, JobInfoView, JobStatus, JobTask, JobType};
use vstd::prelude::*;

verus! {

/// How many jobs the live table holds at most.
pub const JOB_TABLE_MAX: usize = 200;

/// How many jobs the persisted history holds at most.
pub const JOB_HISTORY_MAX: usize = 100;

/// The error text of a cancelled job.
pub open spec fn cancelled_text() -> Seq<char> {
    "Job cancelled"@
}

/// The state of the scheduler: the concurrency limit, the queue of tasks
/// that wait, the identities of the running jobs, the table of jobs, their
/// display order with the newest first, and the cancellation flags.
pub struct JobModel {
    pub concurrency: int,
    pub queue: Seq<JobTask>,
    pub running: Seq<Seq<char>>,
    pub jobs: Seq<JobInfoView>,
    pub order: Seq<Seq<char>>,
    pub flags: Seq<(Seq<char>, bool)>,
}

/// The position of the job `id` in a table: the last one of that identity.
pub open spec fn job_index(jobs: Seq<JobInfoView>, id: Seq<char>) -> Option<int>
    decreases jobs.len(),
{
    if jobs.len() == 0 {
        None
    } else if jobs.last().id == id {
        Some(jobs.len() - 1)
    } else {
        job_index(jobs.drop_last(), id)
    }
}

/// The table with `info` in the place of the job of its identity, or at
/// the end where there is none.
pub open spec fn put_job(jobs: Seq<JobInfoView>, info: JobInfoView) -> Seq<JobInfoView> {
    match job_index(jobs, info.id) {
        Some(i) => jobs.update(i, info),
        None => jobs.push(info),
    }
}

/// The table without the job `id`.
pub open spec fn drop_job(jobs: Seq<JobInfoView>, id: Seq<char>) -> Seq<JobInfoView> {
    match job_index(jobs, id) {
        Some(i) => jobs.remove(i),
        None => jobs,
    }
}

/// The identities of `ids` other than `id`, in order.
pub open spec fn without(ids: Seq<Seq<char>>, id: Seq<char>) -> Seq<Seq<char>>
    decreases ids.len(),
{
    if ids.len() == 0 {
        ids
    } else if ids.last() == id {
        without(ids.drop_last(), id)
    } else {
        without(ids.drop_last(), id).push(ids.last())
    }
}

/// The flags of the jobs other than `id`, in order.
pub open spec fn flags_without(flags: Seq<(Seq<char>, bool)>, id: Seq<char>) -> Seq<
    (Seq<char>, bool),
>
    decreases flags.len(),
{
    if flags.len() == 0 {
        flags
    } else if flags.last().0 == id {
        flags_without(flags.drop_last(), id)
    } else {
        flags_without(flags.drop_last(), id).push(flags.last())
    }
}

/// Whether the job `id` has a cancellation flag.
pub open spec fn has_flag(flags: Seq<(Seq<char>, bool)>, id: Seq<char>) -> bool {
    exists|i: int| 0 <= i < flags.len() && (#[trigger] flags[i]).0 == id
}

/// Whether the job `id` has been asked to stop.
pub open spec fn is_flagged(flags: Seq<(Seq<char>, bool)>, id: Seq<char>) -> bool {
    exists|i: int| 0 <= i < flags.len() && (#[trigger] flags[i]).0 == id && flags[i].1
}

/// The flags with a fresh, lowered flag for `id` in the place of any
/// earlier one.
pub open spec fn put_flag(flags: Seq<(Seq<char>, bool)>, id: Seq<char>) -> Seq<(Seq<char>, bool)> {
    flags_without(flags, id).push((id, false))
}

/// The flags with a lowered flag for `id` unless it has one.
pub open spec fn with_flag(flags: Seq<(Seq<char>, bool)>, id: Seq<char>) -> Seq<(Seq<char>, bool)> {
    if has_flag(flags, id) {
        flags
    } else {
        flags.push((id, false))
    }
}

/// The flags with every flag of `id` raised.
pub open spec fn raise_flag(flags: Seq<(Seq<char>, bool)>, id: Seq<char>) -> Seq<
    (Seq<char>, bool),
> {
    Seq::new(
        flags.len(),
        |i: int|
            if flags[i].0 == id {
                (id, true)
            } else {
                flags[i]
            },
    )
}

/// Whether a task of the job `id` waits in the queue.
pub open spec fn is_queued(queue: Seq<JobTask>, id: Seq<char>) -> bool {
    exists|i: int| 0 <= i < queue.len() && (#[trigger] queue[i]).id@ == id
}

/// Whether the first task of the job `id` stands at position `i`.
pub open spec fn is_first_task(queue: Seq<JobTask>, id: Seq<char>, i: int) -> bool {
    &&& 0 <= i < queue.len()
    &&& queue[i].id@ == id
    &&& forall|k: int| 0 <= k < i ==> (#[trigger] queue[k]).id@ != id
}

/// The position of the first task of the job `id`.
pub open spec fn first_task(queue: Seq<JobTask>, id: Seq<char>) -> int {
    choose|i: int| is_first_task(queue, id, i)
}

/// The identities of the tasks, in order.
pub open spec fn task_ids(queue: Seq<JobTask>) -> Seq<Seq<char>> {
    Seq::new(queue.len(), |i: int| queue[i].id@)
}

/// A new job: queued, nothing transferred, with a total that is not
/// negative.
pub open spec fn new_job(
    id: Seq<char>,
    job_type: JobType,
    file_name: Seq<char>,
    description: Seq<char>,
    bytes_total: i64,
    created_at: Seq<char>,
) -> JobInfoView {
    JobInfoView {
        id,
        job_type,
        status: JobStatus::Queued,
        file_name,
        description,
        bytes_transferred: 0,
        bytes_total: if bytes_total < 0 {
            0
        } else {
            bytes_total
        },
        percentage: 0,
        speed: 0,
        eta: 0,
        error: None,
        created_at,
        started_at: None,
        completed_at: None,
    }
}

/// The job as it starts at `now`.
pub open spec fn job_started(job: JobInfoView, now: Seq<char>) -> JobInfoView {
    JobInfoView { status: JobStatus::Running, started_at: Some(now), speed: 0, eta: 0, ..job }
}

pub open spec fn at_least_zero(value: i64) -> i64 {
    if value < 0 {
        0
    } else {
        value
    }
}

/// The job after a progress report: counters below zero count as zero, a
/// negative total leaves the known total, and the percentage follows.
pub open spec fn job_progressed(
    job: JobInfoView,
    transferred: i64,
    total: i64,
    speed: i64,
    eta: i64,
) -> JobInfoView {
    let bytes_total = if total >= 0 {
        total
    } else {
        job.bytes_total
    };
    JobInfoView {
        bytes_transferred: at_least_zero(transferred),
        bytes_total,
        percentage: percentage_of(at_least_zero(transferred) as int, bytes_total as int) as i64,
        speed: at_least_zero(speed),
        eta: at_least_zero(eta),
        ..job
    }
}

/// The job at its end. A byte count that comes with the outcome replaces
/// the counter, and the total where none was known; a completed job with a
/// known total counts as wholly transferred.
pub open spec fn job_finished(
    job: JobInfoView,
    status: JobStatus,
    error: Option<Seq<char>>,
    bytes: Option<i64>,
    now: Seq<char>,
) -> JobInfoView {
    let counted = match bytes {
        Some(t) => {
            let total = if job.bytes_total <= 0 {
                at_least_zero(t)
            } else {
                job.bytes_total
            };
            JobInfoView {
                bytes_transferred: at_least_zero(t),
                bytes_total: total,
                percentage: percentage_of(at_least_zero(t) as int, total as int) as i64,
                ..job
            }
        },
        None => job,
    };
    let settled = if status == JobStatus::Completed && counted.bytes_total > 0 {
        JobInfoView { bytes_transferred: counted.bytes_total, percentage: 100, ..counted }
    } else {
        counted
    };
    JobInfoView { status, error, completed_at: Some(now), ..settled }
}

/// The job as cancelled at `now` before it started.
pub open spec fn job_cancelled(job: JobInfoView, now: Seq<char>) -> JobInfoView {
    JobInfoView {
        status: JobStatus::Cancelled,
        error: Some(cancelled_text()),
        completed_at: Some(now),
        ..job
    }
}

/// The table after the jobs `dropped` have left it, but for those that
/// run.
pub open spec fn pruned(jobs: Seq<JobInfoView>, dropped: Seq<Seq<char>>, running: Seq<Seq<char>>)
    -> Seq<JobInfoView>
    decreases dropped.len(),
{
    if dropped.len() == 0 {
        jobs
    } else {
        let rest = pruned(jobs, dropped.drop_last(), running);
        if running.contains(dropped.last()) {
            rest
        } else {
            drop_job(rest, dropped.last())
        }
    }
}

/// The table after the jobs `ids` have started at `now`.
pub open spec fn mark_started(jobs: Seq<JobInfoView>, ids: Seq<Seq<char>>, now: Seq<char>) -> Seq<
    JobInfoView,
>
    decreases ids.len(),
{
    if ids.len() == 0 {
        jobs
    } else {
        let rest = mark_started(jobs, ids.drop_last(), now);
        match job_index(rest, ids.last()) {
            Some(i) => rest.update(i, job_started(rest[i], now)),
            None => rest,
        }
    }
}

/// The flags after each of the jobs `ids` got one unless it had one.
pub open spec fn with_flags(flags: Seq<(Seq<char>, bool)>, ids: Seq<Seq<char>>) -> Seq<
    (Seq<char>, bool),
>
    decreases ids.len(),
{
    if ids.len() == 0 {
        flags
    } else {
        with_flag(with_flags(flags, ids.drop_last()), ids.last())
    }
}

/// Whether a job may be cleared: it is terminal and does not run.
pub open spec fn clearable(job: JobInfoView, running: Seq<Seq<char>>) -> bool {
    is_terminal(job.status) && !running.contains(job.id)
}

/// Whether the table holds a job `id` that may be cleared.
pub open spec fn clears(jobs: Seq<JobInfoView>, running: Seq<Seq<char>>, id: Seq<char>) -> bool {
    exists|i: int| 0 <= i < jobs.len() && (#[trigger] jobs[i]).id == id && clearable(jobs[i], running)
}

/// The jobs that stay when the table is cleared, in order.
pub open spec fn jobs_kept(jobs: Seq<JobInfoView>, running: Seq<Seq<char>>) -> Seq<JobInfoView>
    decreases jobs.len(),
{
    if jobs.len() == 0 {
        jobs
    } else if clearable(jobs.last(), running) {
        jobs_kept(jobs.drop_last(), running)
    } else {
        jobs_kept(jobs.drop_last(), running).push(jobs.last())
    }
}

/// The flags that stay when the jobs of `cleared` are cleared.
pub open spec fn flags_kept(
    flags: Seq<(Seq<char>, bool)>,
    cleared: Seq<JobInfoView>,
    running: Seq<Seq<char>>,
) -> Seq<(Seq<char>, bool)>
    decreases flags.len(),
{
    if flags.len() == 0 {
        flags
    } else if clears(cleared, running, flags.last().0) {
        flags_kept(flags.drop_last(), cleared, running)
    } else {
        flags_kept(flags.drop_last(), cleared, running).push(flags.last())
    }
}

/// The tasks that stay when the jobs of `cleared` are cleared.
pub open spec fn queue_kept(queue: Seq<JobTask>, cleared: Seq<JobInfoView>, running: Seq<Seq<char>>)
    -> Seq<JobTask>
    decreases queue.len(),
{
    if queue.len() == 0 {
        queue
    } else if clears(cleared, running, queue.last().id@) {
        queue_kept(queue.drop_last(), cleared, running)
    } else {
        queue_kept(queue.drop_last(), cleared, running).push(queue.last())
    }
}

/// The display order without the identities that neither the table holds
/// nor run.
pub open spec fn order_kept(order: Seq<Seq<char>>, jobs: Seq<JobInfoView>, running: Seq<Seq<char>>)
    -> Seq<Seq<char>>
    decreases order.len(),
{
    if order.len() == 0 {
        order
    } else if job_index(jobs, order.last()) is Some || running.contains(order.last()) {
        order_kept(order.drop_last(), jobs, running).push(order.last())
    } else {
        order_kept(order.drop_last(), jobs, running)
    }
}

/// The terminal jobs of the display order that do not run, in that order.
pub open spec fn history_of(order: Seq<Seq<char>>, jobs: Seq<JobInfoView>, running: Seq<Seq<char>>)
    -> Seq<JobInfoView>
    decreases order.len(),
{
    if order.len() == 0 {
        Seq::empty()
    } else {
        let rest = history_of(order.drop_last(), jobs, running);
        match job_index(jobs, order.last()) {
            Some(i) => if clearable(jobs[i], running) {
                rest.push(jobs[i])
            } else {
                rest
            },
            None => rest,
        }
    }
}

/// The jobs of the display order that the table holds, in that order.
pub open spec fn jobs_in_order(order: Seq<Seq<char>>, jobs: Seq<JobInfoView>) -> Seq<JobInfoView>
    decreases order.len(),
{
    if order.len() == 0 {
        Seq::empty()
    } else {
        let rest = jobs_in_order(order.drop_last(), jobs);
        match job_index(jobs, order.last()) {
            Some(i) => rest.push(jobs[i]),
            None => rest,
        }
    }
}

/// The jobs of the table that the display order does not name, in the
/// order of the table.
pub open spec fn jobs_unordered(jobs: Seq<JobInfoView>, order: Seq<Seq<char>>) -> Seq<JobInfoView>
    decreases jobs.len(),
{
    if jobs.len() == 0 {
        jobs
    } else if order.contains(jobs.last().id) {
        jobs_unordered(jobs.drop_last(), order)
    } else {
        jobs_unordered(jobs.drop_last(), order).push(jobs.last())
    }
}

/// The terminal jobs of a persisted history, in order.
pub open spec fn terminal_jobs(history: Seq<JobInfoView>) -> Seq<JobInfoView>
    decreases history.len(),
{
    if history.len() == 0 {
        history
    } else if is_terminal(history.last().status) {
        terminal_jobs(history.drop_last()).push(history.last())
    } else {
        terminal_jobs(history.drop_last())
    }
}

/// At most the first `limit` entries.
pub open spec fn capped<T>(entries: Seq<T>, limit: int) -> Seq<T> {
    if entries.len() > limit {
        entries.take(limit)
    } else {
        entries
    }
}

/// The table and the display order after the jobs of a persisted history
/// came in: terminal jobs that the table does not hold yet are appended to
/// both.
pub open spec fn hydrated_with(
    jobs: Seq<JobInfoView>,
    order: Seq<Seq<char>>,
    history: Seq<JobInfoView>,
) -> (Seq<JobInfoView>, Seq<Seq<char>>)
    decreases history.len(),
{
    if history.len() == 0 {
        (jobs, order)
    } else {
        let (j, o) = hydrated_with(jobs, order, history.drop_last());
        let job = history.last();
        if is_terminal(job.status) && job_index(j, job.id) is None {
            (j.push(job), o.push(job.id))
        } else {
            (j, o)
        }
    }
}

/// The limit that a requested concurrency comes to: between 1 and 10.
pub open spec fn clamped_concurrency(requested: int) -> int {
    if requested < 1 {
        1
    } else if requested > 10 {
        10
    } else {
        requested
    }
}

impl JobModel {
    /// The scheduler at its start: three jobs at a time, nothing known.
    pub open spec fn initial() -> JobModel {
        JobModel {
            concurrency: 3,
            queue: Seq::empty(),
            running: Seq::empty(),
            jobs: Seq::empty(),
            order: Seq::empty(),
            flags: Seq::empty(),
        }
    }

    /// The job `id` of the table.
    pub open spec fn job(self, id: Seq<char>) -> Option<JobInfoView> {
        match job_index(self.jobs, id) {
            Some(i) => Some(self.jobs[i]),
            None => None,
        }
    }

    /// Whether the job `id` runs.
    pub open spec fn runs(self, id: Seq<char>) -> bool {
        self.running.contains(id)
    }

    /// Whether the job `id` waits in the queue.
    pub open spec fn waits(self, id: Seq<char>) -> bool {
        is_queued(self.queue, id)
    }

    /// Whether the scheduler has the identity `id` anywhere.
    pub open spec fn knows(self, id: Seq<char>) -> bool {
        ||| self.waits(id)
        ||| self.runs(id)
        ||| job_index(self.jobs, id) is Some
        ||| self.order.contains(id)
        ||| has_flag(self.flags, id)
    }

    /// The invariant of the scheduler: the limit is between 1 and 10; no
    /// identity runs twice, waits twice, or waits while it runs; the table
    /// holds one job per identity; and a job that is marked as running runs.
    pub open spec fn wf(self) -> bool {
        &&& 1 <= self.concurrency <= 10
        &&& self.running.no_duplicates()
        &&& task_ids(self.queue).no_duplicates()
        &&& forall|i: int| 0 <= i < self.queue.len() ==> !self.running.contains(#[trigger] self.queue[i].id@)
        &&& forall|i: int, j: int|
            0 <= i < j < self.jobs.len() ==> (#[trigger] self.jobs[i]).id != (#[trigger] self.jobs[j]).id
        &&& forall|i: int|
            0 <= i < self.jobs.len() && (#[trigger] self.jobs[i]).status == JobStatus::Running
                ==> self.running.contains(self.jobs[i].id)
    }

    /// No more jobs run than the limit allows.
    pub open spec fn within_limit(self) -> bool {
        self.running.len() <= self.concurrency
    }

    /// The state after the job `info` was enqueued with its task. The job
    /// comes first in the display order; what the order holds beyond its
    /// limit leaves it, and leaves the table unless it runs.
    pub open spec fn enqueued(self, info: JobInfoView, task: JobTask) -> JobModel {
        let order = seq![info.id] + without(self.order, info.id);
        JobModel {
            concurrency: self.concurrency,
            queue: self.queue.push(task),
            running: self.running,
            jobs: pruned(
                put_job(self.jobs, info),
                order.skip(capped(order, JOB_TABLE_MAX as int).len() as int),
                self.running,
            ),
            order: capped(order, JOB_TABLE_MAX as int),
            flags: put_flag(self.flags, info.id),
        }
    }

    /// How many waiting tasks can start: as many as the limit leaves room
    /// for, and no more than wait.
    pub open spec fn start_count(self) -> int {
        let free = self.concurrency - self.running.len();
        if free <= 0 {
            0
        } else if free < self.queue.len() {
            free
        } else {
            self.queue.len() as int
        }
    }

    /// The state after the first `n` waiting tasks started at `now`.
    pub open spec fn started_first(self, n: int, now: Seq<char>) -> JobModel {
        let ids = task_ids(self.queue.take(n));
        JobModel {
            concurrency: self.concurrency,
            queue: self.queue.skip(n),
            running: self.running + ids,
            jobs: mark_started(self.jobs, ids, now),
            order: self.order,
            flags: with_flags(self.flags, ids),
        }
    }

    /// The state after as many waiting tasks as the limit allows started at
    /// `now`, in the order of the queue.
    pub open spec fn started(self, now: Seq<char>) -> JobModel {
        self.started_first(self.start_count(), now)
    }

    /// The state after a progress report for the job `id`.
    pub open spec fn progressed(
        self,
        id: Seq<char>,
        transferred: i64,
        total: i64,
        speed: i64,
        eta: i64,
    ) -> JobModel {
        match job_index(self.jobs, id) {
            Some(i) => JobModel {
                jobs: self.jobs.update(
                    i,
                    job_progressed(self.jobs[i], transferred, total, speed, eta),
                ),
                ..self
            },
            None => self,
        }
    }

    /// The state after the job `id` came to its end: it no longer runs and
    /// has no flag.
    pub open spec fn finished(
        self,
        id: Seq<char>,
        status: JobStatus,
        error: Option<Seq<char>>,
        bytes: Option<i64>,
        now: Seq<char>,
    ) -> JobModel {
        JobModel {
            running: without(self.running, id),
            flags: flags_without(self.flags, id),
            jobs: match job_index(self.jobs, id) {
                Some(i) => self.jobs.update(i, job_finished(self.jobs[i], status, error, bytes, now)),
                None => self.jobs,
            },
            ..self
        }
    }

    /// The state after a request to cancel the job `id`. A job that waits
    /// leaves the queue and is marked as cancelled; otherwise the job's flag,
    /// if it has one, is raised.
    pub open spec fn cancelled(self, id: Seq<char>, now: Seq<char>) -> JobModel {
        if self.waits(id) {
            JobModel {
                queue: self.queue.remove(first_task(self.queue, id)),
                jobs: match job_index(self.jobs, id) {
                    Some(i) => self.jobs.update(i, job_cancelled(self.jobs[i], now)),
                    None => self.jobs,
                },
                flags: flags_without(self.flags, id),
                ..self
            }
        } else {
            JobModel { flags: raise_flag(self.flags, id), ..self }
        }
    }

    /// The state with the limit set to what `requested` comes to.
    pub open spec fn with_concurrency(self, requested: int) -> JobModel {
        JobModel { concurrency: clamped_concurrency(requested), ..self }
    }

    /// The state after the terminal jobs that do not run were cleared.
    pub open spec fn cleared(self) -> JobModel {
        let jobs = jobs_kept(self.jobs, self.running);
        JobModel {
            concurrency: self.concurrency,
            queue: queue_kept(self.queue, self.jobs, self.running),
            running: self.running,
            jobs,
            order: order_kept(self.order, jobs, self.running),
            flags: flags_kept(self.flags, self.jobs, self.running),
        }
    }

    /// The state after the jobs of a persisted history came in.
    pub open spec fn hydrated(self, history: Seq<JobInfoView>) -> JobModel {
        let (jobs, order) = hydrated_with(self.jobs, self.order, history);
        JobModel { jobs, order: capped(order, JOB_HISTORY_MAX as int), ..self }
    }

    /// The jobs as they are listed: those of the display order first, then
    /// the rest of the table.
    pub open spec fn listed(self) -> Seq<JobInfoView> {
        jobs_in_order(self.order, self.jobs) + jobs_unordered(self.jobs, self.order)
    }

    /// The history that is persisted: the terminal jobs of the display
    /// order that do not run, up to the limit of the history.
    pub open spec fn history(self) -> Seq<JobInfoView> {
        capped(history_of(self.order, self.jobs, self.running), JOB_HISTORY_MAX as int)
    }
}

} // verus!
