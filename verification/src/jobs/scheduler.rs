//! The scheduler's state and its operations.

use crate::jobs::laws::{
    lemma_cancelled_keeps_wf, lemma_cleared_keeps_wf, lemma_enqueued_keeps_wf,
    lemma_finished_keeps_wf, lemma_hydrated_keeps_wf, lemma_job_index, lemma_job_index_same_ids,
    lemma_progressed_keeps_wf, lemma_started_keeps_wf,
};
use crate::jobs::model::{
    capped, clearable, clears, first_task, flags_kept,
    flags_without, has_flag, history_of, hydrated_with, is_first_task, is_flagged, is_queued,
    job_cancelled, job_finished, job_index, job_progressed, job_started, jobs_in_order, jobs_kept,
    jobs_unordered, mark_started, new_job, order_kept, pruned, put_flag, put_job, queue_kept,
    raise_flag, task_ids, terminal_jobs, with_flags, without, JobModel,
    JOB_HISTORY_MAX, JOB_TABLE_MAX,
};
use crate::jobs::types::{
    calculate_percentage, is_terminal, is_terminal_job_status, opt_view, CancelFlag, JobInfo,
    JobInfoView, JobStatus, JobTask, JobTaskKind, JobType,
};
use crate::text::{char_len, str_eq, views, with_char};
use vstd::prelude::*;

verus! {

/// The scheduler: the limit, the queue, the running jobs, the table, the
/// display order and the cancellation flags.
#[derive(Debug, PartialEq, Eq)]
pub struct JobRuntime {
    pub concurrency: u8,
    pub queue: Vec<JobTask>,
    pub running: Vec<String>,
    pub jobs: Vec<JobInfo>,
    pub order: Vec<String>,
    pub cancel_flags: Vec<CancelFlag>,
}

/// The jobs of a list as plain values.
pub open spec fn job_views(jobs: Seq<JobInfo>) -> Seq<JobInfoView> {
    Seq::new(jobs.len(), |i: int| jobs[i]@)
}

/// The flags of a list as plain values.
pub open spec fn flag_views(flags: Seq<CancelFlag>) -> Seq<(Seq<char>, bool)> {
    Seq::new(flags.len(), |i: int| (flags[i].id@, flags[i].cancelled))
}

impl View for JobRuntime {
    type V = JobModel;

    open spec fn view(&self) -> JobModel {
        JobModel {
            concurrency: self.concurrency as int,
            queue: self.queue@,
            running: views(self.running@),
            jobs: job_views(self.jobs@),
            order: views(self.order@),
            flags: flag_views(self.cancel_flags@),
        }
    }
}

impl Default for JobRuntime {
    fn default() -> (out: JobRuntime)
        ensures
            out@ == JobModel::initial(),
            out@.wf(),
            out@.within_limit(),
    {
        JobRuntime::new()
    }
}

/// A task that has just started, with its job as the table now holds it.
#[derive(Debug, PartialEq, Eq)]
pub struct StartedJob {
    pub task: JobTask,
    pub snapshot: Option<JobInfo>,
}

/// What a request to cancel came to.
#[derive(Debug, PartialEq, Eq)]
pub enum CancelOutcome {
    /// The job waited: it left the queue, and the table's job, if there is
    /// one, is now cancelled.
    Dequeued(Option<JobInfo>),
    /// The job has a flag, which is now raised.
    Signalled,
    /// The scheduler has nothing to cancel under this identity.
    Unknown,
}

/// The position of the job `id` in the table.
pub fn find_job(jobs: &Vec<JobInfo>, id: &str) -> (out: Option<usize>)
    ensures
        match job_index(job_views(jobs@), id@) {
            Some(i) => out == Some(i as usize) && 0 <= i < jobs.len(),
            None => out is None,
        },
{
    let ghost all = job_views(jobs@);
    let mut k: usize = jobs.len();
    assert(all.take(k as int) =~= all);
    while k > 0
        invariant
            0 <= k <= jobs.len(),
            all == job_views(jobs@),
            job_index(all, id@) == job_index(all.take(k as int), id@),
        decreases k,
    {
        if str_eq(jobs[k - 1].id.as_str(), id) {
            return Some(k - 1);
        }
        assert(all.take(k as int).drop_last() =~= all.take(k - 1));
        k -= 1;
    }
    None
}

/// Whether the list holds the identity.
pub fn contains_id(ids: &Vec<String>, id: &str) -> (out: bool)
    ensures
        out == views(ids@).contains(id@),
{
    let mut i: usize = 0;
    while i < ids.len()
        invariant
            0 <= i <= ids.len(),
            forall|k: int| 0 <= k < i ==> views(ids@)[k] != id@,
        decreases ids.len() - i,
    {
        if str_eq(ids[i].as_str(), id) {
            assert(views(ids@)[i as int] == id@);
            return true;
        }
        i += 1;
    }
    false
}

/// Takes the identity out of the list.
pub fn remove_id(ids: &mut Vec<String>, id: &str)
    ensures
        views(final(ids)@) == without(views(old(ids)@), id@),
{
    let ghost before = views(ids@);
    let mut out: Vec<String> = Vec::new();
    let mut i: usize = 0;
    assert(before.take(0) =~= Seq::<Seq<char>>::empty());
    while i < ids.len()
        invariant
            0 <= i <= ids.len(),
            before == views(ids@),
            views(out@) == without(before.take(i as int), id@),
        decreases ids.len() - i,
    {
        assert(before.take(i + 1).drop_last() =~= before.take(i as int));
        if !str_eq(ids[i].as_str(), id) {
            out.push(ids[i].clone());
            assert(views(out@) =~= without(before.take(i as int), id@).push(before[i as int]));
        }
        i += 1;
    }
    assert(before.take(i as int) =~= before);
    *ids = out;
}

/// Takes the flag of the job `id` away.
pub fn remove_flag(flags: &mut Vec<CancelFlag>, id: &str)
    ensures
        flag_views(final(flags)@) == flags_without(flag_views(old(flags)@), id@),
{
    let ghost before = flag_views(flags@);
    let mut out: Vec<CancelFlag> = Vec::new();
    let mut i: usize = 0;
    assert(before.take(0) =~= Seq::<(Seq<char>, bool)>::empty());
    while i < flags.len()
        invariant
            0 <= i <= flags.len(),
            before == flag_views(flags@),
            flag_views(out@) == flags_without(before.take(i as int), id@),
        decreases flags.len() - i,
    {
        assert(before.take(i + 1).drop_last() =~= before.take(i as int));
        if !str_eq(flags[i].id.as_str(), id) {
            out.push(CancelFlag { id: flags[i].id.clone(), cancelled: flags[i].cancelled });
            assert(flag_views(out@) =~= flags_without(before.take(i as int), id@).push(
                before[i as int],
            ));
        }
        i += 1;
    }
    assert(before.take(i as int) =~= before);
    *flags = out;
}

/// Whether the job `id` has a flag.
pub fn flag_exists(flags: &Vec<CancelFlag>, id: &str) -> (out: bool)
    ensures
        out == has_flag(flag_views(flags@), id@),
{
    let mut i: usize = 0;
    while i < flags.len()
        invariant
            0 <= i <= flags.len(),
            forall|k: int| 0 <= k < i ==> flag_views(flags@)[k].0 != id@,
        decreases flags.len() - i,
    {
        if str_eq(flags[i].id.as_str(), id) {
            assert(flag_views(flags@)[i as int].0 == id@);
            return true;
        }
        i += 1;
    }
    false
}

/// Whether the identities of the list are all different.
pub fn all_different(ids: &Vec<String>) -> (out: bool)
    ensures
        out == views(ids@).no_duplicates(),
{
    let mut i: usize = 0;
    while i < ids.len()
        invariant
            0 <= i <= ids.len(),
            forall|a: int, b: int|
                0 <= a < i && 0 <= b < ids.len() && a != b ==> views(ids@)[a] != views(ids@)[b],
        decreases ids.len() - i,
    {
        let mut j: usize = 0;
        while j < ids.len()
            invariant
                0 <= j <= ids.len(),
                i < ids.len(),
                forall|b: int| 0 <= b < j && b != i ==> views(ids@)[i as int] != views(ids@)[b],
            decreases ids.len() - j,
        {
            if j != i && str_eq(ids[i].as_str(), ids[j].as_str()) {
                assert(views(ids@)[i as int] == views(ids@)[j as int]);
                return false;
            }
            j += 1;
        }
        i += 1;
    }
    true
}

/// The position of the first waiting task of the job `id`.
pub fn find_task(queue: &Vec<JobTask>, id: &str) -> (out: Option<usize>)
    ensures
        match out {
            Some(i) => is_first_task(queue@, id@, i as int) && first_task(queue@, id@) == i,
            None => !is_queued(queue@, id@),
        },
{
    let mut i: usize = 0;
    while i < queue.len()
        invariant
            0 <= i <= queue.len(),
            forall|k: int| 0 <= k < i ==> (#[trigger] queue@[k]).id@ != id@,
        decreases queue.len() - i,
    {
        if str_eq(queue[i].id.as_str(), id) {
            assert(is_first_task(queue@, id@, i as int));
            return Some(i);
        }
        i += 1;
    }
    None
}

impl JobRuntime {
    /// A scheduler that runs three jobs at a time and knows none.
    pub fn new() -> (out: JobRuntime)
        ensures
            out@ == JobModel::initial(),
            out@.wf(),
            out@.within_limit(),
    {
        let out = JobRuntime {
            concurrency: 3,
            queue: Vec::new(),
            running: Vec::new(),
            jobs: Vec::new(),
            order: Vec::new(),
            cancel_flags: Vec::new(),
        };
        assert(out@.queue =~= JobModel::initial().queue);
        assert(out@.running =~= JobModel::initial().running);
        assert(out@.jobs =~= JobModel::initial().jobs);
        assert(out@.order =~= JobModel::initial().order);
        assert(out@.flags =~= JobModel::initial().flags);
        out
    }

    /// Whether the scheduler meets its invariant. Every operation keeps
    /// it; a caller that builds or changes a scheduler by hand can ask.
    pub fn is_well_formed(&self) -> (out: bool)
        ensures
            out == self@.wf(),
    {
        if self.concurrency < 1 || self.concurrency > 10 {
            return false;
        }
        if !all_different(&self.running) {
            return false;
        }
        let mut queue_ids: Vec<String> = Vec::new();
        let mut q: usize = 0;
        while q < self.queue.len()
            invariant
                0 <= q <= self.queue.len(),
                queue_ids@.len() == q,
                forall|k: int| 0 <= k < q ==> (#[trigger] queue_ids@[k])@ == self.queue@[k].id@,
                forall|k: int|
                    0 <= k < q ==> !views(self.running@).contains(
                        #[trigger] self.queue@[k].id@,
                    ),
            decreases self.queue.len() - q,
        {
            if contains_id(&self.running, self.queue[q].id.as_str()) {
                return false;
            }
            queue_ids.push(self.queue[q].id.clone());
            q += 1;
        }
        assert(views(queue_ids@) =~= task_ids(self.queue@));
        if !all_different(&queue_ids) {
            return false;
        }
        let mut job_ids: Vec<String> = Vec::new();
        let mut j: usize = 0;
        while j < self.jobs.len()
            invariant
                0 <= j <= self.jobs.len(),
                job_ids@.len() == j,
                forall|k: int| 0 <= k < j ==> (#[trigger] job_ids@[k])@ == self.jobs@[k].id@,
                forall|k: int|
                    0 <= k < j && (#[trigger] job_views(self.jobs@)[k]).status
                        == JobStatus::Running ==> views(self.running@).contains(
                        job_views(self.jobs@)[k].id,
                    ),
            decreases self.jobs.len() - j,
        {
            match self.jobs[j].status {
                JobStatus::Running => {
                    if !contains_id(&self.running, self.jobs[j].id.as_str()) {
                        assert(job_views(self.jobs@)[j as int].status == JobStatus::Running);
                        return false;
                    }
                },
                _ => {},
            }
            job_ids.push(self.jobs[j].id.clone());
            j += 1;
        }
        let unique = all_different(&job_ids);
        proof {
            let ids = views(job_ids@);
            let jobs = job_views(self.jobs@);
            assert forall|k: int| 0 <= k < ids.len() implies ids[k] == jobs[k].id by {}
            if unique {
                assert forall|a: int, b: int| 0 <= a < b < jobs.len() implies (
                #[trigger] jobs[a]).id != (#[trigger] jobs[b]).id by {
                    assert(ids[a] != ids[b]);
                }
            } else {
                let (a, b) = choose|a: int, b: int|
                    0 <= a < ids.len() && 0 <= b < ids.len() && a != b && ids[a] == ids[b];
                if a < b {
                    assert(jobs[a].id == jobs[b].id);
                } else {
                    assert(jobs[b].id == jobs[a].id);
                }
            }
        }
        unique
    }

    /// Whether the scheduler has the identity anywhere: in the queue, among
    /// the running jobs, in the table, in the display order or among the
    /// flags.
    pub fn knows(&self, id: &str) -> (out: bool)
        ensures
            out == self@.knows(id@),
    {
        find_task(&self.queue, id).is_some() || contains_id(&self.running, id) || find_job(
            &self.jobs,
            id,
        ).is_some() || contains_id(&self.order, id) || flag_exists(&self.cancel_flags, id)
    }

    /// Takes the job `id` out of the table.
    fn drop_job(&mut self, id: &str)
        ensures
            final(self)@ == (JobModel {
                jobs: crate::jobs::model::drop_job(old(self)@.jobs, id@),
                ..old(self)@
            }),
    {
        match find_job(&self.jobs, id) {
            Some(i) => {
                self.jobs.remove(i);
                assert(job_views(self.jobs@) =~= job_views(old(self).jobs@).remove(i as int));
            },
            None => {},
        }
    }

    /// Puts a new job with the given identity and time of creation into the
    /// table, at the head of the display order and at the end of the queue,
    /// with a lowered flag. Returns the job as it was queued.
    pub fn enqueue_job_with(
        &mut self,
        id: String,
        created_at: String,
        job_type: JobType,
        file_name: String,
        description: String,
        bytes_total: i64,
        kind: JobTaskKind,
    ) -> (out: JobInfo)
        requires
            old(self)@.wf(),
            !old(self)@.knows(id@),
        ensures
            out@ == new_job(id@, job_type, file_name@, description@, bytes_total, created_at@),
            out.id == id,
            out.created_at == created_at,
            final(self)@ == old(self)@.enqueued(out@, JobTask { id, created_at, kind }),
            final(self)@.wf(),
            old(self)@.within_limit() ==> final(self)@.within_limit(),
    {
        let info = JobInfo {
            id: id.clone(),
            job_type,
            status: JobStatus::Queued,
            file_name,
            description,
            bytes_transferred: 0,
            bytes_total: if bytes_total < 0 {
                0
            } else {
                bytes_total
            },
            percentage: 0,
            speed: 0,
            eta: 0,
            error: None,
            created_at: created_at.clone(),
            started_at: None,
            completed_at: None,
        };
        let task = JobTask { id: id.clone(), created_at, kind };
        let snapshot = info.clone();
        let ghost before = self@;
        let ghost full_order = seq![id@] + without(before.order, id@);
        proof {
            lemma_enqueued_keeps_wf(before, info@, task);
        }
        // the table
        match find_job(&self.jobs, id.as_str()) {
            Some(i) => {
                self.jobs.set(i, info);
                assert(job_views(self.jobs@) =~= put_job(before.jobs, snapshot@));
            },
            None => {
                self.jobs.push(info);
                assert(job_views(self.jobs@) =~= put_job(before.jobs, snapshot@));
            },
        }
        // the display order
        remove_id(&mut self.order, id.as_str());
        self.order.insert(0, id.clone());
        assert(views(self.order@) =~= full_order);
        if self.order.len() > JOB_TABLE_MAX {
            let dropped = self.order.split_off(JOB_TABLE_MAX);
            assert(views(self.order@) =~= full_order.take(JOB_TABLE_MAX as int));
            assert(views(dropped@) =~= full_order.skip(JOB_TABLE_MAX as int));
            let mut k: usize = 0;
            assert(views(dropped@).take(0) =~= Seq::<Seq<char>>::empty());
            while k < dropped.len()
                invariant
                    0 <= k <= dropped.len(),
                    self@ == (JobModel {
                        jobs: pruned(
                            put_job(before.jobs, snapshot@),
                            views(dropped@).take(k as int),
                            before.running,
                        ),
                        order: full_order.take(JOB_TABLE_MAX as int),
                        ..before
                    }),
                decreases dropped.len() - k,
            {
                assert(views(dropped@).take(k + 1).drop_last() =~= views(dropped@).take(k as int));
                if !contains_id(&self.running, dropped[k].as_str()) {
                    self.drop_job(dropped[k].as_str());
                }
                k += 1;
            }
            assert(views(dropped@).take(k as int) =~= views(dropped@));
        } else {
            assert(full_order.skip(full_order.len() as int) =~= Seq::<Seq<char>>::empty());
        }
        // the queue and the flag
        self.queue.push(task);
        remove_flag(&mut self.cancel_flags, id.as_str());
        self.cancel_flags.push(CancelFlag { id, cancelled: false });
        assert(flag_views(self.cancel_flags@) =~= put_flag(before.flags, snapshot.id@));
        assert(self@.queue =~= before.queue.push(task));
        snapshot
    }

    /// Starts waiting tasks, in the order of the queue, until as many jobs
    /// run as the limit allows or none waits. Each started job is marked as
    /// running since `now`, and gets a flag unless it has one. Returns the
    /// started tasks in the order in which they started.
    pub fn try_start_queued_jobs(&mut self, now: &str) -> (out: Vec<StartedJob>)
        requires
            old(self)@.wf(),
        ensures
            final(self)@ == old(self)@.started(now@),
            final(self)@.wf(),
            final(self)@.running.len() <= old(self)@.running.len() || final(self)@.within_limit(),
            old(self)@.within_limit() ==> final(self)@.within_limit(),
            out.len() == old(self)@.start_count(),
            forall|i: int|
                0 <= i < out.len() ==> (#[trigger] out@[i]).task == old(self)@.queue[i] && match (
                    out@[i].snapshot,
                    final(self)@.job(out@[i].task.id@),
                ) {
                    (Some(snapshot), Some(job)) => snapshot@ == job,
                    (None, None) => true,
                    _ => false,
                },
    {
        let ghost before = self@;
        let limit = self.concurrency as usize;
        let free: usize = if self.running.len() >= limit {
            0
        } else {
            limit - self.running.len()
        };
        let n: usize = if free < self.queue.len() {
            free
        } else {
            self.queue.len()
        };
        assert(n == before.start_count());
        proof {
            lemma_started_keeps_wf(before, n as int, now@);
        }
        let mut out: Vec<StartedJob> = Vec::new();
        let mut k: usize = 0;
        proof {
            assert(task_ids(before.queue.take(0)) =~= Seq::<Seq<char>>::empty());
            assert(before.queue.skip(0) =~= before.queue);
            assert(before.running + Seq::<Seq<char>>::empty() =~= before.running);
        }
        let ghost end = before.started_first(n as int, now@).jobs;
        while k < n
            invariant
                0 <= k <= n <= before.queue.len(),
                before.wf(),
                end == before.started_first(n as int, now@).jobs,
                self@ == before.started_first(k as int, now@),
                out.len() == k,
                forall|i: int|
                    0 <= i < k ==> (#[trigger] out@[i]).task == before.queue[i] && match (
                        out@[i].snapshot,
                        job_index(end, out@[i].task.id@),
                    ) {
                        (Some(snapshot), Some(j)) => 0 <= j < end.len() && snapshot@ == end[j],
                        (None, None) => true,
                        _ => false,
                    },
            decreases n - k,
        {
            let ghost mid = self@;
            let ghost ids = task_ids(before.queue.take(k as int));
            let ghost next_ids = task_ids(before.queue.take(k + 1));
            assert(mid == before.started_first(k as int, now@));
            let task = self.queue.remove(0);
            proof {
                assert(task == before.queue[k as int]);
                assert(next_ids =~= ids.push(task.id@));
                assert(next_ids.drop_last() =~= ids);
                assert(next_ids.last() == task.id@);
                assert(self.queue@ =~= before.queue.skip(k + 1));
            }
            if !flag_exists(&self.cancel_flags, task.id.as_str()) {
                self.cancel_flags.push(CancelFlag { id: task.id.clone(), cancelled: false });
                assert(flag_views(self.cancel_flags@) =~= mid.flags.push((task.id@, false)));
            }
            assert(flag_views(self.cancel_flags@) == with_flags(before.flags, next_ids));
            self.running.push(task.id.clone());
            proof {
                assert(views(self.running@) =~= mid.running.push(task.id@));
                assert(mid.running.push(task.id@) =~= before.running + next_ids);
            }
            let found = find_job(&self.jobs, task.id.as_str());
            let snapshot = match found {
                Some(i) => {
                    let mut job = self.jobs[i].clone();
                    job.status = JobStatus::Running;
                    job.started_at = Some(now.to_owned());
                    job.speed = 0;
                    job.eta = 0;
                    let copy = job.clone();
                    self.jobs.set(i, job);
                    proof {
                        assert(copy@ == job_started(mid.jobs[i as int], now@));
                        assert(job_views(self.jobs@) =~= mid.jobs.update(
                            i as int,
                            job_started(mid.jobs[i as int], now@),
                        ));
                        lemma_job_index_same_ids(mid.jobs, job_views(self.jobs@), task.id@);
                    }
                    Some(copy)
                },
                None => None,
            };
            proof {
                assert(job_views(self.jobs@) == mark_started(before.jobs, next_ids, now@));
                assert(self@ == before.started_first(k + 1, now@));
                crate::jobs::laws::lemma_started_snapshot(before, k as int, n as int, now@);
                lemma_job_index(end, task.id@);
            }
            out.push(StartedJob { task, snapshot });
            k += 1;
        }
        proof {
            assert forall|i: int| 0 <= i < out.len() implies (#[trigger] out@[i]).task
                == before.queue[i] && match (out@[i].snapshot, self@.job(out@[i].task.id@)) {
                (Some(snapshot), Some(job)) => snapshot@ == job,
                (None, None) => true,
                _ => false,
            } by {
                lemma_job_index(end, out@[i].task.id@);
            }
        }
        out
    }

    /// Records a progress report for the job `id`: counters below zero
    /// count as zero, a negative total leaves the known total, and the
    /// percentage follows from both. Returns the job as it now stands.
    pub fn update_job_progress(
        &mut self,
        job_id: &str,
        transferred: i64,
        total: i64,
        speed: i64,
        eta: i64,
    ) -> (out: Option<JobInfo>)
        requires
            old(self)@.wf(),
        ensures
            final(self)@ == old(self)@.progressed(job_id@, transferred, total, speed, eta),
            shows(out, final(self)@.job(job_id@)),
            final(self)@.wf(),
            old(self)@.within_limit() ==> final(self)@.within_limit(),
    {
        let ghost before = self@;
        proof {
            lemma_progressed_keeps_wf(before, job_id@, transferred, total, speed, eta);
        }
        match find_job(&self.jobs, job_id) {
            Some(i) => {
                let mut job = self.jobs[i].clone();
                job.bytes_transferred = if transferred < 0 {
                    0
                } else {
                    transferred
                };
                if total >= 0 {
                    job.bytes_total = total;
                }
                job.percentage = calculate_percentage(job.bytes_transferred, job.bytes_total);
                job.speed = if speed < 0 {
                    0
                } else {
                    speed
                };
                job.eta = if eta < 0 {
                    0
                } else {
                    eta
                };
                let copy = job.clone();
                self.jobs.set(i, job);
                proof {
                    assert(job_views(self.jobs@) =~= before.jobs.update(
                        i as int,
                        job_progressed(before.jobs[i as int], transferred, total, speed, eta),
                    ));
                    lemma_job_index_same_ids(before.jobs, job_views(self.jobs@), job_id@);
                }
                Some(copy)
            },
            None => None,
        }
    }

    /// Brings the job `id` to its end with a terminal status: it no longer
    /// runs and loses its flag. A byte count that comes with the outcome
    /// replaces the counter, and the total where none was known; a completed
    /// job with a known total counts as wholly transferred. Returns the job
    /// as it now stands.
    pub fn finish_job(
        &mut self,
        job_id: &str,
        status: JobStatus,
        error: Option<String>,
        bytes_transferred: Option<i64>,
        now: &str,
    ) -> (out: Option<JobInfo>)
        requires
            old(self)@.wf(),
            is_terminal(status),
        ensures
            final(self)@ == old(self)@.finished(
                job_id@,
                status,
                opt_view(error),
                bytes_transferred,
                now@,
            ),
            shows(out, final(self)@.job(job_id@)),
            final(self)@.wf(),
            old(self)@.within_limit() ==> final(self)@.within_limit(),
    {
        let ghost before = self@;
        proof {
            lemma_finished_keeps_wf(
                before,
                job_id@,
                status,
                opt_view(error),
                bytes_transferred,
                now@,
            );
        }
        remove_id(&mut self.running, job_id);
        remove_flag(&mut self.cancel_flags, job_id);
        match find_job(&self.jobs, job_id) {
            Some(i) => {
                let mut job = self.jobs[i].clone();
                job.status = status;
                match bytes_transferred {
                    Some(t) => {
                        let counted = if t < 0 {
                            0
                        } else {
                            t
                        };
                        job.bytes_transferred = counted;
                        if job.bytes_total <= 0 {
                            job.bytes_total = counted;
                        }
                        job.percentage = calculate_percentage(
                            job.bytes_transferred,
                            job.bytes_total,
                        );
                    },
                    None => {},
                }
                match status {
                    JobStatus::Completed => {
                        if job.bytes_total > 0 {
                            job.bytes_transferred = job.bytes_total;
                            job.percentage = 100;
                        }
                    },
                    _ => {},
                }
                job.error = error;
                job.completed_at = Some(now.to_owned());
                let copy = job.clone();
                self.jobs.set(i, job);
                proof {
                    assert(copy@ == job_finished(
                        before.jobs[i as int],
                        status,
                        opt_view(error),
                        bytes_transferred,
                        now@,
                    ));
                    assert(job_views(self.jobs@) =~= before.jobs.update(i as int, copy@));
                    lemma_job_index_same_ids(before.jobs, job_views(self.jobs@), job_id@);
                }
                Some(copy)
            },
            None => None,
        }
    }

    /// Asks the job `id` to stop. A job that waits leaves the queue at once
    /// and is marked as cancelled; a job with a flag has it raised, for the
    /// running task to see; of any other identity nothing changes.
    pub fn cancel_job(&mut self, job_id: &str, now: &str) -> (out: CancelOutcome)
        requires
            old(self)@.wf(),
        ensures
            final(self)@ == old(self)@.cancelled(job_id@, now@),
            match out {
                CancelOutcome::Dequeued(snapshot) => old(self)@.waits(job_id@) && shows(
                    snapshot,
                    final(self)@.job(job_id@),
                ),
                CancelOutcome::Signalled => !old(self)@.waits(job_id@) && has_flag(
                    old(self)@.flags,
                    job_id@,
                ),
                CancelOutcome::Unknown => !old(self)@.waits(job_id@) && !has_flag(
                    old(self)@.flags,
                    job_id@,
                ),
            },
            final(self)@.wf(),
            old(self)@.within_limit() ==> final(self)@.within_limit(),
    {
        let ghost before = self@;
        proof {
            lemma_cancelled_keeps_wf(before, job_id@, now@);
        }
        match find_task(&self.queue, job_id) {
            Some(position) => {
                self.queue.remove(position);
                let snapshot = match find_job(&self.jobs, job_id) {
                    Some(i) => {
                        let mut job = self.jobs[i].clone();
                        job.status = JobStatus::Cancelled;
                        job.error = Some("Job cancelled".to_owned());
                        job.completed_at = Some(now.to_owned());
                        let copy = job.clone();
                        self.jobs.set(i, job);
                        proof {
                            assert(copy@ == job_cancelled(before.jobs[i as int], now@));
                            assert(job_views(self.jobs@) =~= before.jobs.update(i as int, copy@));
                            lemma_job_index_same_ids(before.jobs, job_views(self.jobs@), job_id@);
                        }
                        Some(copy)
                    },
                    None => None,
                };
                remove_flag(&mut self.cancel_flags, job_id);
                CancelOutcome::Dequeued(snapshot)
            },
            None => {
                let known = flag_exists(&self.cancel_flags, job_id);
                let mut i: usize = 0;
                while i < self.cancel_flags.len()
                    invariant
                        0 <= i <= self.cancel_flags.len(),
                        self.cancel_flags.len() == before.flags.len(),
                        self@ == (JobModel { flags: flag_views(self.cancel_flags@), ..before }),
                        forall|k: int|
                            0 <= k < i ==> flag_views(self.cancel_flags@)[k] == raise_flag(
                                before.flags,
                                job_id@,
                            )[k],
                        forall|k: int|
                            i <= k < self.cancel_flags.len() ==> flag_views(self.cancel_flags@)[k]
                                == before.flags[k],
                    decreases self.cancel_flags.len() - i,
                {
                    if str_eq(self.cancel_flags[i].id.as_str(), job_id) {
                        let raised = CancelFlag {
                            id: self.cancel_flags[i].id.clone(),
                            cancelled: true,
                        };
                        self.cancel_flags.set(i, raised);
                    }
                    i += 1;
                }
                assert(flag_views(self.cancel_flags@) =~= raise_flag(before.flags, job_id@));
                if known {
                    CancelOutcome::Signalled
                } else {
                    CancelOutcome::Unknown
                }
            },
        }
    }

    /// Whether the job `id` has been asked to stop.
    pub fn is_cancelled(&self, job_id: &str) -> (out: bool)
        ensures
            out == is_flagged(self@.flags, job_id@),
    {
        let mut i: usize = 0;
        while i < self.cancel_flags.len()
            invariant
                0 <= i <= self.cancel_flags.len(),
                forall|k: int|
                    0 <= k < i ==> !(flag_views(self.cancel_flags@)[k].0 == job_id@ && flag_views(
                        self.cancel_flags@,
                    )[k].1),
            decreases self.cancel_flags.len() - i,
        {
            if self.cancel_flags[i].cancelled && str_eq(self.cancel_flags[i].id.as_str(), job_id) {
                assert(flag_views(self.cancel_flags@)[i as int].0 == job_id@);
                return true;
            }
            i += 1;
        }
        false
    }

    /// Sets the limit to `requested`, brought into the range from 1 to 10,
    /// and returns the limit that now holds.
    pub fn set_concurrency(&mut self, requested: u8) -> (out: u8)
        requires
            old(self)@.wf(),
        ensures
            final(self)@ == old(self)@.with_concurrency(requested as int),
            out == final(self)@.concurrency,
            final(self)@.wf(),
            old(self)@.running.len() <= out ==> final(self)@.within_limit(),
    {
        self.concurrency = if requested < 1 {
            1
        } else if requested > 10 {
            10
        } else {
            requested
        };
        self.concurrency
    }

    /// The limit that holds.
    pub fn get_concurrency(&self) -> (out: u8)
        ensures
            out == self@.concurrency,
    {
        self.concurrency
    }

    /// Whether the table holds a job `id` that may be cleared.
    fn may_clear(jobs: &Vec<JobInfo>, running: &Vec<String>, id: &str) -> (out: bool)
        ensures
            out == clears(job_views(jobs@), views(running@), id@),
    {
        let mut i: usize = 0;
        while i < jobs.len()
            invariant
                0 <= i <= jobs.len(),
                forall|k: int|
                    0 <= k < i ==> !(job_views(jobs@)[k].id == id@ && clearable(
                        job_views(jobs@)[k],
                        views(running@),
                    )),
            decreases jobs.len() - i,
        {
            if str_eq(jobs[i].id.as_str(), id) && is_terminal_job_status(jobs[i].status)
                && !contains_id(running, jobs[i].id.as_str()) {
                assert(job_views(jobs@)[i as int].id == id@);
                return true;
            }
            i += 1;
        }
        false
    }

    /// Clears the terminal jobs that do not run: they leave the table, and
    /// with them their flags and whatever the queue holds under their
    /// identities; the display order keeps the identities that the table
    /// still holds or that run.
    pub fn clear_finished_jobs(&mut self)
        requires
            old(self)@.wf(),
        ensures
            final(self)@ == old(self)@.cleared(),
            final(self)@.wf(),
            old(self)@.within_limit() ==> final(self)@.within_limit(),
    {
        let ghost before = self@;
        proof {
            lemma_cleared_keeps_wf(before);
        }
        // the queue
        let mut queue: Vec<JobTask> = Vec::new();
        let ghost mut taken: int = 0;
        assert(before.queue.take(0) =~= Seq::<JobTask>::empty());
        assert(before.queue.skip(0) =~= before.queue);
        while self.queue.len() > 0
            invariant
                0 <= taken <= before.queue.len(),
                self.queue@ == before.queue.skip(taken),
                self@ == (JobModel { queue: self.queue@, ..before }),
                queue@ == queue_kept(before.queue.take(taken), before.jobs, before.running),
            decreases self.queue.len(),
        {
            let task = self.queue.remove(0);
            proof {
                assert(task == before.queue[taken]);
                assert(before.queue.take(taken + 1).drop_last() =~= before.queue.take(taken));
                assert(self.queue@ =~= before.queue.skip(taken + 1));
                taken = taken + 1;
            }
            if !Self::may_clear(&self.jobs, &self.running, task.id.as_str()) {
                queue.push(task);
            }
        }
        assert(before.queue.take(taken) =~= before.queue);
        self.queue = queue;
        // the flags
        let mut flags: Vec<CancelFlag> = Vec::new();
        let mut f: usize = 0;
        assert(before.flags.take(0) =~= Seq::<(Seq<char>, bool)>::empty());
        while f < self.cancel_flags.len()
            invariant
                0 <= f <= self.cancel_flags.len(),
                self@ == (JobModel {
                    queue: queue_kept(before.queue, before.jobs, before.running),
                    ..before
                }),
                flag_views(flags@) == flags_kept(
                    before.flags.take(f as int),
                    before.jobs,
                    before.running,
                ),
            decreases self.cancel_flags.len() - f,
        {
            assert(before.flags.take(f + 1).drop_last() =~= before.flags.take(f as int));
            if !Self::may_clear(&self.jobs, &self.running, self.cancel_flags[f].id.as_str()) {
                flags.push(
                    CancelFlag {
                        id: self.cancel_flags[f].id.clone(),
                        cancelled: self.cancel_flags[f].cancelled,
                    },
                );
                assert(flag_views(flags@) =~= flags_kept(
                    before.flags.take(f as int),
                    before.jobs,
                    before.running,
                ).push(before.flags[f as int]));
            }
            f += 1;
        }
        assert(before.flags.take(f as int) =~= before.flags);
        self.cancel_flags = flags;
        // the table
        let mut jobs: Vec<JobInfo> = Vec::new();
        let mut j: usize = 0;
        assert(before.jobs.take(0) =~= Seq::<JobInfoView>::empty());
        while j < self.jobs.len()
            invariant
                0 <= j <= self.jobs.len(),
                self@ == (JobModel {
                    queue: queue_kept(before.queue, before.jobs, before.running),
                    flags: flags_kept(before.flags, before.jobs, before.running),
                    ..before
                }),
                job_views(jobs@) == jobs_kept(before.jobs.take(j as int), before.running),
            decreases self.jobs.len() - j,
        {
            assert(before.jobs.take(j + 1).drop_last() =~= before.jobs.take(j as int));
            if !(is_terminal_job_status(self.jobs[j].status) && !contains_id(
                &self.running,
                self.jobs[j].id.as_str(),
            )) {
                jobs.push(self.jobs[j].clone());
                assert(job_views(jobs@) =~= jobs_kept(
                    before.jobs.take(j as int),
                    before.running,
                ).push(before.jobs[j as int]));
            }
            j += 1;
        }
        assert(before.jobs.take(j as int) =~= before.jobs);
        self.jobs = jobs;
        // the display order
        let mut order: Vec<String> = Vec::new();
        let mut o: usize = 0;
        let ghost kept = jobs_kept(before.jobs, before.running);
        assert(before.order.take(0) =~= Seq::<Seq<char>>::empty());
        while o < self.order.len()
            invariant
                0 <= o <= self.order.len(),
                kept == jobs_kept(before.jobs, before.running),
                self@ == (JobModel {
                    queue: queue_kept(before.queue, before.jobs, before.running),
                    flags: flags_kept(before.flags, before.jobs, before.running),
                    jobs: kept,
                    ..before
                }),
                views(order@) == order_kept(before.order.take(o as int), kept, before.running),
            decreases self.order.len() - o,
        {
            assert(before.order.take(o + 1).drop_last() =~= before.order.take(o as int));
            if find_job(&self.jobs, self.order[o].as_str()).is_some() || contains_id(
                &self.running,
                self.order[o].as_str(),
            ) {
                order.push(self.order[o].clone());
                assert(views(order@) =~= order_kept(
                    before.order.take(o as int),
                    kept,
                    before.running,
                ).push(before.order[o as int]));
            }
            o += 1;
        }
        assert(before.order.take(o as int) =~= before.order);
        self.order = order;
    }

    /// Takes in the jobs of a persisted history: terminal jobs that the
    /// table does not hold yet are appended to the table and to the display
    /// order, which is then cut to the limit of the history.
    pub fn hydrate_job_history_runtime(&mut self, history: &Vec<JobInfo>)
        requires
            old(self)@.wf(),
        ensures
            final(self)@ == old(self)@.hydrated(job_views(history@)),
            final(self)@.wf(),
            old(self)@.within_limit() ==> final(self)@.within_limit(),
    {
        let ghost before = self@;
        let ghost all = job_views(history@);
        proof {
            lemma_hydrated_keeps_wf(before, all);
        }
        let mut i: usize = 0;
        assert(all.take(0) =~= Seq::<JobInfoView>::empty());
        while i < history.len()
            invariant
                0 <= i <= history.len(),
                all == job_views(history@),
                self@ == (JobModel {
                    jobs: hydrated_with(before.jobs, before.order, all.take(i as int)).0,
                    order: hydrated_with(before.jobs, before.order, all.take(i as int)).1,
                    ..before
                }),
            decreases history.len() - i,
        {
            let ghost mid = self@;
            assert(all.take(i + 1).drop_last() =~= all.take(i as int));
            if is_terminal_job_status(history[i].status) && find_job(
                &self.jobs,
                history[i].id.as_str(),
            ).is_none() {
                self.order.push(history[i].id.clone());
                self.jobs.push(history[i].clone());
                assert(job_views(self.jobs@) =~= mid.jobs.push(all[i as int]));
                assert(views(self.order@) =~= mid.order.push(all[i as int].id));
            }
            i += 1;
        }
        assert(all.take(i as int) =~= all);
        let ghost full = views(self.order@);
        if self.order.len() > JOB_HISTORY_MAX {
            self.order.truncate(JOB_HISTORY_MAX);
            assert(views(self.order@) =~= full.take(JOB_HISTORY_MAX as int));
        }
    }

    /// The jobs as they are listed: those of the display order first, in
    /// that order, then the rest of the table.
    pub fn list_jobs(&self) -> (out: Vec<JobInfo>)
        ensures
            job_views(out@) == self@.listed(),
    {
        let ghost order = views(self.order@);
        let ghost jobs = job_views(self.jobs@);
        let mut out: Vec<JobInfo> = Vec::new();
        let mut i: usize = 0;
        assert(order.take(0) =~= Seq::<Seq<char>>::empty());
        while i < self.order.len()
            invariant
                0 <= i <= self.order.len(),
                order == views(self.order@),
                jobs == job_views(self.jobs@),
                job_views(out@) == jobs_in_order(order.take(i as int), jobs),
            decreases self.order.len() - i,
        {
            assert(order.take(i + 1).drop_last() =~= order.take(i as int));
            match find_job(&self.jobs, self.order[i].as_str()) {
                Some(k) => {
                    out.push(self.jobs[k].clone());
                    assert(job_views(out@) =~= jobs_in_order(order.take(i as int), jobs).push(
                        jobs[k as int],
                    ));
                },
                None => {},
            }
            i += 1;
        }
        assert(order.take(i as int) =~= order);
        let mut j: usize = 0;
        assert(jobs.take(0) =~= Seq::<JobInfoView>::empty());
        assert(job_views(out@) =~= jobs_in_order(order, jobs) + jobs_unordered(
            jobs.take(0),
            order,
        ));
        while j < self.jobs.len()
            invariant
                0 <= j <= self.jobs.len(),
                order == views(self.order@),
                jobs == job_views(self.jobs@),
                job_views(out@) == jobs_in_order(order, jobs) + jobs_unordered(
                    jobs.take(j as int),
                    order,
                ),
            decreases self.jobs.len() - j,
        {
            assert(jobs.take(j + 1).drop_last() =~= jobs.take(j as int));
            if !contains_id(&self.order, self.jobs[j].id.as_str()) {
                let ghost prev = job_views(out@);
                out.push(self.jobs[j].clone());
                assert(job_views(out@) =~= prev.push(jobs[j as int]));
                assert(prev.push(jobs[j as int]) =~= jobs_in_order(order, jobs) + jobs_unordered(
                    jobs.take(j as int),
                    order,
                ).push(jobs[j as int]));
            }
            j += 1;
        }
        assert(jobs.take(j as int) =~= jobs);
        out
    }

    /// The history as it is persisted: the terminal jobs of the display
    /// order that do not run, in that order, up to the limit of the history.
    pub fn history_snapshot(&self) -> (out: Vec<JobInfo>)
        ensures
            job_views(out@) == self@.history(),
    {
        let ghost order = views(self.order@);
        let ghost jobs = job_views(self.jobs@);
        let ghost running = views(self.running@);
        let mut out: Vec<JobInfo> = Vec::new();
        let mut i: usize = 0;
        assert(order.take(0) =~= Seq::<Seq<char>>::empty());
        while i < self.order.len()
            invariant
                0 <= i <= self.order.len(),
                order == views(self.order@),
                jobs == job_views(self.jobs@),
                running == views(self.running@),
                job_views(out@) == history_of(order.take(i as int), jobs, running),
            decreases self.order.len() - i,
        {
            assert(order.take(i + 1).drop_last() =~= order.take(i as int));
            match find_job(&self.jobs, self.order[i].as_str()) {
                Some(k) => {
                    if is_terminal_job_status(self.jobs[k].status) && !contains_id(
                        &self.running,
                        self.jobs[k].id.as_str(),
                    ) {
                        out.push(self.jobs[k].clone());
                        assert(job_views(out@) =~= history_of(
                            order.take(i as int),
                            jobs,
                            running,
                        ).push(jobs[k as int]));
                    }
                },
                None => {},
            }
            i += 1;
        }
        assert(order.take(i as int) =~= order);
        let ghost full = job_views(out@);
        if out.len() > JOB_HISTORY_MAX {
            out.truncate(JOB_HISTORY_MAX);
            assert(job_views(out@) =~= full.take(JOB_HISTORY_MAX as int));
        }
        out
    }

    /// Enqueues a new job, created now, and starts what the limit allows.
    /// The job gets a fresh identity, lengthened in the event that the
    /// scheduler has it already: so enqueueing always succeeds. Returns the
    /// queued job and the started tasks.
    pub fn enqueue_job(
        &mut self,
        job_type: JobType,
        file_name: String,
        description: String,
        bytes_total: i64,
        kind: JobTaskKind,
    ) -> (out: Enqueued)
        requires
            old(self)@.wf(),
        ensures
            !old(self)@.knows(out.job.id@),
            out.job@ == new_job(
                out.job.id@,
                job_type,
                file_name@,
                description@,
                bytes_total,
                out.job.created_at@,
            ),
            final(self)@ == old(self)@.enqueued(
                out.job@,
                JobTask { id: out.job.id, created_at: out.job.created_at, kind },
            ).started(out.job.created_at@),
            out.started.len() == old(self)@.enqueued(
                out.job@,
                JobTask { id: out.job.id, created_at: out.job.created_at, kind },
            ).start_count(),
            final(self)@.wf(),
            old(self)@.within_limit() ==> final(self)@.within_limit(),
    {
        let id = self.new_identity(crate::ids::new_id());
        let now = crate::clock::now_iso();
        let job = self.enqueue_job_with(
            id,
            now.clone(),
            job_type,
            file_name,
            description,
            bytes_total,
            kind,
        );
        let started = self.try_start_queued_jobs(now.as_str());
        Enqueued { job, started }
    }

    /// The length of the longest identity that the scheduler has; zero where
    /// it has none.
    fn longest_identity(&self) -> (out: usize)
        ensures
            is_longest_identity(self@, out as int),
    {
        let mut bound: usize = 0;
        let mut i: usize = 0;
        while i < self.queue.len()
            invariant
                0 <= i <= self.queue.len(),
                bound == 0 || has_identity_of_length(self@, bound as int),
                forall|k: int| 0 <= k < i ==> (#[trigger] self.queue@[k]).id@.len() <= bound,
            decreases self.queue.len() - i,
        {
            let next = longer(bound, self.queue[i].id.as_str());
            proof {
                if next != bound {
                    assert(self@.queue[i as int].id@.len() == next);
                }
            }
            bound = next;
            i += 1;
        }
        i = 0;
        while i < self.running.len()
            invariant
                0 <= i <= self.running.len(),
                bound == 0 || has_identity_of_length(self@, bound as int),
                forall|k: int|
                    0 <= k < self.queue@.len() ==> (#[trigger] self.queue@[k]).id@.len() <= bound,
                forall|k: int| 0 <= k < i ==> (#[trigger] self.running@[k])@.len() <= bound,
            decreases self.running.len() - i,
        {
            let next = longer(bound, self.running[i].as_str());
            proof {
                if next != bound {
                    assert(self@.running[i as int].len() == next);
                }
            }
            bound = next;
            i += 1;
        }
        i = 0;
        while i < self.jobs.len()
            invariant
                0 <= i <= self.jobs.len(),
                bound == 0 || has_identity_of_length(self@, bound as int),
                forall|k: int|
                    0 <= k < self.queue@.len() ==> (#[trigger] self.queue@[k]).id@.len() <= bound,
                forall|k: int|
                    0 <= k < self.running@.len() ==> (#[trigger] self.running@[k])@.len() <= bound,
                forall|k: int| 0 <= k < i ==> (#[trigger] self.jobs@[k]).id@.len() <= bound,
            decreases self.jobs.len() - i,
        {
            let next = longer(bound, self.jobs[i].id.as_str());
            proof {
                if next != bound {
                    assert(self@.jobs[i as int].id.len() == next);
                }
            }
            bound = next;
            i += 1;
        }
        i = 0;
        while i < self.order.len()
            invariant
                0 <= i <= self.order.len(),
                bound == 0 || has_identity_of_length(self@, bound as int),
                forall|k: int|
                    0 <= k < self.queue@.len() ==> (#[trigger] self.queue@[k]).id@.len() <= bound,
                forall|k: int|
                    0 <= k < self.running@.len() ==> (#[trigger] self.running@[k])@.len() <= bound,
                forall|k: int|
                    0 <= k < self.jobs@.len() ==> (#[trigger] self.jobs@[k]).id@.len() <= bound,
                forall|k: int| 0 <= k < i ==> (#[trigger] self.order@[k])@.len() <= bound,
            decreases self.order.len() - i,
        {
            let next = longer(bound, self.order[i].as_str());
            proof {
                if next != bound {
                    assert(self@.order[i as int].len() == next);
                }
            }
            bound = next;
            i += 1;
        }
        i = 0;
        while i < self.cancel_flags.len()
            invariant
                0 <= i <= self.cancel_flags.len(),
                bound == 0 || has_identity_of_length(self@, bound as int),
                forall|k: int|
                    0 <= k < self.queue@.len() ==> (#[trigger] self.queue@[k]).id@.len() <= bound,
                forall|k: int|
                    0 <= k < self.running@.len() ==> (#[trigger] self.running@[k])@.len() <= bound,
                forall|k: int|
                    0 <= k < self.jobs@.len() ==> (#[trigger] self.jobs@[k]).id@.len() <= bound,
                forall|k: int|
                    0 <= k < self.order@.len() ==> (#[trigger] self.order@[k])@.len() <= bound,
                forall|k: int|
                    0 <= k < i ==> (#[trigger] self.cancel_flags@[k]).id@.len() <= bound,
            decreases self.cancel_flags.len() - i,
        {
            let next = longer(bound, self.cancel_flags[i].id.as_str());
            proof {
                if next != bound {
                    assert(self@.flags[i as int].0.len() == next);
                }
            }
            bound = next;
            i += 1;
        }
        proof {
            let m = self@;
            assert forall|k: int| 0 <= k < m.running.len() implies (#[trigger] m.running[k]).len()
                <= bound by {
                assert(m.running[k] == self.running@[k]@);
            }
            assert forall|k: int| 0 <= k < m.jobs.len() implies (#[trigger] m.jobs[k]).id.len()
                <= bound by {
                assert(m.jobs[k] == self.jobs@[k]@);
            }
            assert forall|k: int| 0 <= k < m.order.len() implies (#[trigger] m.order[k]).len()
                <= bound by {
                assert(m.order[k] == self.order@[k]@);
            }
            assert forall|k: int| 0 <= k < m.flags.len() implies (#[trigger] m.flags[k]).0.len()
                <= bound by {
                assert(m.flags[k].0 == self.cancel_flags@[k].id@);
            }
        }
        bound
    }

    /// An identity that the scheduler does not have: `drawn` itself where it
    /// is new, and else `drawn` with dashes behind it, as many as make it one
    /// longer than the longest identity that the scheduler has.
    pub fn new_identity(&self, drawn: String) -> (out: String)
        ensures
            !self@.knows(out@),
            !self@.knows(drawn@) ==> out@ == drawn@,
            self@.knows(drawn@) ==> is_longest_identity(self@, out@.len() - 1),
            drawn@.is_prefix_of(out@),
            forall|i: int| drawn@.len() <= i < out@.len() ==> out@[i] == '-',
    {
        if !self.knows(drawn.as_str()) {
            return drawn;
        }
        let bound = self.longest_identity();
        let ghost first = drawn@;
        let mut id = drawn;
        proof {
            if first.len() > bound {
                lemma_long_identity_is_new(self@, bound as int, first);
            }
        }
        while char_len(id.as_str()) <= bound
            invariant
                first.is_prefix_of(id@),
                id@.len() <= bound + 1,
                forall|i: int| first.len() <= i < id@.len() ==> id@[i] == '-',
            decreases bound + 1 - id@.len(),
        {
            id = with_char(id, '-');
        }
        proof {
            lemma_long_identity_is_new(self@, bound as int, id@);
        }
        id
    }
}

/// Whether no identity that the scheduler has is longer than `bound`.
pub open spec fn bounds_identities(m: JobModel, bound: int) -> bool {
    &&& forall|k: int| 0 <= k < m.queue.len() ==> (#[trigger] m.queue[k]).id@.len() <= bound
    &&& forall|k: int| 0 <= k < m.running.len() ==> (#[trigger] m.running[k]).len() <= bound
    &&& forall|k: int| 0 <= k < m.jobs.len() ==> (#[trigger] m.jobs[k]).id.len() <= bound
    &&& forall|k: int| 0 <= k < m.order.len() ==> (#[trigger] m.order[k]).len() <= bound
    &&& forall|k: int| 0 <= k < m.flags.len() ==> (#[trigger] m.flags[k]).0.len() <= bound
}

/// Whether the scheduler has an identity of `n` characters.
pub open spec fn has_identity_of_length(m: JobModel, n: int) -> bool {
    ||| exists|k: int| 0 <= k < m.queue.len() && (#[trigger] m.queue[k]).id@.len() == n
    ||| exists|k: int| 0 <= k < m.running.len() && (#[trigger] m.running[k]).len() == n
    ||| exists|k: int| 0 <= k < m.jobs.len() && (#[trigger] m.jobs[k]).id.len() == n
    ||| exists|k: int| 0 <= k < m.order.len() && (#[trigger] m.order[k]).len() == n
    ||| exists|k: int| 0 <= k < m.flags.len() && (#[trigger] m.flags[k]).0.len() == n
}

/// Whether `n` is the length of the longest identity that the scheduler
/// has, or zero where it has none.
pub open spec fn is_longest_identity(m: JobModel, n: int) -> bool {
    bounds_identities(m, n) && (n == 0 || has_identity_of_length(m, n))
}

/// An identity that is longer than every identity of the scheduler is one
/// that the scheduler does not have.
pub proof fn lemma_long_identity_is_new(m: JobModel, bound: int, id: Seq<char>)
    requires
        bounds_identities(m, bound),
        id.len() > bound,
    ensures
        !m.knows(id),
{
    crate::jobs::laws::lemma_job_index(m.jobs, id);
    if m.running.contains(id) {
        let k = choose|k: int| 0 <= k < m.running.len() && m.running[k] == id;
        assert(m.running[k].len() <= bound);
    }
    if m.order.contains(id) {
        let k = choose|k: int| 0 <= k < m.order.len() && m.order[k] == id;
        assert(m.order[k].len() <= bound);
    }
}

fn longer(bound: usize, text: &str) -> (out: usize)
    ensures
        out >= bound,
        out >= text@.len(),
        out == bound || out == text@.len(),
{
    let len = char_len(text);
    if len > bound {
        len
    } else {
        bound
    }
}

/// What enqueueing a job came to: the job as it was queued, and the tasks
/// that started right away.
#[derive(Debug, PartialEq, Eq)]
pub struct Enqueued {
    pub job: JobInfo,
    pub started: Vec<StartedJob>,
}

/// Whether `out` shows the job `job`, or the absence of one.
pub open spec fn shows(out: Option<JobInfo>, job: Option<JobInfoView>) -> bool {
    match (out, job) {
        (Some(snapshot), Some(j)) => snapshot@ == j,
        (None, None) => true,
        _ => false,
    }
}

/// The terminal jobs of a persisted history, in order, up to the limit of
/// the history.
pub fn retain_terminal_history(history: &Vec<JobInfo>) -> (out: Vec<JobInfo>)
    ensures
        job_views(out@) == capped(terminal_jobs(job_views(history@)), JOB_HISTORY_MAX as int),
{
    let ghost all = job_views(history@);
    let mut out: Vec<JobInfo> = Vec::new();
    let mut i: usize = 0;
    assert(all.take(0) =~= Seq::<JobInfoView>::empty());
    while i < history.len()
        invariant
            0 <= i <= history.len(),
            all == job_views(history@),
            job_views(out@) == terminal_jobs(all.take(i as int)),
        decreases history.len() - i,
    {
        assert(all.take(i + 1).drop_last() =~= all.take(i as int));
        if is_terminal_job_status(history[i].status) {
            out.push(history[i].clone());
            assert(job_views(out@) =~= terminal_jobs(all.take(i as int)).push(all[i as int]));
        }
        i += 1;
    }
    assert(all.take(i as int) =~= all);
    let ghost full = job_views(out@);
    if out.len() > JOB_HISTORY_MAX {
        out.truncate(JOB_HISTORY_MAX);
        assert(job_views(out@) =~= full.take(JOB_HISTORY_MAX as int));
    }
    out
}

} // verus!
