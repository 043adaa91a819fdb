//! What holds of the scheduler in every state that its operations reach.

use crate::jobs::model::{
    clamped_concurrency, drop_job, hydrated_with, is_first_task, is_queued, job_cancelled,
    job_index, job_progressed, job_started, jobs_kept, mark_started, pruned, put_job, queue_kept,
    task_ids, without, JobModel,
};
use crate::jobs::types::{is_terminal, JobInfoView, JobStatus, JobTask};
use vstd::prelude::*;

verus! {

/// What `job_index` finds: the last job of the identity, or none.
pub proof fn lemma_job_index(jobs: Seq<JobInfoView>, id: Seq<char>)
    ensures
        match job_index(jobs, id) {
            Some(i) => 0 <= i < jobs.len() && jobs[i].id == id && forall|k: int|
                i < k < jobs.len() ==> (#[trigger] jobs[k]).id != id,
            None => forall|k: int| 0 <= k < jobs.len() ==> (#[trigger] jobs[k]).id != id,
        },
    decreases jobs.len(),
{
    if jobs.len() > 0 {
        lemma_job_index(jobs.drop_last(), id);
        if jobs.last().id != id {
            match job_index(jobs.drop_last(), id) {
                Some(i) => {
                    assert forall|k: int| i < k < jobs.len() implies (#[trigger] jobs[k]).id
                        != id by {
                        if k < jobs.len() - 1 {
                            assert(jobs.drop_last()[k].id != id);
                        }
                    }
                },
                None => {
                    assert forall|k: int| 0 <= k < jobs.len() implies (#[trigger] jobs[k]).id
                        != id by {
                        if k < jobs.len() - 1 {
                            assert(jobs.drop_last()[k].id != id);
                        }
                    }
                },
            }
        }
    }
}

/// Two tables with the same identities in the same places hold a job of
/// an identity in the same place.
pub proof fn lemma_job_index_same_ids(a: Seq<JobInfoView>, b: Seq<JobInfoView>, id: Seq<char>)
    requires
        a.len() == b.len(),
        forall|k: int| 0 <= k < a.len() ==> (#[trigger] a[k]).id == b[k].id,
    ensures
        job_index(a, id) == job_index(b, id),
    decreases a.len(),
{
    if a.len() > 0 {
        assert(a[a.len() - 1].id == b[b.len() - 1].id);
        assert forall|k: int| 0 <= k < a.drop_last().len() implies (#[trigger] a.drop_last()[k]).id
            == b.drop_last()[k].id by {
            assert(a[k].id == b[k].id);
        }
        lemma_job_index_same_ids(a.drop_last(), b.drop_last(), id);
    }
}

/// The identities of the jobs are all different.
pub open spec fn unique_jobs(jobs: Seq<JobInfoView>) -> bool {
    forall|i: int, j: int|
        0 <= i < j < jobs.len() ==> (#[trigger] jobs[i]).id != (#[trigger] jobs[j]).id
}

/// In a table of unique identities a job is found where it stands.
pub proof fn lemma_job_index_unique(jobs: Seq<JobInfoView>, i: int)
    requires
        unique_jobs(jobs),
        0 <= i < jobs.len(),
    ensures
        job_index(jobs, jobs[i].id) == Some(i),
{
    lemma_job_index(jobs, jobs[i].id);
}

/// What `without` keeps: every identity but the one taken out, in order
/// and as often as before.
pub proof fn lemma_without(ids: Seq<Seq<char>>, id: Seq<char>)
    ensures
        !without(ids, id).contains(id),
        forall|other: Seq<char>|
            other != id ==> (#[trigger] without(ids, id).contains(other) <==> ids.contains(other)),
        ids.no_duplicates() ==> without(ids, id).no_duplicates(),
        without(ids, id).len() <= ids.len(),
        !ids.contains(id) ==> without(ids, id) == ids,
    decreases ids.len(),
{
    if ids.len() > 0 {
        let head = ids.drop_last();
        lemma_without(head, id);
        let out = without(ids, id);
        assert forall|other: Seq<char>| other != id implies (#[trigger] out.contains(other)
            <==> ids.contains(other)) by {
            if out.contains(other) {
                let k = choose|k: int| 0 <= k < out.len() && out[k] == other;
                if ids.last() != id && k == out.len() - 1 {
                    assert(ids[ids.len() - 1] == other);
                } else {
                    assert(without(head, id)[k] == other);
                    assert(without(head, id).contains(other));
                    let m = choose|m: int| 0 <= m < head.len() && head[m] == other;
                    assert(ids[m] == other);
                }
            }
            if ids.contains(other) {
                let k = choose|k: int| 0 <= k < ids.len() && ids[k] == other;
                if k == ids.len() - 1 {
                    assert(out[out.len() - 1] == other);
                } else {
                    assert(head[k] == other);
                    assert(head.contains(other));
                    assert(without(head, id).contains(other));
                    let m = choose|m: int|
                        0 <= m < without(head, id).len() && without(head, id)[m] == other;
                    assert(out[m] == other);
                }
            }
        }
        if out.contains(id) {
            let k = choose|k: int| 0 <= k < out.len() && out[k] == id;
            if ids.last() != id && k == out.len() - 1 {
            } else {
                assert(without(head, id)[k] == id);
            }
        }
        if ids.no_duplicates() {
            assert(head.no_duplicates());
            if ids.last() != id {
                assert forall|a: int, b: int| 0 <= a < out.len() && 0 <= b < out.len() && a
                    != b implies out[a] != out[b] by {
                    if a == out.len() - 1 || b == out.len() - 1 {
                        let c = if a == out.len() - 1 {
                            b
                        } else {
                            a
                        };
                        assert(without(head, id).contains(without(head, id)[c]));
                        assert(head.contains(out[c]));
                        let m = choose|m: int| 0 <= m < head.len() && head[m] == out[c];
                        assert(ids[m] != ids[ids.len() - 1]);
                    }
                }
            }
        }
        if !ids.contains(id) {
            assert(!head.contains(id)) by {
                if head.contains(id) {
                    let m = choose|m: int| 0 <= m < head.len() && head[m] == id;
                    assert(ids[m] == id);
                }
            }
            assert(ids[ids.len() - 1] != id);
            assert(out =~= ids);
        }
    }
}

/// Starting jobs changes nothing of the table but the jobs that start: the
/// table keeps its length and every job its identity, and a job is marked
/// as running only if it is among those that start.
pub proof fn lemma_mark_started(jobs: Seq<JobInfoView>, ids: Seq<Seq<char>>, now: Seq<char>)
    ensures
        mark_started(jobs, ids, now).len() == jobs.len(),
        forall|i: int|
            0 <= i < jobs.len() ==> {
                let after = #[trigger] mark_started(jobs, ids, now)[i];
                &&& after.id == jobs[i].id
                &&& (after == jobs[i] || (after == job_started(jobs[i], now) && ids.contains(
                    jobs[i].id,
                )))
            },
    decreases ids.len(),
{
    if ids.len() > 0 {
        let head = ids.drop_last();
        lemma_mark_started(jobs, head, now);
        let rest = mark_started(jobs, head, now);
        lemma_job_index(rest, ids.last());
        assert forall|i: int| 0 <= i < jobs.len() implies {
            let after = #[trigger] mark_started(jobs, ids, now)[i];
            &&& after.id == jobs[i].id
            &&& (after == jobs[i] || (after == job_started(jobs[i], now) && ids.contains(
                jobs[i].id,
            )))
        } by {
            let after = mark_started(jobs, ids, now)[i];
            let mid = rest[i];
            assert(mid.id == jobs[i].id);
            if mid != jobs[i] {
                assert(head.contains(jobs[i].id));
                let m = choose|m: int| 0 <= m < head.len() && head[m] == jobs[i].id;
                assert(ids[m] == jobs[i].id);
            }
            if after != mid {
                assert(ids[ids.len() - 1] == jobs[i].id);
            }
        }
    }
}

/// Starting waiting tasks keeps the invariant, and never lets more jobs
/// run than the limit allows when no more than the limit leaves room for are
/// started.
pub proof fn lemma_started_keeps_wf(m: JobModel, n: int, now: Seq<char>)
    requires
        m.wf(),
        0 <= n <= m.queue.len(),
    ensures
        m.started_first(n, now).wf(),
        m.started_first(n, now).running.len() == m.running.len() + n,
        n <= m.start_count() && n > 0 ==> m.started_first(n, now).within_limit(),
        m.start_count() == 0 ==> m.started(now) == m,
{
    let after = m.started_first(n, now);
    let ids = task_ids(m.queue.take(n));
    lemma_mark_started(m.jobs, ids, now);
    assert forall|a: int, b: int| 0 <= a < after.running.len() && 0 <= b < after.running.len()
        && a != b implies after.running[a] != after.running[b] by {
        let r = m.running.len();
        if a < r && b < r {
        } else if a >= r && b >= r {
            assert(task_ids(m.queue)[a - r] != task_ids(m.queue)[b - r]);
        } else {
            let (x, y) = if a < r {
                (a, b)
            } else {
                (b, a)
            };
            assert(m.running.contains(m.running[x]));
            assert(!m.running.contains(m.queue[y - r].id@));
        }
    }
    assert forall|a: int, b: int| 0 <= a < after.queue.len() && 0 <= b < after.queue.len() && a
        != b implies task_ids(after.queue)[a] != task_ids(after.queue)[b] by {
        assert(task_ids(m.queue)[a + n] != task_ids(m.queue)[b + n]);
    }
    assert forall|i: int| 0 <= i < after.queue.len() implies !after.running.contains(
        #[trigger] after.queue[i].id@,
    ) by {
        let id = after.queue[i].id@;
        if after.running.contains(id) {
            let k = choose|k: int| 0 <= k < after.running.len() && after.running[k] == id;
            if k < m.running.len() {
                assert(m.running.contains(m.queue[i + n].id@));
            } else {
                assert(task_ids(m.queue)[k - m.running.len()] != task_ids(m.queue)[i + n]);
            }
        }
    }
    assert forall|i: int, j: int| 0 <= i < j < after.jobs.len() implies (
    #[trigger] after.jobs[i]).id != (#[trigger] after.jobs[j]).id by {
        assert(after.jobs[i].id == m.jobs[i].id);
        assert(after.jobs[j].id == m.jobs[j].id);
    }
    assert forall|i: int|
        0 <= i < after.jobs.len() && (#[trigger] after.jobs[i]).status
            == JobStatus::Running implies after.running.contains(after.jobs[i].id) by {
        let id = m.jobs[i].id;
        if after.jobs[i] == m.jobs[i] {
            assert(m.running.contains(id));
            let k = choose|k: int| 0 <= k < m.running.len() && m.running[k] == id;
            assert(after.running[k] == id);
        } else {
            assert(ids.contains(id));
            let k = choose|k: int| 0 <= k < ids.len() && ids[k] == id;
            assert(after.running[m.running.len() + k] == id);
        }
    }
    if m.start_count() == 0 {
        let same = m.started(now);
        assert(task_ids(m.queue.take(0)) =~= Seq::<Seq<char>>::empty());
        assert(same.queue =~= m.queue);
        assert(same.running =~= m.running);
    }
}

/// The job that a started task's snapshot shows is the job that the table
/// holds when all tasks of the round have started.
pub proof fn lemma_started_snapshot(m: JobModel, k: int, n: int, now: Seq<char>)
    requires
        m.wf(),
        0 <= k < n <= m.queue.len(),
    ensures
        ({
            let id = m.queue[k].id@;
            let mid = m.started_first(k + 1, now).jobs;
            let end = m.started_first(n, now).jobs;
            match job_index(mid, id) {
                Some(i) => job_index(end, id) == Some(i) && end[i] == mid[i],
                None => job_index(end, id) is None,
            }
        }),
    decreases n - k,
{
    let id = m.queue[k].id@;
    if k + 1 < n {
        lemma_started_snapshot(m, k, n - 1, now);
        let prev = m.started_first(n - 1, now).jobs;
        let end = m.started_first(n, now).jobs;
        let ids_prev = task_ids(m.queue.take(n - 1));
        let ids_end = task_ids(m.queue.take(n));
        assert(ids_end.drop_last() =~= ids_prev);
        let last = ids_end.last();
        assert(last == m.queue[n - 1].id@);
        assert(task_ids(m.queue)[k] != task_ids(m.queue)[n - 1]);
        lemma_job_index(prev, last);
        lemma_job_index(prev, id);
        lemma_job_index(end, id);
        lemma_mark_started(m.jobs, ids_prev, now);
        lemma_mark_started(m.jobs, ids_end, now);
        match job_index(prev, id) {
            Some(i) => {
                assert(end[i] == prev[i]);
                assert(end[i].id == id);
                let found = job_index(end, id);
                assert(found is Some);
                assert forall|j: int| 0 <= j < end.len() implies (#[trigger] end[j]).id
                    == prev[j].id by {
                    assert(end[j].id == m.jobs[j].id);
                    assert(prev[j].id == m.jobs[j].id);
                }
                if found->0 != i {
                    assert(prev[found->0].id == id);
                }
            },
            None => {
                assert forall|j: int| 0 <= j < end.len() implies (#[trigger] end[j]).id
                    != id by {
                    assert(end[j].id == m.jobs[j].id);
                    assert(prev[j].id == m.jobs[j].id);
                }
            },
        }
    }
}

/// Every job of `part` is a job of `whole`.
pub open spec fn jobs_among(part: Seq<JobInfoView>, whole: Seq<JobInfoView>) -> bool {
    forall|k: int| 0 <= k < part.len() ==> whole.contains(#[trigger] part[k])
}

/// Taking one job out of a table leaves jobs of the table, each identity
/// still once.
pub proof fn lemma_drop_job(jobs: Seq<JobInfoView>, id: Seq<char>)
    ensures
        jobs_among(drop_job(jobs, id), jobs),
        unique_jobs(jobs) ==> unique_jobs(drop_job(jobs, id)),
        unique_jobs(jobs) ==> job_index(drop_job(jobs, id), id) is None,
        forall|other: Seq<char>|
            other != id && unique_jobs(jobs) ==> (#[trigger] job_index(drop_job(jobs, id), other)
                is Some <==> job_index(jobs, other) is Some),
{
    lemma_job_index(jobs, id);
    let out = drop_job(jobs, id);
    match job_index(jobs, id) {
        Some(i) => {
            assert forall|k: int| 0 <= k < out.len() implies jobs.contains(#[trigger] out[k]) by {
                if k < i {
                    assert(jobs[k] == out[k]);
                } else {
                    assert(jobs[k + 1] == out[k]);
                }
            }
            if unique_jobs(jobs) {
                assert forall|a: int, b: int| 0 <= a < b < out.len() implies (#[trigger] out[a]).id
                    != (#[trigger] out[b]).id by {
                    let x = if a < i {
                        a
                    } else {
                        a + 1
                    };
                    let y = if b < i {
                        b
                    } else {
                        b + 1
                    };
                    assert(jobs[x].id != jobs[y].id);
                }
                lemma_job_index(out, id);
                if job_index(out, id) is Some {
                    let k = job_index(out, id)->0;
                    let x = if k < i {
                        k
                    } else {
                        k + 1
                    };
                    assert(jobs[x].id == id);
                    if x < i {
                        assert(jobs[x].id != jobs[i].id);
                    } else {
                        assert(jobs[i].id != jobs[x].id);
                    }
                }
                assert forall|other: Seq<char>| other != id implies (#[trigger] job_index(
                    out,
                    other,
                ) is Some <==> job_index(jobs, other) is Some) by {
                    lemma_job_index(out, other);
                    lemma_job_index(jobs, other);
                    if job_index(out, other) is Some {
                        let k = job_index(out, other)->0;
                        let x = if k < i {
                            k
                        } else {
                            k + 1
                        };
                        assert(jobs[x].id == other);
                    }
                    if job_index(jobs, other) is Some {
                        let k = job_index(jobs, other)->0;
                        let x = if k < i {
                            k
                        } else {
                            k - 1
                        };
                        assert(out[x].id == other);
                    }
                }
            }
        },
        None => {
            assert forall|k: int| 0 <= k < out.len() implies jobs.contains(#[trigger] out[k]) by {
                assert(jobs[k] == out[k]);
            }
        },
    }
}

/// Pruning a table leaves jobs of the table, each identity still once, and
/// keeps every job that `dropped` does not name.
pub proof fn lemma_pruned(jobs: Seq<JobInfoView>, dropped: Seq<Seq<char>>, running: Seq<Seq<char>>)
    ensures
        jobs_among(pruned(jobs, dropped, running), jobs),
        unique_jobs(jobs) ==> unique_jobs(pruned(jobs, dropped, running)),
        forall|id: Seq<char>|
            unique_jobs(jobs) && !dropped.contains(id) ==> (#[trigger] job_index(
                pruned(jobs, dropped, running),
                id,
            ) is Some <==> job_index(jobs, id) is Some),
    decreases dropped.len(),
{
    if dropped.len() > 0 {
        let head = dropped.drop_last();
        lemma_pruned(jobs, head, running);
        let rest = pruned(jobs, head, running);
        let out = pruned(jobs, dropped, running);
        lemma_drop_job(rest, dropped.last());
        assert forall|k: int| 0 <= k < out.len() implies jobs.contains(#[trigger] out[k]) by {
            assert(rest.contains(out[k]));
            let m = choose|m: int| 0 <= m < rest.len() && rest[m] == out[k];
            assert(jobs.contains(rest[m]));
        }
        assert forall|id: Seq<char>| unique_jobs(jobs) && !dropped.contains(id) implies (
        #[trigger] job_index(out, id) is Some <==> job_index(jobs, id) is Some) by {
            assert(!head.contains(id)) by {
                if head.contains(id) {
                    let m = choose|m: int| 0 <= m < head.len() && head[m] == id;
                    assert(dropped[m] == id);
                }
            }
            assert(dropped[dropped.len() - 1] != id);
            assert(job_index(rest, id) is Some <==> job_index(jobs, id) is Some);
        }
    }
}

/// Enqueueing a job under a new identity keeps the invariant and lets no
/// further job run.
pub proof fn lemma_enqueued_keeps_wf(m: JobModel, info: JobInfoView, task: JobTask)
    requires
        m.wf(),
        !m.knows(info.id),
        task.id@ == info.id,
        info.status != JobStatus::Running,
    ensures
        m.enqueued(info, task).wf(),
        m.enqueued(info, task).running == m.running,
        m.enqueued(info, task).concurrency == m.concurrency,
        m.enqueued(info, task).waits(info.id),
        m.enqueued(info, task).job(info.id) == Some(info),
{
    let after = m.enqueued(info, task);
    let id = info.id;
    lemma_job_index(m.jobs, id);
    let put = put_job(m.jobs, info);
    assert(put == m.jobs.push(info));
    assert(unique_jobs(put)) by {
        assert forall|i: int, j: int| 0 <= i < j < put.len() implies (#[trigger] put[i]).id != (
        #[trigger] put[j]).id by {
            if j < m.jobs.len() {
                assert(m.jobs[i].id != m.jobs[j].id);
            } else {
                assert(m.jobs[i].id != id);
            }
        }
    }
    let order = seq![id] + without(m.order, id);
    let kept = crate::jobs::model::capped(order, crate::jobs::model::JOB_TABLE_MAX as int);
    let dropped = order.skip(kept.len() as int);
    lemma_pruned(put, dropped, m.running);
    lemma_without(m.order, id);
    assert(!dropped.contains(id)) by {
        if dropped.contains(id) {
            let k = choose|k: int| 0 <= k < dropped.len() && dropped[k] == id;
            assert(order[k + kept.len()] == id);
            assert(without(m.order, id)[k + kept.len() - 1] == id);
            assert(without(m.order, id).contains(id));
        }
    }
    assert(job_index(put, id) is Some) by {
        lemma_job_index(put, id);
        assert(put[put.len() - 1].id == id);
    }
    lemma_job_index(after.jobs, id);
    let found = job_index(after.jobs, id)->0;
    assert(after.jobs[found] == info) by {
        assert(put.contains(after.jobs[found]));
        let k = choose|k: int| 0 <= k < put.len() && put[k] == after.jobs[found];
        if k < put.len() - 1 {
            assert(m.jobs[k].id != id);
        }
    }
    assert forall|a: int, b: int| 0 <= a < after.queue.len() && 0 <= b < after.queue.len() && a
        != b implies task_ids(after.queue)[a] != task_ids(after.queue)[b] by {
        if a < m.queue.len() && b < m.queue.len() {
            assert(task_ids(m.queue)[a] != task_ids(m.queue)[b]);
        } else {
            let c = if a < m.queue.len() {
                a
            } else {
                b
            };
            assert(m.queue[c].id@ != id);
        }
    }
    assert forall|i: int| 0 <= i < after.queue.len() implies !after.running.contains(
        #[trigger] after.queue[i].id@,
    ) by {
        if i < m.queue.len() {
            assert(!m.running.contains(m.queue[i].id@));
        }
    }
    assert forall|i: int|
        0 <= i < after.jobs.len() && (#[trigger] after.jobs[i]).status
            == JobStatus::Running implies after.running.contains(after.jobs[i].id) by {
        assert(put.contains(after.jobs[i]));
        let k = choose|k: int| 0 <= k < put.len() && put[k] == after.jobs[i];
        if k < m.jobs.len() {
            assert(m.jobs[k].status == JobStatus::Running);
        }
    }
    assert(is_queued(after.queue, id)) by {
        assert(after.queue[after.queue.len() - 1].id@ == id);
    }
}

/// Replacing a job of the table by a job of the same identity keeps the
/// invariant, unless the new job is marked as running while it does not
/// run.
pub proof fn lemma_update_keeps_wf(m: JobModel, i: int, job: JobInfoView)
    requires
        m.wf(),
        0 <= i < m.jobs.len(),
        job.id == m.jobs[i].id,
        job.status == JobStatus::Running ==> m.running.contains(job.id),
    ensures
        (JobModel { jobs: m.jobs.update(i, job), ..m }).wf(),
{
    let after = JobModel { jobs: m.jobs.update(i, job), ..m };
    assert forall|a: int, b: int| 0 <= a < b < after.jobs.len() implies (
    #[trigger] after.jobs[a]).id != (#[trigger] after.jobs[b]).id by {
        assert(m.jobs[a].id != m.jobs[b].id);
    }
    assert forall|k: int|
        0 <= k < after.jobs.len() && (#[trigger] after.jobs[k]).status
            == JobStatus::Running implies after.running.contains(after.jobs[k].id) by {
        if k != i {
            assert(m.jobs[k].status == JobStatus::Running);
        }
    }
}

/// A progress report keeps the invariant and lets no further job run.
pub proof fn lemma_progressed_keeps_wf(
    m: JobModel,
    id: Seq<char>,
    transferred: i64,
    total: i64,
    speed: i64,
    eta: i64,
)
    requires
        m.wf(),
    ensures
        m.progressed(id, transferred, total, speed, eta).wf(),
        m.progressed(id, transferred, total, speed, eta).running == m.running,
        m.progressed(id, transferred, total, speed, eta).queue == m.queue,
        m.progressed(id, transferred, total, speed, eta).concurrency == m.concurrency,
{
    lemma_job_index(m.jobs, id);
    match job_index(m.jobs, id) {
        Some(i) => {
            let job = job_progressed(m.jobs[i], transferred, total, speed, eta);
            assert(m.jobs[i].status == JobStatus::Running ==> m.running.contains(m.jobs[i].id));
            lemma_update_keeps_wf(m, i, job);
        },
        None => {},
    }
}

/// The end of a job keeps the invariant, and no further job runs.
pub proof fn lemma_finished_keeps_wf(
    m: JobModel,
    id: Seq<char>,
    status: JobStatus,
    error: Option<Seq<char>>,
    bytes: Option<i64>,
    now: Seq<char>,
)
    requires
        m.wf(),
        is_terminal(status),
    ensures
        m.finished(id, status, error, bytes, now).wf(),
        m.finished(id, status, error, bytes, now).running.len() <= m.running.len(),
        !m.finished(id, status, error, bytes, now).runs(id),
        m.finished(id, status, error, bytes, now).concurrency == m.concurrency,
{
    let after = m.finished(id, status, error, bytes, now);
    lemma_without(m.running, id);
    lemma_job_index(m.jobs, id);
    assert forall|i: int| 0 <= i < after.queue.len() implies !after.running.contains(
        #[trigger] after.queue[i].id@,
    ) by {
        let other = after.queue[i].id@;
        assert(!m.running.contains(m.queue[i].id@));
        if other != id {
            assert(without(m.running, id).contains(other) <==> m.running.contains(other));
        }
    }
    assert forall|a: int, b: int| 0 <= a < b < after.jobs.len() implies (
    #[trigger] after.jobs[a]).id != (#[trigger] after.jobs[b]).id by {
        assert(m.jobs[a].id != m.jobs[b].id);
    }
    assert forall|k: int|
        0 <= k < after.jobs.len() && (#[trigger] after.jobs[k]).status
            == JobStatus::Running implies after.running.contains(after.jobs[k].id) by {
        let other = after.jobs[k].id;
        assert(other == m.jobs[k].id);
        if other == id {
            match job_index(m.jobs, id) {
                Some(i) => {
                    if k < i {
                        assert(m.jobs[k].id != m.jobs[i].id);
                    } else if k > i {
                        assert(m.jobs[i].id != m.jobs[k].id);
                    }
                },
                None => {},
            }
        } else {
            assert(m.jobs[k].status == JobStatus::Running);
            assert(without(m.running, id).contains(other) <==> m.running.contains(other));
        }
    }
}

/// A request to cancel keeps the invariant and lets no further job run; a
/// job that waited neither waits nor runs afterwards, and is cancelled.
pub proof fn lemma_cancelled_keeps_wf(m: JobModel, id: Seq<char>, now: Seq<char>)
    requires
        m.wf(),
    ensures
        m.cancelled(id, now).wf(),
        m.cancelled(id, now).running == m.running,
        m.cancelled(id, now).concurrency == m.concurrency,
        m.waits(id) ==> !m.cancelled(id, now).waits(id) && !m.cancelled(id, now).runs(id),
        m.waits(id) ==> match m.job(id) {
            Some(job) => m.cancelled(id, now).job(id) == Some(job_cancelled(job, now)),
            None => m.cancelled(id, now).job(id) is None,
        },
{
    let after = m.cancelled(id, now);
    lemma_job_index(m.jobs, id);
    if m.waits(id) {
        let witness = choose|i: int| 0 <= i < m.queue.len() && (#[trigger] m.queue[i]).id@ == id;
        lemma_first_task_exists(m.queue, id, witness);
        let first = crate::jobs::model::first_task(m.queue, id);
        assert(is_first_task(m.queue, id, first));
        assert forall|a: int, b: int| 0 <= a < after.queue.len() && 0 <= b < after.queue.len()
            && a != b implies task_ids(after.queue)[a] != task_ids(after.queue)[b] by {
            let x = if a < first {
                a
            } else {
                a + 1
            };
            let y = if b < first {
                b
            } else {
                b + 1
            };
            assert(task_ids(m.queue)[x] != task_ids(m.queue)[y]);
        }
        assert forall|i: int| 0 <= i < after.queue.len() implies !after.running.contains(
            #[trigger] after.queue[i].id@,
        ) by {
            let x = if i < first {
                i
            } else {
                i + 1
            };
            assert(!m.running.contains(m.queue[x].id@));
        }
        assert(!is_queued(after.queue, id)) by {
            if is_queued(after.queue, id) {
                let k = choose|k: int|
                    0 <= k < after.queue.len() && (#[trigger] after.queue[k]).id@ == id;
                let x = if k < first {
                    k
                } else {
                    k + 1
                };
                assert(task_ids(m.queue)[x] != task_ids(m.queue)[first]);
            }
        }
        assert(!m.running.contains(m.queue[first].id@));
        match job_index(m.jobs, id) {
            Some(i) => {
                lemma_update_keeps_wf(m, i, job_cancelled(m.jobs[i], now));
                lemma_job_index_same_ids(m.jobs, after.jobs, id);
            },
            None => {},
        }
    }
}

/// A task that waits under an identity has a first position.
pub proof fn lemma_first_task_exists(queue: Seq<JobTask>, id: Seq<char>, i: int)
    requires
        0 <= i < queue.len(),
        queue[i].id@ == id,
    ensures
        exists|first: int| is_first_task(queue, id, first),
    decreases i,
{
    if exists|k: int| 0 <= k < i && (#[trigger] queue[k]).id@ == id {
        let k = choose|k: int| 0 <= k < i && (#[trigger] queue[k]).id@ == id;
        lemma_first_task_exists(queue, id, k);
    } else {
        assert(is_first_task(queue, id, i));
    }
}

/// What `jobs_kept` keeps: jobs of the table that may not be cleared.
pub proof fn lemma_jobs_kept(jobs: Seq<JobInfoView>, running: Seq<Seq<char>>)
    ensures
        jobs_among(jobs_kept(jobs, running), jobs),
        unique_jobs(jobs) ==> unique_jobs(jobs_kept(jobs, running)),
    decreases jobs.len(),
{
    if jobs.len() > 0 {
        let head = jobs.drop_last();
        lemma_jobs_kept(head, running);
        let rest = jobs_kept(head, running);
        let out = jobs_kept(jobs, running);
        assert forall|k: int| 0 <= k < out.len() implies jobs.contains(#[trigger] out[k]) by {
            if k < rest.len() {
                assert(head.contains(rest[k]));
                let m = choose|m: int| 0 <= m < head.len() && head[m] == rest[k];
                assert(jobs[m] == out[k]);
            } else {
                assert(jobs[jobs.len() - 1] == out[k]);
            }
        }
        if unique_jobs(jobs) {
            assert(unique_jobs(head)) by {
                assert forall|a: int, b: int| 0 <= a < b < head.len() implies (
                #[trigger] head[a]).id != (#[trigger] head[b]).id by {
                    assert(jobs[a].id != jobs[b].id);
                }
            }
            assert forall|a: int, b: int| 0 <= a < b < out.len() implies (#[trigger] out[a]).id
                != (#[trigger] out[b]).id by {
                if b < rest.len() {
                    assert(rest[a].id != rest[b].id);
                } else {
                    assert(head.contains(rest[a]));
                    let m = choose|m: int| 0 <= m < head.len() && head[m] == rest[a];
                    assert(jobs[m].id != jobs[jobs.len() - 1].id);
                }
            }
        }
    }
}

/// What `queue_kept` keeps: tasks of the queue, in their order.
pub proof fn lemma_queue_kept(queue: Seq<JobTask>, cleared: Seq<JobInfoView>, running: Seq<Seq<char>>)
    ensures
        forall|k: int|
            0 <= k < queue_kept(queue, cleared, running).len() ==> queue.contains(
                #[trigger] queue_kept(queue, cleared, running)[k],
            ),
        task_ids(queue).no_duplicates() ==> task_ids(
            queue_kept(queue, cleared, running),
        ).no_duplicates(),
    decreases queue.len(),
{
    if queue.len() > 0 {
        let head = queue.drop_last();
        lemma_queue_kept(head, cleared, running);
        let rest = queue_kept(head, cleared, running);
        let out = queue_kept(queue, cleared, running);
        assert forall|k: int| 0 <= k < out.len() implies queue.contains(#[trigger] out[k]) by {
            if k < rest.len() {
                assert(head.contains(rest[k]));
                let m = choose|m: int| 0 <= m < head.len() && head[m] == rest[k];
                assert(queue[m] == out[k]);
            } else {
                assert(queue[queue.len() - 1] == out[k]);
            }
        }
        if task_ids(queue).no_duplicates() {
            assert(task_ids(head).no_duplicates()) by {
                assert forall|a: int, b: int| 0 <= a < head.len() && 0 <= b < head.len() && a
                    != b implies task_ids(head)[a] != task_ids(head)[b] by {
                    assert(task_ids(queue)[a] != task_ids(queue)[b]);
                }
            }
            assert forall|a: int, b: int| 0 <= a < out.len() && 0 <= b < out.len() && a
                != b implies task_ids(out)[a] != task_ids(out)[b] by {
                if a < rest.len() && b < rest.len() {
                    assert(task_ids(rest)[a] != task_ids(rest)[b]);
                } else {
                    let c = if a < rest.len() {
                        a
                    } else {
                        b
                    };
                    assert(head.contains(rest[c]));
                    let m = choose|m: int| 0 <= m < head.len() && head[m] == rest[c];
                    assert(task_ids(queue)[m] != task_ids(queue)[queue.len() - 1]);
                }
            }
        }
    }
}

/// Clearing keeps the invariant and lets no further job run.
pub proof fn lemma_cleared_keeps_wf(m: JobModel)
    requires
        m.wf(),
    ensures
        m.cleared().wf(),
        m.cleared().running == m.running,
        m.cleared().concurrency == m.concurrency,
{
    let after = m.cleared();
    lemma_jobs_kept(m.jobs, m.running);
    lemma_queue_kept(m.queue, m.jobs, m.running);
    assert forall|i: int| 0 <= i < after.queue.len() implies !after.running.contains(
        #[trigger] after.queue[i].id@,
    ) by {
        assert(m.queue.contains(after.queue[i]));
        let k = choose|k: int| 0 <= k < m.queue.len() && m.queue[k] == after.queue[i];
        assert(!m.running.contains(m.queue[k].id@));
    }
    assert forall|k: int|
        0 <= k < after.jobs.len() && (#[trigger] after.jobs[k]).status
            == JobStatus::Running implies after.running.contains(after.jobs[k].id) by {
        assert(m.jobs.contains(after.jobs[k]));
        let j = choose|j: int| 0 <= j < m.jobs.len() && m.jobs[j] == after.jobs[k];
        assert(m.jobs[j].status == JobStatus::Running);
    }
}

/// What a history adds to a table: the table stays as it was, and terminal
/// jobs of new identities follow it.
pub proof fn lemma_hydrated_with(
    jobs: Seq<JobInfoView>,
    order: Seq<Seq<char>>,
    history: Seq<JobInfoView>,
)
    ensures
        hydrated_with(jobs, order, history).0.len() >= jobs.len(),
        hydrated_with(jobs, order, history).0.take(jobs.len() as int) == jobs,
        forall|k: int|
            jobs.len() <= k < hydrated_with(jobs, order, history).0.len() ==> is_terminal(
                (#[trigger] hydrated_with(jobs, order, history).0[k]).status,
            ),
        unique_jobs(jobs) ==> unique_jobs(hydrated_with(jobs, order, history).0),
    decreases history.len(),
{
    if history.len() == 0 {
        assert(jobs.take(jobs.len() as int) =~= jobs);
    } else {
        lemma_hydrated_with(jobs, order, history.drop_last());
        let (j, o) = hydrated_with(jobs, order, history.drop_last());
        let out = hydrated_with(jobs, order, history).0;
        let job = history.last();
        lemma_job_index(j, job.id);
        assert(out.take(jobs.len() as int) =~= j.take(jobs.len() as int));
        if unique_jobs(jobs) {
            assert forall|a: int, b: int| 0 <= a < b < out.len() implies (#[trigger] out[a]).id
                != (#[trigger] out[b]).id by {
                if b < j.len() {
                    assert(j[a].id != j[b].id);
                } else {
                    assert(j[a].id != job.id);
                }
            }
        }
    }
}

/// Taking in a persisted history keeps the invariant and lets no further
/// job run.
pub proof fn lemma_hydrated_keeps_wf(m: JobModel, history: Seq<JobInfoView>)
    requires
        m.wf(),
    ensures
        m.hydrated(history).wf(),
        m.hydrated(history).running == m.running,
        m.hydrated(history).queue == m.queue,
        m.hydrated(history).concurrency == m.concurrency,
{
    let after = m.hydrated(history);
    lemma_hydrated_with(m.jobs, m.order, history);
    assert forall|k: int|
        0 <= k < after.jobs.len() && (#[trigger] after.jobs[k]).status
            == JobStatus::Running implies after.running.contains(after.jobs[k].id) by {
        if k < m.jobs.len() {
            assert(after.jobs.take(m.jobs.len() as int)[k] == after.jobs[k]);
            assert(m.jobs[k].status == JobStatus::Running);
        }
    }
}

/// How many jobs of a table are marked as running.
pub open spec fn count_running(jobs: Seq<JobInfoView>) -> nat
    decreases jobs.len(),
{
    if jobs.len() == 0 {
        0
    } else if jobs.last().status == JobStatus::Running {
        count_running(jobs.drop_last()) + 1
    } else {
        count_running(jobs.drop_last())
    }
}

/// Taking an identity out of a list that holds it once makes the list one
/// shorter.
pub proof fn lemma_without_len(ids: Seq<Seq<char>>, id: Seq<char>)
    requires
        ids.no_duplicates(),
        ids.contains(id),
    ensures
        without(ids, id).len() == ids.len() - 1,
    decreases ids.len(),
{
    let head = ids.drop_last();
    if ids.last() == id {
        assert(!head.contains(id)) by {
            if head.contains(id) {
                let k = choose|k: int| 0 <= k < head.len() && head[k] == id;
                assert(ids[k] == ids[ids.len() - 1]);
            }
        }
        lemma_without(head, id);
    } else {
        let k = choose|k: int| 0 <= k < ids.len() && ids[k] == id;
        assert(head[k] == id);
        lemma_without_len(head, id);
    }
}

/// No more jobs of a table are marked as running than a list of different
/// identities names, if the identities of the table are all different and
/// each job that is marked as running is named.
pub proof fn lemma_count_running(jobs: Seq<JobInfoView>, running: Seq<Seq<char>>)
    requires
        unique_jobs(jobs),
        running.no_duplicates(),
        forall|i: int|
            0 <= i < jobs.len() && (#[trigger] jobs[i]).status == JobStatus::Running
                ==> running.contains(jobs[i].id),
    ensures
        count_running(jobs) <= running.len(),
    decreases jobs.len(),
{
    if jobs.len() > 0 {
        let head = jobs.drop_last();
        let last = jobs.last();
        assert(unique_jobs(head)) by {
            assert forall|a: int, b: int| 0 <= a < b < head.len() implies (#[trigger] head[a]).id
                != (#[trigger] head[b]).id by {
                assert(jobs[a].id != jobs[b].id);
            }
        }
        if last.status == JobStatus::Running {
            assert(jobs[jobs.len() - 1].status == JobStatus::Running);
            let rest = without(running, last.id);
            lemma_without(running, last.id);
            lemma_without_len(running, last.id);
            assert forall|i: int|
                0 <= i < head.len() && (#[trigger] head[i]).status
                    == JobStatus::Running implies rest.contains(head[i].id) by {
                assert(jobs[i].status == JobStatus::Running);
                assert(jobs[i].id != jobs[jobs.len() - 1].id);
                assert(rest.contains(head[i].id) <==> running.contains(head[i].id));
            }
            lemma_count_running(head, rest);
        } else {
            assert forall|i: int|
                0 <= i < head.len() && (#[trigger] head[i]).status
                    == JobStatus::Running implies running.contains(head[i].id) by {
                assert(jobs[i].status == JobStatus::Running);
            }
            lemma_count_running(head, running);
        }
    }
}

/// In every state that meets the invariant and its limit, no more jobs are
/// marked as running than the limit allows.
pub proof fn lemma_running_jobs_within_limit(m: JobModel)
    requires
        m.wf(),
        m.within_limit(),
    ensures
        count_running(m.jobs) <= m.concurrency,
{
    lemma_count_running(m.jobs, m.running);
}

/// One operation of the scheduler.
pub enum JobOp {
    Enqueue { info: JobInfoView, task: JobTask },
    Start { now: Seq<char> },
    Progress { id: Seq<char>, transferred: i64, total: i64, speed: i64, eta: i64 },
    Finish {
        id: Seq<char>,
        status: JobStatus,
        error: Option<Seq<char>>,
        bytes: Option<i64>,
        now: Seq<char>,
    },
    Cancel { id: Seq<char>, now: Seq<char> },
    SetConcurrency { requested: int },
    Clear,
    Hydrate { history: Seq<JobInfoView> },
}

/// The state after one operation.
pub open spec fn apply(m: JobModel, op: JobOp) -> JobModel {
    match op {
        JobOp::Enqueue { info, task } => m.enqueued(info, task),
        JobOp::Start { now } => m.started(now),
        JobOp::Progress { id, transferred, total, speed, eta } => m.progressed(
            id,
            transferred,
            total,
            speed,
            eta,
        ),
        JobOp::Finish { id, status, error, bytes, now } => m.finished(
            id,
            status,
            error,
            bytes,
            now,
        ),
        JobOp::Cancel { id, now } => m.cancelled(id, now),
        JobOp::SetConcurrency { requested } => m.with_concurrency(requested),
        JobOp::Clear => m.cleared(),
        JobOp::Hydrate { history } => m.hydrated(history),
    }
}

/// Whether the scheduler accepts the operation in the state `m`: a job is
/// enqueued as queued under a new identity that its task shares, and a job
/// ends in a terminal status.
pub open spec fn permitted(m: JobModel, op: JobOp) -> bool {
    match op {
        JobOp::Enqueue { info, task } => !m.knows(info.id) && task.id@ == info.id && info.status
            == JobStatus::Queued,
        JobOp::Finish { status, .. } => is_terminal(status),
        _ => true,
    }
}

/// Whether the operation leaves the limit at or above the number of jobs
/// that run.
pub open spec fn spares_running(m: JobModel, op: JobOp) -> bool {
    match op {
        JobOp::SetConcurrency { requested } => m.running.len() <= clamped_concurrency(requested),
        _ => true,
    }
}

/// The state after a series of operations.
pub open spec fn run(m: JobModel, ops: Seq<JobOp>) -> JobModel
    decreases ops.len(),
{
    if ops.len() == 0 {
        m
    } else {
        apply(run(m, ops.drop_last()), ops.last())
    }
}

/// Whether the scheduler accepts each operation of a series in the state
/// that the operations before it lead to.
pub open spec fn accepts(m: JobModel, ops: Seq<JobOp>) -> bool
    decreases ops.len(),
{
    if ops.len() == 0 {
        true
    } else {
        accepts(m, ops.drop_last()) && permitted(run(m, ops.drop_last()), ops.last())
    }
}

/// Whether no operation of a series sets the limit below the number of
/// jobs that run at that time.
pub open spec fn never_below_running(m: JobModel, ops: Seq<JobOp>) -> bool
    decreases ops.len(),
{
    if ops.len() == 0 {
        true
    } else {
        never_below_running(m, ops.drop_last()) && spares_running(
            run(m, ops.drop_last()),
            ops.last(),
        )
    }
}

/// One accepted operation keeps the invariant; and it keeps the number of
/// running jobs within the limit, unless it sets the limit below that
/// number.
pub proof fn lemma_step(m: JobModel, op: JobOp)
    requires
        m.wf(),
        permitted(m, op),
    ensures
        apply(m, op).wf(),
        m.within_limit() && spares_running(m, op) ==> apply(m, op).within_limit(),
{
    match op {
        JobOp::Enqueue { info, task } => {
            lemma_enqueued_keeps_wf(m, info, task);
        },
        JobOp::Start { now } => {
            lemma_started_keeps_wf(m, m.start_count(), now);
        },
        JobOp::Progress { id, transferred, total, speed, eta } => {
            lemma_progressed_keeps_wf(m, id, transferred, total, speed, eta);
        },
        JobOp::Finish { id, status, error, bytes, now } => {
            lemma_finished_keeps_wf(m, id, status, error, bytes, now);
        },
        JobOp::Cancel { id, now } => {
            lemma_cancelled_keeps_wf(m, id, now);
        },
        JobOp::SetConcurrency { requested } => {},
        JobOp::Clear => {
            lemma_cleared_keeps_wf(m);
        },
        JobOp::Hydrate { history } => {
            lemma_hydrated_keeps_wf(m, history);
        },
    }
}

/// Whatever series of operations the scheduler goes through from a state
/// that meets the invariant and its limit, at no time do more jobs run, or
/// are more jobs marked as running, than the limit allows: for every limit
/// from 1 to 10, as long as the limit is not set below the number of jobs
/// that run.
pub proof fn lemma_never_more_than_limit(m: JobModel, ops: Seq<JobOp>)
    requires
        m.wf(),
        m.within_limit(),
        accepts(m, ops),
        never_below_running(m, ops),
    ensures
        run(m, ops).wf(),
        1 <= run(m, ops).concurrency <= 10,
        run(m, ops).running.len() <= run(m, ops).concurrency,
        count_running(run(m, ops).jobs) <= run(m, ops).concurrency,
    decreases ops.len(),
{
    if ops.len() > 0 {
        lemma_never_more_than_limit(m, ops.drop_last());
        lemma_step(run(m, ops.drop_last()), ops.last());
    }
    lemma_running_jobs_within_limit(run(m, ops));
}

/// Starting never lets more jobs run than the limit allows, even from a
/// state in which more run: then none is started.
pub proof fn lemma_start_respects_limit(m: JobModel, now: Seq<char>)
    requires
        m.wf(),
    ensures
        m.started(now).running.len() <= m.running.len() || m.started(now).within_limit(),
        m.started(now).running.len() == m.running.len() + m.start_count(),
{
    lemma_started_keeps_wf(m, m.start_count(), now);
}

/// The job `id` is at rest: it neither waits nor runs, and the table does
/// not mark it as running.
pub open spec fn at_rest(m: JobModel, id: Seq<char>) -> bool {
    &&& !m.waits(id)
    &&& !m.runs(id)
    &&& match m.job(id) {
        Some(job) => job.status != JobStatus::Running,
        None => true,
    }
}

/// Whether the operation enqueues a job under the identity `id`.
pub open spec fn enqueues(op: JobOp, id: Seq<char>) -> bool {
    match op {
        JobOp::Enqueue { info, .. } => info.id == id,
        _ => false,
    }
}

/// A job at rest stays at rest under every operation but the enqueueing
/// of a job under its identity.
pub proof fn lemma_step_keeps_rest(m: JobModel, op: JobOp, id: Seq<char>)
    requires
        m.wf(),
        permitted(m, op),
        at_rest(m, id),
        !enqueues(op, id),
    ensures
        at_rest(apply(m, op), id),
{
    let after = apply(m, op);
    lemma_step(m, op);
    lemma_job_index(m.jobs, id);
    lemma_job_index(after.jobs, id);
    match op {
        JobOp::Enqueue { info, task } => {
            lemma_enqueued_keeps_wf(m, info, task);
            assert(!is_queued(after.queue, id)) by {
                if is_queued(after.queue, id) {
                    let k = choose|k: int|
                        0 <= k < after.queue.len() && (#[trigger] after.queue[k]).id@ == id;
                    if k < m.queue.len() {
                        assert(m.queue[k].id@ == id);
                    }
                }
            }
            lemma_job_index(m.jobs, info.id);
            let put = put_job(m.jobs, info);
            let order = seq![info.id] + without(m.order, info.id);
            let kept = crate::jobs::model::capped(order, crate::jobs::model::JOB_TABLE_MAX as int);
            lemma_pruned(put, order.skip(kept.len() as int), m.running);
            if job_index(after.jobs, id) is Some {
                let k = job_index(after.jobs, id)->0;
                assert(put.contains(after.jobs[k]));
                let j = choose|j: int| 0 <= j < put.len() && put[j] == after.jobs[k];
                assert(j < m.jobs.len());
                assert(m.jobs[j].id == id);
                lemma_job_index_unique(m.jobs, j);
            }
        },
        JobOp::Start { now } => {
            let n = m.start_count();
            let ids = task_ids(m.queue.take(n));
            lemma_started_keeps_wf(m, n, now);
            lemma_mark_started(m.jobs, ids, now);
            assert(!ids.contains(id)) by {
                if ids.contains(id) {
                    let k = choose|k: int| 0 <= k < ids.len() && ids[k] == id;
                    assert(m.queue[k].id@ == id);
                }
            }
            assert(!after.running.contains(id)) by {
                if after.running.contains(id) {
                    let k = choose|k: int| 0 <= k < after.running.len() && after.running[k] == id;
                    if k < m.running.len() {
                        assert(m.running[k] == id);
                    } else {
                        assert(ids[k - m.running.len()] == id);
                    }
                }
            }
            assert(!is_queued(after.queue, id)) by {
                if is_queued(after.queue, id) {
                    let k = choose|k: int|
                        0 <= k < after.queue.len() && (#[trigger] after.queue[k]).id@ == id;
                    assert(m.queue[k + n].id@ == id);
                }
            }
            assert forall|k: int| 0 <= k < m.jobs.len() implies (#[trigger] m.jobs[k]).id
                == after.jobs[k].id by {
                assert(mark_started(m.jobs, ids, now)[k].id == m.jobs[k].id);
            }
            lemma_job_index_same_ids(m.jobs, after.jobs, id);
            if job_index(m.jobs, id) is Some {
                let k = job_index(m.jobs, id)->0;
                assert(mark_started(m.jobs, ids, now)[k] == m.jobs[k]);
            }
        },
        JobOp::Progress { id: other, transferred, total, speed, eta } => {
            lemma_job_index(m.jobs, other);
            if job_index(m.jobs, other) is Some {
                lemma_job_index_same_ids(m.jobs, after.jobs, id);
            }
        },
        JobOp::Finish { id: other, status, error, bytes, now } => {
            lemma_without(m.running, other);
            lemma_job_index(m.jobs, other);
            if other != id {
                assert(without(m.running, other).contains(id) <==> m.running.contains(id));
            }
            if job_index(m.jobs, other) is Some {
                lemma_job_index_same_ids(m.jobs, after.jobs, id);
            }
        },
        JobOp::Cancel { id: other, now } => {
            lemma_cancelled_keeps_wf(m, other, now);
            lemma_job_index(m.jobs, other);
            if m.waits(other) {
                let first = crate::jobs::model::first_task(m.queue, other);
                let witness = choose|i: int|
                    0 <= i < m.queue.len() && (#[trigger] m.queue[i]).id@ == other;
                lemma_first_task_exists(m.queue, other, witness);
                assert(!is_queued(after.queue, id)) by {
                    if is_queued(after.queue, id) {
                        let k = choose|k: int|
                            0 <= k < after.queue.len() && (#[trigger] after.queue[k]).id@ == id;
                        let x = if k < first {
                            k
                        } else {
                            k + 1
                        };
                        assert(m.queue[x].id@ == id);
                    }
                }
                if job_index(m.jobs, other) is Some {
                    lemma_job_index_same_ids(m.jobs, after.jobs, id);
                }
            }
        },
        JobOp::SetConcurrency { requested } => {},
        JobOp::Clear => {
            lemma_jobs_kept(m.jobs, m.running);
            lemma_queue_kept(m.queue, m.jobs, m.running);
            assert(!is_queued(after.queue, id)) by {
                if is_queued(after.queue, id) {
                    let k = choose|k: int|
                        0 <= k < after.queue.len() && (#[trigger] after.queue[k]).id@ == id;
                    assert(m.queue.contains(after.queue[k]));
                    let x = choose|x: int| 0 <= x < m.queue.len() && m.queue[x] == after.queue[k];
                    assert(m.queue[x].id@ == id);
                }
            }
            if job_index(after.jobs, id) is Some {
                let k = job_index(after.jobs, id)->0;
                assert(m.jobs.contains(after.jobs[k]));
                let j = choose|j: int| 0 <= j < m.jobs.len() && m.jobs[j] == after.jobs[k];
                lemma_job_index_unique(m.jobs, j);
            }
        },
        JobOp::Hydrate { history } => {
            lemma_hydrated_keeps_wf(m, history);
            lemma_hydrated_with(m.jobs, m.order, history);
            if job_index(after.jobs, id) is Some {
                let k = job_index(after.jobs, id)->0;
                if k < m.jobs.len() {
                    assert(after.jobs.take(m.jobs.len() as int)[k] == after.jobs[k]);
                    lemma_job_index_unique(m.jobs, k);
                }
            }
        },
    }
}

/// A job that is cancelled while it waits is never seen to run: right
/// after the request it neither waits nor runs and is marked as cancelled,
/// and whatever the scheduler does from then on, short of enqueueing a new
/// job under the same identity, the job neither waits nor runs nor is
/// marked as running.
pub proof fn lemma_cancelled_before_start_never_runs(
    m: JobModel,
    id: Seq<char>,
    now: Seq<char>,
    ops: Seq<JobOp>,
)
    requires
        m.wf(),
        m.waits(id),
        m.job(id) is Some,
        m.job(id)->0.status == JobStatus::Queued,
        accepts(m.cancelled(id, now), ops),
        forall|k: int| 0 <= k < ops.len() ==> !enqueues(#[trigger] ops[k], id),
    ensures
        m.cancelled(id, now).job(id) == Some(job_cancelled(m.job(id)->0, now)),
        m.cancelled(id, now).job(id)->0.status == JobStatus::Cancelled,
        run(m.cancelled(id, now), ops).wf(),
        at_rest(run(m.cancelled(id, now), ops), id),
    decreases ops.len(),
{
    let start = m.cancelled(id, now);
    lemma_cancelled_keeps_wf(m, id, now);
    if ops.len() > 0 {
        let head = ops.drop_last();
        assert forall|k: int| 0 <= k < head.len() implies !enqueues(#[trigger] head[k], id) by {
            assert(head[k] == ops[k]);
        }
        lemma_cancelled_before_start_never_runs(m, id, now, head);
        assert(ops.last() == ops[ops.len() - 1]);
        lemma_step(run(start, head), ops.last());
        lemma_step_keeps_rest(run(start, head), ops.last(), id);
    }
}

} // verus!
