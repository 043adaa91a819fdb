//! Jobs, their tasks and the events that report them.

use vstd::prelude::*;

verus! {

/// What a job does.
#[derive(Clone, Copy, Debug, PartialEq, Eq, Structural)]
pub enum JobType {
    Upload,
    Download,
    Copy,
    Move,
    Sync,
    Delete,
    Archive,
    FolderSync,
}

/// Where a job stands. The last three are terminal.
#[derive(Clone, Copy, Debug, PartialEq, Eq, Structural)]
pub enum JobStatus {
    Queued,
    Running,
    Completed,
    Failed,
    Cancelled,
}

/// Whether a status is terminal: completed, failed or cancelled.
pub open spec fn is_terminal(status: JobStatus) -> bool {
    status == JobStatus::Completed || status == JobStatus::Failed || status
        == JobStatus::Cancelled
}

/// Whether a job in this status has come to its end.
pub fn is_terminal_job_status(status: JobStatus) -> (out: bool)
    ensures
        out == is_terminal(status),
{
    match status {
        JobStatus::Completed | JobStatus::Failed | JobStatus::Cancelled => true,
        _ => false,
    }
}

impl JobType {
    pub open spec fn text(self) -> Seq<char> {
        match self {
            JobType::Upload => "upload"@,
            JobType::Download => "download"@,
            JobType::Copy => "copy"@,
            JobType::Move => "move"@,
            JobType::Sync => "sync"@,
            JobType::Delete => "delete"@,
            JobType::Archive => "archive"@,
            JobType::FolderSync => "folder-sync"@,
        }
    }

    /// The kind's name in persisted records and events.
    pub fn as_str(&self) -> (out: &'static str)
        ensures
            out@ == self.text(),
    {
        match self {
            JobType::Upload => "upload",
            JobType::Download => "download",
            JobType::Copy => "copy",
            JobType::Move => "move",
            JobType::Sync => "sync",
            JobType::Delete => "delete",
            JobType::Archive => "archive",
            JobType::FolderSync => "folder-sync",
        }
    }
}

/// The kind that a name stands for, if it is the name of one.
pub open spec fn job_type_of(text: Seq<char>) -> Option<JobType> {
    if text == "upload"@ {
        Some(JobType::Upload)
    } else if text == "download"@ {
        Some(JobType::Download)
    } else if text == "copy"@ {
        Some(JobType::Copy)
    } else if text == "move"@ {
        Some(JobType::Move)
    } else if text == "sync"@ {
        Some(JobType::Sync)
    } else if text == "delete"@ {
        Some(JobType::Delete)
    } else if text == "archive"@ {
        Some(JobType::Archive)
    } else if text == "folder-sync"@ {
        Some(JobType::FolderSync)
    } else {
        None
    }
}

/// The status that a name stands for, if it is the name of one.
pub open spec fn job_status_of(text: Seq<char>) -> Option<JobStatus> {
    if text == "queued"@ {
        Some(JobStatus::Queued)
    } else if text == "running"@ {
        Some(JobStatus::Running)
    } else if text == "completed"@ {
        Some(JobStatus::Completed)
    } else if text == "failed"@ {
        Some(JobStatus::Failed)
    } else if text == "cancelled"@ {
        Some(JobStatus::Cancelled)
    } else {
        None
    }
}

impl JobType {
    /// Reads the kind of a job from its name.
    pub fn parse(text: &str) -> (out: Option<JobType>)
        ensures
            out == job_type_of(text@),
    {
        if crate::text::str_eq(text, "upload") {
            Some(JobType::Upload)
        } else if crate::text::str_eq(text, "download") {
            Some(JobType::Download)
        } else if crate::text::str_eq(text, "copy") {
            Some(JobType::Copy)
        } else if crate::text::str_eq(text, "move") {
            Some(JobType::Move)
        } else if crate::text::str_eq(text, "sync") {
            Some(JobType::Sync)
        } else if crate::text::str_eq(text, "delete") {
            Some(JobType::Delete)
        } else if crate::text::str_eq(text, "archive") {
            Some(JobType::Archive)
        } else if crate::text::str_eq(text, "folder-sync") {
            Some(JobType::FolderSync)
        } else {
            None
        }
    }
}

impl JobStatus {
    /// Reads the status of a job from its name.
    pub fn parse(text: &str) -> (out: Option<JobStatus>)
        ensures
            out == job_status_of(text@),
    {
        if crate::text::str_eq(text, "queued") {
            Some(JobStatus::Queued)
        } else if crate::text::str_eq(text, "running") {
            Some(JobStatus::Running)
        } else if crate::text::str_eq(text, "completed") {
            Some(JobStatus::Completed)
        } else if crate::text::str_eq(text, "failed") {
            Some(JobStatus::Failed)
        } else if crate::text::str_eq(text, "cancelled") {
            Some(JobStatus::Cancelled)
        } else {
            None
        }
    }
}

impl JobStatus {
    pub open spec fn text(self) -> Seq<char> {
        match self {
            JobStatus::Queued => "queued"@,
            JobStatus::Running => "running"@,
            JobStatus::Completed => "completed"@,
            JobStatus::Failed => "failed"@,
            JobStatus::Cancelled => "cancelled"@,
        }
    }

    /// The status's name in persisted records and events.
    pub fn as_str(&self) -> (out: &'static str)
        ensures
            out@ == self.text(),
    {
        match self {
            JobStatus::Queued => "queued",
            JobStatus::Running => "running",
            JobStatus::Completed => "completed",
            JobStatus::Failed => "failed",
            JobStatus::Cancelled => "cancelled",
        }
    }
}

/// The view of an optional string.
pub open spec fn opt_view(value: Option<String>) -> Option<Seq<char>> {
    match value {
        Some(s) => Some(s@),
        None => None,
    }
}

/// One job as callers see it.
#[derive(Debug, PartialEq, Eq)]
pub struct JobInfo {
    pub id: String,
    pub job_type: JobType,
    pub status: JobStatus,
    pub file_name: String,
    pub description: String,
    pub bytes_transferred: i64,
    pub bytes_total: i64,
    pub percentage: i64,
    pub speed: i64,
    pub eta: i64,
    pub error: Option<String>,
    pub created_at: String,
    pub started_at: Option<String>,
    pub completed_at: Option<String>,
}

/// A job as a plain value.
pub struct JobInfoView {
    pub id: Seq<char>,
    pub job_type: JobType,
    pub status: JobStatus,
    pub file_name: Seq<char>,
    pub description: Seq<char>,
    pub bytes_transferred: i64,
    pub bytes_total: i64,
    pub percentage: i64,
    pub speed: i64,
    pub eta: i64,
    pub error: Option<Seq<char>>,
    pub created_at: Seq<char>,
    pub started_at: Option<Seq<char>>,
    pub completed_at: Option<Seq<char>>,
}

impl View for JobInfo {
    type V = JobInfoView;

    open spec fn view(&self) -> JobInfoView {
        JobInfoView {
            id: self.id@,
            job_type: self.job_type,
            status: self.status,
            file_name: self.file_name@,
            description: self.description@,
            bytes_transferred: self.bytes_transferred,
            bytes_total: self.bytes_total,
            percentage: self.percentage,
            speed: self.speed,
            eta: self.eta,
            error: opt_view(self.error),
            created_at: self.created_at@,
            started_at: opt_view(self.started_at),
            completed_at: opt_view(self.completed_at),
        }
    }
}

impl Clone for JobInfo {
    fn clone(&self) -> (out: Self)
        ensures
            out == *self,
    {
        JobInfo {
            id: self.id.clone(),
            job_type: self.job_type,
            status: self.status,
            file_name: self.file_name.clone(),
            description: self.description.clone(),
            bytes_transferred: self.bytes_transferred,
            bytes_total: self.bytes_total,
            percentage: self.percentage,
            speed: self.speed,
            eta: self.eta,
            error: self.error.clone(),
            created_at: self.created_at.clone(),
            started_at: self.started_at.clone(),
            completed_at: self.completed_at.clone(),
        }
    }
}

/// The progress of a job, as sent to listeners.
#[derive(Debug, PartialEq, Eq)]
pub struct JobProgressEvent {
    pub job_id: String,
    pub job_type: JobType,
    pub status: JobStatus,
    pub file_name: String,
    pub bytes_transferred: i64,
    pub bytes_total: i64,
    pub percentage: i64,
    pub speed: i64,
    pub eta: i64,
    pub error: Option<String>,
}

/// The end of a job, as sent to listeners.
#[derive(Debug, PartialEq, Eq)]
pub struct JobCompleteEvent {
    pub job_id: String,
    pub file_name: Option<String>,
    pub success: bool,
    pub error: Option<String>,
}

/// The progress event of a job: its identity, kind, status, name and
/// counters.
pub fn job_to_progress_event(job: &JobInfo) -> (out: JobProgressEvent)
    ensures
        out.job_id == job.id,
        out.job_type == job.job_type,
        out.status == job.status,
        out.file_name == job.file_name,
        out.bytes_transferred == job.bytes_transferred,
        out.bytes_total == job.bytes_total,
        out.percentage == job.percentage,
        out.speed == job.speed,
        out.eta == job.eta,
        out.error == job.error,
{
    JobProgressEvent {
        job_id: job.id.clone(),
        job_type: job.job_type,
        status: job.status,
        file_name: job.file_name.clone(),
        bytes_transferred: job.bytes_transferred,
        bytes_total: job.bytes_total,
        percentage: job.percentage,
        speed: job.speed,
        eta: job.eta,
        error: job.error.clone(),
    }
}

/// The completion event of a job: it succeeded exactly when it completed.
pub fn job_to_complete_event(job: &JobInfo) -> (out: JobCompleteEvent)
    ensures
        out.job_id == job.id,
        out.file_name == Some(job.file_name),
        out.success == (job.status == JobStatus::Completed),
        out.error == job.error,
{
    JobCompleteEvent {
        job_id: job.id.clone(),
        file_name: Some(job.file_name.clone()),
        success: job.status == JobStatus::Completed,
        error: job.error.clone(),
    }
}

/// The parameters of a job's operation.
#[derive(Debug, PartialEq, Eq)]
pub enum JobTaskKind {
    Upload { profile_id: String, bucket: String, key: String, local_path: String },
    Download { profile_id: String, bucket: String, key: String, local_path: String },
    Copy {
        source_profile_id: String,
        source_bucket: String,
        source_key: String,
        dest_profile_id: String,
        dest_bucket: String,
        dest_key: String,
    },
    Move {
        source_profile_id: String,
        source_bucket: String,
        source_key: String,
        dest_profile_id: String,
        dest_bucket: String,
        dest_key: String,
    },
    Delete { profile_id: String, bucket: String, keys: Vec<String> },
    Archive {
        profile_id: String,
        bucket: String,
        keys: Vec<String>,
        common_prefix: String,
        destination_path: String,
    },
}

/// What the queue holds for a job until it starts.
#[derive(Debug, PartialEq, Eq)]
pub struct JobTask {
    pub id: String,
    pub created_at: String,
    pub kind: JobTaskKind,
}

/// The cancellation flag of one job.
#[derive(Debug, PartialEq, Eq)]
pub struct CancelFlag {
    pub id: String,
    pub cancelled: bool,
}

/// `value` rounded to the nearest whole percent of `total`, halves away
/// from zero; zero where there is no total. The result is kept within the
/// range of `i64`.
pub open spec fn percentage_of(transferred: int, total: int) -> int {
    if total <= 0 {
        0
    } else {
        let rounded = if transferred >= 0 {
            (200 * transferred + total) / (2 * total)
        } else {
            -((200 * (-transferred) + total) / (2 * total))
        };
        if rounded > i64::MAX {
            i64::MAX as int
        } else if rounded < i64::MIN {
            i64::MIN as int
        } else {
            rounded
        }
    }
}

/// The percentage of `total` that `transferred` is, rounded to a whole
/// number; zero where the total is not positive.
pub fn calculate_percentage(transferred: i64, total: i64) -> (out: i64)
    ensures
        out == percentage_of(transferred as int, total as int),
{
    if total <= 0 {
        return 0;
    }
    let t: i128 = transferred as i128;
    let n: i128 = total as i128;
    let magnitude: i128 = if t >= 0 {
        t
    } else {
        -t
    };
    assert(200 * magnitude + n <= 200 * 0x8000_0000_0000_0000 + 0x8000_0000_0000_0000);
    let quotient: i128 = (200 * magnitude + n) / (2 * n);
    let rounded: i128 = if t >= 0 {
        quotient
    } else {
        -quotient
    };
    if rounded > i64::MAX as i128 {
        i64::MAX
    } else if rounded < i64::MIN as i128 {
        i64::MIN
    } else {
        rounded as i64
    }
}

} // verus!
