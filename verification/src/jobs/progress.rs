//! The speed and the remaining time of a running job, and what the end of
//! its transfer means for the job.

use crate::jobs::types::JobStatus;
use crate::transfer::errors::TransferError;
use vstd::prelude::*;

verus! {

/// The shortest time between two samples of the speed, in nanoseconds:
/// four tenths of a second.
pub const SAMPLE_INTERVAL_NANOS: u64 = 400_000_000;

/// The last sample of a job's speed: when it was taken, on a clock that
/// does not go back, and the bytes transferred by then.
#[derive(Clone, Copy, Debug, PartialEq, Eq, Structural)]
pub struct SpeedSample {
    pub at_nanos: u64,
    pub bytes: i64,
}

/// What a progress report shows besides the counters.
#[derive(Clone, Copy, Debug, PartialEq, Eq, Structural)]
pub struct SpeedReading {
    /// The sample that the next reading starts from.
    pub sample: SpeedSample,
    /// Bytes per second, zero between two samples.
    pub speed: i64,
    /// The seconds that the rest takes at this speed, zero where the speed
    /// is not positive or nothing is left.
    pub eta: i64,
}

/// The nanoseconds between a sample and `now`.
pub open spec fn elapsed_nanos(sample: SpeedSample, now_nanos: u64) -> int {
    if now_nanos >= sample.at_nanos {
        now_nanos - sample.at_nanos
    } else {
        0
    }
}

/// A quotient cut towards zero.
pub open spec fn quotient_towards_zero(numerator: int, denominator: int) -> int {
    if numerator >= 0 {
        numerator / denominator
    } else {
        -((-numerator) / denominator)
    }
}

/// A number brought into the range of `i64`.
pub open spec fn within_i64(value: int) -> i64 {
    if value > i64::MAX {
        i64::MAX
    } else if value < i64::MIN {
        i64::MIN
    } else {
        value as i64
    }
}

/// The speed since the sample, in bytes per second: the bytes since then
/// over the time since then, once more than the sample interval has passed,
/// and zero before.
pub open spec fn speed_since(sample: SpeedSample, now_nanos: u64, transferred: i64) -> i64 {
    let elapsed = elapsed_nanos(sample, now_nanos);
    if elapsed > SAMPLE_INTERVAL_NANOS {
        within_i64(quotient_towards_zero((transferred - sample.bytes) * 1_000_000_000, elapsed))
    } else {
        0
    }
}

/// The seconds that the rest of a transfer takes at `speed`.
pub open spec fn eta_at(speed: i64, transferred: i64, total: i64) -> i64 {
    if speed > 0 && total > transferred {
        within_i64((total - transferred) / (speed as int))
    } else {
        0
    }
}

/// What a progress report shows when `transferred` of `total` bytes are
/// through at `now_nanos`.
pub open spec fn reading_of(sample: SpeedSample, now_nanos: u64, transferred: i64, total: i64)
    -> SpeedReading {
    let speed = speed_since(sample, now_nanos, transferred);
    SpeedReading {
        sample: if elapsed_nanos(sample, now_nanos) > SAMPLE_INTERVAL_NANOS {
            SpeedSample { at_nanos: now_nanos, bytes: transferred }
        } else {
            sample
        },
        speed,
        eta: eta_at(speed, transferred, total),
    }
}

/// Reads the speed and the remaining time of a transfer. The speed is
/// sampled when more than four tenths of a second have passed since the last
/// sample, as the bytes since then over the time since then; the sample then
/// starts anew. Between two samples the speed reads as zero.
pub fn sample_progress(sample: SpeedSample, now_nanos: u64, transferred: i64, total: i64)
    -> (out: SpeedReading)
    ensures
        out == reading_of(sample, now_nanos, transferred, total),
{
    let elapsed: u64 = if now_nanos >= sample.at_nanos {
        now_nanos - sample.at_nanos
    } else {
        0
    };
    let fresh = elapsed > SAMPLE_INTERVAL_NANOS;
    let speed: i64 = if fresh {
        let delta: i128 = transferred as i128 - sample.bytes as i128;
        let magnitude: i128 = if delta >= 0 {
            delta
        } else {
            -delta
        };
        assert(magnitude * 1_000_000_000 <= 0x1_0000_0000_0000_0000 * 1_000_000_000)
            by (nonlinear_arith)
            requires
                0 <= magnitude <= 0x1_0000_0000_0000_0000,
        ;
        let scaled: i128 = magnitude * 1_000_000_000;
        let quotient: i128 = scaled / (elapsed as i128);
        proof {
            assert((-delta) * 1_000_000_000 == -(delta * 1_000_000_000)) by (nonlinear_arith);
        }
        let signed: i128 = if delta >= 0 {
            quotient
        } else {
            -quotient
        };
        if signed > i64::MAX as i128 {
            i64::MAX
        } else if signed < i64::MIN as i128 {
            i64::MIN
        } else {
            signed as i64
        }
    } else {
        0
    };
    let eta: i64 = if speed > 0 && total > transferred {
        let rest: i128 = total as i128 - transferred as i128;
        let seconds: i128 = rest / (speed as i128);
        if seconds > i64::MAX as i128 {
            i64::MAX
        } else {
            seconds as i64
        }
    } else {
        0
    };
    SpeedReading {
        sample: if fresh {
            SpeedSample { at_nanos: now_nanos, bytes: transferred }
        } else {
            sample
        },
        speed,
        eta,
    }
}

/// How a job ends.
#[derive(Debug, PartialEq, Eq)]
pub struct JobEnding {
    pub status: JobStatus,
    pub error: Option<String>,
    pub bytes_transferred: Option<i64>,
}

/// What the end of a job's transfer means for the job: a transfer that
/// came through completes it, with the bytes it moved; a cancelled transfer
/// cancels it; any other error fails it. A job that did not complete carries
/// the error's text.
pub fn job_ending(result: Result<i64, TransferError>) -> (out: JobEnding)
    ensures
        match result {
            Ok(bytes) => out == (JobEnding {
                status: JobStatus::Completed,
                error: None,
                bytes_transferred: Some(bytes),
            }),
            Err(error) => {
                &&& out.status == if error.is_cancellation() {
                    JobStatus::Cancelled
                } else {
                    JobStatus::Failed
                }
                &&& out.error matches Some(text) && text@ == error.text()
                &&& out.bytes_transferred is None
            },
        },
        crate::jobs::types::is_terminal(out.status),
{
    match result {
        Ok(bytes) => JobEnding {
            status: JobStatus::Completed,
            error: None,
            bytes_transferred: Some(bytes),
        },
        Err(error) => JobEnding {
            status: if error.cancelled() {
                JobStatus::Cancelled
            } else {
                JobStatus::Failed
            },
            error: Some(error.message()),
            bytes_transferred: None,
        },
    }
}

} // verus!
