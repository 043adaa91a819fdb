use object0::clock::{millis_or_zero, parse_iso_millis, s3_datetime_to_iso, timestamp_or};
use object0::jobs::scheduler::JobRuntime;
use object0::jobs::types::{JobTaskKind, JobType};

#[test]
fn timestamps_are_read_as_milliseconds() {
    assert_eq!(parse_iso_millis("1970-01-01T00:00:00Z"), 0);
    assert_eq!(parse_iso_millis("1970-01-01T00:00:01.500Z"), 1500);
    assert_eq!(parse_iso_millis("2001-09-09T01:46:40+00:00"), 1_000_000_000_000);
    assert_eq!(parse_iso_millis("2001-09-09T03:46:40+02:00"), 1_000_000_000_000);
    assert_eq!(parse_iso_millis("1969-12-31T23:59:59Z"), -1000);
}

#[test]
fn unreadable_timestamps_count_as_zero() {
    assert_eq!(parse_iso_millis(""), 0);
    assert_eq!(parse_iso_millis("yesterday"), 0);
    assert_eq!(parse_iso_millis("2001-09-09"), 0);
    assert_eq!(millis_or_zero(None), 0);
    assert_eq!(millis_or_zero(Some(-5)), -5);
}

#[test]
fn store_instants_are_written_as_text() {
    assert_eq!(s3_datetime_to_iso(Some(0), "now"), "1970-01-01T00:00:00+00:00");
    assert_eq!(
        s3_datetime_to_iso(Some(1_000_000_000_555), "now"),
        "2001-09-09T01:46:40.555+00:00"
    );
    assert_eq!(s3_datetime_to_iso(None, "now"), "now");
    assert_eq!(s3_datetime_to_iso(Some(i64::MAX), "now"), "now");
    assert_eq!(timestamp_or(None, "fallback"), "fallback");
    assert_eq!(timestamp_or(Some("t".to_string()), "fallback"), "t");
}

#[test]
fn written_instants_are_read_back() {
    for millis in [0i64, 1, 999, 1_700_000_000_123, -86_400_000] {
        let text = s3_datetime_to_iso(Some(millis), "");
        assert_eq!(parse_iso_millis(&text), millis);
    }
}

fn enqueue(rt: &mut JobRuntime) -> (String, String) {
    let kind = JobTaskKind::Delete {
        profile_id: "p".to_string(),
        bucket: "b".to_string(),
        keys: vec!["k".to_string()],
    };
    let e = rt.enqueue_job(JobType::Delete, "f".to_string(), "d".to_string(), 1, kind);
    (e.job.id, e.job.created_at)
}

#[test]
fn jobs_are_created_at_the_current_time() {
    let mut rt = JobRuntime::new();
    let (_, created_at) = enqueue(&mut rt);
    assert!(parse_iso_millis(&created_at) > 1_600_000_000_000);
}

#[test]
fn fresh_identities_differ() {
    let mut rt = JobRuntime::new();
    let (a, _) = enqueue(&mut rt);
    let (b, _) = enqueue(&mut rt);
    assert_ne!(a, b);
    assert_eq!(a.len(), 36);
    assert_eq!(a.chars().filter(|c| *c == '-').count(), 4);
}
