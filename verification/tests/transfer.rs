use object0::transfer::client::{client_settings, uploads_empty_object, ClientError, ClientSettings};
use object0::transfer::copy::{
    copy_source, copy_step, delete_plan, report_staged_download, report_staged_upload, CopyAction,
    CopyEvent, CopyState, DeletePlan,
};
use object0::transfer::download::{
    content_length_or_zero, download_step, DownloadAction, DownloadEvent, DownloadState,
};
use object0::transfer::errors::TransferError;
use object0::transfer::listing::{listed_object, next_listing_page, trim_quotes, ListingPage};
use object0::transfer::upload::{
    upload_start, upload_step, UploadAction, UploadEvent, UploadState, MULTIPART_PART_SIZE_BYTES,
    MULTIPART_THRESHOLD_BYTES,
};

const MIB: i64 = 1024 * 1024;

fn run_upload(size: i64, reads: &[usize]) -> (Vec<UploadAction>, Vec<(i64, i64)>) {
    let mut actions = Vec::new();
    let mut progress = Vec::new();
    let mut state = upload_start(size);
    let mut event = UploadEvent::Begin;
    let mut reads = reads.iter();
    loop {
        let step = upload_step(state, event, false);
        if let Some(p) = step.progress {
            progress.push(p);
        }
        state = step.state;
        event = match &step.action {
            UploadAction::PutObject => UploadEvent::Stored,
            UploadAction::CreateMultipart => UploadEvent::Created { named: true },
            UploadAction::ReadPart { .. } => {
                UploadEvent::Read { len: reads.next().copied().unwrap_or(0) }
            }
            UploadAction::UploadPart { .. } => UploadEvent::Stored,
            UploadAction::Complete => UploadEvent::Stored,
            UploadAction::Abort => UploadEvent::Aborted,
            UploadAction::Finish(_) | UploadAction::Nothing => {
                actions.push(step.action);
                return (actions, progress);
            }
        };
        actions.push(step.action);
    }
}

#[test]
fn constants_of_the_upload() {
    assert_eq!(MULTIPART_THRESHOLD_BYTES, 5 * MIB);
    assert_eq!(MULTIPART_PART_SIZE_BYTES, 8 * 1024 * 1024);
}

#[test]
fn small_files_go_in_exactly_one_put() {
    for size in [0, 1, 5 * MIB - 1, 5 * MIB] {
        let (actions, progress) = run_upload(size, &[]);
        assert_eq!(actions, vec![UploadAction::PutObject, UploadAction::Finish(Ok(size))]);
        assert_eq!(progress, vec![(size, size)]);
    }
    let (actions, _) = run_upload(-9, &[]);
    assert_eq!(actions, vec![UploadAction::PutObject, UploadAction::Finish(Ok(0))]);
}

#[test]
fn large_files_go_in_numbered_parts_of_at_most_eight_mib() {
    let size = 20 * MIB;
    let part = MULTIPART_PART_SIZE_BYTES;
    let (actions, progress) = run_upload(size, &[part, part, 4 * 1024 * 1024]);
    assert_eq!(
        actions,
        vec![
            UploadAction::CreateMultipart,
            UploadAction::ReadPart { max_len: part },
            UploadAction::UploadPart { part_number: 1, len: part },
            UploadAction::ReadPart { max_len: part },
            UploadAction::UploadPart { part_number: 2, len: part },
            UploadAction::ReadPart { max_len: part },
            UploadAction::UploadPart { part_number: 3, len: 4 * 1024 * 1024 },
            UploadAction::ReadPart { max_len: part },
            UploadAction::Complete,
            UploadAction::Finish(Ok(size)),
        ]
    );
    assert_eq!(
        progress,
        vec![(8 * MIB, size), (16 * MIB, size), (20 * MIB, size), (size, size)]
    );
    let (actions, _) = run_upload(5 * MIB + 1, &[5 * 1024 * 1024 + 1]);
    assert_eq!(actions[0], UploadAction::CreateMultipart);
    assert_eq!(actions.last(), Some(&UploadAction::Finish(Ok(5 * MIB + 1))));
}

#[test]
fn a_cancelled_upload_sends_nothing() {
    let step = upload_step(upload_start(100), UploadEvent::Begin, true);
    assert_eq!(step.action, UploadAction::Finish(Err(TransferError::Cancelled)));
    assert_eq!(step.state, UploadState::Done);
}

#[test]
fn aborting_after_parts_leaves_no_completed_object() {
    let part = MULTIPART_PART_SIZE_BYTES;
    let mut state = upload_start(30 * MIB);
    let mut seen = Vec::new();
    let script: Vec<(UploadEvent, bool)> = vec![
        (UploadEvent::Begin, false),
        (UploadEvent::Created { named: true }, false),
        (UploadEvent::Read { len: part }, false),
        (UploadEvent::Stored, false),
        (UploadEvent::Read { len: part }, false),
        (UploadEvent::Stored, true),
        (UploadEvent::Aborted, true),
        (UploadEvent::Stored, false),
    ];
    for (event, cancelled) in script {
        let step = upload_step(state, event, cancelled);
        seen.push(step.action);
        state = step.state;
    }
    assert_eq!(
        seen,
        vec![
            UploadAction::CreateMultipart,
            UploadAction::ReadPart { max_len: part },
            UploadAction::UploadPart { part_number: 1, len: part },
            UploadAction::ReadPart { max_len: part },
            UploadAction::UploadPart { part_number: 2, len: part },
            UploadAction::Abort,
            UploadAction::Finish(Err(TransferError::Cancelled)),
            UploadAction::Nothing,
        ]
    );
    assert!(!seen.contains(&UploadAction::Complete));
}

#[test]
fn every_failure_of_a_multipart_upload_aborts_it() {
    let part = MULTIPART_PART_SIZE_BYTES;
    let failed = || UploadEvent::Failed("io".to_string());
    let reading = || UploadState::Reading { total: 9 * MIB, transferred: 0, next_part: 1 };
    let sending =
        || UploadState::Sending { total: 9 * MIB, transferred: 0, part_number: 1, len: part };
    let completing = || UploadState::Completing { total: 9 * MIB };
    for state in [reading(), sending(), completing()] {
        let step = upload_step(state, failed(), false);
        assert_eq!(step.action, UploadAction::Abort);
        let end = upload_step(step.state, UploadEvent::Aborted, false);
        assert_eq!(end.action, UploadAction::Finish(Err(TransferError::Failed("io".to_string()))));
    }
    let step = upload_step(reading(), UploadEvent::Read { len: 0 }, false);
    assert_eq!(step.action, UploadAction::Abort);
    assert_eq!(step.state, UploadState::Aborting { error: TransferError::NoParts });
    let step = upload_step(reading(), UploadEvent::Read { len: part + 1 }, false);
    assert_eq!(step.action, UploadAction::Abort);
    let step = upload_step(
        UploadState::Creating { total: 9 * MIB },
        UploadEvent::Created { named: false },
        false,
    );
    assert_eq!(step.action, UploadAction::Finish(Err(TransferError::MissingUploadId)));
    let step = upload_step(UploadState::Putting { total: 9 }, failed(), false);
    assert_eq!(step.action, UploadAction::Finish(Err(TransferError::Failed("io".to_string()))));
}

fn run_download(content_length: Option<i64>, chunks: &[usize], cancel_at: Option<usize>)
    -> (Vec<DownloadAction>, Vec<(i64, i64)>) {
    let mut actions = Vec::new();
    let mut progress = Vec::new();
    let mut state = DownloadState::Start;
    let mut event = DownloadEvent::Begin;
    let mut next = 0;
    loop {
        let cancelled = cancel_at.map(|at| next > at).unwrap_or(false);
        let step = download_step(state, event, cancelled);
        if let Some(p) = step.progress {
            progress.push(p);
        }
        state = step.state;
        event = match &step.action {
            DownloadAction::Open => DownloadEvent::Opened { content_length },
            DownloadAction::Receive => {
                if next < chunks.len() {
                    next += 1;
                    DownloadEvent::Chunk { len: chunks[next - 1] }
                } else {
                    DownloadEvent::End
                }
            }
            DownloadAction::Write => DownloadEvent::Written,
            DownloadAction::Flush => DownloadEvent::Flushed,
            DownloadAction::RemovePartial => DownloadEvent::Removed,
            DownloadAction::Finish(_) | DownloadAction::Nothing => {
                actions.push(step.action);
                return (actions, progress);
            }
        };
        actions.push(step.action);
    }
}

#[test]
fn a_download_reports_each_chunk_and_the_larger_count() {
    let (actions, progress) = run_download(Some(10), &[4, 6], None);
    assert_eq!(
        actions,
        vec![
            DownloadAction::Open,
            DownloadAction::Receive,
            DownloadAction::Write,
            DownloadAction::Receive,
            DownloadAction::Write,
            DownloadAction::Receive,
            DownloadAction::Flush,
            DownloadAction::Finish(Ok(10)),
        ]
    );
    assert_eq!(progress, vec![(4, 10), (10, 10)]);
    assert_eq!(run_download(Some(50), &[4], None).0.last(), Some(&DownloadAction::Finish(Ok(50))));
    assert_eq!(run_download(None, &[4, 3], None).0.last(), Some(&DownloadAction::Finish(Ok(7))));
    assert_eq!(run_download(Some(-3), &[], None).0.last(), Some(&DownloadAction::Finish(Ok(0))));
    assert_eq!(content_length_or_zero(Some(-1)), 0);
    assert_eq!(content_length_or_zero(None), 0);
    assert_eq!(content_length_or_zero(Some(9)), 9);
}

#[test]
fn a_download_cancelled_in_the_stream_removes_the_partial_file() {
    let (actions, _) = run_download(Some(10), &[4, 6], Some(1));
    assert_eq!(
        actions,
        vec![
            DownloadAction::Open,
            DownloadAction::Receive,
            DownloadAction::Write,
            DownloadAction::Receive,
            DownloadAction::RemovePartial,
            DownloadAction::Finish(Err(TransferError::Cancelled)),
        ]
    );
    let step = download_step(DownloadState::Start, DownloadEvent::Begin, true);
    assert_eq!(step.action, DownloadAction::Finish(Err(TransferError::Cancelled)));
}

#[test]
fn a_download_that_fails_with_its_file_there_removes_the_partial_file() {
    let states = [
        DownloadState::Streaming { total: 9, transferred: 4 },
        DownloadState::Writing { total: 9, transferred: 4, len: 2 },
        DownloadState::Flushing { total: 9, transferred: 9 },
    ];
    for state in states {
        let step = download_step(state, DownloadEvent::Failed("reset".to_string()), false);
        assert_eq!(step.action, DownloadAction::RemovePartial);
        assert_eq!(step.progress, None);
        assert_eq!(
            step.state,
            DownloadState::Removing { error: TransferError::Failed("reset".to_string()) }
        );
        let end = download_step(step.state, DownloadEvent::Removed, false);
        assert_eq!(
            end.action,
            DownloadAction::Finish(Err(TransferError::Failed("reset".to_string())))
        );
        assert_eq!(end.state, DownloadState::Done);
    }
    let end = download_step(
        DownloadState::Removing { error: TransferError::Cancelled },
        DownloadEvent::Failed("could not remove".to_string()),
        false,
    );
    assert_eq!(end.action, DownloadAction::Finish(Err(TransferError::Cancelled)));
}

#[test]
fn a_download_that_fails_before_its_file_is_there_ends_at_once() {
    let step =
        download_step(DownloadState::Requesting, DownloadEvent::Failed("denied".to_string()), false);
    assert_eq!(step.action, DownloadAction::Finish(Err(TransferError::Failed("denied".to_string()))));
    assert_eq!(step.state, DownloadState::Done);
    let step = download_step(DownloadState::Start, DownloadEvent::Failed("x".to_string()), false);
    assert_eq!(step.action, DownloadAction::Finish(Err(TransferError::Failed("x".to_string()))));
}

#[test]
fn a_report_out_of_step_removes_the_partial_file_too() {
    let step = download_step(
        DownloadState::Writing { total: 9, transferred: 4, len: 2 },
        DownloadEvent::Flushed,
        false,
    );
    assert_eq!(step.action, DownloadAction::RemovePartial);
    assert_eq!(step.state, DownloadState::Removing { error: TransferError::OutOfStep });
    let step = download_step(DownloadState::Requesting, DownloadEvent::Written, false);
    assert_eq!(step.action, DownloadAction::Finish(Err(TransferError::OutOfStep)));
}

fn run_copy(
    same_store: bool,
    is_move: bool,
    results: &[Result<i64, TransferError>],
    cancel_from: usize,
) -> Vec<CopyAction> {
    let mut actions = Vec::new();
    let mut state = CopyState::Start;
    let mut event = CopyEvent::Begin;
    let mut used = 0;
    let mut steps = 0;
    loop {
        let step = copy_step(state, event, same_store, is_move, steps >= cancel_from);
        steps += 1;
        state = step.state;
        event = match &step.action {
            CopyAction::NativeCopy
            | CopyAction::StageDownload
            | CopyAction::StageUpload
            | CopyAction::DeleteSource => {
                used += 1;
                match &results[used - 1] {
                    Ok(n) => CopyEvent::Came(Ok(*n)),
                    Err(TransferError::Cancelled) => CopyEvent::Came(Err(TransferError::Cancelled)),
                    Err(e) => CopyEvent::Came(Err(TransferError::Failed(e.message()))),
                }
            }
            CopyAction::RemoveTemp => CopyEvent::TempRemoved,
            CopyAction::Finish(_) | CopyAction::Nothing => {
                actions.push(step.action);
                return actions;
            }
        };
        actions.push(step.action);
    }
}

fn failed(text: &str) -> TransferError {
    TransferError::Failed(text.to_string())
}

#[test]
fn a_copy_within_one_store_is_tried_on_the_stores_side_first() {
    assert_eq!(
        run_copy(true, false, &[Ok(7)], 99),
        vec![CopyAction::NativeCopy, CopyAction::Finish(Ok(7))]
    );
    assert_eq!(
        run_copy(true, false, &[Err(failed("denied")), Ok(7), Ok(7)], 99),
        vec![
            CopyAction::NativeCopy,
            CopyAction::StageDownload,
            CopyAction::StageUpload,
            CopyAction::RemoveTemp,
            CopyAction::Finish(Ok(7)),
        ]
    );
    assert_eq!(
        run_copy(true, false, &[Err(TransferError::Cancelled)], 99),
        vec![CopyAction::NativeCopy, CopyAction::Finish(Err(TransferError::Cancelled))]
    );
}

#[test]
fn a_failed_fallback_reports_both_errors() {
    let actions = run_copy(true, false, &[Err(failed("denied")), Err(failed("no space"))], 99);
    assert_eq!(actions.len(), 4);
    assert_eq!(actions[2], CopyAction::RemoveTemp);
    match &actions[3] {
        CopyAction::Finish(Err(error)) => {
            assert_eq!(error.message(), "denied; fallback copy failed: no space");
            assert!(!error.cancelled());
        }
        other => panic!("{other:?}"),
    }
}

#[test]
fn a_copy_between_stores_is_staged() {
    assert_eq!(
        run_copy(false, false, &[Ok(7), Ok(7)], 99),
        vec![
            CopyAction::StageDownload,
            CopyAction::StageUpload,
            CopyAction::RemoveTemp,
            CopyAction::Finish(Ok(7)),
        ]
    );
    assert_eq!(
        run_copy(false, false, &[Err(failed("gone"))], 99),
        vec![
            CopyAction::StageDownload,
            CopyAction::RemoveTemp,
            CopyAction::Finish(Err(failed("gone"))),
        ]
    );
}

#[test]
fn a_move_deletes_the_source_after_the_copy() {
    assert_eq!(
        run_copy(true, true, &[Ok(7), Ok(0)], 99),
        vec![CopyAction::NativeCopy, CopyAction::DeleteSource, CopyAction::Finish(Ok(7))]
    );
    assert_eq!(
        run_copy(false, true, &[Ok(7), Ok(7), Ok(0)], 99),
        vec![
            CopyAction::StageDownload,
            CopyAction::StageUpload,
            CopyAction::RemoveTemp,
            CopyAction::DeleteSource,
            CopyAction::Finish(Ok(7)),
        ]
    );
    assert_eq!(
        run_copy(true, true, &[Ok(7), Err(failed("locked"))], 99),
        vec![
            CopyAction::NativeCopy,
            CopyAction::DeleteSource,
            CopyAction::Finish(Err(failed("locked")))
        ]
    );
}

#[test]
fn a_cancelled_move_keeps_its_source() {
    let actions = run_copy(true, true, &[Ok(7)], 1);
    assert_eq!(
        actions,
        vec![CopyAction::NativeCopy, CopyAction::Finish(Err(TransferError::Cancelled))]
    );
    let actions = run_copy(false, true, &[Ok(7), Ok(7)], 3);
    assert!(!actions.contains(&CopyAction::DeleteSource));
    assert_eq!(actions.last(), Some(&CopyAction::Finish(Err(TransferError::Cancelled))));
    let actions = run_copy(true, true, &[Err(failed("x")), Err(failed("y"))], 99);
    assert!(!actions.contains(&CopyAction::DeleteSource));
}

#[test]
fn staged_copies_report_two_halves() {
    assert_eq!(report_staged_download(0, 100), 0);
    assert_eq!(report_staged_download(50, 100), 25);
    assert_eq!(report_staged_download(100, 100), 50);
    assert_eq!(report_staged_download(400, 100), 100);
    assert_eq!(report_staged_upload(0, 100), 50);
    assert_eq!(report_staged_upload(50, 100), 75);
    assert_eq!(report_staged_upload(100, 100), 100);
    assert_eq!(report_staged_upload(300, 100), 100);
    assert_eq!(report_staged_upload(1, 0), 0);
    assert_eq!(report_staged_download(7, 5), 3);
}

#[test]
fn keys_are_deleted_alone_or_in_one_batch() {
    assert_eq!(delete_plan(&Vec::new()), DeletePlan::Nothing);
    assert_eq!(delete_plan(&vec!["a".to_string()]), DeletePlan::Single("a".to_string()));
    assert_eq!(
        delete_plan(&vec!["a".to_string(), "b".to_string()]),
        DeletePlan::Batch(vec!["a".to_string(), "b".to_string()])
    );
}

#[test]
fn the_source_of_a_copy_is_percent_encoded() {
    assert_eq!(copy_source("bucket", "a/b/c.txt"), "bucket/a/b/c%2Etxt");
    assert_eq!(copy_source("bucket", "my file+1.txt"), "bucket/my%20file%2B1%2Etxt");
    assert_eq!(copy_source("b", "é"), "b/%C3%A9");
    assert_eq!(copy_source("b", "AZaz09/"), "b/AZaz09/");
    assert_eq!(copy_source("b", ""), "b/");
    assert_eq!(copy_source("b", "~_-"), "b/%7E%5F%2D");
}

#[test]
fn transfer_errors_have_their_messages() {
    assert_eq!(TransferError::Cancelled.message(), "Job cancelled");
    assert_eq!(failed("x").message(), "x");
    assert_eq!(TransferError::MissingUploadId.message(), "Missing multipart upload id");
    assert_eq!(TransferError::NoParts.message(), "Multipart upload produced no parts");
    assert_eq!(TransferError::NothingSelected.message(), "No objects selected for archive");
    assert_eq!(
        TransferError::InvalidEntryKey("../x".to_string()).message(),
        "Invalid object key for archive entry: ../x"
    );
    assert_eq!(
        TransferError::InvalidEntryPath { path: "p".to_string(), reason: "too long".to_string() }
            .message(),
        "Invalid archive entry path p: too long"
    );
    assert_eq!(
        TransferError::SizeMismatch { path: "p".to_string(), expected: 10, downloaded: 7 }
            .message(),
        "Unexpected size for p (expected 10, downloaded 7)"
    );
    assert!(TransferError::Cancelled.cancelled());
    assert!(failed("Job cancelled").cancelled());
    assert!(!failed("job cancelled").cancelled());
    assert_eq!(TransferError::from_message("Job cancelled".to_string()), TransferError::Cancelled);
    assert_eq!(TransferError::from_message("other".to_string()), failed("other"));
}

#[test]
fn listed_entries_are_normalised() {
    assert_eq!(trim_quotes("\"abc\""), "abc");
    assert_eq!(trim_quotes("\"\"a\"b\"\""), "a\"b");
    assert_eq!(trim_quotes("abc"), "abc");
    assert_eq!(trim_quotes("\"\""), "");
    assert_eq!(trim_quotes(""), "");
    for s in ["\"", "\"a", "a\"", "\"\"\"", "a\"\"b", "\"a\"b\""] {
        assert_eq!(trim_quotes(s), s.trim_matches('"'), "{s:?}");
    }
    let o = listed_object(Some("k"), Some(-4), Some("\"e\""), Some(0), "now");
    assert_eq!(o.key, "k");
    assert_eq!(o.size, 0);
    assert_eq!(o.etag, "e");
    assert_eq!(o.last_modified, "1970-01-01T00:00:00+00:00");
    let o = listed_object(None, None, None, None, "now");
    assert_eq!((o.key.as_str(), o.size, o.etag.as_str(), o.last_modified.as_str()), ("", 0, "", "now"));
    assert_eq!(listed_object(Some("k"), Some(12), None, None, "n").size, 12);
}

#[test]
fn listings_go_on_while_pages_are_cut_short() {
    assert_eq!(
        next_listing_page(Some(true), Some("t".to_string())),
        ListingPage::More(Some("t".to_string()))
    );
    assert_eq!(next_listing_page(Some(true), None), ListingPage::More(None));
    assert_eq!(next_listing_page(Some(false), Some("t".to_string())), ListingPage::Done);
    assert_eq!(next_listing_page(None, Some("t".to_string())), ListingPage::Done);
}

#[test]
fn clients_are_set_up_from_profiles() {
    let none: Option<String> = None;
    assert_eq!(
        client_settings("aws", " ", "secret", &none, &none, &none),
        Err(ClientError::MissingCredentials)
    );
    assert_eq!(
        client_settings("aws", "key", "", &none, &none, &none),
        Err(ClientError::MissingCredentials)
    );
    assert_eq!(ClientError::MissingCredentials.message(), "Profile credentials are missing");
    assert_eq!(
        client_settings("aws", "key", "secret", &none, &none, &none),
        Ok(ClientSettings {
            access_key_id: "key".to_string(),
            secret_access_key: "secret".to_string(),
            session_token: None,
            region: "us-east-1".to_string(),
            endpoint: None,
            force_path_style: false,
        })
    );
    assert_eq!(
        client_settings(
            "minio",
            "key",
            "secret",
            &Some("tok".to_string()),
            &Some(" http://localhost:9000 ".to_string()),
            &Some(" eu-west-1\n".to_string()),
        ),
        Ok(ClientSettings {
            access_key_id: "key".to_string(),
            secret_access_key: "secret".to_string(),
            session_token: Some("tok".to_string()),
            region: "eu-west-1".to_string(),
            endpoint: Some("http://localhost:9000".to_string()),
            force_path_style: true,
        })
    );
    let s = client_settings("custom", "k", "s", &none, &Some("  ".to_string()), &Some("".to_string()))
        .unwrap();
    assert_eq!(s.endpoint, None);
    assert_eq!(s.region, "us-east-1");
    assert!(s.force_path_style);
    assert!(uploads_empty_object("  "));
    assert!(!uploads_empty_object("/tmp/f"));
}

#[test]
fn a_file_read_to_its_end_goes_up_in_full_parts_and_one_last_part() {
    let part = MULTIPART_PART_SIZE_BYTES;
    for size in [5 * MIB + 1, 8 * MIB, 8 * MIB + 1, 20 * MIB, 24 * MIB, 33 * MIB + 7] {
        let mut reads = Vec::new();
        let mut rest = size as usize;
        while rest > 0 {
            reads.push(rest.min(part));
            rest -= rest.min(part);
        }
        let (actions, progress) = run_upload(size, &reads);
        let sent: Vec<(i32, usize)> = actions
            .iter()
            .filter_map(|action| match action {
                UploadAction::UploadPart { part_number, len } => Some((*part_number, *len)),
                _ => None,
            })
            .collect();
        let count = (size as usize + part - 1) / part;
        assert_eq!(sent.len(), count);
        for (i, (number, len)) in sent.iter().enumerate() {
            assert_eq!(*number as usize, i + 1);
            if i + 1 < count {
                assert_eq!(*len, part);
            } else {
                assert_eq!(*len, size as usize - (count - 1) * part);
            }
        }
        assert_eq!(sent.iter().map(|(_, len)| *len).sum::<usize>(), size as usize);
        assert_eq!(actions[0], UploadAction::CreateMultipart);
        assert!(!actions.contains(&UploadAction::PutObject));
        assert_eq!(actions[actions.len() - 2], UploadAction::Complete);
        assert_eq!(actions.last(), Some(&UploadAction::Finish(Ok(size))));
        assert_eq!(progress.last(), Some(&(size, size)));
    }
}
