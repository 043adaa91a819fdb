use object0::jobs::types::{JobTaskKind, JobType};
use object0::text::ends_with;
use object0::transfer::plan::{
    archive_file_name, archive_prefix, archive_request, common_parent, copy_request,
    cross_bucket_requests, download_request, last_part_or_else, select_for_archive, unique_keys,
    upload_request, ArchiveSelection, CopyEnds, SizedKey,
};

fn strings(items: &[&str]) -> Vec<String> {
    items.iter().map(|item| item.to_string()).collect()
}

fn sized(key: &str, size: i64) -> SizedKey {
    SizedKey { key: key.to_string(), size }
}

fn ends() -> CopyEnds {
    CopyEnds {
        source_profile_id: "home".to_string(),
        source_bucket: "from".to_string(),
        dest_profile_id: "work".to_string(),
        dest_bucket: "to".to_string(),
    }
}

#[test]
fn a_key_is_kept_where_it_occurs_first() {
    assert_eq!(unique_keys(&strings(&["b", "a", "b", "c", "a"])), strings(&["b", "a", "c"]));
    assert_eq!(unique_keys(&strings(&[])), strings(&[]));
    assert_eq!(unique_keys(&strings(&["x", "x", "x"])), strings(&["x"]));
}

#[test]
fn an_archive_counts_each_object_once() {
    let selection = select_for_archive(&vec![
        sized("a/1.txt", 10),
        sized("a/2.txt", 5),
        sized("a/1.txt", 10),
        sized("a/3.txt", -4),
    ]);
    assert_eq!(
        selection,
        ArchiveSelection { keys: strings(&["a/1.txt", "a/2.txt", "a/3.txt"]), bytes_total: 15 }
    );
}

#[test]
fn the_sizes_of_an_archive_stay_within_range() {
    let selection = select_for_archive(&vec![sized("a", i64::MAX), sized("b", 1)]);
    assert_eq!(selection.bytes_total, i64::MAX);
}

#[test]
fn the_common_parent_ends_in_a_slash() {
    assert_eq!(common_parent(&strings(&["a/b/c.txt", "a/b/d.txt"])), "a/b/");
    assert_eq!(common_parent(&strings(&["a/b/c.txt", "a/bx/d.txt"])), "a/");
    assert_eq!(common_parent(&strings(&["a/b/c.txt", "a/b/c/d.txt"])), "a/b/");
    assert_eq!(common_parent(&strings(&["photos/2024/a.jpg"])), "photos/2024/");
}

#[test]
fn keys_without_a_shared_directory_have_no_common_parent() {
    assert_eq!(common_parent(&strings(&["a/b.txt", "c/d.txt"])), "");
    assert_eq!(common_parent(&strings(&["a.txt", "a/b.txt"])), "");
    assert_eq!(common_parent(&strings(&["top.txt"])), "");
    assert_eq!(common_parent(&strings(&[])), "");
}

#[test]
fn every_key_begins_with_the_common_parent() {
    let keys = strings(&["x/y/z/1", "x/y/zz/2", "x/y/3", "x/y/z/4/5"]);
    let parent = common_parent(&keys);
    assert_eq!(parent, "x/y/");
    for key in &keys {
        assert!(key.starts_with(&parent));
    }
}

#[test]
fn the_prefix_asked_for_goes_before_the_common_parent() {
    let keys = strings(&["a/b/c.txt", "a/b/d.txt"]);
    assert_eq!(archive_prefix("a", &keys), "a/");
    assert_eq!(archive_prefix("a/", &keys), "a/");
    assert_eq!(archive_prefix("", &keys), "a/b/");
}

#[test]
fn the_last_part_of_a_prefix_names_the_archive() {
    assert_eq!(last_part_or_else("photos/2024/", "archive"), "2024");
    assert_eq!(last_part_or_else("photos//", "archive"), "photos");
    assert_eq!(last_part_or_else("///", "archive"), "archive");
    assert_eq!(last_part_or_else("", "download"), "download");
    assert_eq!(archive_file_name(None, "photos/2024/", "bucket"), "2024.tar.gz");
    assert_eq!(archive_file_name(None, "/", "bucket"), "archive.tar.gz");
    assert_eq!(archive_file_name(None, "", "bucket"), "bucket-export.tar.gz");
}

#[test]
fn an_archive_name_ends_in_tar_gz() {
    assert_eq!(archive_file_name(Some("mine"), "photos/", "bucket"), "mine.tar.gz");
    assert_eq!(archive_file_name(Some("mine.tar.gz"), "photos/", "bucket"), "mine.tar.gz");
    assert_eq!(archive_file_name(Some("mine.zip"), "", "bucket"), "mine.zip.tar.gz");
    assert_eq!(archive_file_name(Some(""), "", "bucket"), ".tar.gz");
}

#[test]
fn a_text_ends_with_its_suffix() {
    assert!(ends_with("a.tar.gz", ".tar.gz"));
    assert!(ends_with(".tar.gz", ".tar.gz"));
    assert!(ends_with("abc", ""));
    assert!(!ends_with("tar.gz", ".tar.gz"));
    assert!(!ends_with("a.tar.gx", ".tar.gz"));
}

#[test]
fn an_archive_job_names_its_objects() {
    let selection =
        ArchiveSelection { keys: strings(&["a/1.txt", "a/2.txt"]), bytes_total: 15 };
    let request = archive_request(
        "home",
        "bucket",
        selection,
        "a/".to_string(),
        "/tmp/out.tar.gz".to_string(),
        "out.tar.gz".to_string(),
    );
    assert_eq!(request.job_type, JobType::Archive);
    assert_eq!(request.file_name, "out.tar.gz");
    assert_eq!(request.description, "Archive 2 object(s) from bucket");
    assert_eq!(request.bytes_total, 15);
    assert_eq!(
        request.kind,
        JobTaskKind::Archive {
            profile_id: "home".to_string(),
            bucket: "bucket".to_string(),
            keys: strings(&["a/1.txt", "a/2.txt"]),
            common_prefix: "a/".to_string(),
            destination_path: "/tmp/out.tar.gz".to_string(),
        }
    );
}

#[test]
fn an_upload_job_says_where_it_uploads_to() {
    let request = upload_request(
        "home",
        "bucket",
        "docs/a.txt".to_string(),
        "a.txt".to_string(),
        "/home/u/a.txt".to_string(),
        42,
    );
    assert_eq!(request.job_type, JobType::Upload);
    assert_eq!(request.file_name, "a.txt");
    assert_eq!(request.description, "Upload to bucket/docs/a.txt");
    assert_eq!(request.bytes_total, 42);
    assert_eq!(
        request.kind,
        JobTaskKind::Upload {
            profile_id: "home".to_string(),
            bucket: "bucket".to_string(),
            key: "docs/a.txt".to_string(),
            local_path: "/home/u/a.txt".to_string(),
        }
    );
}

#[test]
fn a_download_job_says_what_it_downloads() {
    let request = download_request(
        "home",
        "bucket",
        "docs/a.txt".to_string(),
        "a.txt".to_string(),
        "/home/u/a.txt".to_string(),
        0,
    );
    assert_eq!(request.job_type, JobType::Download);
    assert_eq!(request.description, "Download bucket/docs/a.txt");
    assert_eq!(
        request.kind,
        JobTaskKind::Download {
            profile_id: "home".to_string(),
            bucket: "bucket".to_string(),
            key: "docs/a.txt".to_string(),
            local_path: "/home/u/a.txt".to_string(),
        }
    );
}

#[test]
fn a_copy_and_a_move_differ_in_their_word_and_kind() {
    let copy = copy_request(false, &ends(), "a/b.txt", "c/d.txt");
    assert_eq!(copy.job_type, JobType::Copy);
    assert_eq!(copy.file_name, "b.txt");
    assert_eq!(copy.description, "Copy from/a/b.txt -> to/c/d.txt");
    assert_eq!(copy.bytes_total, 0);
    assert_eq!(
        copy.kind,
        JobTaskKind::Copy {
            source_profile_id: "home".to_string(),
            source_bucket: "from".to_string(),
            source_key: "a/b.txt".to_string(),
            dest_profile_id: "work".to_string(),
            dest_bucket: "to".to_string(),
            dest_key: "c/d.txt".to_string(),
        }
    );
    let moved = copy_request(true, &ends(), "a/b.txt", "c/d.txt");
    assert_eq!(moved.job_type, JobType::Move);
    assert_eq!(moved.description, "Move from/a/b.txt -> to/c/d.txt");
    assert_eq!(
        moved.kind,
        JobTaskKind::Move {
            source_profile_id: "home".to_string(),
            source_bucket: "from".to_string(),
            source_key: "a/b.txt".to_string(),
            dest_profile_id: "work".to_string(),
            dest_bucket: "to".to_string(),
            dest_key: "c/d.txt".to_string(),
        }
    );
}

#[test]
fn a_transfer_between_buckets_moves_each_key_below_the_new_prefix() {
    let requests = cross_bucket_requests(
        false,
        &ends(),
        "src/",
        "dst/",
        &strings(&["src/a.txt", "other/b.txt", "src/a.txt", "src/sub/c.txt"]),
    );
    let seen: Vec<(String, String)> = requests
        .iter()
        .map(|request| match &request.kind {
            JobTaskKind::Copy { source_key, dest_key, .. } => {
                (source_key.clone(), dest_key.clone())
            }
            other => panic!("not a copy: {other:?}"),
        })
        .collect();
    assert_eq!(
        seen,
        vec![
            ("src/a.txt".to_string(), "dst/a.txt".to_string()),
            ("other/b.txt".to_string(), "dst/other/b.txt".to_string()),
            ("src/sub/c.txt".to_string(), "dst/sub/c.txt".to_string()),
        ]
    );
    assert_eq!(requests[0].description, "Copy -> to/dst/a.txt");
    assert_eq!(requests[0].file_name, "a.txt");
    assert_eq!(requests[2].file_name, "c.txt");
}

#[test]
fn a_move_between_buckets_asks_for_moves() {
    let requests = cross_bucket_requests(true, &ends(), "", "", &strings(&["k"]));
    assert_eq!(requests.len(), 1);
    assert_eq!(requests[0].job_type, JobType::Move);
    assert_eq!(requests[0].description, "Move -> to/k");
    assert!(matches!(requests[0].kind, JobTaskKind::Move { .. }));
}
