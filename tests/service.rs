use std::io::Read;

use logvault::{
    archive_file_name, bad_request, build_archive, content_disposition, daily_dir,
    download_archive, entry_name, health_body, internal_error, route, sanitize_file_name,
    stored_file_name, stored_file_path, upload_success_body, ApiError, Endpoint, LocalDateTime,
    StoredFile, UploadSession, ARCHIVE_CONTENT_TYPE,
};

fn reading(year: i32, month: u32, day: u32, unix_secs: i64) -> LocalDateTime {
    LocalDateTime::new(year, month, day, 13, 5, 9, unix_secs).unwrap()
}

fn read_archive(bytes: Vec<u8>) -> Vec<(String, Vec<u8>)> {
    let mut archive = zip::ZipArchive::new(std::io::Cursor::new(bytes)).unwrap();
    let mut out = Vec::new();
    for i in 0..archive.len() {
        let mut f = archive.by_index(i).unwrap();
        let mut data = Vec::new();
        f.read_to_end(&mut data).unwrap();
        out.push((f.name().to_string(), data));
    }
    out
}

#[test]
fn health_body_is_exact() {
    assert_eq!(health_body(), r#"{"status":"ok","message":"Server is running :)"}"#);
}

#[test]
fn upload_success_body_is_exact() {
    assert_eq!(upload_success_body(), r#"{"status":"success","message":"File uploaded successfully"}"#);
}

#[test]
fn routes_match_method_and_path() {
    assert_eq!(route("GET", "/health"), Some(Endpoint::Health));
    assert_eq!(route("POST", "/upload"), Some(Endpoint::Upload));
    assert_eq!(route("GET", "/download"), Some(Endpoint::Download));
    assert_eq!(route("POST", "/health"), None);
    assert_eq!(route("GET", "/upload"), None);
    assert_eq!(route("GET", "/other"), None);
}

#[test]
fn date_and_stamp_formats() {
    let t = reading(2024, 3, 7, 1709812345);
    assert_eq!(t.date_string(), "2024-03-07");
    assert_eq!(t.stamp_string(), "20240307_130509");
    assert_eq!(reading(987, 12, 31, 0).date_string(), "0987-12-31");
    assert_eq!(reading(-5, 1, 2, 0).date_string(), "-0005-01-02");
    assert_eq!(reading(12345, 1, 2, 0).date_string(), "+12345-01-02");
}

#[test]
fn reading_rejects_out_of_range_fields() {
    assert!(LocalDateTime::new(2024, 13, 1, 0, 0, 0, 0).is_none());
    assert!(LocalDateTime::new(2024, 1, 0, 0, 0, 0, 0).is_none());
    assert!(LocalDateTime::new(2024, 1, 1, 24, 0, 0, 0).is_none());
    assert!(LocalDateTime::new(2024, 1, 1, 23, 59, 59, 0).is_some());
}

#[test]
fn sanitizing_replaces_separators() {
    assert_eq!(sanitize_file_name("a/b.txt"), "a_b.txt");
    assert_eq!(sanitize_file_name("..\\x/../y"), ".._x_.._y");
    assert_eq!(sanitize_file_name(""), "");
    assert_eq!(sanitize_file_name("plain.log"), "plain.log");
}

#[test]
fn stored_names_and_paths() {
    assert_eq!(stored_file_name(1700000000, "test.log"), "1700000000_test.log");
    assert_eq!(stored_file_name(0, "a/b"), "0_a_b");
    assert_eq!(stored_file_name(-42, "x"), "-42_x");
    let t = reading(2024, 3, 7, 1709812345);
    assert_eq!(daily_dir("/data", &t), "/data/2024-03-07");
    assert_eq!(stored_file_path("/data", &t, "a/b.txt"), "/data/2024-03-07/1709812345_a_b.txt");
}

#[test]
fn upload_plan_scenario() {
    let day = reading(2024, 3, 7, 1709812345);
    let mut session = UploadSession::at("/data", day);
    let target = session.plan_part_at(&day, Some("file"), Some("test.log")).unwrap();
    assert_eq!(target.dir, "/data/2024-03-07");
    assert_eq!(target.path, "/data/2024-03-07/1709812345_test.log");
    session.record_saved();
    assert_eq!(session.finish(), Ok(upload_success_body()));
}

#[test]
fn upload_missing_file_name_is_rejected() {
    let day = reading(2024, 3, 7, 1);
    let session = UploadSession::at("/data", day);
    let r = session.plan_part_at(&day, Some("file"), None);
    assert_eq!(r, Err(bad_request("File name is missing")));
    let r = session.plan_part_at(&day, Some("file"), Some(""));
    assert_eq!(r, Err(bad_request("File name is missing")));
    let e = r.unwrap_err();
    assert_eq!(e.status_code(), 400);
}

#[test]
fn upload_missing_field_name_is_rejected() {
    let day = reading(2024, 3, 7, 1);
    let session = UploadSession::at("/data", day);
    assert_eq!(
        session.plan_part_at(&day, None, Some("a.log")),
        Err(bad_request("Field name is missing"))
    );
    assert_eq!(
        session.plan_part_at(&day, Some(""), Some("a.log")),
        Err(bad_request("Field name is missing"))
    );
}

#[test]
fn upload_without_parts_is_rejected() {
    let session = UploadSession::at("/data", reading(2024, 3, 7, 1));
    let e = session.finish().unwrap_err();
    assert_eq!(e.status_code(), 400);
    assert!(e.message().contains("No file was uploaded"));
    assert_eq!(
        e.body(),
        r#"{"error":"There is something wrong with your request: No file was uploaded"}"#
    );
}

#[test]
fn uploads_on_different_days_use_different_directories() {
    let day1 = reading(2024, 3, 7, 1709812345);
    let day2 = reading(2024, 3, 8, 1709898745);
    let a = UploadSession::at("/data", day1).plan_part_at(&day1, Some("f"), Some("x.log")).unwrap();
    let b = UploadSession::at("/data", day2).plan_part_at(&day2, Some("f"), Some("x.log")).unwrap();
    assert_ne!(a.dir, b.dir);
    assert_eq!(b.dir, "/data/2024-03-08");
}

#[test]
fn session_now_uses_the_clock() {
    let session = UploadSession::start("/data");
    let target = session.plan_part(Some("file"), Some("a/b.log")).unwrap();
    assert!(target.dir.starts_with("/data/"));
    assert!(target.path.starts_with(&format!("{}/", target.dir)));
    assert!(target.path.ends_with("_a_b.log"));
}

#[test]
fn download_of_missing_root_is_not_found() {
    let r = download_archive(false, "/data", &Vec::new());
    let e = r.unwrap_err();
    assert_eq!(e, ApiError::NotFound);
    assert_eq!(e.status_code(), 404);
    assert_eq!(e.body(), r#"{"error":"No resources could be found."}"#);
}

#[test]
fn upload_then_download_scenario() {
    let day = reading(2024, 3, 7, 1709812345);
    let session = UploadSession::at("/data", day);
    let target = session.plan_part_at(&day, Some("file"), Some("test.log")).unwrap();
    let files = vec![StoredFile { path: target.path.clone(), data: b"hello".to_vec() }];
    let bytes = download_archive(true, "/data", &files).unwrap();
    let entries = read_archive(bytes);
    assert_eq!(entries.len(), 1);
    assert_eq!(entries[0].0, "2024-03-07/1709812345_test.log");
    assert_eq!(entries[0].1, b"hello".to_vec());
}

#[test]
fn archive_keeps_every_file_byte_for_byte() {
    let big: Vec<u8> = (0..5000u32).map(|i| (i * 7 % 251) as u8).collect();
    let files = vec![
        StoredFile { path: "/root/d1/1_a.log".to_string(), data: b"first".to_vec() },
        StoredFile { path: "/root/d2/2_b.log".to_string(), data: Vec::new() },
        StoredFile { path: "/root/d2/3_c.bin".to_string(), data: big.clone() },
    ];
    let entries = read_archive(build_archive("/root", &files).unwrap());
    assert_eq!(
        entries,
        vec![
            ("d1/1_a.log".to_string(), b"first".to_vec()),
            ("d2/2_b.log".to_string(), Vec::new()),
            ("d2/3_c.bin".to_string(), big),
        ]
    );
}

#[test]
fn empty_root_gives_an_empty_archive() {
    let entries = read_archive(build_archive("/root", &Vec::new()).unwrap());
    assert!(entries.is_empty());
}

#[test]
fn entry_name_of_sanitized_upload_matches_storage_path() {
    let t = reading(2024, 3, 7, 1709812345);
    let path = stored_file_path("/data", &t, "a/b.txt");
    assert_eq!(entry_name("/data", &path), Ok("2024-03-07/1709812345_a_b.txt".to_string()));
}

#[test]
fn entry_name_outside_root_is_an_error() {
    let e = entry_name("/data", "/other/x").unwrap_err();
    assert_eq!(e, internal_error("Path error: prefix not found"));
    assert_eq!(entry_name("/data", "/data"), Err(internal_error("Path error: prefix not found")));
    assert_eq!(entry_name("/data", "/database/x"), Err(internal_error("Path error: prefix not found")));
    let files = vec![StoredFile { path: "/elsewhere/x".to_string(), data: Vec::new() }];
    let e = build_archive("/data", &files).unwrap_err();
    assert_eq!(e.status_code(), 500);
}

#[test]
fn error_statuses_and_bodies() {
    let e = internal_error("disk full");
    assert_eq!(e.status_code(), 500);
    assert_eq!(e.message(), "Something went wrong. Probably not your fault: disk full");
    let e = bad_request("say \"hi\"\n");
    assert_eq!(
        e.body(),
        "{\"error\":\"There is something wrong with your request: say \\\"hi\\\"\\n\"}"
    );
}

#[test]
fn download_headers() {
    let t = reading(2024, 3, 7, 0);
    let name = archive_file_name(&t);
    assert_eq!(name, "logs_20240307_130509.zip");
    assert_eq!(content_disposition(&name), "attachment; filename=\"logs_20240307_130509.zip\"");
    assert_eq!(ARCHIVE_CONTENT_TYPE, "application/zip");
    let now = logvault::download_file_name();
    assert!(now.starts_with("logs_") && now.ends_with(".zip"));
    assert_eq!(now.len(), "logs_YYYYMMDD_HHMMSS.zip".len());
}

#[test]
fn overlong_entry_name_is_an_error() {
    let long = "x".repeat(16384);
    let files = vec![StoredFile { path: format!("/data/{}", long), data: b"a".to_vec() }];
    let e = build_archive("/data", &files).unwrap_err();
    assert_eq!(e, internal_error("Path error: entry name too long"));
    let ok = "y".repeat(16383);
    let files = vec![StoredFile { path: format!("/data/{}", ok), data: b"b".to_vec() }];
    let entries = read_archive(build_archive("/data", &files).unwrap());
    assert_eq!(entries, vec![(ok, b"b".to_vec())]);
}

#[test]
fn duplicate_entry_names_are_an_error() {
    let files = vec![
        StoredFile { path: "/data/d/1_a.log".to_string(), data: b"one".to_vec() },
        StoredFile { path: "/data/d/1_a.log".to_string(), data: b"two".to_vec() },
    ];
    let e = build_archive("/data", &files).unwrap_err();
    assert_eq!(e.status_code(), 500);
    assert!(e.message().starts_with("Something went wrong. Probably not your fault: Failed to add file to zip: "));
}

#[test]
fn error_body_escapes_control_characters() {
    let e = bad_request("tab\there\u{1}\\");
    assert_eq!(
        e.body(),
        "{\"error\":\"There is something wrong with your request: tab\\there\\u0001\\\\\"}"
    );
}

#[test]
fn root_with_trailing_separator() {
    let t = reading(2024, 3, 7, 1709812345);
    assert_eq!(daily_dir("/data/", &t), "/data/2024-03-07");
    let path = stored_file_path("/data/", &t, "x.log");
    assert_eq!(path, "/data/2024-03-07/1709812345_x.log");
    assert_eq!(entry_name("/data/", &path), Ok("2024-03-07/1709812345_x.log".to_string()));
    assert_eq!(entry_name("/data", &path), Ok("2024-03-07/1709812345_x.log".to_string()));
    assert_eq!(entry_name("/", "/a/b"), Ok("a/b".to_string()));
}

#[test]
fn archive_entries_are_deflated_with_mode_755() {
    let files = vec![
        StoredFile { path: "/data/d/1_a.log".to_string(), data: b"aaaaaaaaaaaaaaaaaaaaaaaa".to_vec() },
        StoredFile { path: "/data/d/2_b.log".to_string(), data: Vec::new() },
    ];
    let bytes = build_archive("/data", &files).unwrap();
    let mut archive = zip::ZipArchive::new(std::io::Cursor::new(bytes)).unwrap();
    assert_eq!(archive.len(), 2);
    for i in 0..archive.len() {
        let f = archive.by_index(i).unwrap();
        assert_eq!(f.compression(), zip::CompressionMethod::Deflated);
        assert_eq!(f.unix_mode(), Some(0o100755));
    }
}
