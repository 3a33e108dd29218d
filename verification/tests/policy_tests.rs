use rget::fetch::{is_success, parse_content_length, plan_download, response_metadata};
use rget::policy::{chunk_size, derive_filename};

#[test]
fn chunk_size_for_declared_length() {
    assert_eq!(chunk_size(Some(9900)), 100);
    assert_eq!(chunk_size(Some(50)), 1);
}

#[test]
fn chunk_size_for_unknown_length() {
    assert_eq!(chunk_size(None), 1024);
}

#[test]
fn chunk_size_edges() {
    assert_eq!(chunk_size(Some(0)), 1);
    assert_eq!(chunk_size(Some(98)), 1);
    assert_eq!(chunk_size(Some(99)), 1);
    assert_eq!(chunk_size(Some(100)), 1);
    assert_eq!(chunk_size(Some(198)), 2);
    assert_eq!(chunk_size(Some(u64::MAX)), u64::MAX / 99);
}

#[test]
fn filename_from_url_path() {
    assert_eq!(derive_filename("https://example.com/a/b/file.txt"), "file.txt");
}

#[test]
fn filename_for_bare_host() {
    assert_eq!(derive_filename("https://example.com/"), "downloaded.file");
}

#[test]
fn filename_for_trailing_slash() {
    assert_eq!(derive_filename("https://example.com/dir/"), "downloaded.file");
}

#[test]
fn filename_without_any_slash() {
    assert_eq!(derive_filename("example"), "downloaded.file");
    assert_eq!(derive_filename(""), "downloaded.file");
}

#[test]
fn status_success_range() {
    assert!(!is_success(199));
    assert!(is_success(200));
    assert!(is_success(204));
    assert!(is_success(299));
    assert!(!is_success(300));
    assert!(!is_success(404));
    assert!(!is_success(500));
}

#[test]
fn content_length_parses_digits() {
    assert_eq!(parse_content_length("9900"), Some(9900));
    assert_eq!(parse_content_length("0"), Some(0));
    assert_eq!(parse_content_length("18446744073709551615"), Some(u64::MAX));
}

#[test]
fn content_length_rejects_bad_values() {
    assert_eq!(parse_content_length(""), None);
    assert_eq!(parse_content_length("12a3"), None);
    assert_eq!(parse_content_length("-5"), None);
    assert_eq!(parse_content_length(" 99"), None);
    assert_eq!(parse_content_length("18446744073709551616"), None);
    assert_eq!(parse_content_length("99999999999999999999999"), None);
}

#[test]
fn metadata_from_headers() {
    let meta = response_metadata(200, Some("9900"), Some("text/plain"));
    assert_eq!(meta.status, 200);
    assert_eq!(meta.content_length, Some(9900));
    assert_eq!(meta.content_type, "text/plain");
}

#[test]
fn metadata_defaults() {
    let meta = response_metadata(200, None, None);
    assert_eq!(meta.content_length, None);
    assert_eq!(meta.content_type, "unknown");

    let meta = response_metadata(200, Some("not a number"), None);
    assert_eq!(meta.content_length, None);
}

#[test]
fn plan_on_success_status() {
    let meta = response_metadata(200, Some("9900"), Some("text/plain"));
    let plan = plan_download("https://example.com/a/b/file.txt", &meta).unwrap();
    assert_eq!(plan.filename, "file.txt");
    assert_eq!(plan.chunk_size, 100);
}

#[test]
fn no_plan_on_error_status() {
    let meta = response_metadata(404, None, None);
    assert!(plan_download("https://example.com/a/b/file.txt", &meta).is_none());
}
