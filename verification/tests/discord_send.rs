use areum_tools::discord::error::ErrorKind;
use areum_tools::discord::send::{resolve_files, resolve_send_content};

fn unreachable_stdin() -> std::io::Result<String> {
    panic!("stdin should not be read")
}

#[test]
fn command_resolve_send_content_uses_text_when_provided() {
    let content = resolve_send_content(None, Some("hi"), false, unreachable_stdin).unwrap();
    assert_eq!(content, "hi");
}

#[test]
fn command_resolve_send_content_uses_body_when_provided() {
    let content = resolve_send_content(Some("hello"), None, false, unreachable_stdin).unwrap();
    assert_eq!(content, "hello");
}

#[test]
fn command_resolve_send_content_reads_stdin_when_body_is_dash() {
    let content =
        resolve_send_content(Some("-"), None, false, || Ok("from stdin".to_owned())).unwrap();
    assert_eq!(content, "from stdin");
}

#[test]
fn command_resolve_send_content_reads_stdin_when_body_and_text_absent() {
    let content = resolve_send_content(None, None, false, || Ok("from stdin".to_owned())).unwrap();
    assert_eq!(content, "from stdin");
}

#[test]
fn command_resolve_send_content_preserves_trailing_newline_from_stdin() {
    let content = resolve_send_content(None, None, false, || Ok("line\n".to_owned())).unwrap();
    assert_eq!(content, "line\n");
}

#[test]
fn command_resolve_send_content_rejects_body_and_text_together() {
    let err = resolve_send_content(Some("a"), Some("b"), false, unreachable_stdin).unwrap_err();
    assert_eq!(err.kind, ErrorKind::Usage);
}

#[test]
fn command_resolve_send_content_rejects_empty_body() {
    let err = resolve_send_content(Some(""), None, false, unreachable_stdin).unwrap_err();
    assert_eq!(err.kind, ErrorKind::Usage);
}

#[test]
fn command_resolve_send_content_stdin_failure_is_internal_error() {
    let err = resolve_send_content(None, None, false, || Err(std::io::Error::other("boom")))
        .unwrap_err();
    assert_eq!(err.kind, ErrorKind::Internal);
}

#[test]
fn command_resolve_send_content_allows_2000_chars() {
    let text = "a".repeat(2000);
    let content = resolve_send_content(None, Some(&text), false, unreachable_stdin).unwrap();
    assert_eq!(content.chars().count(), 2000);
}

#[test]
fn command_resolve_send_content_rejects_2001_chars() {
    let text = "a".repeat(2001);
    let err = resolve_send_content(None, Some(&text), false, unreachable_stdin).unwrap_err();
    assert_eq!(err.kind, ErrorKind::Usage);
}

#[test]
fn command_resolve_send_content_counts_multibyte_chars_not_bytes() {
    let too_long = "가".repeat(2001);
    assert_eq!(too_long.len(), 6003);
    let err = resolve_send_content(None, Some(&too_long), false, unreachable_stdin).unwrap_err();
    assert_eq!(err.kind, ErrorKind::Usage);

    let exactly_at_limit = "가".repeat(2000);
    let content =
        resolve_send_content(None, Some(&exactly_at_limit), false, unreachable_stdin).unwrap();
    assert_eq!(content.chars().count(), 2000);
}

#[test]
fn command_resolve_send_content_files_present_no_body_gives_empty_caption_without_reading_stdin() {
    let content = resolve_send_content(None, None, true, unreachable_stdin).unwrap();
    assert_eq!(content, "");
}

#[test]
fn command_resolve_send_content_files_present_body_dash_reads_stdin() {
    let content =
        resolve_send_content(Some("-"), None, true, || Ok("piped caption".to_owned())).unwrap();
    assert_eq!(content, "piped caption");
}

#[test]
fn command_resolve_send_content_files_present_body_is_used_as_caption() {
    let content = resolve_send_content(Some("look"), None, true, unreachable_stdin).unwrap();
    assert_eq!(content, "look");
}

#[test]
fn command_resolve_send_content_files_present_still_enforces_2000_char_cap() {
    let text = "a".repeat(2001);
    let err = resolve_send_content(None, Some(&text), true, unreachable_stdin).unwrap_err();
    assert_eq!(err.kind, ErrorKind::Usage);
}

#[test]
fn command_resolve_files_rejects_more_than_ten() {
    let paths: Vec<String> = (0..11).map(|i| format!("f{i}.txt")).collect();
    let err = resolve_files(&paths, |_| Ok(vec![1])).unwrap_err();
    assert_eq!(err.kind, ErrorKind::Usage);
}

#[test]
fn command_resolve_files_accepts_exactly_ten() {
    let paths: Vec<String> = (0..10).map(|i| format!("f{i}.txt")).collect();
    let parts = resolve_files(&paths, |_| Ok(vec![1])).unwrap();
    assert_eq!(parts.len(), 10);
}

#[test]
fn tests_resolve_send_content_uses_text_when_provided() {
    let content = resolve_send_content(None, Some("hi"), false, unreachable_stdin).unwrap();
    assert_eq!(content, "hi");
}

#[test]
fn tests_resolve_send_content_uses_body_when_provided() {
    let content = resolve_send_content(Some("hello"), None, false, unreachable_stdin).unwrap();
    assert_eq!(content, "hello");
}

#[test]
fn tests_resolve_send_content_reads_stdin_when_body_is_dash() {
    let content =
        resolve_send_content(Some("-"), None, false, || Ok("from stdin".to_owned())).unwrap();
    assert_eq!(content, "from stdin");
}

#[test]
fn tests_resolve_send_content_reads_stdin_when_body_and_text_absent() {
    let content = resolve_send_content(None, None, false, || Ok("from stdin".to_owned())).unwrap();
    assert_eq!(content, "from stdin");
}

#[test]
fn tests_resolve_send_content_preserves_trailing_newline_from_stdin() {
    let content = resolve_send_content(None, None, false, || Ok("line\n".to_owned())).unwrap();
    assert_eq!(content, "line\n");
}

#[test]
fn tests_resolve_send_content_rejects_body_and_text_together() {
    let err = resolve_send_content(Some("a"), Some("b"), false, unreachable_stdin).unwrap_err();
    assert_eq!(err.kind, ErrorKind::Usage);
}

#[test]
fn tests_resolve_send_content_rejects_empty_body() {
    let err = resolve_send_content(Some(""), None, false, unreachable_stdin).unwrap_err();
    assert_eq!(err.kind, ErrorKind::Usage);
}

#[test]
fn tests_resolve_send_content_stdin_failure_is_internal_error() {
    let err = resolve_send_content(None, None, false, || Err(std::io::Error::other("boom")))
        .unwrap_err();
    assert_eq!(err.kind, ErrorKind::Internal);
}

#[test]
fn tests_resolve_send_content_allows_2000_chars() {
    let text = "a".repeat(2000);
    let content = resolve_send_content(None, Some(&text), false, unreachable_stdin).unwrap();
    assert_eq!(content.chars().count(), 2000);
}

#[test]
fn tests_resolve_send_content_rejects_2001_chars() {
    let text = "a".repeat(2001);
    let err = resolve_send_content(None, Some(&text), false, unreachable_stdin).unwrap_err();
    assert_eq!(err.kind, ErrorKind::Usage);
}

#[test]
fn tests_resolve_send_content_counts_multibyte_chars_not_bytes() {
    let too_long = "가".repeat(2001);
    assert_eq!(too_long.len(), 6003);
    let err = resolve_send_content(None, Some(&too_long), false, unreachable_stdin).unwrap_err();
    assert_eq!(err.kind, ErrorKind::Usage);

    let exactly_at_limit = "가".repeat(2000);
    let content =
        resolve_send_content(None, Some(&exactly_at_limit), false, unreachable_stdin).unwrap();
    assert_eq!(content.chars().count(), 2000);
}

#[test]
fn tests_resolve_send_content_files_present_no_body_gives_empty_caption_without_reading_stdin() {
    let content = resolve_send_content(None, None, true, unreachable_stdin).unwrap();
    assert_eq!(content, "");
}

#[test]
fn tests_resolve_send_content_files_present_body_dash_reads_stdin() {
    let content =
        resolve_send_content(Some("-"), None, true, || Ok("piped caption".to_owned())).unwrap();
    assert_eq!(content, "piped caption");
}

#[test]
fn tests_resolve_send_content_files_present_body_is_used_as_caption() {
    let content = resolve_send_content(Some("look"), None, true, unreachable_stdin).unwrap();
    assert_eq!(content, "look");
}

#[test]
fn tests_resolve_send_content_files_present_still_enforces_2000_char_cap() {
    let text = "a".repeat(2001);
    let err = resolve_send_content(None, Some(&text), true, unreachable_stdin).unwrap_err();
    assert_eq!(err.kind, ErrorKind::Usage);
}

#[test]
fn tests_resolve_files_rejects_more_than_ten() {
    let paths: Vec<String> = (0..11).map(|i| format!("f{i}.txt")).collect();
    let err = resolve_files(&paths, |_| Ok(vec![1])).unwrap_err();
    assert_eq!(err.kind, ErrorKind::Usage);
}

#[test]
fn tests_resolve_files_accepts_exactly_ten() {
    let paths: Vec<String> = (0..10).map(|i| format!("f{i}.txt")).collect();
    let parts = resolve_files(&paths, |_| Ok(vec![1])).unwrap();
    assert_eq!(parts.len(), 10);
}

#[test]
fn resolve_send_content_files_present_text_flag_is_used_as_caption() {
    let content = resolve_send_content(None, Some("caption"), true, unreachable_stdin).unwrap();
    assert_eq!(content, "caption");
}

#[test]
fn resolve_send_content_files_present_allows_2000_chars() {
    let text = "a".repeat(2000);
    let content = resolve_send_content(None, Some(&text), true, unreachable_stdin).unwrap();
    assert_eq!(content.chars().count(), 2000);
}

use areum_tools::discord::send::{resolve_file, MAX_FILE_BYTES};

fn resolve_file_filename_case() {
    let part = resolve_file("/home/user/pics/photo.png", |_| Ok(vec![1, 2, 3])).unwrap();
    assert_eq!(part.filename, "photo.png");
}

fn resolve_file_mime_case() {
    let part = resolve_file("photo.png", |_| Ok(vec![1])).unwrap();
    assert_eq!(part.content_type, "image/png");
}

fn resolve_file_no_extension_case() {
    let part = resolve_file("noext", |_| Ok(vec![1])).unwrap();
    assert_eq!(part.content_type, "application/octet-stream");
}

fn resolve_file_read_error_case() {
    let err = resolve_file("missing.txt", |_| Err(std::io::Error::other("nope"))).unwrap_err();
    assert_eq!(err.kind, ErrorKind::Usage);
    assert!(err.message.contains("missing.txt"));
}

fn resolve_file_empty_case() {
    let err = resolve_file("empty.txt", |_| Ok(vec![])).unwrap_err();
    assert_eq!(err.kind, ErrorKind::Usage);
    assert!(err.message.contains("empty"));
}

fn resolve_file_over_max_case() {
    let err = resolve_file("huge.bin", |_| Ok(vec![0u8; MAX_FILE_BYTES + 1])).unwrap_err();
    assert_eq!(err.kind, ErrorKind::Usage);
}

#[test]
fn command_resolve_file_uses_last_path_component_as_filename() {
    resolve_file_filename_case();
}

#[test]
fn tests_resolve_file_uses_last_path_component_as_filename() {
    resolve_file_filename_case();
}

#[test]
fn command_resolve_file_infers_mime_from_extension() {
    resolve_file_mime_case();
}

#[test]
fn tests_resolve_file_infers_mime_from_extension() {
    resolve_file_mime_case();
}

#[test]
fn command_resolve_file_falls_back_to_octet_stream_without_extension() {
    resolve_file_no_extension_case();
}

#[test]
fn tests_resolve_file_falls_back_to_octet_stream_without_extension() {
    resolve_file_no_extension_case();
}

#[test]
fn resolve_file_falls_back_to_octet_stream_for_unknown_extension() {
    let part = resolve_file("data.notarealext", |_| Ok(vec![1])).unwrap();
    assert_eq!(part.content_type, "application/octet-stream");
}

#[test]
fn command_resolve_file_read_error_is_usage_with_path() {
    resolve_file_read_error_case();
}

#[test]
fn tests_resolve_file_read_error_is_usage_with_path() {
    resolve_file_read_error_case();
}

#[test]
fn command_resolve_file_rejects_empty_file() {
    resolve_file_empty_case();
}

#[test]
fn tests_resolve_file_rejects_empty_file() {
    resolve_file_empty_case();
}

#[test]
fn command_resolve_file_rejects_file_over_max_bytes() {
    resolve_file_over_max_case();
}

#[test]
fn tests_resolve_file_rejects_file_over_max_bytes() {
    resolve_file_over_max_case();
}

#[test]
fn resolve_file_accepts_exactly_max_bytes() {
    let part = resolve_file("max.bin", |_| Ok(vec![0u8; MAX_FILE_BYTES])).unwrap();
    assert_eq!(part.bytes.len(), MAX_FILE_BYTES);
}
