use pdf_crawler::download::{is_html_content_type, preflight_skip, Download, DownloadError, DownloadPhase};
use pdf_crawler::filename::{file_name, get_safe_filename, sanitize_filename};

fn streaming(content_length: Option<u64>) -> Download {
    let mut d = Download::new();
    d.start();
    assert!(d.on_response(Some("application/pdf"), content_length).is_ok());
    d
}

#[test]
fn good_download_commits() {
    let mut d = streaming(Some(12));
    assert!(d.on_chunk(b"%PDF-1.4\n").is_ok());
    assert!(d.on_chunk(b"abc").is_ok());
    assert_eq!(d.received(), 12);
    assert!(d.on_end(true).is_ok());
    assert_eq!(d.phase(), DownloadPhase::Validated);
    d.commit();
    assert_eq!(d.phase(), DownloadPhase::Committed);
}

#[test]
fn html_body_aborts_on_first_chunk() {
    let mut d = streaming(None);
    assert_eq!(d.on_chunk(b"<!DOCTYPE html><html>").unwrap_err(), DownloadError::LooksLikeMarkup);
    assert_eq!(d.phase(), DownloadPhase::Failed);
    let mut e = streaming(None);
    assert_eq!(e.on_chunk(b"plain text body").unwrap_err(), DownloadError::NotPdfStart);
}

#[test]
fn html_content_type_aborts() {
    let mut d = Download::new();
    d.start();
    assert_eq!(d.on_response(Some("text/html; charset=utf-8"), None).unwrap_err(), DownloadError::HtmlContentType);
    assert_eq!(d.phase(), DownloadPhase::Failed);
    assert!(is_html_content_type("text/html"));
    assert!(!is_html_content_type("text/html; pdf"));
    assert!(!is_html_content_type("application/pdf"));
}

#[test]
fn size_limits() {
    let mut d = streaming(Some(100));
    assert!(d.on_chunk(b"%PDF-1.4").is_ok());
    assert_eq!(d.on_end(true).unwrap_err(), DownloadError::SizeMismatch { expected: 100, received: 8 });
    let mut e = streaming(None);
    assert!(e.on_chunk(b"%PDF-1.4").is_ok());
    assert_eq!(e.on_end(false).unwrap_err(), DownloadError::Invalid);
    let mut big = streaming(None);
    let chunk = vec![b'%'; 1_000_000];
    let mut first = b"%PDF-1.4".to_vec();
    first.extend_from_slice(&chunk);
    assert!(big.on_chunk(&first).is_ok());
    let mut result = Ok(());
    for _ in 0..100 {
        result = big.on_chunk(&chunk);
        if result.is_err() {
            break;
        }
    }
    assert_eq!(result.unwrap_err(), DownloadError::TooLarge);
    assert!(!DownloadError::TooLarge.message().is_empty());
}

#[test]
fn existing_complete_file_is_kept_on_resume() {
    assert!(preflight_skip(true, true, true));
    assert!(!preflight_skip(true, true, false));
    assert!(!preflight_skip(true, false, true));
    assert!(!preflight_skip(false, false, true));
}

#[test]
fn filenames_are_sanitized() {
    assert_eq!(sanitize_filename("report.pdf"), "report.pdf");
    assert_eq!(sanitize_filename("My%20Report"), "My Report.pdf");
    assert_eq!(sanitize_filename("../../etc/passwd"), "_.._etc_passwd.pdf");
    assert_eq!(sanitize_filename("a:b*c?.PDF"), "a_b_c_.PDF");
    assert_eq!(sanitize_filename(" ..  "), "document.pdf");
    assert_eq!(sanitize_filename(""), "document.pdf");
    let long: String = std::iter::repeat('x').take(300).collect();
    assert_eq!(sanitize_filename(&long).chars().count(), 204);
}

#[test]
fn filename_from_disposition_or_path() {
    assert_eq!(get_safe_filename("http://example.test/a.pdf", None), "a.pdf");
    assert_eq!(get_safe_filename("http://example.test/doc?format=pdf", None), "doc.pdf");
    assert_eq!(
        get_safe_filename("http://example.test/doc", Some("attachment; filename=\"paper.pdf\"")),
        "paper.pdf"
    );
    assert_eq!(get_safe_filename("http://example.test/", None), "document.pdf");
    assert_eq!(file_name("/a/b/"), Some("b".to_string()));
    assert_eq!(file_name("/a/./"), Some("a".to_string()));
    assert_eq!(file_name("/a/.."), None);
    assert_eq!(file_name("/"), None);
}
