use pdf_crawler::classifier::{after_head_essence, classify_from_hits, PdfKind, Probe};
use pdf_crawler::filename::{replace_dangerous, sanitize_decoded, sanitize_filename};
use pdf_crawler::journal::IncrementalWriter;
use pdf_crawler::misc::{get_extension, raw_extension};
use pdf_crawler::pdf_validator::PDFValidator;
use pdf_crawler::verification::{is_likely_pdf_lowered, is_likely_pdf_url};

#[test]
fn offline_hits_decide_first_step() {
    assert_eq!(classify_from_hits(None, true, false, false, true), Probe::Done(PdfKind::Yes));
    assert_eq!(classify_from_hits(None, false, false, true, false), Probe::Done(PdfKind::Yes));
    assert_eq!(classify_from_hits(None, false, false, false, true), Probe::Head);
    assert_eq!(classify_from_hits(None, false, false, false, false), Probe::Done(PdfKind::No));
    assert_eq!(classify_from_hits(Some(PdfKind::No), true, true, true, true), Probe::Done(PdfKind::No));
}

#[test]
fn essence_decides_head_step() {
    assert_eq!(after_head_essence(Some("application/pdf")), Probe::Done(PdfKind::Yes));
    assert_eq!(after_head_essence(Some("text/x-pdf")), Probe::Done(PdfKind::Yes));
    assert_eq!(after_head_essence(Some("application/pdf; charset=binary")), Probe::Range);
    assert_eq!(after_head_essence(Some("text/html")), Probe::Range);
    assert_eq!(after_head_essence(None), Probe::Range);
}

#[test]
fn lowered_url_heuristic() {
    assert!(is_likely_pdf_lowered("http://x.test/a.pdf"));
    assert!(!is_likely_pdf_lowered("http://x.test/A.PDF"));
    assert!(is_likely_pdf_url("http://x.test/A.PDF"));
    assert!(is_likely_pdf_lowered("http://x.test/view?id=1&fmt=pdf"));
}

#[test]
fn raw_extension_keeps_case() {
    assert_eq!(raw_extension("dir/File.PDF"), Some("PDF".to_string()));
    assert_eq!(get_extension("dir/File.PDF"), Some("pdf".to_string()));
    assert_eq!(raw_extension("dir/.hidden"), None);
    assert_eq!(raw_extension("dir/name."), Some(String::new()));
}

#[test]
fn dangerous_characters_are_replaced() {
    let r: String = replace_dangerous("a/b\\c*d?e:f\"g<h>i|j\u{1}k").into_iter().collect();
    assert_eq!(r, "a_b_c_d_e_f_g_h_i_j_k");
    assert_eq!(sanitize_decoded("My%20Report"), "My%20Report.pdf");
    assert_eq!(sanitize_filename("My%20Report"), "My Report.pdf");
    assert_eq!(sanitize_decoded("..a/b.."), "a_b.pdf");
}

#[test]
fn unicode_whitespace_before_markup() {
    let mut nbsp = vec![0xC2u8, 0xA0];
    nbsp.extend_from_slice(b"<?xml version=\"1.0\"?>");
    assert!(PDFValidator::is_likely_html_or_xml(&nbsp));
    let mut ideo = vec![0xE3u8, 0x80, 0x80, b'\n'];
    ideo.extend_from_slice(b"<HTML>");
    assert!(PDFValidator::is_likely_html_or_xml(&ideo));
    let mut other = vec![0xC3u8, 0xA9];
    other.extend_from_slice(b"<html>");
    assert!(!PDFValidator::is_likely_html_or_xml(&other));
}

#[test]
fn journal_keeps_its_settings() {
    let w = IncrementalWriter::new("http://example.test/".to_string(), 3, false, "2024-05-01T00:00:00Z".to_string());
    let m = &w.results().metadata;
    assert_eq!(m.start_url, "http://example.test/");
    assert_eq!(m.max_depth, 3);
    assert!(!m.verification_enabled);
    assert_eq!(m.crawl_timestamp, "2024-05-01T00:00:00Z");
    assert_eq!(m.status.as_str(), "initializing");
}
