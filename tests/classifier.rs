use pdf_crawler::classifier::{
    after_head, after_range, cache_lifetime, classify, classify_start, has_pdf_clue, is_pdf_mime,
    matches_url_patterns, PdfKind, Probe,
};

#[test]
fn url_patterns_stage() {
    assert!(matches_url_patterns("http://example.test/a.pdf"));
    assert!(matches_url_patterns("http://example.test/A.PDF?x=1"));
    assert!(matches_url_patterns("http://example.test/a.pdf#page=2"));
    assert!(matches_url_patterns("http://example.test/pdf/report"));
    assert!(!matches_url_patterns("http://example.test/doc?format=pdf"));
}

#[test]
fn clue_stage_finds_pdf_word() {
    assert!(has_pdf_clue("http://example.test/doc?format=pdf"));
    assert!(!has_pdf_clue("http://example.test/index.html"));
}

#[test]
fn offline_stages_classify_without_network() {
    assert_eq!(classify_start(None, "http://example.test/a.pdf", None, true), Probe::Done(PdfKind::Yes));
    assert_eq!(
        classify_start(None, "http://example.test/doc?format=pdf", None, true),
        Probe::Done(PdfKind::Yes)
    );
    assert_eq!(
        classify_start(None, "http://example.test/get?id=7", Some("Download the slides"), true),
        Probe::Done(PdfKind::Yes)
    );
    assert_eq!(classify_start(None, "http://example.test/about", Some("About us"), true), Probe::Head);
    assert_eq!(
        classify_start(None, "http://example.test/about", None, false),
        Probe::Done(PdfKind::No)
    );
}

#[test]
fn cached_verdict_is_returned() {
    assert_eq!(
        classify_start(Some(PdfKind::No), "http://example.test/a.pdf", None, true),
        Probe::Done(PdfKind::No)
    );
    assert_eq!(
        classify(Some(PdfKind::Yes), "http://example.test/x", None, true, None, None),
        PdfKind::Yes
    );
}

#[test]
fn head_stage_reads_mime_essence() {
    assert_eq!(after_head(Some("application/pdf")), Probe::Done(PdfKind::Yes));
    assert_eq!(after_head(Some("application/octet-stream")), Probe::Done(PdfKind::Yes));
    assert_eq!(after_head(Some("application/x-pdf; name=a")), Probe::Done(PdfKind::Yes));
    assert_eq!(after_head(Some("text/html; charset=utf-8")), Probe::Range);
    assert_eq!(after_head(None), Probe::Range);
    assert!(is_pdf_mime("binary/pdf"));
    assert!(!is_pdf_mime("text/plain"));
}

#[test]
fn range_stage_reads_magic_bytes() {
    assert_eq!(after_range(Some(b"%PDF-1.7\n...")), PdfKind::Yes);
    assert_eq!(after_range(Some(b"%PDF")), PdfKind::Yes);
    assert_eq!(after_range(Some(b"<!DOCTYPE html>")), PdfKind::No);
    assert_eq!(after_range(None), PdfKind::No);
}

#[test]
fn full_pipeline_over_given_answers() {
    let u = "http://example.test/get?id=7";
    assert_eq!(classify(None, u, None, true, Some("text/html"), Some(b"%PDF-1.5")), PdfKind::Yes);
    assert_eq!(classify(None, u, None, true, Some("text/html"), Some(b"<html>")), PdfKind::No);
    assert_eq!(classify(None, u, None, false, Some("application/pdf"), None), PdfKind::No);
}

#[test]
fn negative_verdicts_live_shorter() {
    assert_eq!(cache_lifetime(PdfKind::Yes, 3600, 30), 3600);
    assert_eq!(cache_lifetime(PdfKind::No, 3600, 30), 30);
}
