use pdf_crawler::counters::PackedCounters;
use pdf_crawler::journal::{CrawlStatus, IncrementalWriter, PdfInfo, WriterMessage};

fn pdf(url: &str, verified: bool) -> PdfInfo {
    PdfInfo {
        url: url.to_string(),
        source_page: "http://example.test/index.html".to_string(),
        depth: 0,
        title: None,
        size_hint: None,
        content_type: Some("application/pdf".to_string()),
        content_length: Some(2048),
        discovered_at: "2024-01-01T00:00:00+00:00".to_string(),
        verified,
    }
}

#[test]
fn journal_counts_follow_the_list() {
    let mut w = IncrementalWriter::new("http://example.test/".to_string(), 5, true, "2024-01-01T00:00:00+00:00".to_string());
    assert_eq!(w.results().metadata.status, CrawlStatus::Initializing);
    assert!(w.add_pdf(pdf("http://example.test/a.pdf", true)));
    assert!(w.add_pdf(pdf("http://example.test/b.pdf", false)));
    assert!(!w.add_pdf(pdf("http://example.test/a.pdf", false)));
    let m = &w.results().metadata;
    assert_eq!(m.total_pdfs_found, 2);
    assert_eq!(m.verified_pdfs, 1);
    assert_eq!(m.failed_verifications, 1);
    assert_eq!(w.results().pdfs.len(), 2);
}

#[test]
fn journal_messages() {
    let mut w = IncrementalWriter::new("http://example.test/".to_string(), 5, true, "t".to_string());
    assert!(w.apply(WriterMessage::UpdateMetadata { pages_crawled: 3, status: CrawlStatus::InProgress }));
    assert!(w.apply(WriterMessage::AddPdf(pdf("http://example.test/a.pdf", true))));
    assert!(!w.apply(WriterMessage::AddPdf(pdf("http://example.test/a.pdf", true))));
    w.inc_pages();
    w.finish();
    let m = &w.results().metadata;
    assert_eq!(m.total_pages_crawled, 4);
    assert_eq!(m.status, CrawlStatus::Completed);
    assert_eq!(m.status.as_str(), "completed");
    assert_eq!(m.total_pdfs_found, 1);
    assert_eq!(m.verified_pdfs, 1);
}

#[test]
fn journal_after_unreachable_target() {
    let mut w = IncrementalWriter::new("http://down.test/".to_string(), 5, true, "t".to_string());
    w.update_metadata(0, CrawlStatus::Completed);
    let m = &w.results().metadata;
    assert_eq!((m.total_pages_crawled, m.total_pdfs_found, m.status), (0, 0, CrawlStatus::Completed));
}

#[test]
fn counters_pack_four_fields() {
    let mut c = PackedCounters::new();
    c.inc_downloaded();
    c.inc_downloaded();
    c.inc_failed();
    c.inc_queued();
    c.inc_queued();
    c.dec_queued();
    c.inc_cache_hits();
    assert_eq!(c.get_counts(), (2, 1, 1, 1));
}

#[test]
fn counters_saturate_and_do_not_spill() {
    let mut c = PackedCounters::new();
    c.dec_queued();
    assert_eq!(c.get_counts(), (0, 0, 0, 0));
    for _ in 0..70_000 {
        c.inc_downloaded();
    }
    assert_eq!(c.get_counts(), (0xFFFF, 0, 0, 0));
}
