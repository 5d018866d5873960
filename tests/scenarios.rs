use pdf_crawler::classifier::{after_head, classify_start, PdfKind, Probe};
use pdf_crawler::counters::PackedCounters;
use pdf_crawler::crawl::{route_links, select_fresh, Candidate};
use pdf_crawler::download::{Download, DownloadError, DownloadPhase};
use pdf_crawler::filename::get_safe_filename;
use pdf_crawler::frontier::{Frontier, Task};
use pdf_crawler::journal::{IncrementalWriter, PdfInfo};
use pdf_crawler::links::extract_links;
use pdf_crawler::pdf_validator::PDFValidator;

fn small_pdf() -> Vec<u8> {
    let mut v = b"%PDF-1.4\n1 0 obj\n<< /Type /Catalog >>\nendobj\nxref\ntrailer\n<< /Root 1 0 R >>\n".to_vec();
    v.resize(200, b' ');
    v.extend_from_slice(b"startxref\n0\n%%EOF\n");
    v
}

fn validate(file: &[u8]) -> bool {
    let size = file.len() as u64;
    let t = PDFValidator::eof_window(size) as usize;
    let h = PDFValidator::structure_window(size) as usize;
    PDFValidator::validate_complete_pdf(size, &file[..16], &file[file.len() - t..], &file[..h])
}

fn record(url: &str) -> PdfInfo {
    PdfInfo {
        url: url.to_string(),
        source_page: "http://example.test/index.html".to_string(),
        depth: 0,
        title: None,
        size_hint: None,
        content_type: Some("application/pdf".to_string()),
        content_length: None,
        discovered_at: "2024-01-01T00:00:00+00:00".to_string(),
        verified: true,
    }
}

#[test]
fn scenario_single_pdf_is_downloaded_and_reported() {
    let seed = Task::new("http://example.test/index.html".to_string(), 0);
    let links = extract_links(&seed.url, r#"<a href="/a.pdf">a</a>"#);
    let mut f = Frontier::new();
    let fresh = select_fresh(&mut f, links);
    assert_eq!(classify_start(None, &fresh[0].url, None, true), Probe::Done(PdfKind::Yes));
    let cands = vec![Candidate { url: fresh[0].url.clone(), kind: PdfKind::Yes }];
    let pdfs = route_links(&mut f, &seed, &cands, "example.test", Some(5));
    assert_eq!(pdfs, vec!["http://example.test/a.pdf".to_string()]);
    let body = small_pdf();
    let mut d = Download::new();
    d.start();
    d.on_response(Some("application/pdf"), Some(body.len() as u64)).unwrap();
    d.on_chunk(&body).unwrap();
    d.on_end(validate(&body)).unwrap();
    d.commit();
    assert_eq!(d.phase(), DownloadPhase::Committed);
    assert_eq!(get_safe_filename(&pdfs[0], None), "a.pdf");
    let mut w = IncrementalWriter::new(seed.url.clone(), 5, true, "t".to_string());
    w.inc_pages();
    assert!(w.add_pdf(record(&pdfs[0])));
    let m = &w.results().metadata;
    assert_eq!((m.total_pages_crawled, m.total_pdfs_found, m.verified_pdfs), (1, 1, 1));
}

#[test]
fn scenario_query_link_is_classified_and_named_from_path() {
    let url = "http://example.test/doc?format=pdf";
    assert_eq!(classify_start(None, url, None, true), Probe::Done(PdfKind::Yes));
    assert_eq!(after_head(Some("application/octet-stream")), Probe::Done(PdfKind::Yes));
    let mut d = Download::new();
    d.start();
    d.on_response(Some("application/octet-stream"), None).unwrap();
    assert!(d.on_chunk(b"%PDF-1.7\n").is_ok());
    assert_eq!(get_safe_filename(url, None), "doc.pdf");
    assert_eq!(get_safe_filename(url, Some("attachment; filename=\"Q3 report.pdf\"")), "Q3.pdf");
}

#[test]
fn scenario_twenty_pdf_links_are_all_queued() {
    let mut html = String::new();
    for i in 0..20 {
        html.push_str(&format!("<a href=\"/doc{}.pdf\">doc</a>", i));
    }
    let seed = Task::new("http://example.test/".to_string(), 0);
    let mut f = Frontier::new();
    let fresh = select_fresh(&mut f, extract_links(&seed.url, &html));
    let cands: Vec<Candidate> = fresh
        .iter()
        .map(|l| {
            let kind = match classify_start(None, &l.url, l.text.as_deref(), true) {
                Probe::Done(k) => k,
                _ => PdfKind::No,
            };
            Candidate { url: l.url.clone(), kind }
        })
        .collect();
    let pdfs = route_links(&mut f, &seed, &cands, "example.test", Some(5));
    assert_eq!(pdfs.len(), 20);
    assert_eq!(f.size(), 0);
}

#[test]
fn scenario_fake_pdf_is_not_reported() {
    let mut counters = PackedCounters::new();
    let mut w = IncrementalWriter::new("http://example.test/".to_string(), 5, true, "t".to_string());
    assert_eq!(classify_start(None, "http://example.test/fake.pdf", None, true), Probe::Done(PdfKind::Yes));
    let mut d = Download::new();
    d.start();
    d.on_response(Some("application/pdf"), None).unwrap();
    let r = d.on_chunk(b"<!DOCTYPE html><html><body>nope</body></html>");
    assert_eq!(r.unwrap_err(), DownloadError::LooksLikeMarkup);
    counters.inc_failed();
    assert_eq!(counters.get_counts().1, 1);
    assert_eq!(w.results().pdfs.len(), 0);
    w.inc_pages();
    assert_eq!(w.results().metadata.total_pdfs_found, 0);
}
