use pdf_crawler::pdf_validator::PDFValidator;

fn sample_pdf(len: usize) -> Vec<u8> {
    let mut v = b"%PDF-1.4\n1 0 obj\n<< /Type /Catalog /Pages 2 0 R >>\nendobj\nxref\n0 1\ntrailer\n<< /Root 1 0 R >>\n".to_vec();
    while v.len() + 16 < len {
        v.push(b' ');
    }
    v.extend_from_slice(b"startxref\n%%EOF\n");
    v
}

#[test]
fn header_with_version_is_accepted() {
    assert!(PDFValidator::validate_header(b"%PDF-1.7\n%abc"));
    assert!(PDFValidator::validate_header(b"%PDF-2.0"));
}

#[test]
fn header_with_bad_version_is_refused() {
    assert!(!PDFValidator::validate_header(b"%PDF-x.7abc"));
    assert!(!PDFValidator::validate_header(b"%PDF-1"));
    assert!(!PDFValidator::validate_header(b"<html>hello"));
}

#[test]
fn header_without_dash_is_accepted() {
    assert!(PDFValidator::validate_header(b"%PDFabcd"));
}

#[test]
fn pdf_start_checks() {
    assert!(PDFValidator::is_likely_pdf_start(b"%PDF-1.4 rest"));
    assert!(PDFValidator::is_likely_pdf_start(b"garbage...%PDF-1.4"));
    assert!(PDFValidator::is_likely_pdf_start(b"a PDF with 1 0 OBJ"));
    assert!(!PDFValidator::is_likely_pdf_start(b"%PD"));
    assert!(!PDFValidator::is_likely_pdf_start(b"just some text"));
}

#[test]
fn markup_is_detected() {
    assert!(PDFValidator::is_likely_html_or_xml(b"  \n<!DOCTYPE html><html>"));
    assert!(PDFValidator::is_likely_html_or_xml(b"<?xml version=\"1.0\"?>"));
    assert!(PDFValidator::is_likely_html_or_xml(b"xx <BODY> yy"));
    assert!(!PDFValidator::is_likely_html_or_xml(b"%PDF-1.4 <<>>"));
    assert!(!PDFValidator::is_likely_html_or_xml(b"x <!doctype"));
}

#[test]
fn structure_checks() {
    assert!(PDFValidator::validate_pdf_structure(b"%PDF-1.4 1 0 obj endobj xref"));
    assert!(PDFValidator::validate_pdf_structure(b"%PDF-1.4 startxref /Type"));
    assert!(PDFValidator::validate_pdf_structure(b"%PDF xref TRAILER"));
    assert!(!PDFValidator::validate_pdf_structure(b"%PDF-1.4 1 0 obj endobj"));
    assert!(!PDFValidator::validate_pdf_structure(b"1 0 obj endobj xref"));
}

#[test]
fn eof_marker_and_windows() {
    assert!(PDFValidator::check_eof_marker(b"....%%EOF\n"));
    assert!(PDFValidator::check_eof_marker(b"startxref 123"));
    assert!(!PDFValidator::check_eof_marker(b"%%eof"));
    assert_eq!(PDFValidator::eof_window(20), 0);
    assert_eq!(PDFValidator::eof_window(100), 64);
    assert_eq!(PDFValidator::eof_window(200), 128);
    assert_eq!(PDFValidator::eof_window(5000), 256);
    assert_eq!(PDFValidator::structure_window(5000), 5000);
    assert_eq!(PDFValidator::structure_window(2_000_000), 1_000_000);
}

#[test]
fn complete_pdf_validation() {
    let file = sample_pdf(400);
    let size = file.len() as u64;
    let tail_len = PDFValidator::eof_window(size) as usize;
    let head_len = PDFValidator::structure_window(size) as usize;
    let header = &file[..16];
    let tail = &file[file.len() - tail_len..];
    let content = &file[..head_len];
    assert!(PDFValidator::validate_complete_pdf(size, header, tail, content));
    assert!(!PDFValidator::validate_complete_pdf(50, header, tail, content));
    assert!(!PDFValidator::validate_complete_pdf(600_000_000, header, tail, content));
    let html = b"<!DOCTYPE html><html><body>not a pdf</body></html>                                                                              ";
    let hs = html.len() as u64;
    let t = PDFValidator::eof_window(hs) as usize;
    assert!(!PDFValidator::validate_complete_pdf(hs, &html[..16], &html[html.len() - t..], &html[..]));
}
