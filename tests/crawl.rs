use pdf_crawler::classifier::PdfKind;
use pdf_crawler::crawl::{after_failure, may_dispatch, route_links, select_fresh, Candidate, FetchFailure};
use pdf_crawler::frontier::{Frontier, Task};
use pdf_crawler::links::{extract_links, is_web, Link};

#[test]
fn extracts_absolute_web_links_with_text() {
    let html = r#"<html><body>
        <a href="/a.pdf">Annual report</a>
        <a href="b.html">  </a>
        <a href="mailto:x@example.test">mail</a>
        <a href="javascript:void(0)">js</a>
        <a href="">empty</a>
        <a href="ftp://example.test/f">ftp</a>
        <a>no href</a>
        <a href="https://other.test/c.pdf">Other</a>
    </body></html>"#;
    let links = extract_links("http://example.test/dir/index.html", html);
    let urls: Vec<&str> = links.iter().map(|l| l.url.as_str()).collect();
    assert_eq!(
        urls,
        vec!["http://example.test/a.pdf", "http://example.test/dir/b.html", "https://other.test/c.pdf"]
    );
    assert_eq!(links[0].text.as_deref(), Some("Annual report"));
    assert_eq!(links[1].text, None);
    assert!(is_web("https://x.test"));
    assert!(!is_web("ftp://x.test"));
}

fn link(u: &str) -> Link {
    Link { url: u.to_string(), text: None }
}

#[test]
fn loop_page_is_fetched_once() {
    let mut f = Frontier::new();
    assert!(f.push(Task::new("http://example.test/index.html".to_string(), 0)));
    let seed = f.pop().unwrap();
    let fresh = select_fresh(&mut f, vec![link("http://example.test/loop"), link("http://example.test/a.pdf")]);
    assert_eq!(fresh.len(), 2);
    let cands = vec![
        Candidate { url: "http://example.test/loop".to_string(), kind: PdfKind::No },
        Candidate { url: "http://example.test/a.pdf".to_string(), kind: PdfKind::Yes },
    ];
    let pdfs = route_links(&mut f, &seed, &cands, "example.test", Some(5));
    assert_eq!(pdfs, vec!["http://example.test/a.pdf".to_string()]);
    let looped = f.pop().unwrap();
    assert_eq!(looped.url, "http://example.test/loop");
    assert_eq!(looped.depth, 1);
    // the loop page links to itself and to the PDF again: nothing is new
    let again = select_fresh(
        &mut f,
        vec![link("http://example.test/loop"), link("http://example.test/a.pdf"), link("http://example.test/loop/")],
    );
    assert!(again.is_empty());
    assert_eq!(f.size(), 0);
}

#[test]
fn duplicate_links_on_one_page_are_kept_once() {
    let mut f = Frontier::new();
    let fresh = select_fresh(&mut f, vec![link("http://h.test/x"), link("HTTP://h.test/x/"), link("http://h.test/y")]);
    let urls: Vec<String> = fresh.into_iter().map(|l| l.url).collect();
    assert_eq!(urls, vec!["http://h.test/x".to_string(), "http://h.test/y".to_string()]);
}

#[test]
fn routing_keeps_to_host_and_depth() {
    let mut f = Frontier::new();
    let page = Task::new("http://example.test/".to_string(), 1);
    let cands = vec![
        Candidate { url: "http://other.test/p".to_string(), kind: PdfKind::No },
        Candidate { url: "http://example.test/p".to_string(), kind: PdfKind::No },
        Candidate { url: "https://other.test/q.pdf".to_string(), kind: PdfKind::Yes },
    ];
    let pdfs = route_links(&mut f, &page, &cands, "example.test", Some(2));
    assert_eq!(pdfs, vec!["https://other.test/q.pdf".to_string()]);
    assert_eq!(f.size(), 1);
    let t = f.pop().unwrap();
    assert_eq!((t.url.as_str(), t.depth, t.retry_count), ("http://example.test/p", 2, 0));
    let deep = Task::new("http://example.test/p".to_string(), 2);
    let pdfs = route_links(&mut f, &deep, &cands, "example.test", Some(2));
    assert_eq!(pdfs.len(), 1);
    assert_eq!(f.size(), 0);
}

#[test]
fn dispatch_respects_max_depth() {
    assert!(may_dispatch(&Task::new("http://h.test/".to_string(), 5), Some(5)));
    assert!(!may_dispatch(&Task::new("http://h.test/".to_string(), 6), Some(5)));
    assert!(may_dispatch(&Task::new("http://h.test/".to_string(), 600), None));
}

#[test]
fn server_errors_are_retried_max_retries_times() {
    let mut f = Frontier::new();
    let max_retries = 2;
    assert!(f.push(Task::new("http://down.test/".to_string(), 0)));
    let mut attempts = 0;
    while let Some(task) = f.pop() {
        attempts += 1;
        after_failure(&mut f, task, FetchFailure::Status(503), max_retries);
    }
    assert_eq!(attempts, max_retries + 1);
}

#[test]
fn permanent_errors_are_dropped() {
    let mut f = Frontier::new();
    let t = Task::new("http://h.test/gone".to_string(), 0);
    assert!(!after_failure(&mut f, t, FetchFailure::Status(404), 3));
    assert!(after_failure(&mut f, Task::new("http://h.test/busy".to_string(), 0), FetchFailure::Status(429), 3));
    assert!(after_failure(&mut f, Task::new("http://h.test/slow".to_string(), 0), FetchFailure::Timeout, 3));
    assert!(!after_failure(&mut f, Task::new("http://h.test/bad".to_string(), 0), FetchFailure::Parse, 3));
    assert_eq!(f.size(), 2);
    assert!(FetchFailure::Connection.is_transient());
}
