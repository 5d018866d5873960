use pdf_crawler::frontier::{Frontier, Task};
use pdf_crawler::identity::{canonical_url, fnv_hash, hash_url};

#[test]
fn canonical_form_lowercases_and_trims() {
    assert_eq!(canonical_url("HTTP://Example.TEST/Docs/"), "http://example.test/docs");
    assert_eq!(canonical_url("http://a.test//"), "http://a.test/");
    assert_eq!(canonical_url("http://a.test/x?Q=1"), "http://a.test/x?q=1");
}

#[test]
fn canonical_form_is_idempotent() {
    let once = canonical_url("HTTP://A.test/b/");
    assert_eq!(canonical_url(&once), once);
}

#[test]
fn fnv_known_values() {
    assert_eq!(fnv_hash(&Vec::new()), 0xcbf2_9ce4_8422_2325);
    assert_eq!(fnv_hash(&vec!['a']), 0xaf63_dc4c_8601_ec8c);
}

#[test]
fn identity_ignores_case_and_trailing_slash() {
    assert_eq!(hash_url("http://example.test/a/"), hash_url("HTTP://EXAMPLE.test/a"));
    assert_ne!(hash_url("http://example.test/a"), hash_url("http://example.test/b"));
}

#[test]
fn frontier_deduplicates() {
    let mut f = Frontier::new();
    assert!(f.push(Task::new("http://example.test/loop".to_string(), 0)));
    assert!(!f.push(Task::new("http://example.test/loop/".to_string(), 1)));
    assert_eq!(f.size(), 1);
    assert_eq!(f.seen_len(), 1);
    assert!(f.is_seen("HTTP://example.test/loop"));
}

#[test]
fn frontier_is_fifo_and_retries_bypass_dedup() {
    let mut f = Frontier::new();
    assert!(f.push(Task::new("http://h.test/1".to_string(), 0)));
    assert!(f.push(Task::new("http://h.test/2".to_string(), 0)));
    let first = f.pop().unwrap();
    assert_eq!(first.url, "http://h.test/1");
    f.push_retry(Task { url: first.url.clone(), depth: 0, retry_count: 1 });
    assert_eq!(f.size(), 2);
    assert_eq!(f.pop().unwrap().url, "http://h.test/2");
    let again = f.pop().unwrap();
    assert_eq!(again.url, "http://h.test/1");
    assert_eq!(again.retry_count, 1);
    assert!(f.pop().is_none());
    assert_eq!(f.seen_len(), 2);
}

#[test]
fn mark_seen_is_test_and_set() {
    let mut f = Frontier::new();
    assert!(f.mark_seen("http://h.test/a.pdf"));
    assert!(!f.mark_seen("http://h.test/a.pdf"));
    assert_eq!(f.size(), 0);
}
