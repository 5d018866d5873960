use pdf_crawler::config::{Cli, ConfigError, CrawlerConfig};
use pdf_crawler::misc::{get_drives, get_extension, human_bytes, should_exclude_domain};
use pdf_crawler::numbers::parse_u64;
use pdf_crawler::pool::{AdaptivePool, ShutdownMonitor};
use pdf_crawler::robots::{robots_allows, RobotsCache, RobotsStep};
use pdf_crawler::verification::{
    accept_check, after_head_check, after_partial_get, is_likely_pdf_url, should_report_progress, ProbeError,
};

#[test]
fn readable_sizes() {
    assert_eq!(human_bytes(0), "0 B");
    assert_eq!(human_bytes(1024), "1024 B");
    assert_eq!(human_bytes(1536), "1.5 KB");
    assert_eq!(human_bytes(2048), "2.0 KB");
    assert_eq!(human_bytes(1_048_576), "1024.0 KB");
    assert_eq!(human_bytes(5 * 1_048_576), "5.0 MB");
    assert_eq!(human_bytes(1_153_434), "1.1 MB");
}

#[test]
fn excluded_domains() {
    assert!(should_exclude_domain("https://www.youtube.com/watch"));
    assert!(!should_exclude_domain("https://example.test/"));
}

#[test]
fn extensions_and_drives() {
    assert_eq!(get_extension("dir/File.PDF"), Some("pdf".to_string()));
    assert_eq!(get_extension("archive.tar.GZ"), Some("gz".to_string()));
    assert_eq!(get_extension(".bashrc"), None);
    assert_eq!(get_extension("README"), None);
    assert_eq!(get_drives(&[true, false, true]), vec!["A:".to_string(), "C:".to_string()]);
}

#[test]
fn decimal_parsing() {
    let p = |s: &str| parse_u64(&s.chars().collect());
    assert_eq!(p("123"), Some(123));
    assert_eq!(p("+7"), Some(7));
    assert_eq!(p("18446744073709551615"), Some(u64::MAX));
    assert_eq!(p("18446744073709551616"), None);
    assert_eq!(p(""), None);
    assert_eq!(p("+"), None);
    assert_eq!(p("12a"), None);
}

#[test]
fn scaling_policy() {
    let mut p = AdaptivePool::new(12, 7, 50, 10);
    assert_eq!(p.rescale(), 13);
    for _ in 0..10 {
        p.record_error();
    }
    assert_eq!(p.rescale(), 12);
    p.record_success();
    assert_eq!(p.errors(), 9);
    assert_eq!(p.rescale(), 12);
    let mut q = AdaptivePool::new(1, 7, 50, 10);
    assert_eq!(q.workers(), 7);
    for _ in 0..20 {
        q.record_error();
    }
    assert_eq!(q.rescale(), 7);
}

#[test]
fn shutdown_after_idle_window() {
    let mut m = ShutdownMonitor::new(20, 60);
    for _ in 0..19 {
        assert!(!m.on_idle_tick(true, true));
    }
    assert!(m.on_idle_tick(true, true));
    let mut busy = ShutdownMonitor::new(20, 60);
    for _ in 0..59 {
        assert!(!busy.on_idle_tick(false, true));
    }
    assert!(busy.on_idle_tick(false, true));
    let mut w = ShutdownMonitor::new(2, 60);
    assert!(!w.on_idle_tick(true, true));
    w.on_work();
    assert!(!w.on_idle_tick(true, true));
    w.on_deadline();
    assert!(w.is_shutdown());
}

#[test]
fn robots_rule() {
    assert!(!robots_allows(Some("User-agent: *\nDisallow: /\n")));
    assert!(robots_allows(Some("User-agent: *\nDisallow: /private\n")) == false);
    assert!(robots_allows(Some("User-agent: *\nAllow: /\n")));
    assert!(robots_allows(None));
    let mut c = RobotsCache::new();
    assert_eq!(c.can_fetch(false, "h.test"), RobotsStep::Known(true));
    assert_eq!(c.can_fetch(true, "h.test"), RobotsStep::Fetch);
    c.record("h.test".to_string(), false);
    assert_eq!(c.can_fetch(true, "h.test"), RobotsStep::Known(false));
    assert_eq!(c.lookup("other.test"), None);
}

#[test]
fn head_and_partial_checks() {
    let c = after_head_check(true, Some("Application/PDF"), Some("4096")).unwrap();
    assert_eq!(c.content_type.as_deref(), Some("application/pdf"));
    assert_eq!(c.content_length, Some(4096));
    assert!(c.verified);
    assert!(!after_head_check(true, Some("application/pdf"), Some("100")).unwrap().verified);
    assert!(after_head_check(false, Some("application/pdf"), Some("4096")).is_none());
    assert!(after_head_check(true, None, Some("4096")).is_none());
    assert!(after_head_check(true, Some("application/pdf"), None).is_none());
    let p = after_partial_get(206, Some("application/pdf"), Some("bytes 0-8191/50000"), Some("8192"), b"%PDF-1.5").unwrap();
    assert_eq!(p.content_length, Some(50000));
    assert!(p.verified);
    let q = after_partial_get(200, None, None, Some("10"), b"%PDF-1.5").unwrap();
    assert!(!q.verified);
    assert_eq!(after_partial_get(503, None, None, None, b"").unwrap_err(), ProbeError::Status(503));
    assert!(accept_check(true, Ok(p.clone())).is_some());
    assert!(accept_check(true, Ok(q.clone())).is_none());
    assert!(accept_check(false, Ok(q)).is_some());
    assert!(accept_check(false, Err(ProbeError::Status(500))).is_none());
}

#[test]
fn report_crawler_url_heuristic() {
    assert!(is_likely_pdf_url("http://x.test/FILE.PDF"));
    assert!(is_likely_pdf_url("http://x.test/download?type=pdf"));
    assert!(is_likely_pdf_url("http://x.test/doc?format=pdf"));
    assert!(!is_likely_pdf_url("http://x.test/about.html"));
    assert!(should_report_progress(5, 0));
    assert!(should_report_progress(3, 1));
    assert!(!should_report_progress(3, 0));
}

#[test]
fn configuration() {
    let c = CrawlerConfig::default();
    assert_eq!(c.validate(), Ok(()));
    assert_eq!(c.max_retries, 2);
    let mut z = CrawlerConfig::default();
    z.host_rate_limit = 0;
    assert_eq!(z.validate(), Err(ConfigError::ZeroRateLimit));
    let mut w = CrawlerConfig::default();
    w.min_workers = 60;
    assert_eq!(w.validate(), Err(ConfigError::WorkerBounds));
    let cli = Cli::with_url("example.test/index.html".to_string());
    assert_eq!(cli.start_url(), "http://example.test/index.html");
    assert_eq!(cli.depth, 5);
    let s = Cli::with_url("https://example.test".to_string());
    assert_eq!(s.start_url(), "https://example.test");
}
