//! Configuration of a crawl, and the command-line options that set it.

use vstd::prelude::*;
use crate::links::opens_with;
use crate::text::starts_with_text;

verus! {

/// Settings of the crawler. Durations are in milliseconds or seconds, as named.
#[derive(Clone, Debug)]
pub struct CrawlerConfig {
    pub download_dir: String,
    pub concurrent_crawlers: usize,
    pub concurrent_checks: usize,
    pub concurrent_downloads: usize,
    /// Bytes asked for by the magic-byte probe.
    pub pdf_header_check_size: usize,
    pub cache_capacity: u64,
    pub cache_ttl_secs: u64,
    pub negative_cache_ttl_secs: u64,
    pub page_request_timeout_ms: u64,
    pub pdf_queue_buffer: usize,
    pub crawl_queue_buffer: usize,
    /// Requests per second to one host.
    pub host_rate_limit: u32,
    pub global_socket_limit: usize,
    pub download_timeout_secs: u64,
    pub max_retries: u32,
    pub retry_delay_ms: u64,
    pub connection_pool_size: usize,
    /// Keep complete files that an earlier run left, instead of downloading them again.
    pub resume: bool,
    pub min_workers: usize,
    pub max_workers: usize,
    pub error_threshold: usize,
}

/// Why a configuration cannot be used.
#[derive(Clone, Copy, Debug, PartialEq, Eq, Structural)]
pub enum ConfigError {
    /// The per-host rate is zero.
    ZeroRateLimit,
    /// The magic-byte probe asks for no bytes.
    ZeroProbeSize,
    /// A concurrency limit is zero.
    ZeroConcurrency,
    /// The worker bounds are empty.
    WorkerBounds,
}

/// The error that `validate` reports for a configuration, if any.
pub open spec fn config_error(c: CrawlerConfig) -> Option<ConfigError> {
    if c.host_rate_limit == 0 {
        Some(ConfigError::ZeroRateLimit)
    } else if c.pdf_header_check_size == 0 {
        Some(ConfigError::ZeroProbeSize)
    } else if c.concurrent_crawlers == 0 || c.concurrent_downloads == 0 || c.global_socket_limit
        == 0 {
        Some(ConfigError::ZeroConcurrency)
    } else if c.min_workers > c.max_workers || c.min_workers == 0 {
        Some(ConfigError::WorkerBounds)
    } else {
        None
    }
}

impl CrawlerConfig {
    /// Checks that the crawler can run with these settings.
    pub fn validate(&self) -> (r: Result<(), ConfigError>)
        ensures
            match config_error(*self) {
                Some(e) => r == Err::<(), ConfigError>(e),
                None => r is Ok,
            },
    {
        if self.host_rate_limit == 0 {
            Err(ConfigError::ZeroRateLimit)
        } else if self.pdf_header_check_size == 0 {
            Err(ConfigError::ZeroProbeSize)
        } else if self.concurrent_crawlers == 0 || self.concurrent_downloads == 0
            || self.global_socket_limit == 0 {
            Err(ConfigError::ZeroConcurrency)
        } else if self.min_workers > self.max_workers || self.min_workers == 0 {
            Err(ConfigError::WorkerBounds)
        } else {
            Ok(())
        }
    }
}

impl Default for CrawlerConfig {
    fn default() -> (r: CrawlerConfig)
        ensures
            r.download_dir@ == "downloaded_pdfs"@,
            r.concurrent_crawlers == 30,
            r.concurrent_checks == 10,
            r.concurrent_downloads == 4,
            r.pdf_header_check_size == 1024,
            r.cache_capacity == 120_000,
            r.cache_ttl_secs == 3600,
            r.negative_cache_ttl_secs == 30,
            r.page_request_timeout_ms == 12_000,
            r.pdf_queue_buffer == 2500,
            r.crawl_queue_buffer == 10_000,
            r.host_rate_limit == 20,
            r.global_socket_limit == 5000,
            r.download_timeout_secs == 120,
            r.max_retries == 2,
            r.retry_delay_ms == 500,
            r.connection_pool_size == 300,
            r.resume,
            r.min_workers == 7,
            r.max_workers == 50,
            r.error_threshold == 10,
            config_error(r) is None,
    {
        CrawlerConfig {
            download_dir: "downloaded_pdfs".to_string(),
            concurrent_crawlers: 30,
            concurrent_checks: 10,
            concurrent_downloads: 4,
            pdf_header_check_size: 1024,
            cache_capacity: 120_000,
            cache_ttl_secs: 3600,
            negative_cache_ttl_secs: 30,
            page_request_timeout_ms: 12_000,
            pdf_queue_buffer: 2500,
            crawl_queue_buffer: 10_000,
            host_rate_limit: 20,
            global_socket_limit: 5000,
            download_timeout_secs: 120,
            max_retries: 2,
            retry_delay_ms: 500,
            connection_pool_size: 300,
            resume: true,
            min_workers: 7,
            max_workers: 50,
            error_threshold: 10,
        }
    }
}

/// Command-line options of the crawler.
#[derive(Clone, Debug)]
pub struct Cli {
    /// Start URL; `http://` is put in front when it names no scheme.
    pub url: String,
    /// Deepest level crawled.
    pub depth: u32,
    /// Baseline number of workers.
    pub concurrency: usize,
    /// Pause between requests, in milliseconds.
    pub delay: u64,
    /// Path of the JSON report.
    pub output: String,
    /// Whether a host whose robots file disallows `/` is skipped.
    pub respect_robots: bool,
    /// Whether the classifier's network stages run.
    pub verify_pdfs: bool,
    /// Worker threads, when set.
    pub threads: Option<usize>,
}

/// The start URL given `url`: itself when it begins with `http://` or
/// `https://`, else `url` after `http://`.
pub open spec fn start_url_of(url: Seq<char>) -> Seq<char> {
    if opens_with(url, "http://"@) || opens_with(url, "https://"@) {
        url
    } else {
        "http://"@ + url
    }
}

impl Cli {
    /// Options with the defaults for everything but the URL.
    pub fn with_url(url: String) -> (r: Cli)
        ensures
            r.url@ == url@,
            r.depth == 5,
            r.concurrency == 12,
            r.delay == 1000,
            r.output@ == "pdfs.json"@,
            !r.respect_robots,
            r.verify_pdfs,
            r.threads is None,
    {
        Cli {
            url,
            depth: 5,
            concurrency: 12,
            delay: 1000,
            output: "pdfs.json".to_string(),
            respect_robots: false,
            verify_pdfs: true,
            threads: None,
        }
    }

    /// The URL the crawl starts from.
    pub fn start_url(&self) -> (r: String)
        ensures
            r@ == start_url_of(self.url@),
    {
        if starts_with_text(self.url.as_str(), "http://") || starts_with_text(
            self.url.as_str(),
            "https://",
        ) {
            self.url.clone()
        } else {
            let mut s = "http://".to_string();
            s.append(self.url.as_str());
            s
        }
    }
}

} // verus!
