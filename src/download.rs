//! The validated download of one PDF, as a state machine. The caller streams
//! the body into a temporary file, feeds each chunk here, validates the
//! written file, and renames it into place once the machine is `Validated`.
//! On every error the machine is `Failed` and the caller removes the temporary file.

use vstd::prelude::*;
use crate::pdf_validator::{html_or_xml, pdf_start_ok, PDFValidator};
use crate::filename::{proposed_name, sanitized};
use crate::text::{contains_text, has_chars};

verus! {

/// Largest body that is downloaded, in bytes.
pub const MAX_DOWNLOAD_BYTES: u64 = 100_000_000;

#[derive(Clone, Copy, Debug, PartialEq, Eq, Structural)]
pub enum DownloadPhase {
    Queued,
    Fetching,
    ValidatingFirstChunk,
    Streaming,
    Validated,
    Committed,
    Failed,
}

#[derive(Clone, Copy, Debug, PartialEq, Eq, Structural)]
pub enum DownloadError {
    /// The response's `Content-Type` is HTML.
    HtmlContentType,
    /// The first chunk is HTML or XML.
    LooksLikeMarkup,
    /// The first chunk does not start like a PDF.
    NotPdfStart,
    /// The body passed `MAX_DOWNLOAD_BYTES`.
    TooLarge,
    /// The body's length differs from the announced `Content-Length`.
    SizeMismatch { expected: u64, received: u64 },
    /// The written file failed the complete-PDF validation.
    Invalid,
}

impl DownloadError {
    /// A short description of the error.
    pub fn message(&self) -> &'static str {
        match self {
            DownloadError::HtmlContentType => "content is HTML, not PDF",
            DownloadError::LooksLikeMarkup => "file appears to be HTML/XML, not PDF",
            DownloadError::NotPdfStart => "file does not appear to be a PDF (invalid header)",
            DownloadError::TooLarge => "file too large, download aborted",
            DownloadError::SizeMismatch { .. } => "file size differs from Content-Length",
            DownloadError::Invalid => "downloaded file failed PDF validation",
        }
    }
}

/// A `Content-Type` that is plainly HTML: it mentions `text/html` and not `pdf`.
pub open spec fn html_content_type(ct: Seq<char>) -> bool {
    has_chars(ct, "text/html"@, false) && !has_chars(ct, "pdf"@, false)
}

pub fn is_html_content_type(content_type: &str) -> (r: bool)
    ensures
        r == html_content_type(content_type@),
{
    contains_text(content_type, "text/html", false) && !contains_text(content_type, "pdf", false)
}

/// Whether an existing file is kept instead of downloading again: it exists,
/// it is a complete PDF, and the run resumes an earlier one.
pub open spec fn keeps_existing(exists: bool, valid: bool, resume: bool) -> bool {
    exists && valid && resume
}

pub fn preflight_skip(exists: bool, valid: bool, resume: bool) -> (r: bool)
    ensures
        r == keeps_existing(exists, valid, resume),
{
    exists && valid && resume
}

pub struct DownloadView {
    pub phase: DownloadPhase,
    pub received: u64,
    pub expected: Option<u64>,
}

/// One download in progress.
pub struct Download {
    phase: DownloadPhase,
    received: u64,
    expected: Option<u64>,
}

impl View for Download {
    type V = DownloadView;

    closed spec fn view(&self) -> DownloadView {
        DownloadView { phase: self.phase, received: self.received, expected: self.expected }
    }
}

impl Download {
    pub fn new() -> (r: Download)
        ensures
            r@ == (DownloadView { phase: DownloadPhase::Queued, received: 0, expected: None }),
    {
        Download { phase: DownloadPhase::Queued, received: 0, expected: None }
    }

    pub fn phase(&self) -> (r: DownloadPhase)
        ensures
            r == self@.phase,
    {
        self.phase
    }

    /// Bytes received so far.
    pub fn received(&self) -> (r: u64)
        ensures
            r == self@.received,
    {
        self.received
    }

    /// The request is sent.
    pub fn start(&mut self)
        requires
            old(self)@.phase == DownloadPhase::Queued,
        ensures
            final(self)@ == (DownloadView { phase: DownloadPhase::Fetching, ..old(self)@ }),
    {
        self.phase = DownloadPhase::Fetching;
    }

    /// The response headers arrived: an HTML `Content-Type` fails the download;
    /// otherwise the announced length is kept and the first chunk is awaited.
    pub fn on_response(&mut self, content_type: Option<&str>, content_length: Option<u64>) -> (r:
        Result<(), DownloadError>)
        requires
            old(self)@.phase == DownloadPhase::Fetching,
        ensures
            match content_type {
                Some(ct) => html_content_type(ct@),
                None => false,
            } ==> r == Err::<(), DownloadError>(DownloadError::HtmlContentType) && final(self)@ == (
            DownloadView { phase: DownloadPhase::Failed, ..old(self)@ }),
            !match content_type {
                Some(ct) => html_content_type(ct@),
                None => false,
            } ==> r is Ok && final(self)@ == (DownloadView {
                phase: DownloadPhase::ValidatingFirstChunk,
                received: 0,
                expected: content_length,
            }),
    {
        let html = match content_type {
            Some(ct) => is_html_content_type(ct),
            None => false,
        };
        if html {
            self.phase = DownloadPhase::Failed;
            return Err(DownloadError::HtmlContentType);
        }
        self.phase = DownloadPhase::ValidatingFirstChunk;
        self.received = 0;
        self.expected = content_length;
        Ok(())
    }

    /// A chunk of the body arrived. The first must not be markup and must start
    /// like a PDF; the running total must stay within `MAX_DOWNLOAD_BYTES`.
    /// On `Ok` the caller appends the chunk to the temporary file.
    pub fn on_chunk(&mut self, chunk: &[u8]) -> (r: Result<(), DownloadError>)
        requires
            old(self)@.phase == DownloadPhase::ValidatingFirstChunk || old(self)@.phase
                == DownloadPhase::Streaming,
            old(self)@.received <= MAX_DOWNLOAD_BYTES,
        ensures
            ({
                let first = old(self)@.phase == DownloadPhase::ValidatingFirstChunk;
                let total = old(self)@.received + chunk@.len();
                if first && html_or_xml(chunk@) {
                    r == Err::<(), DownloadError>(DownloadError::LooksLikeMarkup) && final(self)@ == (
                    DownloadView { phase: DownloadPhase::Failed, ..old(self)@ })
                } else if first && !pdf_start_ok(chunk@) {
                    r == Err::<(), DownloadError>(DownloadError::NotPdfStart) && final(self)@ == (
                    DownloadView { phase: DownloadPhase::Failed, ..old(self)@ })
                } else if total > MAX_DOWNLOAD_BYTES {
                    r == Err::<(), DownloadError>(DownloadError::TooLarge) && final(self)@ == (
                    DownloadView { phase: DownloadPhase::Failed, ..old(self)@ })
                } else {
                    r is Ok && final(self)@ == (DownloadView {
                        phase: DownloadPhase::Streaming,
                        received: total as u64,
                        expected: old(self)@.expected,
                    })
                }
            }),
    {
        if self.phase == DownloadPhase::ValidatingFirstChunk {
            if PDFValidator::is_likely_html_or_xml(chunk) {
                self.phase = DownloadPhase::Failed;
                return Err(DownloadError::LooksLikeMarkup);
            }
            if !PDFValidator::is_likely_pdf_start(chunk) {
                self.phase = DownloadPhase::Failed;
                return Err(DownloadError::NotPdfStart);
            }
        }
        let len = chunk.len() as u64;
        if len > MAX_DOWNLOAD_BYTES - self.received {
            self.phase = DownloadPhase::Failed;
            return Err(DownloadError::TooLarge);
        }
        self.received = self.received + len;
        self.phase = DownloadPhase::Streaming;
        Ok(())
    }

    /// The body ended and the temporary file was synced and validated
    /// (`file_valid`). A length other than the announced one fails first;
    /// then an invalid file; otherwise the download is `Validated`.
    pub fn on_end(&mut self, file_valid: bool) -> (r: Result<(), DownloadError>)
        requires
            old(self)@.phase == DownloadPhase::ValidatingFirstChunk || old(self)@.phase
                == DownloadPhase::Streaming,
        ensures
            match old(self)@.expected {
                Some(e) => e != old(self)@.received,
                None => false,
            } ==> r == Err::<(), DownloadError>(
                DownloadError::SizeMismatch {
                    expected: old(self)@.expected->Some_0,
                    received: old(self)@.received,
                },
            ) && final(self)@ == (DownloadView { phase: DownloadPhase::Failed, ..old(self)@ }),
            match old(self)@.expected {
                Some(e) => e == old(self)@.received,
                None => true,
            } ==> if file_valid {
                r is Ok && final(self)@ == (DownloadView {
                    phase: DownloadPhase::Validated,
                    ..old(self)@
                })
            } else {
                r == Err::<(), DownloadError>(DownloadError::Invalid) && final(self)@ == (
                DownloadView { phase: DownloadPhase::Failed, ..old(self)@ })
            },
    {
        if let Some(e) = self.expected {
            if e != self.received {
                self.phase = DownloadPhase::Failed;
                return Err(DownloadError::SizeMismatch { expected: e, received: self.received });
            }
        }
        if !file_valid {
            self.phase = DownloadPhase::Failed;
            return Err(DownloadError::Invalid);
        }
        self.phase = DownloadPhase::Validated;
        Ok(())
    }

    /// The temporary file was renamed into place.
    pub fn commit(&mut self)
        requires
            old(self)@.phase == DownloadPhase::Validated,
        ensures
            final(self)@ == (DownloadView { phase: DownloadPhase::Committed, ..old(self)@ }),
    {
        self.phase = DownloadPhase::Committed;
    }
}

/// Resuming is idempotent: the file name of each link depends on the link
/// alone, so when a first run left a complete file under the name of every
/// link, a second run with `resume` over the same links keeps every file and
/// downloads nothing.
pub proof fn lemma_second_run_downloads_nothing(
    urls: Seq<Seq<char>>,
    dispositions: Seq<Option<Seq<char>>>,
    complete: Set<Seq<char>>,
)
    requires
        urls.len() == dispositions.len(),
        forall|i: int|
            0 <= i < urls.len() ==> complete.contains(
                #[trigger] sanitized(proposed_name(urls[i], dispositions[i])),
            ),
    ensures
        forall|i: int|
            0 <= i < urls.len() ==> #[trigger] keeps_existing(
                complete.contains(sanitized(proposed_name(urls[i], dispositions[i]))),
                complete.contains(sanitized(proposed_name(urls[i], dispositions[i]))),
                true,
            ),
{
}

} // verus!
