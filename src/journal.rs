//! The result journal: crawl metadata and the PDFs found, kept consistent
//! under every update. Each state is what gets written out as the report.

use vstd::prelude::*;

verus! {

/// The phase a crawl is in.
#[derive(Clone, Copy, Debug, PartialEq, Eq, Structural)]
pub enum CrawlStatus {
    Initializing,
    InProgress,
    Completed,
    Failed,
}

impl CrawlStatus {
    /// The name of the status as the report spells it.
    pub fn as_str(&self) -> (r: &'static str)
        ensures
            r@ == status_name(*self),
    {
        match self {
            CrawlStatus::Initializing => "initializing",
            CrawlStatus::InProgress => "in_progress",
            CrawlStatus::Completed => "completed",
            CrawlStatus::Failed => "failed",
        }
    }
}

pub open spec fn status_name(s: CrawlStatus) -> Seq<char> {
    match s {
        CrawlStatus::Initializing => "initializing"@,
        CrawlStatus::InProgress => "in_progress"@,
        CrawlStatus::Completed => "completed"@,
        CrawlStatus::Failed => "failed"@,
    }
}

/// A PDF found during the crawl.
#[derive(Clone, Debug)]
pub struct PdfInfo {
    pub url: String,
    pub source_page: String,
    pub depth: usize,
    pub title: Option<String>,
    pub size_hint: Option<String>,
    pub content_type: Option<String>,
    pub content_length: Option<u64>,
    /// RFC 3339 time of discovery.
    pub discovered_at: String,
    pub verified: bool,
}

/// Totals and state of a crawl.
#[derive(Clone, Debug)]
pub struct CrawlMetadata {
    pub start_url: String,
    pub max_depth: usize,
    pub total_pages_crawled: usize,
    pub total_pdfs_found: usize,
    pub verified_pdfs: usize,
    pub failed_verifications: usize,
    /// RFC 3339 time the crawl started.
    pub crawl_timestamp: String,
    pub status: CrawlStatus,
    pub verification_enabled: bool,
}

/// The whole report.
#[derive(Clone, Debug)]
pub struct CrawlResults {
    pub metadata: CrawlMetadata,
    pub pdfs: Vec<PdfInfo>,
}

/// An update to the journal.
pub enum WriterMessage {
    AddPdf(PdfInfo),
    UpdateMetadata { pages_crawled: usize, status: CrawlStatus },
}

/// How many of `flags` hold.
pub open spec fn count_true(flags: Seq<bool>) -> nat
    decreases flags.len(),
{
    if flags.len() == 0 {
        0
    } else {
        count_true(flags.drop_last()) + if flags.last() {
            1nat
        } else {
            0nat
        }
    }
}

/// What the report says, abstractly.
pub struct JournalView {
    pub start_url: Seq<char>,
    pub max_depth: usize,
    pub verification_enabled: bool,
    pub timestamp: Seq<char>,
    pub pages: usize,
    pub found: usize,
    pub verified: usize,
    pub failed: usize,
    pub status: CrawlStatus,
    pub urls: Seq<Seq<char>>,
    pub flags: Seq<bool>,
}

/// The report's counts agree with its list: the number found is the length of
/// the list, the verified are those flagged verified, the rest failed, and no
/// URL is listed twice.
pub open spec fn consistent(v: JournalView) -> bool {
    &&& v.found == v.urls.len()
    &&& v.flags.len() == v.urls.len()
    &&& v.verified == count_true(v.flags)
    &&& v.verified + v.failed == v.found
    &&& forall|i: int, j: int| 0 <= i < j < v.urls.len() ==> v.urls[i] != v.urls[j]
}

proof fn lemma_count_true_bound(flags: Seq<bool>)
    ensures
        count_true(flags) <= flags.len(),
    decreases flags.len(),
{
    if flags.len() > 0 {
        lemma_count_true_bound(flags.drop_last());
    }
}

/// Journal atomicity, as far as the contents go: every state of the journal
/// has `total_pdfs_found` equal to the number of PDFs listed, and at most that
/// many verified and failed together.
pub proof fn lemma_report_counts(v: JournalView)
    requires
        consistent(v),
    ensures
        v.found == v.urls.len(),
        v.verified + v.failed <= v.found,
{
}

/// The journal after listing a PDF with URL `url` and flag `verified`
/// that was not listed yet.
pub open spec fn with_pdf(v: JournalView, url: Seq<char>, verified: bool) -> JournalView {
    JournalView {
        found: (v.found + 1) as usize,
        verified: if verified {
            (v.verified + 1) as usize
        } else {
            v.verified
        },
        failed: if verified {
            v.failed
        } else {
            (v.failed + 1) as usize
        },
        urls: v.urls.push(url),
        flags: v.flags.push(verified),
        ..v
    }
}

/// The journal of one crawl.
pub struct IncrementalWriter {
    results: CrawlResults,
}

impl View for IncrementalWriter {
    type V = JournalView;

    closed spec fn view(&self) -> JournalView {
        JournalView {
            start_url: self.results.metadata.start_url@,
            max_depth: self.results.metadata.max_depth,
            verification_enabled: self.results.metadata.verification_enabled,
            timestamp: self.results.metadata.crawl_timestamp@,
            pages: self.results.metadata.total_pages_crawled,
            found: self.results.metadata.total_pdfs_found,
            verified: self.results.metadata.verified_pdfs,
            failed: self.results.metadata.failed_verifications,
            status: self.results.metadata.status,
            urls: self.results.pdfs@.map_values(|p: PdfInfo| p.url@),
            flags: self.results.pdfs@.map_values(|p: PdfInfo| p.verified),
        }
    }
}

impl IncrementalWriter {
    /// An empty journal of a crawl from `start_url`, started at `timestamp`.
    pub fn new(start_url: String, max_depth: usize, verification_enabled: bool, timestamp: String) -> (r:
        IncrementalWriter)
        ensures
            consistent(r@),
            r@.pages == 0,
            r@.urls.len() == 0,
            r@.status == CrawlStatus::Initializing,
            r@.start_url == start_url@,
            r@.max_depth == max_depth,
            r@.verification_enabled == verification_enabled,
            r@.timestamp == timestamp@,
    {
        let metadata = CrawlMetadata {
            start_url,
            max_depth,
            total_pages_crawled: 0,
            total_pdfs_found: 0,
            verified_pdfs: 0,
            failed_verifications: 0,
            crawl_timestamp: timestamp,
            status: CrawlStatus::Initializing,
            verification_enabled,
        };
        let r = IncrementalWriter { results: CrawlResults { metadata, pdfs: Vec::new() } };
        assert(r@.urls =~= Seq::<Seq<char>>::empty());
        assert(r@.flags =~= Seq::<bool>::empty());
        r
    }

    /// The report as it stands.
    pub fn results(&self) -> (r: &CrawlResults)
        ensures
            r.metadata.total_pages_crawled == self@.pages,
            r.metadata.total_pdfs_found == self@.found,
            r.metadata.verified_pdfs == self@.verified,
            r.metadata.failed_verifications == self@.failed,
            r.metadata.status == self@.status,
            r.pdfs@.map_values(|p: PdfInfo| p.url@) == self@.urls,
            r.pdfs@.map_values(|p: PdfInfo| p.verified) == self@.flags,
            r.metadata.start_url@ == self@.start_url,
            r.metadata.max_depth == self@.max_depth,
            r.metadata.verification_enabled == self@.verification_enabled,
            r.metadata.crawl_timestamp@ == self@.timestamp,
    {
        &self.results
    }

    /// Whether a PDF with this URL is listed.
    pub fn contains_url(&self, url: &String) -> (r: bool)
        ensures
            r == self@.urls.contains(url@),
    {
        let mut i: usize = 0;
        while i < self.results.pdfs.len()
            invariant
                i <= self.results.pdfs.len(),
                forall|k: int| 0 <= k < i ==> self.results.pdfs@[k].url@ != url@,
            decreases self.results.pdfs.len() - i,
        {
            if self.results.pdfs[i].url == *url {
                assert(self@.urls[i as int] == url@);
                return true;
            }
            i += 1;
        }
        assert(!self@.urls.contains(url@)) by {
            if self@.urls.contains(url@) {
                let k = choose|k: int| 0 <= k < self@.urls.len() && self@.urls[k] == url@;
                assert(self.results.pdfs@[k].url@ == url@);
            }
        }
        false
    }

    /// Lists `pdf` unless its URL is listed already, counting it as verified or
    /// failed. Returns whether it was added.
    pub fn add_pdf(&mut self, pdf: PdfInfo) -> (added: bool)
        requires
            consistent(old(self)@),
        ensures
            consistent(final(self)@),
            added == !old(self)@.urls.contains(pdf.url@),
            added ==> final(self)@ == with_pdf(old(self)@, pdf.url@, pdf.verified),
            !added ==> final(self)@ == old(self)@,
    {
        if self.contains_url(&pdf.url) {
            return false;
        }
        let ghost u = pdf.url@;
        let ghost f = pdf.verified;
        let ghost before = self@;
        let verified = pdf.verified;
        proof {
            lemma_count_true_bound(before.flags);
        }
        self.results.pdfs.push(pdf);
        self.results.metadata.total_pdfs_found = self.results.pdfs.len();
        if verified {
            self.results.metadata.verified_pdfs = self.results.metadata.verified_pdfs + 1;
        } else {
            self.results.metadata.failed_verifications = self.results.metadata.failed_verifications
                + 1;
        }
        assert(self@.urls =~= before.urls.push(u));
        assert(self@.flags =~= before.flags.push(f));
        assert(self@.flags.drop_last() =~= before.flags);
        true
    }

    /// Counts one more page crawled (a full count stays full).
    pub fn inc_pages(&mut self)
        requires
            consistent(old(self)@),
        ensures
            consistent(final(self)@),
            final(self)@ == (JournalView {
                pages: if old(self)@.pages < usize::MAX {
                    (old(self)@.pages + 1) as usize
                } else {
                    old(self)@.pages
                },
                ..old(self)@
            }),
    {
        if self.results.metadata.total_pages_crawled < usize::MAX {
            self.results.metadata.total_pages_crawled = self.results.metadata.total_pages_crawled
                + 1;
        }
    }

    /// Sets the page count and the status.
    pub fn update_metadata(&mut self, pages_crawled: usize, status: CrawlStatus)
        requires
            consistent(old(self)@),
        ensures
            consistent(final(self)@),
            final(self)@ == (JournalView { pages: pages_crawled, status, ..old(self)@ }),
    {
        self.results.metadata.total_pages_crawled = pages_crawled;
        self.results.metadata.status = status;
    }

    /// Marks the crawl completed.
    pub fn finish(&mut self)
        requires
            consistent(old(self)@),
        ensures
            consistent(final(self)@),
            final(self)@ == (JournalView { status: CrawlStatus::Completed, ..old(self)@ }),
    {
        self.results.metadata.status = CrawlStatus::Completed;
    }

    /// Applies one message; returns whether the report changed and must be written out.
    pub fn apply(&mut self, msg: WriterMessage) -> (changed: bool)
        requires
            consistent(old(self)@),
        ensures
            consistent(final(self)@),
            match msg {
                WriterMessage::AddPdf(p) => changed == !old(self)@.urls.contains(p.url@) && (changed
                    ==> final(self)@ == with_pdf(old(self)@, p.url@, p.verified)),
                WriterMessage::UpdateMetadata { pages_crawled, status } => changed && final(self)@
                    == (JournalView { pages: pages_crawled, status, ..old(self)@ }),
            },
            !changed ==> final(self)@ == old(self)@,
    {
        match msg {
            WriterMessage::AddPdf(p) => self.add_pdf(p),
            WriterMessage::UpdateMetadata { pages_crawled, status } => {
                self.update_metadata(pages_crawled, status);
                true
            },
        }
    }
}

} // verus!
