//! The staged PDF classifier: URL patterns, URL clues, anchor text, the MIME
//! type of a `HEAD` response, and the magic bytes of a ranged `GET`.
//!
//! The network stages are performed by the caller; each function here takes
//! what the previous stage produced and says what to do next.

use vstd::prelude::*;
use vstd::string::StringSliceAdditionalSpecFns;
use crate::bytes::{begins_with, begins_with_exec};
use crate::outside::{essence_of, mime_essence, pattern_matches, regex_finds};
use crate::text::same_text;

verus! {

/// The verdict of the classifier.
#[derive(Clone, Copy, Debug, PartialEq, Eq, Structural)]
pub enum PdfKind {
    Yes,
    No,
}

/// What the classifier needs next.
#[derive(Clone, Copy, Debug, PartialEq, Eq, Structural)]
pub enum Probe {
    /// The verdict is known.
    Done(PdfKind),
    /// A `HEAD` request for the URL, whose `Content-Type` goes to `after_head`.
    Head,
    /// A ranged `GET` of the first bytes, which go to `after_range`.
    Range,
}

pub open spec fn url_pattern_end() -> Seq<char> {
    "(?i)\\.pdf$"@
}

pub open spec fn url_pattern_query() -> Seq<char> {
    "(?i)\\.pdf\\?"@
}

pub open spec fn url_pattern_fragment() -> Seq<char> {
    "(?i)\\.pdf#"@
}

pub open spec fn url_pattern_dir() -> Seq<char> {
    "(?i)/pdf/"@
}

pub open spec fn url_clue_pattern() -> Seq<char> {
    "(?i)(?:pdf|portable document|\\.pdf[)\"'\\s])"@
}

pub open spec fn anchor_clue_pattern() -> Seq<char> {
    "(?i)(?:download|pdf|document|paper|report|slides)"@
}

/// Stage 1: the URL ends in `.pdf`, or has `.pdf?`, `.pdf#` or `/pdf/` in it.
pub open spec fn url_stage(url: Seq<char>) -> bool {
    ||| regex_finds(url_pattern_end(), url)
    ||| regex_finds(url_pattern_query(), url)
    ||| regex_finds(url_pattern_fragment(), url)
    ||| regex_finds(url_pattern_dir(), url)
}

/// Stage 2: the URL holds a PDF clue.
pub open spec fn clue_stage(url: Seq<char>) -> bool {
    regex_finds(url_clue_pattern(), url)
}

/// Stage 3: the anchor text of the link names a document.
pub open spec fn anchor_stage(anchor: Option<Seq<char>>) -> bool {
    match anchor {
        Some(a) => regex_finds(anchor_clue_pattern(), a),
        None => false,
    }
}

/// Stages 1 to 3, which need no network.
pub open spec fn offline_pdf(url: Seq<char>, anchor: Option<Seq<char>>) -> bool {
    url_stage(url) || clue_stage(url) || anchor_stage(anchor)
}

/// MIME essences served for PDF documents.
pub open spec fn pdf_mime(e: Seq<char>) -> bool {
    ||| e == "application/pdf"@
    ||| e == "application/x-pdf"@
    ||| e == "application/acrobat"@
    ||| e == "applications/vnd.pdf"@
    ||| e == "text/pdf"@
    ||| e == "text/x-pdf"@
    ||| e == "binary/pdf"@
    ||| e == "application/octet-stream"@
}

/// Stage 4: the `Content-Type` of the `HEAD` response has a PDF essence.
pub open spec fn head_stage(content_type: Option<Seq<char>>) -> bool {
    match content_type {
        Some(ct) => match mime_essence(ct) {
            Some(e) => pdf_mime(e),
            None => false,
        },
        None => false,
    }
}

/// Stage 5: the first bytes open with the PDF tag (`%PDF`, which every
/// versioned tag `%PDF-1.0` to `%PDF-2.0` begins with).
pub open spec fn magic_stage(body: Option<Seq<u8>>) -> bool {
    match body {
        Some(b) => begins_with(b, "%PDF".spec_bytes()),
        None => false,
    }
}

/// The first step of classification, given a cached verdict and whether
/// each offline stage fired.
pub open spec fn probe_from_hits(
    cached: Option<PdfKind>,
    url_hit: bool,
    clue_hit: bool,
    anchor_hit: bool,
    network: bool,
) -> Probe {
    match cached {
        Some(k) => Probe::Done(k),
        None => if url_hit || clue_hit || anchor_hit {
            Probe::Done(PdfKind::Yes)
        } else if network {
            Probe::Head
        } else {
            Probe::Done(PdfKind::No)
        },
    }
}

/// The first step of classification.
pub open spec fn start_probe(
    cached: Option<PdfKind>,
    url: Seq<char>,
    anchor: Option<Seq<char>>,
    network: bool,
) -> Probe {
    probe_from_hits(cached, url_stage(url), clue_stage(url), anchor_stage(anchor), network)
}

/// What a `HEAD` answer decides, given the MIME essence of its `Content-Type`.
pub open spec fn probe_from_essence(essence: Option<Seq<char>>) -> Probe {
    match essence {
        Some(e) => if pdf_mime(e) {
            Probe::Done(PdfKind::Yes)
        } else {
            Probe::Range
        },
        None => Probe::Range,
    }
}

pub open spec fn opt_str_view(s: Option<&str>) -> Option<Seq<char>> {
    match s {
        Some(t) => Some(t@),
        None => None,
    }
}

pub open spec fn opt_bytes_view(s: Option<&[u8]>) -> Option<Seq<u8>> {
    match s {
        Some(t) => Some(t@),
        None => None,
    }
}

/// Stage 1 on `url`.
pub fn matches_url_patterns(url: &str) -> (r: bool)
    ensures
        r == url_stage(url@),
{
    pattern_matches("(?i)\\.pdf$", url) || pattern_matches("(?i)\\.pdf\\?", url)
        || pattern_matches("(?i)\\.pdf#", url) || pattern_matches("(?i)/pdf/", url)
}

/// Stage 2 on `url`.
pub fn has_pdf_clue(url: &str) -> (r: bool)
    ensures
        r == clue_stage(url@),
{
    pattern_matches("(?i)(?:pdf|portable document|\\.pdf[)\"'\\s])", url)
}

/// Stage 3 on the anchor text of a link, if it has any.
pub fn anchor_suggests_pdf(anchor: Option<&str>) -> (r: bool)
    ensures
        r == anchor_stage(opt_str_view(anchor)),
{
    match anchor {
        Some(a) => pattern_matches("(?i)(?:download|pdf|document|paper|report|slides)", a),
        None => false,
    }
}

/// Whether a MIME essence is one that PDF documents are served under.
pub fn is_pdf_mime(essence: &str) -> (r: bool)
    ensures
        r == pdf_mime(essence@),
{
    same_text(essence, "application/pdf") || same_text(essence, "application/x-pdf")
        || same_text(essence, "application/acrobat") || same_text(essence, "applications/vnd.pdf")
        || same_text(essence, "text/pdf") || same_text(essence, "text/x-pdf") || same_text(
        essence,
        "binary/pdf",
    ) || same_text(essence, "application/octet-stream")
}

/// Starts classifying `url`: a cached verdict is returned as it is; then the
/// offline stages; then, when `network` allows, a `HEAD` probe is asked for.
pub fn classify_start(
    cached: Option<PdfKind>,
    url: &str,
    anchor: Option<&str>,
    network: bool,
) -> (r: Probe)
    ensures
        r == start_probe(cached, url@, opt_str_view(anchor), network),
{
    if let Some(k) = cached {
        return Probe::Done(k);
    }
    let url_hit = matches_url_patterns(url);
    let clue_hit = has_pdf_clue(url);
    let anchor_hit = anchor_suggests_pdf(anchor);
    classify_from_hits(None, url_hit, clue_hit, anchor_hit, network)
}

/// The first step of classification from the results of the offline stages.
pub fn classify_from_hits(
    cached: Option<PdfKind>,
    url_hit: bool,
    clue_hit: bool,
    anchor_hit: bool,
    network: bool,
) -> (r: Probe)
    ensures
        r == probe_from_hits(cached, url_hit, clue_hit, anchor_hit, network),
{
    if let Some(k) = cached {
        return Probe::Done(k);
    }
    if url_hit || clue_hit || anchor_hit {
        Probe::Done(PdfKind::Yes)
    } else if network {
        Probe::Head
    } else {
        Probe::Done(PdfKind::No)
    }
}

/// What a `HEAD` answer decides, given the MIME essence of its `Content-Type`
/// (`None` when the probe failed or the type did not parse).
pub fn after_head_essence(essence: Option<&str>) -> (r: Probe)
    ensures
        r == probe_from_essence(opt_str_view(essence)),
{
    match essence {
        Some(e) => if is_pdf_mime(e) {
            Probe::Done(PdfKind::Yes)
        } else {
            Probe::Range
        },
        None => Probe::Range,
    }
}

/// After the `HEAD` probe: its `Content-Type`, or `None` when the probe failed
/// or the header was absent.
pub fn after_head(content_type: Option<&str>) -> (r: Probe)
    ensures
        r == (if head_stage(opt_str_view(content_type)) {
            Probe::Done(PdfKind::Yes)
        } else {
            Probe::Range
        }),
{
    let essence = match content_type {
        Some(ct) => essence_of(ct),
        None => None,
    };
    match &essence {
        Some(e) => after_head_essence(Some(e.as_str())),
        None => after_head_essence(None),
    }
}

/// After the ranged `GET`: the bytes received, or `None` when the probe failed.
pub fn after_range(body: Option<&[u8]>) -> (r: PdfKind)
    ensures
        r == (if magic_stage(opt_bytes_view(body)) {
            PdfKind::Yes
        } else {
            PdfKind::No
        }),
{
    let yes = match body {
        Some(b) => begins_with_exec(b, "%PDF".as_bytes()),
        None => false,
    };
    if yes {
        PdfKind::Yes
    } else {
        PdfKind::No
    }
}

/// The verdict of the whole pipeline, given what each network stage returned.
pub open spec fn verdict(
    cached: Option<PdfKind>,
    url: Seq<char>,
    anchor: Option<Seq<char>>,
    network: bool,
    head: Option<Seq<char>>,
    range: Option<Seq<u8>>,
) -> PdfKind {
    match start_probe(cached, url, anchor, network) {
        Probe::Done(k) => k,
        _ => if head_stage(head) || magic_stage(range) {
            PdfKind::Yes
        } else {
            PdfKind::No
        },
    }
}

/// Runs the pipeline over given stage results: the offline decision, then
/// the two network stages in turn when they are reached.
pub fn classify(
    cached: Option<PdfKind>,
    url: &str,
    anchor: Option<&str>,
    network: bool,
    head: Option<&str>,
    range: Option<&[u8]>,
) -> (r: PdfKind)
    ensures
        r == verdict(
            cached,
            url@,
            opt_str_view(anchor),
            network,
            opt_str_view(head),
            opt_bytes_view(range),
        ),
{
    match classify_start(cached, url, anchor, network) {
        Probe::Done(k) => k,
        _ => match after_head(head) {
            Probe::Done(k) => k,
            _ => after_range(range),
        },
    }
}

/// How long, in seconds, a verdict stays in the cache: positive verdicts for
/// `ttl`, negative ones (including failed probes) for `negative_ttl`.
pub fn cache_lifetime(kind: PdfKind, ttl: u64, negative_ttl: u64) -> (r: u64)
    ensures
        r == (if kind == PdfKind::Yes {
            ttl
        } else {
            negative_ttl
        }),
{
    match kind {
        PdfKind::Yes => ttl,
        PdfKind::No => negative_ttl,
    }
}

/// A cached verdict is final: whatever the network would answer, classifying
/// a URL whose verdict is cached returns that verdict, with no probe.
pub proof fn lemma_cached_verdict_stands(
    k: PdfKind,
    url: Seq<char>,
    anchor: Option<Seq<char>>,
    network: bool,
    head: Option<Seq<char>>,
    range: Option<Seq<u8>>,
)
    ensures
        start_probe(Some(k), url, anchor, network) == Probe::Done(k),
        verdict(Some(k), url, anchor, network, head, range) == k,
{
}

/// Classification is a function of its inputs: caching its verdict and
/// classifying again returns the same verdict.
pub proof fn lemma_classify_then_cached(
    cached: Option<PdfKind>,
    url: Seq<char>,
    anchor: Option<Seq<char>>,
    network: bool,
    head: Option<Seq<char>>,
    range: Option<Seq<u8>>,
)
    ensures
        ({
            let k = verdict(cached, url, anchor, network, head, range);
            verdict(Some(k), url, anchor, network, head, range) == k
        }),
{
}

} // verus!
