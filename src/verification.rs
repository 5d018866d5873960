//! Verification of a PDF link for the report: a `HEAD` request first, and a
//! partial `GET` of the first 8 KiB when the `HEAD` answer says too little.
//! The caller makes the requests; these functions read the answers.

use vstd::prelude::*;
use vstd::string::StringSliceAdditionalSpecFns;
use crate::bytes::{occurs, occurs_exec};
use crate::numbers::{parse_u64, parsed_u64};
use crate::outside::{lowercase, lowercase_of, opt_string_view};
use crate::text::{chars_of, contains_text, ends_with_chars, ends_with_exec, has_chars};

verus! {

/// Smallest `Content-Length` of a verified PDF, exclusive.
pub const MIN_VERIFIED_LENGTH: u64 = 1024;

/// What verification learned of a PDF link.
#[derive(Clone, Debug)]
pub struct PdfCheck {
    pub content_type: Option<String>,
    pub content_length: Option<u64>,
    pub verified: bool,
}

pub struct PdfCheckView {
    pub content_type: Option<Seq<char>>,
    pub content_length: Option<u64>,
    pub verified: bool,
}

impl View for PdfCheck {
    type V = PdfCheckView;

    open spec fn view(&self) -> PdfCheckView {
        PdfCheckView {
            content_type: opt_string_view(self.content_type),
            content_length: self.content_length,
            verified: self.verified,
        }
    }
}

/// Why verification failed.
#[derive(Clone, Copy, Debug, PartialEq, Eq, Structural)]
pub enum ProbeError {
    /// The partial `GET` was answered with this status.
    Status(u16),
}

pub open spec fn opt_seq(s: Option<&str>) -> Option<Seq<char>> {
    match s {
        Some(t) => Some(t@),
        None => None,
    }
}

pub open spec fn lower_opt(s: Option<Seq<char>>) -> Option<Seq<char>> {
    match s {
        Some(t) => Some(lowercase_of(t)),
        None => None,
    }
}

pub open spec fn parse_opt(s: Option<Seq<char>>) -> Option<u64> {
    match s {
        Some(t) => parsed_u64(t),
        None => None,
    }
}

pub open spec fn len_or_zero(l: Option<u64>) -> u64 {
    match l {
        Some(n) => n,
        None => 0,
    }
}

/// A lower-cased `Content-Type` that names a PDF.
pub open spec fn pdf_content_type(ct: Option<Seq<char>>) -> bool {
    match ct {
        Some(c) => has_chars(c, "application/pdf"@, false) || has_chars(c, "application/x-pdf"@, false),
        None => false,
    }
}

/// What the `HEAD` answer decides: `None` when a partial `GET` is needed
/// (the request failed, or no type, or no or zero length); otherwise the
/// check, verified when the type is PDF and the length above `MIN_VERIFIED_LENGTH`.
pub open spec fn head_check(ok: bool, ct: Option<Seq<char>>, len: Option<Seq<char>>) -> Option<PdfCheckView> {
    let t = lower_opt(ct);
    let l = parse_opt(len);
    if !ok || t is None || len_or_zero(l) == 0 {
        None
    } else {
        Some(PdfCheckView {
            content_type: t,
            content_length: l,
            verified: pdf_content_type(t) && len_or_zero(l) > MIN_VERIFIED_LENGTH,
        })
    }
}

/// The piece of `s` after its first `/`, up to the next `/`.
pub open spec fn after_slash(s: Seq<char>) -> Option<Seq<char>>
    decreases s.len(),
{
    if s.len() == 0 {
        None
    } else if s[0] == '/' {
        Some(up_to_slash(s.drop_first()))
    } else {
        after_slash(s.drop_first())
    }
}

pub open spec fn up_to_slash(s: Seq<char>) -> Seq<char>
    decreases s.len(),
{
    if s.len() == 0 {
        s
    } else if s.last() == '/' {
        up_to_slash(s.drop_last())
    } else if exists|i: int| 0 <= i < s.len() && s[i] == '/' {
        up_to_slash(s.drop_last())
    } else {
        s
    }
}

/// The total length a partial answer gives: from `Content-Range`
/// (`bytes a-b/total`), else from `Content-Length`.
pub open spec fn partial_length(range: Option<Seq<char>>, len: Option<Seq<char>>) -> Option<u64> {
    let from_range = match range {
        Some(r) => match after_slash(r) {
            Some(p) => parsed_u64(p),
            None => None,
        },
        None => None,
    };
    match from_range {
        Some(n) => Some(n),
        None => parse_opt(len),
    }
}

/// What the partial `GET` answer decides.
pub open spec fn partial_check(
    status: u16,
    ct: Option<Seq<char>>,
    range: Option<Seq<char>>,
    len: Option<Seq<char>>,
    body: Seq<u8>,
) -> Result<PdfCheckView, ProbeError> {
    if !(200 <= status <= 299) {
        Err(ProbeError::Status(status))
    } else {
        let l = partial_length(range, len);
        Ok(PdfCheckView {
            content_type: lower_opt(ct),
            content_length: l,
            verified: occurs(body, "%PDF".spec_bytes(), false) && len_or_zero(l) > MIN_VERIFIED_LENGTH,
        })
    }
}

fn lower_of_opt(s: Option<&str>) -> (r: Option<String>)
    ensures
        opt_string_view(r) == lower_opt(opt_seq(s)),
{
    match s {
        Some(t) => Some(lowercase(t)),
        None => None,
    }
}

fn parse_of_opt(s: Option<&str>) -> (r: Option<u64>)
    ensures
        r == parse_opt(opt_seq(s)),
{
    match s {
        Some(t) => parse_u64(&chars_of(t)),
        None => None,
    }
}

fn is_pdf_content_type(ct: &Option<String>) -> (r: bool)
    ensures
        r == pdf_content_type(opt_string_view(*ct)),
{
    match ct {
        Some(c) => contains_text(c.as_str(), "application/pdf", false) || contains_text(
            c.as_str(),
            "application/x-pdf",
            false,
        ),
        None => false,
    }
}

/// Reads the answer to the `HEAD` request: `head_ok` when it succeeded, and
/// its `Content-Type` and `Content-Length` headers.
pub fn after_head_check(head_ok: bool, content_type: Option<&str>, content_length: Option<&str>) -> (r:
    Option<PdfCheck>)
    ensures
        match r {
            Some(c) => head_check(head_ok, opt_seq(content_type), opt_seq(content_length)) == Some(c@),
            None => head_check(head_ok, opt_seq(content_type), opt_seq(content_length)) is None,
        },
{
    let t = lower_of_opt(content_type);
    let l = parse_of_opt(content_length);
    let n = match l {
        Some(n) => n,
        None => 0,
    };
    if !head_ok || t.is_none() || n == 0 {
        return None;
    }
    let verified = is_pdf_content_type(&t) && n > MIN_VERIFIED_LENGTH;
    Some(PdfCheck { content_type: t, content_length: l, verified })
}

fn total_from_range(range: &str) -> (r: Option<u64>)
    ensures
        r == match after_slash(range@) {
            Some(p) => parsed_u64(p),
            None => None,
        },
{
    let cs = chars_of(range);
    assert(cs@.subrange(0, cs@.len() as int) =~= cs@);
    let mut i: usize = 0;
    while i < cs.len() && cs[i] != '/'
        invariant
            i <= cs.len(),
            cs@ == range@,
            after_slash(range@) == after_slash(cs@.subrange(i as int, cs@.len() as int)),
        decreases cs.len() - i,
    {
        assert(cs@.subrange(i as int, cs@.len() as int).drop_first() =~= cs@.subrange(
            i as int + 1,
            cs@.len() as int,
        ));
        i += 1;
    }
    if i == cs.len() {
        return None;
    }
    let mut piece: Vec<char> = Vec::new();
    let mut j: usize = i + 1;
    while j < cs.len() && cs[j] != '/'
        invariant
            i < j <= cs.len(),
            piece@ =~= cs@.subrange(i as int + 1, j as int),
            forall|k: int| i < k < j ==> cs@[k] != '/',
        decreases cs.len() - j,
    {
        piece.push(cs[j]);
        j += 1;
    }
    proof {
        let rest = cs@.subrange(i as int, cs@.len() as int);
        assert(rest.drop_first() =~= cs@.subrange(i as int + 1, cs@.len() as int));
        let sub = cs@.subrange(i as int + 1, cs@.len() as int);
        lemma_up_to_slash(sub, j - i - 1);
        assert(sub.subrange(0, j - i - 1) =~= piece@);
        assert(rest[0] == '/');
        assert(after_slash(rest) == Some(up_to_slash(sub)));
    }
    parse_u64(&piece)
}

proof fn lemma_up_to_slash(s: Seq<char>, k: int)
    requires
        0 <= k <= s.len(),
        forall|m: int| 0 <= m < k ==> s[m] != '/',
        k == s.len() || s[k] == '/',
    ensures
        up_to_slash(s) == s.subrange(0, k),
    decreases s.len(),
{
    if s.len() == k {
        assert(s.subrange(0, k) =~= s);
        assert(!(exists|i: int| 0 <= i < s.len() && s[i] == '/'));
    } else {
        assert(exists|i: int| 0 <= i < s.len() && s[i] == '/') by {
            assert(s[k] == '/');
        }
        lemma_up_to_slash(s.drop_last(), k);
        assert(s.drop_last().subrange(0, k) =~= s.subrange(0, k));
    }
}

/// Reads the answer to the partial `GET`: its status, its `Content-Type`,
/// `Content-Range` and `Content-Length` headers, and the bytes received.
pub fn after_partial_get(
    status: u16,
    content_type: Option<&str>,
    content_range: Option<&str>,
    content_length: Option<&str>,
    body: &[u8],
) -> (r: Result<PdfCheck, ProbeError>)
    ensures
        match r {
            Ok(c) => partial_check(
                status,
                opt_seq(content_type),
                opt_seq(content_range),
                opt_seq(content_length),
                body@,
            ) == Ok::<PdfCheckView, ProbeError>(c@),
            Err(e) => partial_check(
                status,
                opt_seq(content_type),
                opt_seq(content_range),
                opt_seq(content_length),
                body@,
            ) == Err::<PdfCheckView, ProbeError>(e),
        },
{
    if !(200 <= status && status <= 299) {
        return Err(ProbeError::Status(status));
    }
    let from_range = match content_range {
        Some(r) => total_from_range(r),
        None => None,
    };
    let l = match from_range {
        Some(n) => Some(n),
        None => parse_of_opt(content_length),
    };
    let n = match l {
        Some(n) => n,
        None => 0,
    };
    let verified = occurs_exec(body, "%PDF".as_bytes(), false) && n > MIN_VERIFIED_LENGTH;
    Ok(PdfCheck { content_type: lower_of_opt(content_type), content_length: l, verified })
}

/// Which checked links go into the report: a failed check never does; with
/// verification on, only verified links do; with it off, every link does.
pub open spec fn accepted(verify: bool, outcome: Result<PdfCheckView, ProbeError>) -> Option<PdfCheckView> {
    match outcome {
        Ok(c) => if verify && !c.verified {
            None
        } else {
            Some(c)
        },
        Err(_) => None,
    }
}

pub fn accept_check(verify: bool, outcome: Result<PdfCheck, ProbeError>) -> (r: Option<PdfCheck>)
    ensures
        match r {
            Some(c) => accepted(
                verify,
                match outcome {
                    Ok(o) => Ok(o@),
                    Err(e) => Err(e),
                },
            ) == Some(c@),
            None => accepted(
                verify,
                match outcome {
                    Ok(o) => Ok(o@),
                    Err(e) => Err(e),
                },
            ) is None,
        },
{
    match outcome {
        Ok(c) => if verify && !c.verified {
            None
        } else {
            Some(c)
        },
        Err(_) => None,
    }
}

/// The URL heuristic of the report crawler, on the lower-cased URL.
pub open spec fn likely_pdf_url(lower: Seq<char>) -> bool {
    let has = |p: Seq<char>| has_chars(lower, p, false);
    ||| ends_with_chars(lower, ".pdf"@, false)
    ||| (has("pdf"@) && (has("download"@) || has("file"@) || has("doc"@) || has("paper"@) || has(
        "publication"@,
    ) || has("proceedings"@)))
    ||| (has("view"@) && has("pdf"@))
    ||| has("format=pdf"@)
    ||| has("type=pdf"@)
    ||| has("export=pdf"@)
    ||| has(".pdf?"@)
}

/// Whether `url` looks like a link to a PDF.
pub fn is_likely_pdf_url(url: &str) -> (r: bool)
    ensures
        r == likely_pdf_url(lowercase_of(url@)),
{
    let lower = lowercase(url);
    is_likely_pdf_lowered(lower.as_str())
}

/// Whether an already lower-cased URL looks like a link to a PDF.
pub fn is_likely_pdf_lowered(l: &str) -> (r: bool)
    ensures
        r == likely_pdf_url(l@),
{
    let suffix = chars_of(".pdf");
    let lc = chars_of(l);
    ends_with_exec(&lc, &suffix, false) || (contains_text(l, "pdf", false) && (contains_text(
        l,
        "download",
        false,
    ) || contains_text(l, "file", false) || contains_text(l, "doc", false) || contains_text(
        l,
        "paper",
        false,
    ) || contains_text(l, "publication", false) || contains_text(l, "proceedings", false))) || (
    contains_text(l, "view", false) && contains_text(l, "pdf", false)) || contains_text(
        l,
        "format=pdf",
        false,
    ) || contains_text(l, "type=pdf", false) || contains_text(l, "export=pdf", false)
        || contains_text(l, ".pdf?", false)
}

/// Whether the report is brought up to date after a page: every fifth page,
/// and after any page that added PDFs.
pub fn should_report_progress(pages_crawled: usize, new_pdfs: usize) -> (r: bool)
    ensures
        r == (pages_crawled % 5 == 0 || new_pdfs > 0),
{
    pages_crawled % 5 == 0 || new_pdfs > 0
}

} // verus!
