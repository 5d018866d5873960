//! Sniffing and structural validation of PDF bytes.
//!
//! Keyword tests that the crawler treats as case-insensitive compare ASCII
//! letters without regard to case; every other byte is compared as it is.

use vstd::prelude::*;
use vstd::string::StringSliceAdditionalSpecFns;
use crate::bytes::{begins_with, begins_with_exec, occurs, occurs_at, occurs_at_exec, occurs_exec};

verus! {

/// Smallest file that can be a complete PDF.
pub const MIN_PDF_SIZE: u64 = 100;

/// Largest file that is accepted as a PDF.
pub const MAX_PDF_SIZE: u64 = 500_000_000;

/// How much of the head of a file the structural check reads.
pub const STRUCTURE_SCAN_LIMIT: u64 = 1_000_000;

/// How many bytes of the head of a file the header check reads.
pub const HEADER_PROBE_LEN: usize = 16;

pub open spec fn is_digit(b: u8) -> bool {
    48 <= b && b <= 57
}

/// The length of the UTF-8 encoding of a whitespace character (Unicode
/// `White_Space`) that starts at `i`, or 0 when none does.
pub open spec fn space_len(s: Seq<u8>, i: int) -> int {
    if !(0 <= i < s.len()) {
        0
    } else if (9 <= s[i] && s[i] <= 13) || s[i] == 32 {
        1
    } else if i + 1 < s.len() && s[i] == 0xC2 && (s[i + 1] == 0x85 || s[i + 1] == 0xA0) {
        2
    } else if i + 2 < s.len() && ((s[i] == 0xE1 && s[i + 1] == 0x9A && s[i + 2] == 0x80) || (s[i]
        == 0xE2 && s[i + 1] == 0x80 && ((0x80 <= s[i + 2] && s[i + 2] <= 0x8A) || s[i + 2] == 0xA8
        || s[i + 2] == 0xA9 || s[i + 2] == 0xAF)) || (s[i] == 0xE2 && s[i + 1] == 0x81 && s[i + 2]
        == 0x9F) || (s[i] == 0xE3 && s[i + 1] == 0x80 && s[i + 2] == 0x80)) {
        3
    } else {
        0
    }
}

/// Index of the first byte at or after `from` that does not begin a whitespace character.
pub open spec fn skip_space(s: Seq<u8>, from: int) -> int
    decreases s.len() - from,
{
    if 0 <= from < s.len() && space_len(s, from) > 0 {
        skip_space(s, from + space_len(s, from))
    } else {
        from
    }
}

fn space_len_exec(d: &[u8], i: usize) -> (r: usize)
    ensures
        r == space_len(d@, i as int),
{
    if i >= d.len() {
        return 0;
    }
    let b = d[i];
    if (9 <= b && b <= 13) || b == 32 {
        return 1;
    }
    if d.len() - i > 1 && b == 0xC2 && (d[i + 1] == 0x85 || d[i + 1] == 0xA0) {
        return 2;
    }
    if d.len() - i > 2 {
        let (c, e) = (d[i + 1], d[i + 2]);
        if (b == 0xE1 && c == 0x9A && e == 0x80) || (b == 0xE2 && c == 0x80 && ((0x80 <= e && e
            <= 0x8A) || e == 0xA8 || e == 0xA9 || e == 0xAF)) || (b == 0xE2 && c == 0x81 && e
            == 0x9F) || (b == 0xE3 && c == 0x80 && e == 0x80) {
            return 3;
        }
    }
    0
}

/// The header test: at least eight bytes, beginning with `%PDF`; when the
/// tag is followed by `-`, a version `digit.digit` must come next.
pub open spec fn header_ok(d: Seq<u8>) -> bool {
    &&& d.len() >= 8
    &&& if begins_with(d, "%PDF-".spec_bytes()) {
        is_digit(d[5]) && d[6] == 46u8 && is_digit(d[7])
    } else {
        begins_with(d, "%PDF".spec_bytes())
    }
}

/// The first-chunk test of a download: the chunk begins with `%PDF`, holds it
/// somewhere when it is at least ten bytes long, or mentions `pdf` together
/// with `obj`, `stream` or `catalog`.
pub open spec fn pdf_start_ok(d: Seq<u8>) -> bool {
    &&& d.len() >= 4
    &&& {
        ||| begins_with(d, "%PDF".spec_bytes())
        ||| (d.len() >= 10 && occurs(d, "%PDF".spec_bytes(), false))
        ||| (occurs(d, "pdf".spec_bytes(), true) && (occurs(d, "obj".spec_bytes(), true)
            || occurs(d, "stream".spec_bytes(), true) || occurs(d, "catalog".spec_bytes(), true)))
    }
}

/// Markup disguised as a PDF: after leading (Unicode) whitespace the data opens with
/// `<!doctype`, `<html` or `<?xml`, or it holds `<head>`, `<body>` or `<title>`.
pub open spec fn html_or_xml(d: Seq<u8>) -> bool {
    let k = skip_space(d, 0);
    ||| occurs_at(d, k, "<!doctype".spec_bytes(), true)
    ||| occurs_at(d, k, "<html".spec_bytes(), true)
    ||| occurs_at(d, k, "<?xml".spec_bytes(), true)
    ||| occurs(d, "<head>".spec_bytes(), true)
    ||| occurs(d, "<body>".spec_bytes(), true)
    ||| occurs(d, "<title>".spec_bytes(), true)
}

pub open spec fn has_objects(c: Seq<u8>) -> bool {
    occurs(c, "obj".spec_bytes(), true) && occurs(c, "endobj".spec_bytes(), true)
}

pub open spec fn has_xref(c: Seq<u8>) -> bool {
    occurs(c, "xref".spec_bytes(), true)
}

pub open spec fn has_trailer(c: Seq<u8>) -> bool {
    occurs(c, "trailer".spec_bytes(), true) || occurs(c, "/root".spec_bytes(), true)
}

pub open spec fn has_startxref(c: Seq<u8>) -> bool {
    occurs(c, "startxref".spec_bytes(), true)
}

pub open spec fn has_pdf_keywords(c: Seq<u8>) -> bool {
    ||| occurs(c, "/catalog".spec_bytes(), true)
    ||| occurs(c, "/pages".spec_bytes(), true)
    ||| occurs(c, "/type".spec_bytes(), true)
    ||| occurs(c, "/font".spec_bytes(), true)
}

/// The structural test on the head of a file: a version tag and some PDF structure.
pub open spec fn structure_ok(c: Seq<u8>) -> bool {
    &&& begins_with(c, "%PDF".spec_bytes())
    &&& {
        ||| (has_objects(c) && (has_xref(c) || has_trailer(c)))
        ||| (has_startxref(c) && has_pdf_keywords(c))
        ||| (has_xref(c) && has_trailer(c))
    }
}

/// The end-of-file test on the tail of a file.
pub open spec fn eof_ok(tail: Seq<u8>) -> bool {
    occurs(tail, "%%EOF".spec_bytes(), false) || occurs(tail, "startxref".spec_bytes(), false)
}

/// How many tail bytes the end-of-file test reads from a file of `size` bytes:
/// the largest of 32, 64, 128 and 256 that fits, or none.
pub open spec fn eof_window(size: u64) -> u64 {
    if size >= 256 {
        256
    } else if size >= 128 {
        128
    } else if size >= 64 {
        64
    } else if size >= 32 {
        32
    } else {
        0
    }
}

/// How many head bytes the structural test reads from a file of `size` bytes.
pub open spec fn structure_window(size: u64) -> u64 {
    if size < STRUCTURE_SCAN_LIMIT {
        size
    } else {
        STRUCTURE_SCAN_LIMIT
    }
}

/// A file of `size` bytes, whose first bytes are `header`, whose last
/// `eof_window(size)` bytes are `tail` and whose first `structure_window(size)`
/// bytes are `content`, is a complete PDF.
pub open spec fn complete_pdf_ok(size: u64, header: Seq<u8>, tail: Seq<u8>, content: Seq<u8>) -> bool {
    &&& MIN_PDF_SIZE <= size <= MAX_PDF_SIZE
    &&& header.len() == HEADER_PROBE_LEN
    &&& header_ok(header)
    &&& tail.len() == eof_window(size)
    &&& eof_ok(tail)
    &&& content.len() == structure_window(size)
    &&& structure_ok(content)
}

/// Checks on the bytes of a (possibly partial) PDF.
pub struct PDFValidator;

impl PDFValidator {
    /// Whether `data` opens like a PDF file.
    pub fn validate_header(data: &[u8]) -> (r: bool)
        ensures
            r == header_ok(data@),
    {
        if data.len() < 8 {
            return false;
        }
        if begins_with_exec(data, "%PDF-".as_bytes()) {
            let d5 = data[5];
            let d7 = data[7];
            return 48 <= d5 && d5 <= 57 && data[6] == 46u8 && 48 <= d7 && d7 <= 57;
        }
        begins_with_exec(data, "%PDF".as_bytes())
    }

    /// Whether the first chunk of a download looks like the start of a PDF.
    pub fn is_likely_pdf_start(data: &[u8]) -> (r: bool)
        ensures
            r == pdf_start_ok(data@),
    {
        if data.len() < 4 {
            return false;
        }
        if begins_with_exec(data, "%PDF".as_bytes()) {
            return true;
        }
        if data.len() >= 10 && occurs_exec(data, "%PDF".as_bytes(), false) {
            return true;
        }
        occurs_exec(data, "pdf".as_bytes(), true) && (occurs_exec(data, "obj".as_bytes(), true)
            || occurs_exec(data, "stream".as_bytes(), true) || occurs_exec(
            data,
            "catalog".as_bytes(),
            true,
        ))
    }

    /// Whether `data` is HTML or XML rather than a PDF.
    pub fn is_likely_html_or_xml(data: &[u8]) -> (r: bool)
        ensures
            r == html_or_xml(data@),
    {
        let mut k: usize = 0;
        loop
            invariant
                k <= data.len(),
                skip_space(data@, k as int) == skip_space(data@, 0),
            ensures
                skip_space(data@, 0) == k as int,
            decreases data.len() - k,
        {
            let n = space_len_exec(data, k);
            if n == 0 {
                assert(skip_space(data@, k as int) == k as int);
                break;
            }
            k = k + n;
        }
        occurs_at_exec(data, k, "<!doctype".as_bytes(), true)
            || occurs_at_exec(data, k, "<html".as_bytes(), true)
            || occurs_at_exec(data, k, "<?xml".as_bytes(), true)
            || occurs_exec(data, "<head>".as_bytes(), true)
            || occurs_exec(data, "<body>".as_bytes(), true)
            || occurs_exec(data, "<title>".as_bytes(), true)
    }

    /// Whether the head of a file shows a version tag and PDF structure.
    pub fn validate_pdf_structure(content: &[u8]) -> (r: bool)
        ensures
            r == structure_ok(content@),
    {
        if !begins_with_exec(content, "%PDF".as_bytes()) {
            return false;
        }
        let objects = occurs_exec(content, "obj".as_bytes(), true) && occurs_exec(
            content,
            "endobj".as_bytes(),
            true,
        );
        let xref = occurs_exec(content, "xref".as_bytes(), true);
        let trailer = occurs_exec(content, "trailer".as_bytes(), true) || occurs_exec(
            content,
            "/root".as_bytes(),
            true,
        );
        let startxref = occurs_exec(content, "startxref".as_bytes(), true);
        let keywords = occurs_exec(content, "/catalog".as_bytes(), true) || occurs_exec(
            content,
            "/pages".as_bytes(),
            true,
        ) || occurs_exec(content, "/type".as_bytes(), true) || occurs_exec(
            content,
            "/font".as_bytes(),
            true,
        );
        (objects && (xref || trailer)) || (startxref && keywords) || (xref && trailer)
    }

    /// Whether the tail of a file holds an end-of-file marker.
    pub fn check_eof_marker(tail: &[u8]) -> (r: bool)
        ensures
            r == eof_ok(tail@),
    {
        occurs_exec(tail, "%%EOF".as_bytes(), false) || occurs_exec(
            tail,
            "startxref".as_bytes(),
            false,
        )
    }

    /// The number of tail bytes to read for `check_eof_marker`.
    pub fn eof_window(size: u64) -> (r: u64)
        ensures
            r == eof_window(size),
    {
        if size >= 256 {
            256
        } else if size >= 128 {
            128
        } else if size >= 64 {
            64
        } else if size >= 32 {
            32
        } else {
            0
        }
    }

    /// The number of head bytes to read for `validate_pdf_structure`.
    pub fn structure_window(size: u64) -> (r: u64)
        ensures
            r == structure_window(size),
    {
        if size < STRUCTURE_SCAN_LIMIT {
            size
        } else {
            STRUCTURE_SCAN_LIMIT
        }
    }

    /// Whether a file, given by its size and the three windows read from it,
    /// is a complete PDF.
    pub fn validate_complete_pdf(size: u64, header: &[u8], tail: &[u8], content: &[u8]) -> (r:
        bool)
        ensures
            r == complete_pdf_ok(size, header@, tail@, content@),
    {
        if size < MIN_PDF_SIZE || size > MAX_PDF_SIZE {
            return false;
        }
        if header.len() != HEADER_PROBE_LEN || !Self::validate_header(header) {
            return false;
        }
        if tail.len() as u64 != Self::eof_window(size) || !Self::check_eof_marker(tail) {
            return false;
        }
        content.len() as u64 == Self::structure_window(size) && Self::validate_pdf_structure(
            content,
        )
    }
}

} // verus!
