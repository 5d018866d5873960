//! Safe file names for downloaded PDFs.

use vstd::prelude::*;
use crate::outside::{
    decode_percent,
    first_group,
    opt_string_view,
    path_of,
    percent_decoded,
    regex_group,
    url_path,
};
use crate::text::{chars_of, ends_with_chars, ends_with_exec, is_white, string_of, white};

verus! {

/// Longest kept stem of a file name, in characters.
pub const MAX_NAME_CHARS: usize = 200;

/// Characters trimmed from both ends of a file name.
pub open spec fn trimmable(c: char) -> bool {
    c == '.' || is_white(c)
}

pub open spec fn trim_front(s: Seq<char>) -> Seq<char>
    decreases s.len(),
{
    if s.len() > 0 && trimmable(s[0]) {
        trim_front(s.drop_first())
    } else {
        s
    }
}

pub open spec fn trim_back(s: Seq<char>) -> Seq<char>
    decreases s.len(),
{
    if s.len() > 0 && trimmable(s.last()) {
        trim_back(s.drop_last())
    } else {
        s
    }
}

/// The first `MAX_NAME_CHARS` characters.
pub open spec fn clip(s: Seq<char>) -> Seq<char> {
    if s.len() > MAX_NAME_CHARS {
        s.subrange(0, MAX_NAME_CHARS as int)
    } else {
        s
    }
}

/// Without one final `.`.
pub open spec fn unpoint(s: Seq<char>) -> Seq<char> {
    if s.len() > 0 && s.last() == '.' {
        s.drop_last()
    } else {
        s
    }
}

/// `document.pdf` for an empty name; otherwise the name, with `.pdf` appended
/// unless it already ends so (ASCII letters compared without regard to case).
pub open spec fn with_pdf_suffix(s: Seq<char>) -> Seq<char> {
    if s.len() == 0 {
        "document.pdf"@
    } else if ends_with_chars(s, ".pdf"@, true) {
        s
    } else {
        s + ".pdf"@
    }
}

/// The percent-decoding of `s`, or `s` itself when that is not UTF-8.
pub open spec fn decoded_or_same(s: Seq<char>) -> Seq<char> {
    match percent_decoded(s) {
        Some(d) => d,
        None => s,
    }
}

/// Characters that cannot stand in a file name: `\ / * ? : " < > |` and controls.
pub open spec fn is_dangerous(c: char) -> bool {
    c == '\\' || c == '/' || c == '*' || c == '?' || c == ':' || c == '"' || c == '<' || c
        == '>' || c == '|' || (c as u32) < 0x20
}

/// `s` with every dangerous character replaced by `_`.
pub open spec fn replaced(s: Seq<char>) -> Seq<char> {
    s.map_values(|c: char| if is_dangerous(c) { '_' } else { c })
}

/// The safe form of an already percent-decoded file name.
pub open spec fn sanitized_decoded(decoded: Seq<char>) -> Seq<char> {
    with_pdf_suffix(unpoint(clip(trim_back(trim_front(replaced(decoded))))))
}

/// The safe form of a proposed file name.
pub open spec fn sanitized(name: Seq<char>) -> Seq<char> {
    sanitized_decoded(decoded_or_same(name))
}

/// Replaces every dangerous character of `s` by `_`.
pub fn replace_dangerous(s: &str) -> (r: Vec<char>)
    ensures
        r@ == replaced(s@),
{
    let cs = chars_of(s);
    let mut out: Vec<char> = Vec::new();
    let mut i: usize = 0;
    while i < cs.len()
        invariant
            i <= cs.len(),
            cs@ == s@,
            out@ =~= replaced(cs@.subrange(0, i as int)),
        decreases cs.len() - i,
    {
        let c = cs[i];
        let bad = c == '\\' || c == '/' || c == '*' || c == '?' || c == ':' || c == '"' || c == '<'
            || c == '>' || c == '|' || (c as u32) < 0x20;
        out.push(if bad { '_' } else { c });
        assert(cs@.subrange(0, i as int + 1) =~= cs@.subrange(0, i as int).push(c));
        i += 1;
    }
    assert(cs@.subrange(0, cs.len() as int) =~= cs@);
    out
}

proof fn lemma_trim_front_sub(s: Seq<char>)
    ensures
        exists|a: int| 0 <= a <= s.len() && #[trigger] trim_front(s) == s.subrange(a, s.len() as int),
    decreases s.len(),
{
    if s.len() > 0 && trimmable(s[0]) {
        lemma_trim_front_sub(s.drop_first());
        let a = choose|a: int|
            0 <= a <= s.drop_first().len() && #[trigger] trim_front(s.drop_first())
                == s.drop_first().subrange(a, s.drop_first().len() as int);
        assert(s.drop_first().subrange(a, s.drop_first().len() as int) =~= s.subrange(
            a + 1,
            s.len() as int,
        ));
    } else {
        assert(s.subrange(0, s.len() as int) =~= s);
    }
}

proof fn lemma_trim_back_sub(s: Seq<char>)
    ensures
        trim_back(s).len() <= s.len(),
        trim_back(s) == s.subrange(0, trim_back(s).len() as int),
    decreases s.len(),
{
    if s.len() > 0 && trimmable(s.last()) {
        lemma_trim_back_sub(s.drop_last());
        assert(s.drop_last().subrange(0, trim_back(s).len() as int) =~= s.subrange(
            0,
            trim_back(s).len() as int,
        ));
    } else {
        assert(s.subrange(0, s.len() as int) =~= s);
    }
}

/// No path separator survives sanitizing, and the name always ends in `.pdf`:
/// the file stays inside the download directory and is never `.` or `..`.
pub proof fn lemma_sanitized_is_safe(name: Seq<char>)
    ensures
        forall|i: int|
            0 <= i < sanitized(name).len() ==> #[trigger] sanitized(name)[i] != '/'
                && sanitized(name)[i] != '\\',
        ends_with_chars(sanitized(name), ".pdf"@, true),
        sanitized(name).len() >= 4,
{
    reveal_strlit("document.pdf");
    reveal_strlit(".pdf");
    let replaced = replaced(decoded_or_same(name));
    assert(forall|i: int| 0 <= i < replaced.len() ==> #[trigger] replaced[i] != '/' && replaced[i] != '\\');
    let f = trim_front(replaced);
    lemma_trim_front_sub(replaced);
    let a = choose|a: int| 0 <= a <= replaced.len() && #[trigger] trim_front(replaced) == replaced.subrange(a, replaced.len() as int);
    assert(forall|i: int| 0 <= i < f.len() ==> #[trigger] f[i] == replaced[a + i]);
    let b = trim_back(f);
    lemma_trim_back_sub(f);
    assert(forall|i: int| 0 <= i < b.len() ==> #[trigger] b[i] == f[i]);
    let u = unpoint(clip(b));
    assert(forall|i: int| 0 <= i < u.len() ==> #[trigger] u[i] == b[i]);
    let r = sanitized(name);
    if u.len() == 0 {
        assert(r == "document.pdf"@);
        assert(ends_with_chars(r, ".pdf"@, true));
    } else if ends_with_chars(u, ".pdf"@, true) {
        assert(r == u);
    } else {
        assert(r == u + ".pdf"@);
        assert(forall|i: int| 0 <= i < u.len() ==> #[trigger] r[i] == u[i]);
        assert(forall|i: int| u.len() <= i < r.len() ==> #[trigger] r[i] == ".pdf"@[i - u.len()]);
        assert(ends_with_chars(r, ".pdf"@, true));
    }
}

/// Sanitizes a proposed file name: percent-decoded, path and control
/// characters replaced by `_`, dots and whitespace trimmed from both ends,
/// clipped to `MAX_NAME_CHARS` characters, and given a `.pdf` suffix.
pub fn sanitize_filename(filename: &str) -> (r: String)
    ensures
        r@ == sanitized(filename@),
{
    let decoded = match decode_percent(filename) {
        Some(d) => d,
        None => filename.to_string(),
    };
    sanitize_decoded(decoded.as_str())
}

/// Sanitizes a file name that is already percent-decoded: dangerous
/// characters replaced by `_`, dots and whitespace trimmed from both ends,
/// clipped to `MAX_NAME_CHARS` characters, and given a `.pdf` suffix.
pub fn sanitize_decoded(decoded: &str) -> (r: String)
    ensures
        r@ == sanitized_decoded(decoded@),
{
    let cs = replace_dangerous(decoded);
    let ghost s0 = cs@;
    assert(s0.subrange(0, s0.len() as int) =~= s0);
    let mut a: usize = 0;
    while a < cs.len() && (cs[a] == '.' || white(cs[a]))
        invariant
            a <= cs.len(),
            cs@ == s0,
            trim_front(s0) == trim_front(s0.subrange(a as int, s0.len() as int)),
        decreases cs.len() - a,
    {
        assert(s0.subrange(a as int, s0.len() as int).drop_first() =~= s0.subrange(
            a as int + 1,
            s0.len() as int,
        ));
        a += 1;
    }
    let ghost f = s0.subrange(a as int, s0.len() as int);
    assert(trim_front(f) == f);
    let mut b: usize = cs.len();
    while b > a && (cs[b - 1] == '.' || white(cs[b - 1]))
        invariant
            a <= b <= cs.len(),
            cs@ == s0,
            f == s0.subrange(a as int, s0.len() as int),
            trim_back(f) == trim_back(s0.subrange(a as int, b as int)),
        decreases b,
    {
        assert(s0.subrange(a as int, b as int).drop_last() =~= s0.subrange(a as int, b as int - 1));
        b -= 1;
    }
    let ghost t = s0.subrange(a as int, b as int);
    assert(trim_back(t) == t);
    let clipped: usize = if b - a > MAX_NAME_CHARS {
        a + MAX_NAME_CHARS
    } else {
        b
    };
    let mut end: usize = clipped;
    if end > a && cs[end - 1] == '.' {
        end = end - 1;
    }
    let mut out: Vec<char> = Vec::new();
    let mut i: usize = a;
    while i < end
        invariant
            a <= i <= end,
            end <= cs.len(),
            cs@ == s0,
            out@ =~= s0.subrange(a as int, i as int),
        decreases end - i,
    {
        out.push(cs[i]);
        i += 1;
    }
    assert(out@ == unpoint(clip(t))) by {
        assert(clip(t) =~= s0.subrange(a as int, clipped as int));
    }
    let suffix = chars_of(".pdf");
    if out.len() == 0 {
        return "document.pdf".to_string();
    }
    if ends_with_exec(&out, &suffix, true) {
        return string_of(&out);
    }
    let mut j: usize = 0;
    let ghost stem = out@;
    while j < suffix.len()
        invariant
            j <= suffix.len(),
            out@ =~= stem + suffix@.subrange(0, j as int),
        decreases suffix.len() - j,
    {
        out.push(suffix[j]);
        j += 1;
    }
    assert(suffix@.subrange(0, suffix.len() as int) =~= suffix@);
    string_of(&out)
}

/// Scans `p` backwards from `i`; `seg_end` is the end of the segment being
/// read, if one is. Empty and `.` segments are skipped; `..` yields nothing.
pub open spec fn scan_name(p: Seq<char>, i: int, seg_end: Option<int>) -> Option<Seq<char>>
    decreases i,
{
    if i < 0 || i > p.len() {
        None
    } else {
        match seg_end {
            None => if i == 0 {
                None
            } else if p[i - 1] == '/' {
                scan_name(p, i - 1, None)
            } else {
                scan_name(p, i - 1, Some(i))
            },
            Some(e) => if i > 0 && p[i - 1] != '/' {
                scan_name(p, i - 1, Some(e))
            } else {
                let seg = p.subrange(i, e);
                if seg.len() == 1 && seg[0] == '.' {
                    if i == 0 {
                        None
                    } else {
                        scan_name(p, i - 1, None)
                    }
                } else if seg.len() == 2 && seg[0] == '.' && seg[1] == '.' {
                    None
                } else {
                    Some(seg)
                }
            },
        }
    }
}

/// The final component of a `/`-separated path, as a file system path reads
/// it: trailing separators and `.` components are passed over, and a path
/// ending in `..` has none.
pub open spec fn file_name_of(p: Seq<char>) -> Option<Seq<char>> {
    scan_name(p, p.len() as int, None)
}

/// The final component of `path`.
pub fn file_name(path: &str) -> (r: Option<String>)
    ensures
        opt_string_view(r) == file_name_of(path@),
{
    let p = chars_of(path);
    let mut i: usize = p.len();
    let mut seg_end: Option<usize> = None;
    loop
        invariant
            i <= p.len(),
            p@ == path@,
            match seg_end {
                Some(e) => i <= e <= p.len(),
                None => true,
            },
            scan_name(p@, i as int, match seg_end {
                Some(e) => Some(e as int),
                None => None,
            }) == file_name_of(path@),
        decreases i,
    {
        match seg_end {
            None => {
                if i == 0 {
                    return None;
                }
                if p[i - 1] == '/' {
                    i -= 1;
                } else {
                    seg_end = Some(i);
                    i -= 1;
                }
            },
            Some(e) => {
                if i > 0 && p[i - 1] != '/' {
                    i -= 1;
                } else {
                    if e - i == 1 && p[i] == '.' {
                        if i == 0 {
                            return None;
                        }
                        seg_end = None;
                        i -= 1;
                    } else if e - i == 2 && p[i] == '.' && p[i + 1] == '.' {
                        return None;
                    } else {
                        let mut out: Vec<char> = Vec::new();
                        let mut k: usize = i;
                        while k < e
                            invariant
                                i <= k <= e,
                                e <= p.len(),
                                out@ =~= p@.subrange(i as int, k as int),
                            decreases e - k,
                        {
                            out.push(p[k]);
                            k += 1;
                        }
                        return Some(string_of(&out));
                    }
                }
            },
        }
    }
}

pub open spec fn disposition_pattern() -> Seq<char> {
    "filename\\*?=['\"]?(?:UTF-\\d['\"]*)?([^\"'\\s;]+)"@
}

/// The file name proposed for a download: the `filename` of the
/// `Content-Disposition` header, else the final component of the URL's path,
/// else `document.pdf`.
pub open spec fn proposed_name(url: Seq<char>, disposition: Option<Seq<char>>) -> Seq<char> {
    let from_header = match disposition {
        Some(d) => regex_group(disposition_pattern(), d),
        None => None,
    };
    match from_header {
        Some(n) => n,
        None => match url_path(url) {
            Some(p) => match file_name_of(p) {
                Some(f) => f,
                None => "document.pdf"@,
            },
            None => "document.pdf"@,
        },
    }
}

/// The safe file name under which the PDF at `url` is stored.
pub fn get_safe_filename(url: &str, content_disposition: Option<&str>) -> (r: String)
    ensures
        r@ == sanitized(
            proposed_name(
                url@,
                match content_disposition {
                    Some(d) => Some(d@),
                    None => None,
                },
            ),
        ),
{
    let from_header = match content_disposition {
        Some(d) => first_group("filename\\*?=['\"]?(?:UTF-\\d['\"]*)?([^\"'\\s;]+)", d),
        None => None,
    };
    match from_header {
        Some(n) => sanitize_filename(n.as_str()),
        None => {
            let name = match path_of(url) {
                Some(p) => match file_name(p.as_str()) {
                    Some(f) => f,
                    None => "document.pdf".to_string(),
                },
                None => "document.pdf".to_string(),
            };
            sanitize_filename(name.as_str())
        },
    }
}

} // verus!
