//! Calls into the HTML, URL, MIME, regular-expression and percent-decoding
//! libraries, each with the contract that the library's documentation gives.

use vstd::prelude::*;

verus! {

/// The anchors of an HTML document, in document order: each `<a>` element's
/// `href` attribute, if any, and its text.
pub uninterp spec fn anchors_of(html: Seq<char>) -> Seq<(Option<Seq<char>>, Seq<char>)>;

/// The serialization of `href` resolved against the absolute URL `base`, or
/// `None` when either does not parse.
pub uninterp spec fn joined_url(base: Seq<char>, href: Seq<char>) -> Option<Seq<char>>;

/// The host of a URL, or `None` when it does not parse or has no host.
pub uninterp spec fn url_host(url: Seq<char>) -> Option<Seq<char>>;

/// The path of a URL, or `None` when it does not parse.
pub uninterp spec fn url_path(url: Seq<char>) -> Option<Seq<char>>;

/// Whether the regular expression `pattern` compiles and matches somewhere in `text`.
pub uninterp spec fn regex_finds(pattern: Seq<char>, text: Seq<char>) -> bool;

/// The first capture group of the first match of `pattern` in `text`.
pub uninterp spec fn regex_group(pattern: Seq<char>, text: Seq<char>) -> Option<Seq<char>>;

/// The essence (`type/subtype`, without parameters) of a MIME type, or `None`
/// when it does not parse.
pub uninterp spec fn mime_essence(content_type: Seq<char>) -> Option<Seq<char>>;

/// The Unicode lower-case form of `s`.
pub uninterp spec fn lowercase_of(s: Seq<char>) -> Seq<char>;

/// The percent-decoding of `s`, or `None` when the decoded bytes are not UTF-8.
pub uninterp spec fn percent_decoded(s: Seq<char>) -> Option<Seq<char>>;

pub open spec fn anchor_view(a: (Option<String>, String)) -> (Option<Seq<char>>, Seq<char>) {
    (
        match a.0 {
            Some(h) => Some(h@),
            None => None,
        },
        a.1@,
    )
}

pub open spec fn opt_string_view(s: Option<String>) -> Option<Seq<char>> {
    match s {
        Some(t) => Some(t@),
        None => None,
    }
}

/// Relies on scraper's `Html::parse_document`, `Html::select` with the selector
/// `a`, `ElementRef::attr` and `ElementRef::text`: the anchors of the document.
#[verifier::external_body]
pub(crate) fn html_anchors(html: &str) -> (r: Vec<(Option<String>, String)>)
    ensures
        r@.len() == anchors_of(html@).len(),
        forall|i: int| 0 <= i < r@.len() ==> anchor_view(#[trigger] r@[i]) == anchors_of(html@)[i],
{
    let doc = scraper::Html::parse_document(html);
    match scraper::Selector::parse("a") {
        Ok(sel) => doc.select(&sel).map(|e| (e.attr("href").map(String::from), e.text().collect())).collect(),
        Err(_) => Vec::new(),
    }
}

/// Relies on `url::Url::parse` of the base and `Url::join`: the resolved URL, serialized.
#[verifier::external_body]
pub(crate) fn join_url(base: &str, href: &str) -> (r: Option<String>)
    ensures
        opt_string_view(r) == joined_url(base@, href@),
{
    url::Url::parse(base).and_then(|b| b.join(href)).ok().map(|u| u.to_string())
}

/// Relies on `url::Url::parse` and `Url::host_str`: the host of the URL.
#[verifier::external_body]
pub(crate) fn host_of(url: &str) -> (r: Option<String>)
    ensures
        opt_string_view(r) == url_host(url@),
{
    url::Url::parse(url).ok().and_then(|u| u.host_str().map(String::from))
}

/// Relies on `url::Url::parse` and `Url::path`: the path of the URL.
#[verifier::external_body]
pub(crate) fn path_of(url: &str) -> (r: Option<String>)
    ensures
        opt_string_view(r) == url_path(url@),
{
    url::Url::parse(url).ok().map(|u| u.path().to_string())
}

/// Relies on `regex::Regex::new` and `Regex::is_match`.
#[verifier::external_body]
pub(crate) fn pattern_matches(pattern: &str, text: &str) -> (r: bool)
    ensures
        r == regex_finds(pattern@, text@),
{
    regex::Regex::new(pattern).map_or(false, |re| re.is_match(text))
}

/// Relies on `regex::Regex::new`, `Regex::captures` and `Captures::get(1)`.
#[verifier::external_body]
pub(crate) fn first_group(pattern: &str, text: &str) -> (r: Option<String>)
    ensures
        opt_string_view(r) == regex_group(pattern@, text@),
{
    let re = regex::Regex::new(pattern).ok()?;
    re.captures(text).and_then(|c| c.get(1)).map(|m| m.as_str().to_string())
}

/// Relies on `mime::Mime`'s `FromStr` and `Mime::essence_str`.
#[verifier::external_body]
pub(crate) fn essence_of(content_type: &str) -> (r: Option<String>)
    ensures
        opt_string_view(r) == mime_essence(content_type@),
{
    content_type.parse::<mime::Mime>().ok().map(|m| m.essence_str().to_string())
}

/// Relies on `urlencoding::decode`: the percent-decoded text, when it is UTF-8.
#[verifier::external_body]
pub(crate) fn decode_percent(s: &str) -> (r: Option<String>)
    ensures
        opt_string_view(r) == percent_decoded(s@),
{
    urlencoding::decode(s).ok().map(|c| c.into_owned())
}

/// Relies on `str::to_lowercase`: the lower-case form depends on the characters alone.
#[verifier::external_body]
pub(crate) fn lowercase(s: &str) -> (r: String)
    ensures
        r@ == lowercase_of(s@),
{
    s.to_lowercase()
}

} // verus!
