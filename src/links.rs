//! Link extraction: the absolute HTTP(S) targets of a page's anchors, with their text.

use vstd::prelude::*;
use crate::outside::{anchor_view, anchors_of, html_anchors, join_url, joined_url};
use crate::text::{all_white, chars_at, is_blank, starts_with_text};

verus! {

/// A link found on a page: its absolute URL, and its anchor text unless that is blank.
#[derive(Clone, Debug)]
pub struct Link {
    pub url: String,
    pub text: Option<String>,
}

pub struct LinkView {
    pub url: Seq<char>,
    pub text: Option<Seq<char>>,
}

impl View for Link {
    type V = LinkView;

    open spec fn view(&self) -> LinkView {
        LinkView {
            url: self.url@,
            text: match self.text {
                Some(t) => Some(t@),
                None => None,
            },
        }
    }
}

impl Link {
    /// A copy of the link.
    pub fn clone_link(&self) -> (r: Link)
        ensures
            r@ == self@,
    {
        Link {
            url: self.url.clone(),
            text: match &self.text {
                Some(t) => Some(t.clone()),
                None => None,
            },
        }
    }
}

/// Whether `s` begins with `p`.
pub open spec fn opens_with(s: Seq<char>, p: Seq<char>) -> bool {
    chars_at(s, 0, p, false)
}

/// A URL that the crawler follows or downloads: scheme `http` or `https`.
pub open spec fn is_web_url(u: Seq<char>) -> bool {
    opens_with(u, "http:"@) || opens_with(u, "https:"@)
}

/// An `href` worth resolving: not blank, not a `javascript:` or `mailto:` link.
pub open spec fn href_ok(h: Seq<char>) -> bool {
    !all_white(h) && !opens_with(h, "javascript:"@) && !opens_with(h, "mailto:"@)
}

/// The link that one anchor of a page at `base` yields, if any.
pub open spec fn link_of(base: Seq<char>, a: (Option<Seq<char>>, Seq<char>)) -> Option<LinkView> {
    match a.0 {
        Some(h) => if href_ok(h) {
            match joined_url(base, h) {
                Some(u) => if is_web_url(u) {
                    Some(LinkView { url: u, text: if all_white(a.1) { None } else { Some(a.1) } })
                } else {
                    None
                },
                None => None,
            }
        } else {
            None
        },
        None => None,
    }
}

/// The links that a sequence of anchors yields, in order.
pub open spec fn links_of(base: Seq<char>, anchors: Seq<(Option<Seq<char>>, Seq<char>)>) -> Seq<
    LinkView,
>
    decreases anchors.len(),
{
    if anchors.len() == 0 {
        Seq::empty()
    } else {
        let rest = links_of(base, anchors.drop_last());
        match link_of(base, anchors.last()) {
            Some(l) => rest.push(l),
            None => rest,
        }
    }
}

/// Whether a URL is one the crawler follows or downloads.
pub fn is_web(url: &str) -> (r: bool)
    ensures
        r == is_web_url(url@),
{
    starts_with_text(url, "http:") || starts_with_text(url, "https:")
}

/// The link that one anchor yields, if any.
pub fn link_from_anchor(base: &str, href: Option<&str>, text: &str) -> (r: Option<Link>)
    ensures
        match r {
            Some(l) => link_of(base@, (match href { Some(h) => Some(h@), None => None }, text@))
                == Some(l@),
            None => link_of(base@, (match href { Some(h) => Some(h@), None => None }, text@))
                is None,
        },
{
    let h = match href {
        Some(h) => h,
        None => return None,
    };
    if is_blank(h) || starts_with_text(h, "javascript:") || starts_with_text(h, "mailto:") {
        return None;
    }
    let u = match join_url(base, h) {
        Some(u) => u,
        None => return None,
    };
    if !is_web(u.as_str()) {
        return None;
    }
    let t = if is_blank(text) {
        None
    } else {
        Some(text.to_string())
    };
    Some(Link { url: u, text: t })
}

/// The links of the HTML page `html` found at the absolute URL `base`.
pub fn extract_links(base: &str, html: &str) -> (r: Vec<Link>)
    ensures
        r@.map_values(|l: Link| l@) == links_of(base@, anchors_of(html@)),
{
    let anchors = html_anchors(html);
    let ghost all = anchors_of(html@);
    let mut out: Vec<Link> = Vec::new();
    let mut i: usize = 0;
    while i < anchors.len()
        invariant
            i <= anchors.len(),
            anchors@.len() == all.len(),
            forall|k: int| 0 <= k < anchors@.len() ==> anchor_view(#[trigger] anchors@[k]) == all[k],
            out@.map_values(|l: Link| l@) == links_of(base@, all.subrange(0, i as int)),
        decreases anchors.len() - i,
    {
        let ghost pre = all.subrange(0, i as int);
        let ghost next = all.subrange(0, i as int + 1);
        assert(next.drop_last() =~= pre);
        assert(next.last() == anchor_view(anchors@[i as int]));
        let href: Option<&str> = match &anchors[i].0 {
            Some(h) => Some(h.as_str()),
            None => None,
        };
        let found = link_from_anchor(base, href, anchors[i].1.as_str());
        match found {
            Some(l) => {
                let ghost lv = l@;
                let ghost before = out@;
                out.push(l);
                assert(out@.map_values(|l: Link| l@) =~= before.map_values(|l: Link| l@).push(lv));
            },
            None => {},
        }
        i += 1;
    }
    assert(all.subrange(0, anchors@.len() as int) =~= all);
    out
}

} // verus!
