//! Decisions of the crawl loop: which links are new, which pages are
//! dispatched, which links become tasks or downloads, and which failures are retried.

use vstd::prelude::*;
use crate::classifier::PdfKind;
use crate::frontier::{pushed_retry, Frontier, FrontierView, Task, TaskView};
use crate::identity::identity;
use crate::links::{Link, LinkView};
use crate::outside::{host_of, opt_string_view, url_host};
use crate::text::same_text;

verus! {

/// The identities seen after marking every link of `ls`, starting from `seen`.
pub open spec fn seen_after(seen: Set<u64>, ls: Seq<LinkView>) -> Set<u64>
    decreases ls.len(),
{
    if ls.len() == 0 {
        seen
    } else {
        seen_after(seen, ls.drop_last()).insert(identity(ls.last().url))
    }
}

/// The links of `ls` whose identity was neither in `seen` nor that of an earlier link.
pub open spec fn fresh_of(seen: Set<u64>, ls: Seq<LinkView>) -> Seq<LinkView>
    decreases ls.len(),
{
    if ls.len() == 0 {
        Seq::empty()
    } else {
        let rest = fresh_of(seen, ls.drop_last());
        if seen_after(seen, ls.drop_last()).contains(identity(ls.last().url)) {
            rest
        } else {
            rest.push(ls.last())
        }
    }
}

/// Keeps the links whose identity the frontier has not seen, marking each as seen.
pub fn select_fresh(frontier: &mut Frontier, links: Vec<Link>) -> (r: Vec<Link>)
    requires
        old(frontier).wf(),
    ensures
        final(frontier).wf(),
        final(frontier)@.tasks == old(frontier)@.tasks,
        final(frontier)@.seen == seen_after(old(frontier)@.seen, links@.map_values(|l: Link| l@)),
        r@.map_values(|l: Link| l@) == fresh_of(old(frontier)@.seen, links@.map_values(|l: Link| l@)),
{
    let ghost lv = links@.map_values(|l: Link| l@);
    let ghost seen0 = frontier@.seen;
    let mut out: Vec<Link> = Vec::new();
    let mut i: usize = 0;
    while i < links.len()
        invariant
            i <= links.len(),
            lv == links@.map_values(|l: Link| l@),
            frontier.wf(),
            frontier@.tasks == old(frontier)@.tasks,
            seen0 == old(frontier)@.seen,
            frontier@.seen == seen_after(seen0, lv.subrange(0, i as int)),
            out@.map_values(|l: Link| l@) == fresh_of(seen0, lv.subrange(0, i as int)),
        decreases links.len() - i,
    {
        let ghost next = lv.subrange(0, i as int + 1);
        assert(next.drop_last() =~= lv.subrange(0, i as int));
        let fresh = frontier.mark_seen(links[i].url.as_str());
        if fresh {
            let ghost before = out@;
            out.push(links[i].clone_link());
            assert(out@.map_values(|l: Link| l@) =~= before.map_values(|l: Link| l@).push(lv[i as int]));
        }
        i += 1;
    }
    assert(lv.subrange(0, links.len() as int) =~= lv);
    out
}

/// Whether a task may be handed to extraction: its depth is within `max_depth`.
pub open spec fn dispatchable(depth: u32, max_depth: Option<u32>) -> bool {
    match max_depth {
        Some(m) => depth <= m,
        None => true,
    }
}

/// Whether a page at `depth` may have children enqueued.
pub open spec fn children_allowed(depth: u32, max_depth: Option<u32>) -> bool {
    depth < u32::MAX && dispatchable((depth + 1) as u32, max_depth)
}

/// Whether `task` may be handed to extraction.
pub fn may_dispatch(task: &Task, max_depth: Option<u32>) -> (r: bool)
    ensures
        r == dispatchable(task.depth, max_depth),
{
    match max_depth {
        Some(m) => task.depth <= m,
        None => true,
    }
}

/// A link of a page after classification.
pub struct Candidate {
    pub url: String,
    pub kind: PdfKind,
}

pub struct CandidateView {
    pub url: Seq<char>,
    pub kind: PdfKind,
}

impl View for Candidate {
    type V = CandidateView;

    open spec fn view(&self) -> CandidateView {
        CandidateView { url: self.url@, kind: self.kind }
    }
}

/// Whether a classified link becomes a task: it is no PDF, it is on the
/// crawl's host, and the page it was found on may have children.
pub open spec fn becomes_task(
    c: CandidateView,
    base_host: Seq<char>,
    depth: u32,
    max_depth: Option<u32>,
) -> bool {
    c.kind == PdfKind::No && url_host(c.url) == Some(base_host) && children_allowed(
        depth,
        max_depth,
    )
}

/// The tasks that the links `cs` of a page at `depth` become, in order.
pub open spec fn new_tasks(
    cs: Seq<CandidateView>,
    base_host: Seq<char>,
    depth: u32,
    max_depth: Option<u32>,
) -> Seq<TaskView>
    decreases cs.len(),
{
    if cs.len() == 0 {
        Seq::empty()
    } else {
        let rest = new_tasks(cs.drop_last(), base_host, depth, max_depth);
        if becomes_task(cs.last(), base_host, depth, max_depth) {
            rest.push(TaskView { url: cs.last().url, depth: (depth + 1) as u32, retry_count: 0 })
        } else {
            rest
        }
    }
}

/// The URLs of the links of `cs` that were classified as PDFs, in order.
pub open spec fn pdf_targets(cs: Seq<CandidateView>) -> Seq<Seq<char>>
    decreases cs.len(),
{
    if cs.len() == 0 {
        Seq::empty()
    } else {
        let rest = pdf_targets(cs.drop_last());
        if cs.last().kind == PdfKind::Yes {
            rest.push(cs.last().url)
        } else {
            rest
        }
    }
}

/// The frontier after enqueueing each of `ts` past deduplication.
pub open spec fn enqueued_all(f: FrontierView, ts: Seq<TaskView>) -> FrontierView
    decreases ts.len(),
{
    if ts.len() == 0 {
        f
    } else {
        pushed_retry(enqueued_all(f, ts.drop_last()), ts.last())
    }
}

/// Routes the classified links of the page of `task`: PDFs are returned for
/// download; other links on `base_host` are enqueued one level deeper when
/// depth allows. The links were marked seen by `select_fresh`, so they are
/// enqueued past deduplication.
pub fn route_links(
    frontier: &mut Frontier,
    task: &Task,
    candidates: &Vec<Candidate>,
    base_host: &str,
    max_depth: Option<u32>,
) -> (pdfs: Vec<String>)
    requires
        old(frontier).wf(),
    ensures
        final(frontier).wf(),
        final(frontier)@ == enqueued_all(
            old(frontier)@,
            new_tasks(candidates@.map_values(|c: Candidate| c@), base_host@, task.depth, max_depth),
        ),
        pdfs@.map_values(|s: String| s@) == pdf_targets(candidates@.map_values(|c: Candidate| c@)),
{
    let ghost cv = candidates@.map_values(|c: Candidate| c@);
    let ghost f0 = frontier@;
    let deeper = task.depth < u32::MAX && match max_depth {
        Some(m) => task.depth + 1 <= m,
        None => true,
    };
    let mut pdfs: Vec<String> = Vec::new();
    let mut i: usize = 0;
    while i < candidates.len()
        invariant
            i <= candidates.len(),
            cv == candidates@.map_values(|c: Candidate| c@),
            f0 == old(frontier)@,
            deeper == children_allowed(task.depth, max_depth),
            frontier.wf(),
            frontier@ == enqueued_all(
                f0,
                new_tasks(cv.subrange(0, i as int), base_host@, task.depth, max_depth),
            ),
            pdfs@.map_values(|s: String| s@) == pdf_targets(cv.subrange(0, i as int)),
        decreases candidates.len() - i,
    {
        let ghost pre = cv.subrange(0, i as int);
        let ghost next = cv.subrange(0, i as int + 1);
        assert(next.drop_last() =~= pre);
        assert(next.last() == cv[i as int]);
        let c = &candidates[i];
        match c.kind {
            PdfKind::Yes => {
                assert(new_tasks(next, base_host@, task.depth, max_depth) == new_tasks(
                    pre,
                    base_host@,
                    task.depth,
                    max_depth,
                ));
                let ghost before = pdfs@;
                pdfs.push(c.url.clone());
                assert(pdfs@.map_values(|s: String| s@) =~= before.map_values(|s: String| s@).push(
                    c.url@,
                ));
            },
            PdfKind::No => {
                let host = host_of(c.url.as_str());
                let same = match &host {
                    Some(h) => same_text(h.as_str(), base_host),
                    None => false,
                };
                assert(same == (url_host(c.url@) == Some(base_host@))) by {
                    assert(opt_string_view(host) == url_host(c.url@));
                }
                let ghost rest = new_tasks(pre, base_host@, task.depth, max_depth);
                if same && deeper {
                    let t = Task::new(c.url.clone(), task.depth + 1);
                    let ghost tv = t@;
                    assert(new_tasks(next, base_host@, task.depth, max_depth) == rest.push(tv));
                    assert(rest.push(tv).drop_last() =~= rest);
                    frontier.push_retry(t);
                } else {
                    assert(new_tasks(next, base_host@, task.depth, max_depth) == rest);
                }
            },
        }
        i += 1;
    }
    assert(cv.subrange(0, candidates.len() as int) =~= cv);
    pdfs
}

/// Every task that routing enqueues is on the crawl's host.
pub proof fn lemma_new_tasks_same_host(
    cs: Seq<CandidateView>,
    base_host: Seq<char>,
    depth: u32,
    max_depth: Option<u32>,
)
    ensures
        forall|i: int|
            0 <= i < new_tasks(cs, base_host, depth, max_depth).len() ==> url_host(
                #[trigger] new_tasks(cs, base_host, depth, max_depth)[i].url,
            ) == Some(base_host),
    decreases cs.len(),
{
    if cs.len() > 0 {
        lemma_new_tasks_same_host(cs.drop_last(), base_host, depth, max_depth);
    }
}

/// Every task that routing enqueues is one level below its page, and within
/// `max_depth`, so it may be dispatched in turn.
pub proof fn lemma_new_tasks_depth(
    cs: Seq<CandidateView>,
    base_host: Seq<char>,
    depth: u32,
    max_depth: Option<u32>,
)
    ensures
        forall|i: int|
            0 <= i < new_tasks(cs, base_host, depth, max_depth).len() ==> (#[trigger] new_tasks(
                cs,
                base_host,
                depth,
                max_depth,
            )[i]).depth == depth + 1 && dispatchable(
                new_tasks(cs, base_host, depth, max_depth)[i].depth,
                max_depth,
            ) && new_tasks(cs, base_host, depth, max_depth)[i].retry_count == 0,
    decreases cs.len(),
{
    if cs.len() > 0 {
        lemma_new_tasks_depth(cs.drop_last(), base_host, depth, max_depth);
        let rest = new_tasks(cs.drop_last(), base_host, depth, max_depth);
        let all = new_tasks(cs, base_host, depth, max_depth);
        assert forall|i: int| 0 <= i < all.len() implies (#[trigger] all[i]).depth == depth + 1
            && dispatchable(all[i].depth, max_depth) && all[i].retry_count == 0 by {
            if i < rest.len() {
                assert(all[i] == rest[i]);
            }
        }
    }
}

/// Links that were already seen are dropped: no link `select_fresh` keeps was
/// seen before, and no two links it keeps share an identity.
pub proof fn lemma_fresh_links_unique(seen: Set<u64>, ls: Seq<LinkView>)
    ensures
        forall|i: int|
            0 <= i < fresh_of(seen, ls).len() ==> !seen.contains(
                identity(#[trigger] fresh_of(seen, ls)[i].url),
            ),
        forall|i: int, j: int|
            0 <= i < j < fresh_of(seen, ls).len() ==> identity(#[trigger] fresh_of(seen, ls)[i].url)
                != identity(#[trigger] fresh_of(seen, ls)[j].url),
        forall|i: int|
            0 <= i < fresh_of(seen, ls).len() ==> seen_after(seen, ls).contains(
                identity(#[trigger] fresh_of(seen, ls)[i].url),
            ),
        seen.subset_of(seen_after(seen, ls)),
    decreases ls.len(),
{
    if ls.len() > 0 {
        lemma_fresh_links_unique(seen, ls.drop_last());
    }
}

proof fn lemma_new_tasks_from(
    cs: Seq<CandidateView>,
    base_host: Seq<char>,
    depth: u32,
    max_depth: Option<u32>,
)
    requires
        forall|k: int, l: int|
            0 <= k < l < cs.len() ==> identity(#[trigger] cs[k].url) != identity(#[trigger] cs[l].url),
    ensures
        forall|i: int|
            0 <= i < new_tasks(cs, base_host, depth, max_depth).len() ==> exists|k: int|
                0 <= k < cs.len() && #[trigger] new_tasks(cs, base_host, depth, max_depth)[i].url
                    == cs[k].url,
        forall|i: int, j: int|
            0 <= i < j < new_tasks(cs, base_host, depth, max_depth).len() ==> identity(
                #[trigger] new_tasks(cs, base_host, depth, max_depth)[i].url,
            ) != identity(#[trigger] new_tasks(cs, base_host, depth, max_depth)[j].url),
    decreases cs.len(),
{
    if cs.len() > 0 {
        let pre = cs.drop_last();
        assert forall|k: int, l: int| 0 <= k < l < pre.len() implies identity(#[trigger] pre[k].url)
            != identity(#[trigger] pre[l].url) by {
            assert(pre[k] == cs[k] && pre[l] == cs[l]);
        }
        lemma_new_tasks_from(pre, base_host, depth, max_depth);
        let rest = new_tasks(pre, base_host, depth, max_depth);
        let all = new_tasks(cs, base_host, depth, max_depth);
        assert forall|i: int| 0 <= i < all.len() implies exists|k: int|
            0 <= k < cs.len() && #[trigger] all[i].url == cs[k].url by {
            if i < rest.len() {
                assert(all[i] == rest[i]);
                let k = choose|k: int| 0 <= k < pre.len() && rest[i].url == pre[k].url;
                assert(pre[k] == cs[k]);
            } else {
                assert(all[i].url == cs[cs.len() - 1].url);
            }
        }
        assert forall|i: int, j: int| 0 <= i < j < all.len() implies identity(#[trigger] all[i].url)
            != identity(#[trigger] all[j].url) by {
            if j < rest.len() {
                assert(all[i] == rest[i] && all[j] == rest[j]);
            } else {
                assert(all[i] == rest[i]);
                let k = choose|k: int| 0 <= k < pre.len() && rest[i].url == pre[k].url;
                assert(pre[k] == cs[k]);
                assert(all[j].url == cs[cs.len() - 1].url);
            }
        }
    }
}

proof fn lemma_pdf_targets_from(cs: Seq<CandidateView>)
    requires
        forall|k: int, l: int|
            0 <= k < l < cs.len() ==> identity(#[trigger] cs[k].url) != identity(#[trigger] cs[l].url),
    ensures
        forall|i: int|
            0 <= i < pdf_targets(cs).len() ==> exists|k: int|
                0 <= k < cs.len() && #[trigger] pdf_targets(cs)[i] == cs[k].url,
        forall|i: int, j: int|
            0 <= i < j < pdf_targets(cs).len() ==> identity(#[trigger] pdf_targets(cs)[i]) != identity(
                #[trigger] pdf_targets(cs)[j],
            ),
    decreases cs.len(),
{
    if cs.len() > 0 {
        let pre = cs.drop_last();
        assert forall|k: int, l: int| 0 <= k < l < pre.len() implies identity(#[trigger] pre[k].url)
            != identity(#[trigger] pre[l].url) by {
            assert(pre[k] == cs[k] && pre[l] == cs[l]);
        }
        lemma_pdf_targets_from(pre);
        let rest = pdf_targets(pre);
        let all = pdf_targets(cs);
        assert forall|i: int| 0 <= i < all.len() implies exists|k: int|
            0 <= k < cs.len() && #[trigger] all[i] == cs[k].url by {
            if i < rest.len() {
                assert(all[i] == rest[i]);
                let k = choose|k: int| 0 <= k < pre.len() && rest[i] == pre[k].url;
                assert(pre[k] == cs[k]);
            } else {
                assert(all[i] == cs[cs.len() - 1].url);
            }
        }
        assert forall|i: int, j: int| 0 <= i < j < all.len() implies identity(#[trigger] all[i])
            != identity(#[trigger] all[j]) by {
            if j < rest.len() {
                assert(all[i] == rest[i] && all[j] == rest[j]);
            } else {
                assert(all[i] == rest[i]);
                let k = choose|k: int| 0 <= k < pre.len() && rest[i] == pre[k].url;
                assert(pre[k] == cs[k]);
                assert(all[j] == cs[cs.len() - 1].url);
            }
        }
    }
}

/// Deduplication over one page: when the links of a page go through
/// `select_fresh` against the identities `seen` so far and the links kept are
/// classified and routed, every new task (all with retry count 0) and every
/// PDF handed to download has an identity that was not seen before, and no
/// two of them share an identity. Only a retry re-enqueues a seen URL.
pub proof fn lemma_page_step_dedup(
    seen: Set<u64>,
    links: Seq<LinkView>,
    cs: Seq<CandidateView>,
    base_host: Seq<char>,
    depth: u32,
    max_depth: Option<u32>,
)
    requires
        cs.len() == fresh_of(seen, links).len(),
        forall|i: int| 0 <= i < cs.len() ==> #[trigger] cs[i].url == fresh_of(seen, links)[i].url,
    ensures
        forall|i: int|
            0 <= i < new_tasks(cs, base_host, depth, max_depth).len() ==> !seen.contains(
                identity(#[trigger] new_tasks(cs, base_host, depth, max_depth)[i].url),
            ) && new_tasks(cs, base_host, depth, max_depth)[i].retry_count == 0,
        forall|i: int, j: int|
            0 <= i < j < new_tasks(cs, base_host, depth, max_depth).len() ==> identity(
                #[trigger] new_tasks(cs, base_host, depth, max_depth)[i].url,
            ) != identity(#[trigger] new_tasks(cs, base_host, depth, max_depth)[j].url),
        forall|i: int|
            0 <= i < pdf_targets(cs).len() ==> !seen.contains(identity(#[trigger] pdf_targets(cs)[i])),
        forall|i: int, j: int|
            0 <= i < j < pdf_targets(cs).len() ==> identity(#[trigger] pdf_targets(cs)[i]) != identity(
                #[trigger] pdf_targets(cs)[j],
            ),
{
    let fr = fresh_of(seen, links);
    lemma_fresh_links_unique(seen, links);
    assert forall|k: int, l: int| 0 <= k < l < cs.len() implies identity(#[trigger] cs[k].url)
        != identity(#[trigger] cs[l].url) by {
        assert(cs[k].url == fr[k].url && cs[l].url == fr[l].url);
    }
    lemma_new_tasks_from(cs, base_host, depth, max_depth);
    lemma_new_tasks_depth(cs, base_host, depth, max_depth);
    lemma_pdf_targets_from(cs);
    let nt = new_tasks(cs, base_host, depth, max_depth);
    assert forall|i: int| 0 <= i < nt.len() implies !seen.contains(identity(#[trigger] nt[i].url)) && nt[i].retry_count == 0 by {
        let k = choose|k: int| 0 <= k < cs.len() && nt[i].url == cs[k].url;
        assert(cs[k].url == fr[k].url);
    }
    let pt = pdf_targets(cs);
    assert forall|i: int| 0 <= i < pt.len() implies !seen.contains(identity(#[trigger] pt[i])) by {
        let k = choose|k: int| 0 <= k < cs.len() && pt[i] == cs[k].url;
        assert(cs[k].url == fr[k].url);
    }
}

/// Why fetching a page failed.
#[derive(Clone, Copy, Debug, PartialEq, Eq, Structural)]
pub enum FetchFailure {
    /// The request timed out.
    Timeout,
    /// The connection failed or was reset.
    Connection,
    /// The server answered with this non-success status.
    Status(u16),
    /// The page or its URL could not be parsed.
    Parse,
}

/// Transient failures are retried: timeouts, connection errors, `429` and `5xx`.
pub open spec fn transient(f: FetchFailure) -> bool {
    match f {
        FetchFailure::Timeout => true,
        FetchFailure::Connection => true,
        FetchFailure::Status(s) => s == 429 || s >= 500,
        FetchFailure::Parse => false,
    }
}

impl FetchFailure {
    pub fn is_transient(&self) -> (r: bool)
        ensures
            r == transient(*self),
    {
        match self {
            FetchFailure::Timeout => true,
            FetchFailure::Connection => true,
            FetchFailure::Status(s) => *s == 429 || *s >= 500,
            FetchFailure::Parse => false,
        }
    }
}

/// Whether a failed task is retried.
pub open spec fn retried(t: TaskView, f: FetchFailure, max_retries: u32) -> bool {
    transient(f) && t.retry_count < max_retries
}

/// After `task` failed with `failure`: a transient failure is retried, with
/// `retry_count` one higher, while `retry_count < max_retries`; any other
/// task is dropped. Returns whether the task was re-enqueued.
pub fn after_failure(frontier: &mut Frontier, task: Task, failure: FetchFailure, max_retries: u32) -> (r:
    bool)
    requires
        old(frontier).wf(),
    ensures
        final(frontier).wf(),
        r == retried(task@, failure, max_retries),
        r ==> final(frontier)@ == pushed_retry(
            old(frontier)@,
            TaskView { url: task@.url, depth: task.depth, retry_count: (task.retry_count + 1) as u32 },
        ),
        !r ==> final(frontier)@ == old(frontier)@,
{
    if failure.is_transient() && task.retry_count < max_retries {
        let t = Task { url: task.url, depth: task.depth, retry_count: task.retry_count + 1 };
        frontier.push_retry(t);
        true
    } else {
        false
    }
}

/// A URL is attempted at most `max_retries + 1` times: a retried task has a
/// retry count of at most `max_retries`, and a task at that count is not retried.
pub proof fn lemma_retries_bounded(t: TaskView, f: FetchFailure, max_retries: u32)
    ensures
        retried(t, f, max_retries) ==> t.retry_count + 1 <= max_retries,
        t.retry_count >= max_retries ==> !retried(t, f, max_retries),
{
}

} // verus!
