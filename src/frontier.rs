//! The crawl frontier: a FIFO of tasks and the set of URL identities seen so far.

use vstd::prelude::*;
use std::collections::HashSet;
use std::collections::VecDeque;
use crate::identity::{hash_url, identity};

verus! {

broadcast use vstd::std_specs::hash::group_hash_axioms;

/// One page to fetch: its URL, its distance from the seed, and how often it was retried.
#[derive(Clone, Debug)]
pub struct Task {
    pub url: String,
    pub depth: u32,
    pub retry_count: u32,
}

pub struct TaskView {
    pub url: Seq<char>,
    pub depth: u32,
    pub retry_count: u32,
}

impl View for Task {
    type V = TaskView;

    open spec fn view(&self) -> TaskView {
        TaskView { url: self.url@, depth: self.depth, retry_count: self.retry_count }
    }
}

impl Task {
    /// A task that has not been retried.
    pub fn new(url: String, depth: u32) -> (r: Task)
        ensures
            r@ == (TaskView { url: url@, depth, retry_count: 0 }),
    {
        Task { url, depth, retry_count: 0 }
    }
}

/// The view of an optional task.
pub open spec fn task_opt_view(t: Option<Task>) -> Option<TaskView> {
    match t {
        Some(t) => Some(t@),
        None => None,
    }
}

/// The abstract frontier: queued tasks in order, and the identities seen.
pub struct FrontierView {
    pub tasks: Seq<TaskView>,
    pub seen: Set<u64>,
}

/// A deduplicating FIFO of crawl tasks.
pub struct Frontier {
    tasks: VecDeque<Task>,
    seen: HashSet<u64>,
}

/// The frontier after `push(t)`, and what `push` returns.
pub open spec fn pushed(f: FrontierView, t: TaskView) -> (FrontierView, bool) {
    if f.seen.contains(identity(t.url)) {
        (f, false)
    } else {
        (FrontierView { tasks: f.tasks.push(t), seen: f.seen.insert(identity(t.url)) }, true)
    }
}

/// The frontier after `push_retry(t)`.
pub open spec fn pushed_retry(f: FrontierView, t: TaskView) -> FrontierView {
    FrontierView { tasks: f.tasks.push(t), seen: f.seen.insert(identity(t.url)) }
}

/// The frontier after `pop()`, and what `pop` returns.
pub open spec fn popped(f: FrontierView) -> (FrontierView, Option<TaskView>) {
    if f.tasks.len() == 0 {
        (f, None)
    } else {
        (FrontierView { tasks: f.tasks.drop_first(), seen: f.seen }, Some(f.tasks[0]))
    }
}

impl View for Frontier {
    type V = FrontierView;

    closed spec fn view(&self) -> FrontierView {
        FrontierView { tasks: self.tasks@.map_values(|t: Task| t@), seen: self.seen@ }
    }
}

impl Frontier {
    /// Every queued task's identity has been seen.
    pub closed spec fn wf(&self) -> bool {
        forall|i: int|
            0 <= i < self@.tasks.len() ==> #[trigger] self@.seen.contains(
                identity(self@.tasks[i].url),
            )
    }

    proof fn lemma_wf_after_push(&self, before: &Frontier, t: TaskView)
        requires
            before.wf(),
            self@.tasks == before@.tasks.push(t),
            self@.seen == before@.seen.insert(identity(t.url)),
        ensures
            self.wf(),
    {
        assert forall|i: int| 0 <= i < self@.tasks.len() implies #[trigger] self@.seen.contains(
            identity(self@.tasks[i].url),
        ) by {
            if i < before@.tasks.len() {
                assert(self@.tasks[i] == before@.tasks[i]);
                assert(before@.seen.contains(identity(before@.tasks[i].url)));
            }
        }
    }

    pub fn new() -> (r: Frontier)
        ensures
            r.wf(),
            r@.tasks == Seq::<TaskView>::empty(),
            r@.seen == Set::<u64>::empty(),
    {
        let r = Frontier { tasks: VecDeque::new(), seen: HashSet::new() };
        assert(r@.tasks =~= Seq::<TaskView>::empty());
        r
    }

    /// Enqueues `task` unless its identity was seen; returns whether it was enqueued.
    pub fn push(&mut self, task: Task) -> (inserted: bool)
        requires
            old(self).wf(),
        ensures
            final(self).wf(),
            (final(self)@, inserted) == pushed(old(self)@, task@),
    {
        let id = hash_url(task.url.as_str());
        if self.seen.contains(&id) {
            return false;
        }
        let ghost t = task@;
        self.seen.insert(id);
        self.tasks.push_back(task);
        assert(self@.tasks =~= old(self)@.tasks.push(t));
        proof {
            self.lemma_wf_after_push(old(self), t);
        }
        true
    }

    /// Enqueues a retried `task` whatever was seen, and records its identity.
    pub fn push_retry(&mut self, task: Task)
        requires
            old(self).wf(),
        ensures
            final(self).wf(),
            final(self)@ == pushed_retry(old(self)@, task@),
    {
        let id = hash_url(task.url.as_str());
        let ghost t = task@;
        self.seen.insert(id);
        self.tasks.push_back(task);
        assert(self@.tasks =~= old(self)@.tasks.push(t));
        proof {
            self.lemma_wf_after_push(old(self), t);
        }
    }

    /// Records the identity of `url` without enqueueing it; returns whether it was new.
    pub fn mark_seen(&mut self, url: &str) -> (fresh: bool)
        requires
            old(self).wf(),
        ensures
            final(self).wf(),
            fresh == !old(self)@.seen.contains(identity(url@)),
            final(self)@.tasks == old(self)@.tasks,
            final(self)@.seen == old(self)@.seen.insert(identity(url@)),
    {
        let id = hash_url(url);
        let fresh = self.seen.insert(id);
        proof {
            assert forall|i: int| 0 <= i < self@.tasks.len() implies #[trigger] self@.seen.contains(
                identity(self@.tasks[i].url),
            ) by {
                assert(old(self)@.seen.contains(identity(old(self)@.tasks[i].url)));
            }
        }
        fresh
    }

    /// Whether the identity of `url` has been seen.
    pub fn is_seen(&self, url: &str) -> (r: bool)
        ensures
            r == self@.seen.contains(identity(url@)),
    {
        let id = hash_url(url);
        self.seen.contains(&id)
    }

    /// Removes and returns the oldest task.
    pub fn pop(&mut self) -> (r: Option<Task>)
        requires
            old(self).wf(),
        ensures
            final(self).wf(),
            (final(self)@, task_opt_view(r)) == popped(old(self)@),
    {
        let r = self.tasks.pop_front();
        proof {
            if r is Some {
                assert(self@.tasks =~= old(self)@.tasks.drop_first());
                assert forall|i: int| 0 <= i < self@.tasks.len() implies #[trigger] self@.seen.contains(
                    identity(self@.tasks[i].url),
                ) by {
                    assert(self@.tasks[i] == old(self)@.tasks[i + 1]);
                    assert(old(self)@.seen.contains(identity(old(self)@.tasks[i + 1].url)));
                }
            }
        }
        r
    }

    /// The number of queued tasks.
    pub fn size(&self) -> (n: usize)
        ensures
            n == self@.tasks.len(),
    {
        self.tasks.len()
    }

    /// The number of identities seen.
    pub fn seen_len(&self) -> (n: usize)
        ensures
            n == self@.seen.len(),
    {
        self.seen.len()
    }
}

/// Deduplication: once a URL has been pushed, whether or not that push was
/// accepted, every later push of a URL with the same identity is refused and
/// leaves the frontier as it was.
pub proof fn lemma_push_dedup(f: FrontierView, t: TaskView, u: TaskView)
    requires
        identity(t.url) == identity(u.url),
    ensures
        pushed(pushed(f, t).0, u).1 == false,
        pushed(pushed(f, t).0, u).0 == pushed(f, t).0,
{
}

/// Retries bypass deduplication: a retried task is always enqueued, at the back.
pub proof fn lemma_retry_enqueues(f: FrontierView, t: TaskView)
    ensures
        pushed_retry(f, t).tasks.len() == f.tasks.len() + 1,
        pushed_retry(f, t).tasks.last() == t,
        pushed_retry(f, t).seen.contains(identity(t.url)),
{
}

/// The set of seen identities only grows: under push, retry and pop.
pub proof fn lemma_seen_grows(f: FrontierView, t: TaskView)
    ensures
        f.seen.subset_of(pushed(f, t).0.seen),
        f.seen.subset_of(pushed_retry(f, t).seen),
        popped(f).0.seen == f.seen,
{
}

/// First in, first out: a task pushed into an empty frontier is the next one popped.
pub proof fn lemma_fifo(f: FrontierView, t: TaskView, u: TaskView)
    requires
        f.tasks.len() == 0,
        !f.seen.contains(identity(t.url)),
    ensures
        popped(pushed(f, t).0).1 == Some(t),
        popped(pushed_retry(f, u)).1 == Some(u),
{
}

} // verus!
