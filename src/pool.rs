//! The adaptive worker count and the idle detector that ends a crawl.

use vstd::prelude::*;

verus! {

/// The worker count after one scaling step: one fewer when errors reached the
/// threshold, one more when they are under half of it, within the bounds.
pub open spec fn scaled(workers: usize, errors: usize, min: usize, max: usize, threshold: usize) -> usize {
    if errors >= threshold && workers > min {
        (workers - 1) as usize
    } else if errors < threshold / 2 && workers < max {
        (workers + 1) as usize
    } else {
        workers
    }
}

pub struct PoolView {
    pub workers: usize,
    pub errors: usize,
    pub min_workers: usize,
    pub max_workers: usize,
    pub error_threshold: usize,
}

/// A worker count that follows the error rate between two bounds.
pub struct AdaptivePool {
    workers: usize,
    errors: usize,
    min_workers: usize,
    max_workers: usize,
    error_threshold: usize,
}

impl View for AdaptivePool {
    type V = PoolView;

    closed spec fn view(&self) -> PoolView {
        PoolView {
            workers: self.workers,
            errors: self.errors,
            min_workers: self.min_workers,
            max_workers: self.max_workers,
            error_threshold: self.error_threshold,
        }
    }
}

/// The worker count is within its bounds.
pub open spec fn bounded(p: PoolView) -> bool {
    p.min_workers <= p.workers <= p.max_workers
}

impl AdaptivePool {
    /// A pool of `initial` workers, clamped into `[min_workers, max_workers]`.
    pub fn new(initial: usize, min_workers: usize, max_workers: usize, error_threshold: usize) -> (r:
        AdaptivePool)
        requires
            min_workers <= max_workers,
        ensures
            bounded(r@),
            r@.workers == (if initial < min_workers {
                min_workers
            } else if initial > max_workers {
                max_workers
            } else {
                initial
            }),
            r@.errors == 0,
            r@.min_workers == min_workers,
            r@.max_workers == max_workers,
            r@.error_threshold == error_threshold,
    {
        let workers = if initial < min_workers {
            min_workers
        } else if initial > max_workers {
            max_workers
        } else {
            initial
        };
        AdaptivePool { workers, errors: 0, min_workers, max_workers, error_threshold }
    }

    pub fn workers(&self) -> (r: usize)
        ensures
            r == self@.workers,
    {
        self.workers
    }

    pub fn errors(&self) -> (r: usize)
        ensures
            r == self@.errors,
    {
        self.errors
    }

    /// A page succeeded: the error count drops by one, not below zero.
    pub fn record_success(&mut self)
        ensures
            final(self)@ == (PoolView {
                errors: if old(self)@.errors > 0 {
                    (old(self)@.errors - 1) as usize
                } else {
                    0
                },
                ..old(self)@
            }),
    {
        if self.errors > 0 {
            self.errors = self.errors - 1;
        }
    }

    /// A transient error happened: the error count rises by one (a full count stays full).
    pub fn record_error(&mut self)
        ensures
            final(self)@ == (PoolView {
                errors: if old(self)@.errors < usize::MAX {
                    (old(self)@.errors + 1) as usize
                } else {
                    old(self)@.errors
                },
                ..old(self)@
            }),
    {
        if self.errors < usize::MAX {
            self.errors = self.errors + 1;
        }
    }

    /// One scaling step at a batch boundary; returns the new worker count.
    pub fn rescale(&mut self) -> (r: usize)
        requires
            bounded(old(self)@),
        ensures
            bounded(final(self)@),
            r == final(self)@.workers,
            final(self)@ == (PoolView {
                workers: scaled(
                    old(self)@.workers,
                    old(self)@.errors,
                    old(self)@.min_workers,
                    old(self)@.max_workers,
                    old(self)@.error_threshold,
                ),
                ..old(self)@
            }),
    {
        if self.errors >= self.error_threshold && self.workers > self.min_workers {
            self.workers = self.workers - 1;
        } else if self.errors < self.error_threshold / 2 && self.workers < self.max_workers {
            self.workers = self.workers + 1;
        }
        self.workers
    }
}

/// A scaling step keeps the worker count within its bounds and moves it by at most one.
pub proof fn lemma_scaling_bounded(p: PoolView)
    requires
        bounded(p),
    ensures
        p.min_workers <= scaled(p.workers, p.errors, p.min_workers, p.max_workers, p.error_threshold)
            <= p.max_workers,
        scaled(p.workers, p.errors, p.min_workers, p.max_workers, p.error_threshold) <= p.workers + 1,
        scaled(p.workers, p.errors, p.min_workers, p.max_workers, p.error_threshold) + 1 >= p.workers,
{
}

/// Whether the crawl loop stops after `idle_ticks` ticks without new work:
/// after `idle_limit` ticks when nothing is in flight and the queue is
/// empty, and after `hard_limit` ticks in any case.
pub open spec fn stops(
    idle_ticks: u32,
    idle_limit: u32,
    hard_limit: u32,
    in_flight_empty: bool,
    queue_empty: bool,
) -> bool {
    (idle_ticks >= idle_limit && in_flight_empty && queue_empty) || idle_ticks >= hard_limit
}

pub struct MonitorView {
    pub idle_ticks: u32,
    pub idle_limit: u32,
    pub hard_limit: u32,
    pub shutdown: bool,
}

/// Counts ticks without new work and decides when the crawl is over.
pub struct ShutdownMonitor {
    idle_ticks: u32,
    idle_limit: u32,
    hard_limit: u32,
    shutdown: bool,
}

impl View for ShutdownMonitor {
    type V = MonitorView;

    closed spec fn view(&self) -> MonitorView {
        MonitorView {
            idle_ticks: self.idle_ticks,
            idle_limit: self.idle_limit,
            hard_limit: self.hard_limit,
            shutdown: self.shutdown,
        }
    }
}

impl ShutdownMonitor {
    pub fn new(idle_limit: u32, hard_limit: u32) -> (r: ShutdownMonitor)
        ensures
            r@ == (MonitorView { idle_ticks: 0, idle_limit, hard_limit, shutdown: false }),
    {
        ShutdownMonitor { idle_ticks: 0, idle_limit, hard_limit, shutdown: false }
    }

    /// Whether shutdown was decided; once set it stays set.
    pub fn is_shutdown(&self) -> (r: bool)
        ensures
            r == self@.shutdown,
    {
        self.shutdown
    }

    /// New work arrived: the idle count starts again.
    pub fn on_work(&mut self)
        ensures
            final(self)@ == (MonitorView { idle_ticks: 0, ..old(self)@ }),
    {
        self.idle_ticks = 0;
    }

    /// The outer deadline passed: shut down.
    pub fn on_deadline(&mut self)
        ensures
            final(self)@ == (MonitorView { shutdown: true, ..old(self)@ }),
    {
        self.shutdown = true;
    }

    /// A tick passed without new work; returns whether the crawl stops.
    pub fn on_idle_tick(&mut self, in_flight_empty: bool, queue_empty: bool) -> (stop: bool)
        ensures
            final(self)@.idle_ticks == (if old(self)@.idle_ticks < u32::MAX {
                (old(self)@.idle_ticks + 1) as u32
            } else {
                old(self)@.idle_ticks
            }),
            final(self)@.idle_limit == old(self)@.idle_limit,
            final(self)@.hard_limit == old(self)@.hard_limit,
            stop == (old(self)@.shutdown || stops(
                final(self)@.idle_ticks,
                old(self)@.idle_limit,
                old(self)@.hard_limit,
                in_flight_empty,
                queue_empty,
            )),
            final(self)@.shutdown == stop,
    {
        if self.idle_ticks < u32::MAX {
            self.idle_ticks = self.idle_ticks + 1;
        }
        let t = self.idle_ticks;
        if (t >= self.idle_limit && in_flight_empty && queue_empty) || t >= self.hard_limit {
            self.shutdown = true;
        }
        self.shutdown
    }
}

} // verus!
