//! The coarse robots rule: a host whose robots file disallows `/` is skipped;
//! a host whose robots file cannot be had is allowed. Verdicts are cached per host.

use vstd::prelude::*;
use crate::text::{contains_text, has_chars, same_text};

verus! {

/// Whether a robots file allows crawling: `None` when it could not be fetched.
pub open spec fn robots_verdict(body: Option<Seq<char>>) -> bool {
    match body {
        Some(b) => !has_chars(b, "Disallow: /"@, false),
        None => true,
    }
}

pub fn robots_allows(body: Option<&str>) -> (r: bool)
    ensures
        r == robots_verdict(match body {
            Some(b) => Some(b@),
            None => None,
        }),
{
    match body {
        Some(b) => !contains_text(b, "Disallow: /", false),
        None => true,
    }
}

/// The latest verdict recorded for `host`.
pub open spec fn verdict_for(entries: Seq<(Seq<char>, bool)>, host: Seq<char>) -> Option<bool>
    decreases entries.len(),
{
    if entries.len() == 0 {
        None
    } else if entries.last().0 == host {
        Some(entries.last().1)
    } else {
        verdict_for(entries.drop_last(), host)
    }
}

/// What the robots rule needs to decide on a host.
#[derive(Clone, Copy, Debug, PartialEq, Eq, Structural)]
pub enum RobotsStep {
    /// The verdict is known.
    Known(bool),
    /// The host's robots file must be fetched and given to `record`.
    Fetch,
}

/// Robots verdicts per host.
pub struct RobotsCache {
    entries: Vec<(String, bool)>,
}

impl View for RobotsCache {
    type V = Seq<(Seq<char>, bool)>;

    closed spec fn view(&self) -> Seq<(Seq<char>, bool)> {
        self.entries@.map_values(|e: (String, bool)| (e.0@, e.1))
    }
}

impl RobotsCache {
    pub fn new() -> (r: RobotsCache)
        ensures
            r@ == Seq::<(Seq<char>, bool)>::empty(),
    {
        let r = RobotsCache { entries: Vec::new() };
        assert(r@ =~= Seq::<(Seq<char>, bool)>::empty());
        r
    }

    /// The verdict recorded for `host`, if any.
    pub fn lookup(&self, host: &str) -> (r: Option<bool>)
        ensures
            r == verdict_for(self@, host@),
    {
        let mut i: usize = self.entries.len();
        assert(self@.subrange(0, i as int) =~= self@);
        while i > 0
            invariant
                i <= self.entries.len(),
                verdict_for(self@, host@) == verdict_for(self@.subrange(0, i as int), host@),
            decreases i,
        {
            let ghost pre = self@.subrange(0, i as int);
            assert(pre.drop_last() =~= self@.subrange(0, i as int - 1));
            assert(pre.last() == (self.entries@[i - 1].0@, self.entries@[i - 1].1));
            if same_text(self.entries[i - 1].0.as_str(), host) {
                return Some(self.entries[i - 1].1);
            }
            i -= 1;
        }
        None
    }

    /// Records the verdict for `host`, replacing any earlier one.
    pub fn record(&mut self, host: String, allowed: bool)
        ensures
            final(self)@ == old(self)@.push((host@, allowed)),
            verdict_for(final(self)@, host@) == Some(allowed),
    {
        let ghost h = host@;
        self.entries.push((host, allowed));
        assert(self@ =~= old(self)@.push((h, allowed)));
    }

    /// The first step of the robots rule for `host`: everything is allowed when
    /// robots files are not respected; otherwise a recorded verdict stands,
    /// and a host without one must be fetched.
    pub fn can_fetch(&self, respect_robots: bool, host: &str) -> (r: RobotsStep)
        ensures
            r == (if !respect_robots {
                RobotsStep::Known(true)
            } else {
                match verdict_for(self@, host@) {
                    Some(v) => RobotsStep::Known(v),
                    None => RobotsStep::Fetch,
                }
            }),
    {
        if !respect_robots {
            return RobotsStep::Known(true);
        }
        match self.lookup(host) {
            Some(v) => RobotsStep::Known(v),
            None => RobotsStep::Fetch,
        }
    }
}

} // verus!
