//! Four 16-bit status counters packed into one 64-bit word: downloads,
//! failures, queued downloads and cache hits. A full counter stays full, and
//! the queued counter does not go below zero, so no counter spills into another.

use vstd::prelude::*;

verus! {

pub const FIELD_MAX: u64 = 0xFFFF;

pub const DOWNLOADED_SHIFT: u64 = 0;

pub const FAILED_SHIFT: u64 = 16;

pub const QUEUED_SHIFT: u64 = 32;

pub const CACHE_HITS_SHIFT: u64 = 48;

/// The 16-bit counter of `v` that starts at bit `s`.
pub open spec fn field(v: u64, s: u64) -> u64 {
    (v >> s) & 0xFFFF
}

/// The four counters of `v`: downloaded, failed, queued, cache hits.
pub open spec fn counts(v: u64) -> (u64, u64, u64, u64) {
    (field(v, 0), field(v, 16), field(v, 32), field(v, 48))
}

pub open spec fn is_shift(s: u64) -> bool {
    s == 0 || s == 16 || s == 32 || s == 48
}

/// The counters after raising the one at `s` by one, unless it is full.
pub open spec fn bump(c: (u64, u64, u64, u64), s: u64) -> (u64, u64, u64, u64) {
    let up = |x: u64| if x < FIELD_MAX { (x + 1) as u64 } else { x };
    if s == 0 {
        (up(c.0), c.1, c.2, c.3)
    } else if s == 16 {
        (c.0, up(c.1), c.2, c.3)
    } else if s == 32 {
        (c.0, c.1, up(c.2), c.3)
    } else {
        (c.0, c.1, c.2, up(c.3))
    }
}

proof fn lemma_add_at(v: u64, s: u64)
    requires
        is_shift(s),
        (v >> s) & 0xFFFF < 0xFFFF,
    ensures
        v <= 0xFFFF_FFFF_FFFF_FFFFu64 - (1u64 << s),
        counts((v + (1u64 << s)) as u64) == bump(counts(v), s),
{
    assert(v <= 0xFFFF_FFFF_FFFF_FFFFu64 - (1u64 << s)) by (bit_vector)
        requires
            s == 0u64 || s == 16u64 || s == 32u64 || s == 48u64,
            (v >> s) & 0xFFFF < 0xFFFF,
    ;
    let w: u64 = (v + (1u64 << s)) as u64;
    assert(w == vstd::prelude::add(v, 1u64 << s));
    assert(((w >> s) & 0xFFFF) == ((v >> s) & 0xFFFF) + 1) by (bit_vector)
        requires
            s == 0u64 || s == 16u64 || s == 32u64 || s == 48u64,
            (v >> s) & 0xFFFF < 0xFFFF,
            w == vstd::prelude::add(v, 1u64 << s),
    ;
    assert(forall|t: u64|
        (t == 0u64 || t == 16u64 || t == 32u64 || t == 48u64) && t != s ==> #[trigger] ((w >> t)
            & 0xFFFF) == ((v >> t) & 0xFFFF)) by (bit_vector)
        requires
            s == 0u64 || s == 16u64 || s == 32u64 || s == 48u64,
            (v >> s) & 0xFFFF < 0xFFFF,
            w == vstd::prelude::add(v, 1u64 << s),
    ;
}

proof fn lemma_sub_at(v: u64, s: u64)
    requires
        is_shift(s),
        (v >> s) & 0xFFFF > 0,
    ensures
        v >= (1u64 << s),
        field((v - (1u64 << s)) as u64, s) == field(v, s) - 1,
        forall|t: u64| is_shift(t) && t != s ==> field((v - (1u64 << s)) as u64, t) == field(v, t),
{
    assert(v >= (1u64 << s)) by (bit_vector)
        requires
            s == 0u64 || s == 16u64 || s == 32u64 || s == 48u64,
            (v >> s) & 0xFFFF > 0,
    ;
    let w: u64 = (v - (1u64 << s)) as u64;
    assert(w == vstd::prelude::sub(v, 1u64 << s));
    assert(((w >> s) & 0xFFFF) == ((v >> s) & 0xFFFF) - 1) by (bit_vector)
        requires
            s == 0u64 || s == 16u64 || s == 32u64 || s == 48u64,
            (v >> s) & 0xFFFF > 0,
            w == vstd::prelude::sub(v, 1u64 << s),
    ;
    assert(forall|t: u64|
        (t == 0u64 || t == 16u64 || t == 32u64 || t == 48u64) && t != s ==> #[trigger] ((w >> t)
            & 0xFFFF) == ((v >> t) & 0xFFFF)) by (bit_vector)
        requires
            s == 0u64 || s == 16u64 || s == 32u64 || s == 48u64,
            (v >> s) & 0xFFFF > 0,
            w == vstd::prelude::sub(v, 1u64 << s),
    ;
}

/// The status counters of a crawl.
pub struct PackedCounters(u64);

impl View for PackedCounters {
    type V = (u64, u64, u64, u64);

    closed spec fn view(&self) -> (u64, u64, u64, u64) {
        counts(self.0)
    }
}

impl PackedCounters {
    /// All four counters at zero.
    pub fn new() -> (r: PackedCounters)
        ensures
            r@ == (0u64, 0u64, 0u64, 0u64),
    {
        let r = PackedCounters(0);
        assert(counts(0) == (0u64, 0u64, 0u64, 0u64)) by {
            assert(forall|s: u64| #[trigger] ((0u64 >> s) & 0xFFFF) == 0u64) by (bit_vector);
        }
        r
    }

    fn raise(&mut self, s: u64)
        requires
            is_shift(s),
        ensures
            final(self)@ == bump(old(self)@, s),
    {
        let cur = (self.0 >> s) & 0xFFFF;
        if cur < FIELD_MAX {
            proof {
                lemma_add_at(self.0, s);
            }
            self.0 = self.0 + (1u64 << s);
        }
    }

    pub fn inc_downloaded(&mut self)
        ensures
            final(self)@ == bump(old(self)@, DOWNLOADED_SHIFT),
    {
        self.raise(DOWNLOADED_SHIFT)
    }

    pub fn inc_failed(&mut self)
        ensures
            final(self)@ == bump(old(self)@, FAILED_SHIFT),
    {
        self.raise(FAILED_SHIFT)
    }

    pub fn inc_queued(&mut self)
        ensures
            final(self)@ == bump(old(self)@, QUEUED_SHIFT),
    {
        self.raise(QUEUED_SHIFT)
    }

    /// Lowers the queued counter by one, unless it is zero.
    pub fn dec_queued(&mut self)
        ensures
            final(self)@ == (old(self)@.0, old(self)@.1, if old(self)@.2 > 0 {
                (old(self)@.2 - 1) as u64
            } else {
                0
            }, old(self)@.3),
    {
        let cur = (self.0 >> QUEUED_SHIFT) & 0xFFFF;
        if cur > 0 {
            let ghost v = self.0;
            proof {
                lemma_sub_at(v, QUEUED_SHIFT);
            }
            self.0 = self.0 - (1u64 << QUEUED_SHIFT);
            assert(is_shift(0) && is_shift(16) && is_shift(48));
            assert(field(self.0, 0) == field(v, 0));
            assert(field(self.0, 16) == field(v, 16));
            assert(field(self.0, 48) == field(v, 48));
        }
    }

    pub fn inc_cache_hits(&mut self)
        ensures
            final(self)@ == bump(old(self)@, CACHE_HITS_SHIFT),
    {
        self.raise(CACHE_HITS_SHIFT)
    }

    /// The counters: downloaded, failed, queued, cache hits.
    pub fn get_counts(&self) -> (r: (u64, u64, u64, u64))
        ensures
            r == self@,
    {
        (
            (self.0 >> DOWNLOADED_SHIFT) & 0xFFFF,
            (self.0 >> FAILED_SHIFT) & 0xFFFF,
            (self.0 >> QUEUED_SHIFT) & 0xFFFF,
            (self.0 >> CACHE_HITS_SHIFT) & 0xFFFF,
        )
    }
}

} // verus!
