//! Byte-level pattern search used by the PDF and HTML sniffers.

use vstd::prelude::*;

verus! {

/// ASCII lower-casing of one byte; every other byte is left as it is.
pub open spec fn lower_byte(b: u8) -> u8 {
    if 65 <= b && b <= 90 {
        (b + 32) as u8
    } else {
        b
    }
}

/// The byte at `i`, folded to lower case when `fold` holds.
pub open spec fn byte_at(s: Seq<u8>, i: int, fold: bool) -> u8 {
    if fold {
        lower_byte(s[i])
    } else {
        s[i]
    }
}

/// `p` occurs in `s` at offset `i` (compared after ASCII folding when `fold` holds).
pub open spec fn occurs_at(s: Seq<u8>, i: int, p: Seq<u8>, fold: bool) -> bool {
    &&& 0 <= i
    &&& i + p.len() <= s.len()
    &&& forall|j: int| 0 <= j < p.len() ==> #[trigger] byte_at(s, i + j, fold) == p[j]
}

/// `p` occurs somewhere in `s`.
pub open spec fn occurs(s: Seq<u8>, p: Seq<u8>, fold: bool) -> bool {
    exists|i: int| #[trigger] occurs_at(s, i, p, fold)
}

/// `s` begins with `p`, byte for byte.
pub open spec fn begins_with(s: Seq<u8>, p: Seq<u8>) -> bool {
    occurs_at(s, 0, p, false)
}

pub fn fold_byte(b: u8) -> (r: u8)
    ensures
        r == lower_byte(b),
{
    if 65 <= b && b <= 90 {
        b + 32
    } else {
        b
    }
}

/// Whether `p` occurs in `s` at offset `i`.
pub fn occurs_at_exec(s: &[u8], i: usize, p: &[u8], fold: bool) -> (r: bool)
    ensures
        r == occurs_at(s@, i as int, p@, fold),
{
    if i > s.len() || p.len() > s.len() - i {
        return false;
    }
    let mut j: usize = 0;
    while j < p.len()
        invariant
            j <= p.len(),
            i + p.len() <= s.len(),
            forall|k: int| 0 <= k < j ==> #[trigger] byte_at(s@, i + k, fold) == p@[k],
        decreases p.len() - j,
    {
        let b = if fold {
            fold_byte(s[i + j])
        } else {
            s[i + j]
        };
        if b != p[j] {
            assert(byte_at(s@, i + j, fold) != p@[j as int]);
            return false;
        }
        j += 1;
    }
    true
}

/// Whether `p` occurs anywhere in `s`.
pub fn occurs_exec(s: &[u8], p: &[u8], fold: bool) -> (r: bool)
    ensures
        r == occurs(s@, p@, fold),
{
    if p.len() > s.len() {
        assert forall|i: int| !occurs_at(s@, i, p@, fold) by {}
        return false;
    }
    let last: usize = s.len() - p.len();
    let mut i: usize = 0;
    while i <= last
        invariant
            last == s.len() - p.len(),
            i <= last + 1,
            forall|k: int| 0 <= k < i ==> !#[trigger] occurs_at(s@, k, p@, fold),
        decreases last + 1 - i,
    {
        if occurs_at_exec(s, i, p, fold) {
            return true;
        }
        i += 1;
    }
    assert forall|k: int| !#[trigger] occurs_at(s@, k, p@, fold) by {
        if 0 <= k < i {
        }
    }
    false
}

/// Whether `s` begins with `p`.
pub fn begins_with_exec(s: &[u8], p: &[u8]) -> (r: bool)
    ensures
        r == begins_with(s@, p@),
{
    occurs_at_exec(s, 0, p, false)
}

} // verus!
