//! Canonical form of a URL and its 64-bit identity, the key of deduplication.

use vstd::prelude::*;
use crate::text::{chars_of, fold_char, lower_char, string_of};

verus! {

/// `s` without one trailing `/`.
pub open spec fn trim_slash(s: Seq<char>) -> Seq<char> {
    if s.len() > 0 && s.last() == '/' {
        s.drop_last()
    } else {
        s
    }
}

/// Canonical form of a URL: ASCII letters lower-cased, one trailing `/` removed.
pub open spec fn canonical(u: Seq<char>) -> Seq<char> {
    trim_slash(u.map_values(|c: char| lower_char(c)))
}

pub const FNV_OFFSET: u64 = 0xcbf2_9ce4_8422_2325;

pub const FNV_PRIME: u64 = 0x0000_0100_0000_01b3;

/// One step of 64-bit FNV-1a over a character code.
pub open spec fn fnv_step(h: u64, c: char) -> u64 {
    ((h ^ (c as u32 as u64)) as nat * FNV_PRIME as nat % 0x1_0000_0000_0000_0000) as u64
}

/// 64-bit FNV-1a over the character codes of `s`.
pub open spec fn fnv(s: Seq<char>) -> u64
    decreases s.len(),
{
    if s.len() == 0 {
        FNV_OFFSET
    } else {
        fnv_step(fnv(s.drop_last()), s.last())
    }
}

/// The identity of a URL: the hash of its canonical form.
pub open spec fn identity(u: Seq<char>) -> u64 {
    fnv(canonical(u))
}

/// Canonicalization is idempotent on every URL that does not end in two
/// slashes (from `a//` one slash is removed each time).
pub proof fn lemma_canonical_idempotent(u: Seq<char>)
    requires
        !(u.len() >= 2 && u[u.len() - 1] == '/' && u[u.len() - 2] == '/'),
    ensures
        canonical(canonical(u)) == canonical(u),
{
    let l = u.map_values(|c: char| lower_char(c));
    let c = trim_slash(l);
    let lc = c.map_values(|x: char| lower_char(x));
    assert(lc =~= c) by {
        assert forall|k: int| 0 <= k < c.len() implies lc[k] == c[k] by {
            assert(c[k] == l[k]);
        }
    }
    if l.len() > 0 && l.last() == '/' {
        assert(c.len() == 0 || c.last() == l[l.len() - 2]);
    }
}

/// URLs whose canonical forms agree (they differ only in the case of ASCII
/// letters or in one trailing slash) share one identity.
pub proof fn lemma_identity_ignores_case_and_slash(u: Seq<char>, v: Seq<char>)
    requires
        trim_slash(u.map_values(|c: char| lower_char(c))) == trim_slash(
            v.map_values(|c: char| lower_char(c)),
        ),
    ensures
        identity(u) == identity(v),
{
}

/// A trailing slash does not change the identity of a URL that has none.
pub proof fn lemma_identity_trailing_slash(u: Seq<char>)
    requires
        u.len() == 0 || u.last() != '/',
    ensures
        identity(u.push('/')) == identity(u),
{
    let l = u.map_values(|c: char| lower_char(c));
    let lp = u.push('/').map_values(|c: char| lower_char(c));
    assert(lp.drop_last() =~= l);
    assert(lp.last() == '/');
    if u.len() > 0 {
        assert(l.last() == lower_char(u.last()));
    }
}

/// The canonical form of `url`.
pub fn canonical_url(url: &str) -> (r: String)
    ensures
        r@ == canonical(url@),
{
    let cs = chars_of(url);
    let mut low: Vec<char> = Vec::new();
    let mut i: usize = 0;
    while i < cs.len()
        invariant
            i <= cs.len(),
            cs@ == url@,
            low@ =~= cs@.subrange(0, i as int).map_values(|c: char| lower_char(c)),
        decreases cs.len() - i,
    {
        low.push(fold_char(cs[i]));
        i += 1;
    }
    assert(cs@.subrange(0, cs.len() as int) =~= cs@);
    if low.len() > 0 && low[low.len() - 1] == '/' {
        let ghost before = low@;
        low.pop();
        assert(low@ =~= before.drop_last());
    }
    string_of(&low)
}

/// The 64-bit FNV-1a hash of the character codes of `s`.
pub fn fnv_hash(s: &Vec<char>) -> (r: u64)
    ensures
        r == fnv(s@),
{
    let mut h: u64 = FNV_OFFSET;
    let mut i: usize = 0;
    while i < s.len()
        invariant
            i <= s.len(),
            h == fnv(s@.subrange(0, i as int)),
        decreases s.len() - i,
    {
        let ghost prefix = s@.subrange(0, i as int + 1);
        assert(prefix.drop_last() =~= s@.subrange(0, i as int));
        let x: u64 = h ^ (s[i] as u32 as u64);
        h = x.wrapping_mul(FNV_PRIME);
        i += 1;
    }
    assert(s@.subrange(0, s.len() as int) =~= s@);
    h
}

/// The identity of `url`, under which the frontier deduplicates it.
pub fn hash_url(url: &str) -> (r: u64)
    ensures
        r == identity(url@),
{
    let c = canonical_url(url);
    let cs = chars_of(c.as_str());
    fnv_hash(&cs)
}

} // verus!
