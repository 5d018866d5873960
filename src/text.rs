//! Conversions between strings and character vectors, and character tests.

use vstd::prelude::*;

verus! {

/// Relies on `str::chars` collected into a `Vec`: the characters of `s`, in order.
#[verifier::external_body]
pub(crate) fn chars_of(s: &str) -> (r: Vec<char>)
    ensures
        r@ == s@,
{
    s.chars().collect()
}

/// Relies on `String`'s `FromIterator<char>`: the string of the characters of `v`, in order.
#[verifier::external_body]
pub(crate) fn string_of(v: &Vec<char>) -> (r: String)
    ensures
        r@ == v@,
{
    v.iter().collect()
}

/// ASCII lower-casing of one character; every other character is left as it is.
pub open spec fn lower_char(c: char) -> char {
    if 'A' <= c && c <= 'Z' {
        ((c as u32) + 32) as char
    } else {
        c
    }
}

pub fn fold_char(c: char) -> (r: char)
    ensures
        r == lower_char(c),
{
    if 'A' <= c && c <= 'Z' {
        ((c as u8) + 32) as char
    } else {
        c
    }
}

/// `p` occurs in `s` at offset `i`, comparing ASCII letters without regard to case
/// when `fold` holds.
pub open spec fn chars_at(s: Seq<char>, i: int, p: Seq<char>, fold: bool) -> bool {
    &&& 0 <= i
    &&& i + p.len() <= s.len()
    &&& forall|j: int|
        0 <= j < p.len() ==> #[trigger] char_at(s, i + j, fold) == (if fold {
            lower_char(p[j])
        } else {
            p[j]
        })
}

pub open spec fn char_at(s: Seq<char>, i: int, fold: bool) -> char {
    if fold {
        lower_char(s[i])
    } else {
        s[i]
    }
}

/// `p` occurs somewhere in `s`.
pub open spec fn has_chars(s: Seq<char>, p: Seq<char>, fold: bool) -> bool {
    exists|i: int| #[trigger] chars_at(s, i, p, fold)
}

/// `s` ends with `p`.
pub open spec fn ends_with_chars(s: Seq<char>, p: Seq<char>, fold: bool) -> bool {
    p.len() <= s.len() && chars_at(s, s.len() - p.len(), p, fold)
}

pub fn chars_at_exec(s: &Vec<char>, i: usize, p: &Vec<char>, fold: bool) -> (r: bool)
    ensures
        r == chars_at(s@, i as int, p@, fold),
{
    if i > s.len() || p.len() > s.len() - i {
        return false;
    }
    let mut j: usize = 0;
    while j < p.len()
        invariant
            j <= p.len(),
            i + p.len() <= s.len(),
            forall|k: int|
                0 <= k < j ==> #[trigger] char_at(s@, i + k, fold) == (if fold {
                    lower_char(p@[k])
                } else {
                    p@[k]
                }),
        decreases p.len() - j,
    {
        let (a, b) = if fold {
            (fold_char(s[i + j]), fold_char(p[j]))
        } else {
            (s[i + j], p[j])
        };
        if a != b {
            assert(char_at(s@, i + j, fold) != (if fold {
                lower_char(p@[j as int])
            } else {
                p@[j as int]
            }));
            return false;
        }
        j += 1;
    }
    true
}

pub fn has_chars_exec(s: &Vec<char>, p: &Vec<char>, fold: bool) -> (r: bool)
    ensures
        r == has_chars(s@, p@, fold),
{
    if p.len() > s.len() {
        assert forall|i: int| !chars_at(s@, i, p@, fold) by {}
        return false;
    }
    let last: usize = s.len() - p.len();
    let mut i: usize = 0;
    while i <= last
        invariant
            last == s.len() - p.len(),
            i <= last + 1,
            forall|k: int| 0 <= k < i ==> !#[trigger] chars_at(s@, k, p@, fold),
        decreases last + 1 - i,
    {
        if chars_at_exec(s, i, p, fold) {
            return true;
        }
        i += 1;
    }
    assert forall|k: int| !#[trigger] chars_at(s@, k, p@, fold) by {
        if 0 <= k < i {
        }
    }
    false
}

pub fn ends_with_exec(s: &Vec<char>, p: &Vec<char>, fold: bool) -> (r: bool)
    ensures
        r == ends_with_chars(s@, p@, fold),
{
    if p.len() > s.len() {
        return false;
    }
    chars_at_exec(s, s.len() - p.len(), p, fold)
}


/// Whether two strings hold the same characters.
pub fn same_text(a: &str, b: &str) -> (r: bool)
    ensures
        r == (a@ == b@),
{
    let x = chars_of(a);
    let y = chars_of(b);
    if x.len() != y.len() {
        return false;
    }
    let r = chars_at_exec(&x, 0, &y, false);
    proof {
        if r {
            assert(x@ =~= y@) by {
                assert forall|k: int| 0 <= k < x@.len() implies x@[k] == y@[k] by {
                    assert(char_at(x@, 0 + k, false) == y@[k]);
                }
            }
        } else {
            assert(!chars_at(x@, 0, y@, false));
            if x@ == y@ {
                assert forall|j: int| 0 <= j < y@.len() implies #[trigger] char_at(x@, 0 + j, false)
                    == y@[j] by {}
            }
        }
    }
    r
}

/// Whether `p` occurs in `s`, comparing ASCII letters without regard to case when `fold` holds.
pub fn contains_text(s: &str, p: &str, fold: bool) -> (r: bool)
    ensures
        r == has_chars(s@, p@, fold),
{
    let x = chars_of(s);
    let y = chars_of(p);
    has_chars_exec(&x, &y, fold)
}

/// Whether `s` begins with `p`.
pub fn starts_with_text(s: &str, p: &str) -> (r: bool)
    ensures
        r == chars_at(s@, 0, p@, false),
{
    let x = chars_of(s);
    let y = chars_of(p);
    chars_at_exec(&x, 0, &y, false)
}

/// Unicode `White_Space`, as `char::is_whitespace` documents it.
pub open spec fn is_white(c: char) -> bool {
    let u = c as u32;
    ||| (0x09 <= u && u <= 0x0d)
    ||| u == 0x20
    ||| u == 0x85
    ||| u == 0xa0
    ||| u == 0x1680
    ||| (0x2000 <= u && u <= 0x200a)
    ||| u == 0x2028
    ||| u == 0x2029
    ||| u == 0x202f
    ||| u == 0x205f
    ||| u == 0x3000
}

pub fn white(c: char) -> (r: bool)
    ensures
        r == is_white(c),
{
    let u = c as u32;
    (0x09 <= u && u <= 0x0d) || u == 0x20 || u == 0x85 || u == 0xa0 || u == 0x1680 || (0x2000 <= u
        && u <= 0x200a) || u == 0x2028 || u == 0x2029 || u == 0x202f || u == 0x205f || u == 0x3000
}

/// Whether every character of `s` is whitespace.
pub open spec fn all_white(s: Seq<char>) -> bool {
    forall|i: int| 0 <= i < s.len() ==> is_white(#[trigger] s[i])
}

pub fn is_blank(s: &str) -> (r: bool)
    ensures
        r == all_white(s@),
{
    let x = chars_of(s);
    let mut i: usize = 0;
    while i < x.len()
        invariant
            i <= x.len(),
            x@ == s@,
            forall|k: int| 0 <= k < i ==> is_white(#[trigger] x@[k]),
        decreases x.len() - i,
    {
        if !white(x[i]) {
            return false;
        }
        i += 1;
    }
    true
}

} // verus!
