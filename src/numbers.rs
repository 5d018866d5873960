//! Reading unsigned integers written in decimal, as header values carry them.

use vstd::prelude::*;

verus! {

pub open spec fn is_digit_char(c: char) -> bool {
    '0' <= c && c <= '9'
}

/// The value of a string of decimal digits.
pub open spec fn digits_value(s: Seq<char>) -> nat
    decreases s.len(),
{
    if s.len() == 0 {
        0
    } else {
        digits_value(s.drop_last()) * 10 + ((s.last() as u32) - 48) as nat
    }
}

/// `s` without one leading `+`.
pub open spec fn unsigned_body(s: Seq<char>) -> Seq<char> {
    if s.len() > 0 && s[0] == '+' {
        s.drop_first()
    } else {
        s
    }
}

/// The `u64` that `s` writes: an optional `+`, then one or more decimal
/// digits, of a value that fits.
pub open spec fn parsed_u64(s: Seq<char>) -> Option<u64> {
    let b = unsigned_body(s);
    if b.len() > 0 && (forall|i: int| 0 <= i < b.len() ==> is_digit_char(#[trigger] b[i]))
        && digits_value(b) <= u64::MAX {
        Some(digits_value(b) as u64)
    } else {
        None
    }
}

proof fn lemma_digits_grow(s: Seq<char>, k: int)
    requires
        0 <= k <= s.len(),
        forall|i: int| 0 <= i < s.len() ==> is_digit_char(#[trigger] s[i]),
    ensures
        digits_value(s.subrange(0, k)) <= digits_value(s),
    decreases s.len() - k,
{
    if k < s.len() {
        lemma_digits_grow(s, k + 1);
        let p = s.subrange(0, k + 1);
        assert(p.drop_last() =~= s.subrange(0, k));
    } else {
        assert(s.subrange(0, k) =~= s);
    }
}

/// Reads a `u64` written in decimal.
pub fn parse_u64(s: &Vec<char>) -> (r: Option<u64>)
    ensures
        r == parsed_u64(s@),
{
    let start: usize = if s.len() > 0 && s[0] == '+' {
        1
    } else {
        0
    };
    let ghost b = unsigned_body(s@);
    assert(b =~= s@.subrange(start as int, s@.len() as int));
    if start >= s.len() {
        return None;
    }
    let mut acc: u128 = 0;
    let mut i: usize = start;
    while i < s.len()
        invariant
            start <= i <= s.len(),
            b =~= s@.subrange(start as int, s@.len() as int),
            b == unsigned_body(s@),
            acc == digits_value(b.subrange(0, i - start)),
            acc <= u64::MAX,
            forall|k: int| 0 <= k < i - start ==> is_digit_char(#[trigger] b[k]),
        decreases s.len() - i,
    {
        let c = s[i];
        if !('0' <= c && c <= '9') {
            assert(!is_digit_char(b[i - start]));
            assert(!(forall|k: int| 0 <= k < b.len() ==> is_digit_char(#[trigger] b[k])));
            return None;
        }
        let ghost p = b.subrange(0, i - start + 1);
        assert(p.drop_last() =~= b.subrange(0, i - start));
        assert(p.last() == c);
        acc = acc * 10 + ((c as u32) - 48) as u128;
        assert(acc == digits_value(p));
        if acc > 0xFFFF_FFFF_FFFF_FFFF {
            proof {
                if forall|k: int| 0 <= k < b.len() ==> is_digit_char(#[trigger] b[k]) {
                    lemma_digits_grow(b, i - start + 1);
                }
            }
            return None;
        }
        i += 1;
    }
    assert(b.subrange(0, b.len() as int) =~= b);
    Some(acc as u64)
}

} // verus!
