//! Small helpers: readable byte sizes, excluded domains, file extensions, drive names.

use vstd::prelude::*;
use crate::filename::{file_name, file_name_of};
use crate::outside::{lowercase, lowercase_of, opt_string_view};
use crate::text::{chars_of, contains_text, has_chars, string_of};

verus! {

/// The character of decimal digit `d`.
pub open spec fn digit_char(d: u8) -> char {
    ((d + 48) as u8) as char
}

/// The decimal digits of `n`, most significant first.
pub open spec fn decimal(n: nat) -> Seq<char>
    decreases n,
{
    if n < 10 {
        seq![digit_char(n as u8)]
    } else {
        decimal(n / 10).push(digit_char((n % 10) as u8))
    }
}

fn push_decimal(n: u128, out: &mut Vec<char>)
    ensures
        final(out)@ == old(out)@ + decimal(n as nat),
    decreases n,
{
    if n >= 10 {
        push_decimal(n / 10, out);
    }
    let d: u8 = (n % 10) as u8;
    out.push((d + 48) as char);
    proof {
        if n >= 10 {
            assert(decimal(n as nat) == decimal((n / 10) as nat).push(digit_char(d)));
        }
    }
}

/// `n / d` rounded to the nearest integer, ties to even.
pub open spec fn round_half_even(n: nat, d: nat) -> nat
    recommends
        d > 0,
{
    let q = n / d;
    let r = n % d;
    if 2 * r > d || (2 * r == d && q % 2 == 1) {
        q + 1
    } else {
        q
    }
}

pub const KIB: u64 = 1024;

pub const MIB: u64 = 1_048_576;

/// `bytes` in tenths of `unit`, rounded to the nearest tenth, ties to even.
pub open spec fn tenths(bytes: u64, unit: u64) -> nat {
    round_half_even(bytes as nat * 10, unit as nat)
}

pub open spec fn with_tenths(t: nat, suffix: Seq<char>) -> Seq<char> {
    decimal(t / 10) + seq!['.'] + decimal(t % 10) + suffix
}

/// A readable size: `MB` above one mebibyte, `KB` above one kibibyte, with
/// one decimal; bytes otherwise.
pub open spec fn readable_size(bytes: u64) -> Seq<char> {
    if bytes > MIB {
        with_tenths(tenths(bytes, MIB), " MB"@)
    } else if bytes > KIB {
        with_tenths(tenths(bytes, KIB), " KB"@)
    } else {
        decimal(bytes as nat) + " B"@
    }
}

fn tenths_of(bytes: u64, unit: u64) -> (r: u128)
    requires
        unit > 0,
    ensures
        r == tenths(bytes, unit),
{
    let n: u128 = (bytes as u128) * 10;
    let u: u128 = unit as u128;
    let q = n / u;
    let rem = n % u;
    if 2 * rem > u || (2 * rem == u && q % 2 == 1) {
        q + 1
    } else {
        q
    }
}

fn append_str(out: &mut Vec<char>, s: &str)
    ensures
        final(out)@ == old(out)@ + s@,
{
    let cs = chars_of(s);
    let mut i: usize = 0;
    let ghost start = out@;
    while i < cs.len()
        invariant
            i <= cs.len(),
            cs@ == s@,
            out@ =~= start + cs@.subrange(0, i as int),
        decreases cs.len() - i,
    {
        out.push(cs[i]);
        i += 1;
    }
    assert(cs@.subrange(0, cs.len() as int) =~= cs@);
}

/// A readable form of a byte count.
pub fn human_bytes(bytes: u64) -> (r: String)
    ensures
        r@ == readable_size(bytes),
{
    let mut out: Vec<char> = Vec::new();
    if bytes > KIB {
        let (t, suffix) = if bytes > MIB {
            (tenths_of(bytes, MIB), " MB")
        } else {
            (tenths_of(bytes, KIB), " KB")
        };
        push_decimal(t / 10, &mut out);
        out.push('.');
        push_decimal(t % 10, &mut out);
        append_str(&mut out, suffix);
        assert(out@ =~= with_tenths(t as nat, suffix@));
    } else {
        push_decimal(bytes as u128, &mut out);
        append_str(&mut out, " B");
        assert(out@ =~= decimal(bytes as nat) + " B"@);
    }
    string_of(&out)
}

/// Domains that the domain crawler never visits.
pub open spec fn excluded_domain(url: Seq<char>) -> bool {
    ||| has_chars(url, "facebook"@, false)
    ||| has_chars(url, "youtube"@, false)
    ||| has_chars(url, "linkedin"@, false)
    ||| has_chars(url, "instagram"@, false)
    ||| has_chars(url, "flickr"@, false)
    ||| has_chars(url, "bloomberg"@, false)
    ||| has_chars(url, "pintrest"@, false)
    ||| has_chars(url, "amazonaws"@, false)
}

/// Whether `url` names an excluded domain.
pub fn should_exclude_domain(url: &str) -> (r: bool)
    ensures
        r == excluded_domain(url@),
{
    contains_text(url, "facebook", false) || contains_text(url, "youtube", false)
        || contains_text(url, "linkedin", false) || contains_text(url, "instagram", false)
        || contains_text(url, "flickr", false) || contains_text(url, "bloomberg", false)
        || contains_text(url, "pintrest", false) || contains_text(url, "amazonaws", false)
}

/// The index of the last `.` of `s`, or -1.
pub open spec fn last_dot(s: Seq<char>) -> int
    decreases s.len(),
{
    if s.len() == 0 {
        -1
    } else if s.last() == '.' {
        s.len() - 1
    } else {
        last_dot(s.drop_last())
    }
}

/// The extension of a file name: what follows its last `.`, unless it has
/// none or its only `.` is the first character.
pub open spec fn extension_of(name: Seq<char>) -> Option<Seq<char>> {
    let k = last_dot(name);
    if k <= 0 {
        None
    } else {
        Some(name.subrange(k + 1, name.len() as int))
    }
}

/// The extension of the file that `path` names, as written.
pub open spec fn path_raw_extension(path: Seq<char>) -> Option<Seq<char>> {
    match file_name_of(path) {
        Some(n) => extension_of(n),
        None => None,
    }
}

/// The lower-cased extension of the file that `path` names.
pub open spec fn path_extension(path: Seq<char>) -> Option<Seq<char>> {
    match path_raw_extension(path) {
        Some(e) => Some(lowercase_of(e)),
        None => None,
    }
}

/// The lower-cased extension of the file that `path` names.
pub fn get_extension(path: &str) -> (r: Option<String>)
    ensures
        opt_string_view(r) == path_extension(path@),
{
    match raw_extension(path) {
        Some(e) => Some(lowercase(e.as_str())),
        None => None,
    }
}

/// The extension of the file that `path` names, in its own case.
pub fn raw_extension(path: &str) -> (r: Option<String>)
    ensures
        opt_string_view(r) == path_raw_extension(path@),
{
    let name = match file_name(path) {
        Some(n) => n,
        None => return None,
    };
    let cs = chars_of(name.as_str());
    let mut k: usize = cs.len();
    assert(cs@.subrange(0, k as int) =~= cs@);
    while k > 0 && cs[k - 1] != '.'
        invariant
            k <= cs.len(),
            cs@ == name@,
            last_dot(cs@) == last_dot(cs@.subrange(0, k as int)),
        decreases k,
    {
        assert(cs@.subrange(0, k as int).drop_last() =~= cs@.subrange(0, k as int - 1));
        k -= 1;
    }
    proof {
        if k == 0 {
            assert(cs@.subrange(0, 0) =~= Seq::<char>::empty());
        } else {
            assert(cs@.subrange(0, k as int).last() == '.');
        }
    }
    if k <= 1 {
        return None;
    }
    let mut ext: Vec<char> = Vec::new();
    let mut i: usize = k;
    while i < cs.len()
        invariant
            k <= i <= cs.len(),
            ext@ =~= cs@.subrange(k as int, i as int),
        decreases cs.len() - i,
    {
        ext.push(cs[i]);
        i += 1;
    }
    Some(string_of(&ext))
}

/// The drive name of letter `i` (`A:` for 0).
pub open spec fn drive_name(i: int) -> Seq<char> {
    seq![((65 + i) as u8) as char, ':']
}

/// The names of the drives among `A:` to `Z:` whose flag in `present` is set.
pub open spec fn drives_among(present: Seq<bool>, n: int) -> Seq<Seq<char>>
    decreases n,
{
    if n <= 0 {
        Seq::empty()
    } else {
        let rest = drives_among(present, n - 1);
        if n - 1 < present.len() && present[n - 1] {
            rest.push(drive_name(n - 1))
        } else {
            rest
        }
    }
}

/// The drives `A:` to `Z:` that exist, given whether each one does.
pub fn get_drives(present: &[bool]) -> (r: Vec<String>)
    ensures
        r@.map_values(|s: String| s@) == drives_among(present@, 26),
{
    let mut out: Vec<String> = Vec::new();
    let mut i: usize = 0;
    while i < 26
        invariant
            i <= 26,
            out@.map_values(|s: String| s@) == drives_among(present@, i as int),
        decreases 26 - i,
    {
        if i < present.len() && present[i] {
            let letter: u8 = 65 + i as u8;
            let name = vec![letter as char, ':'];
            let s = string_of(&name);
            let ghost before = out@;
            out.push(s);
            assert(out@.map_values(|s: String| s@) =~= before.map_values(|s: String| s@).push(
                drive_name(i as int),
            ));
        }
        i += 1;
    }
    out
}

} // verus!
