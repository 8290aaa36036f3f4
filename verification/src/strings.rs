//! Verified string helpers: equality, prefix/suffix tests with ASCII
//! case folding, and decimal rendering of integers.

use vstd::prelude::*;
use vstd::string::*;

verus! {

/// Character-for-character equality of two string slices.
pub fn str_eq(a: &str, b: &str) -> (r: bool)
    ensures
        r == (a@ == b@),
{
    let alen = a.unicode_len();
    let blen = b.unicode_len();
    if alen != blen {
        return false;
    }
    let mut i: usize = 0;
    while i < alen
        invariant
            0 <= i <= alen,
            alen == a@.len(),
            alen == b@.len(),
            forall|k: int| 0 <= k < i ==> a@[k] == b@[k],
        decreases alen - i,
    {
        if a.get_char(i) != b.get_char(i) {
            return false;
        }
        i = i + 1;
    }
    proof {
        assert(a@ =~= b@);
    }
    true
}

/// Whether `c` matches pattern character `p`, where an ASCII upper-case
/// letter also matches its lower-case form.
pub open spec fn char_matches_ci(c: char, p: char) -> bool {
    c == p || (65 <= c as u32 <= 90 && c as u32 + 32 == p as u32)
}

fn char_eq_ci(c: char, p: char) -> (r: bool)
    ensures
        r == char_matches_ci(c, p),
{
    c == p || (65 <= c as u32 && c as u32 <= 90 && c as u32 + 32 == p as u32)
}

/// `name` ends with `suffix`, ignoring ASCII case in `name`; the
/// suffix pattern itself is taken literally.
pub open spec fn spec_ends_with_ci(name: Seq<char>, suffix: Seq<char>) -> bool {
    name.len() >= suffix.len() && forall|k: int|
        0 <= k < suffix.len() ==> char_matches_ci(
            name[name.len() - suffix.len() + k],
            suffix[k],
        )
}

pub fn ends_with_ci(name: &str, suffix: &str) -> (r: bool)
    ensures
        r == spec_ends_with_ci(name@, suffix@),
{
    let nlen = name.unicode_len();
    let slen = suffix.unicode_len();
    if nlen < slen {
        return false;
    }
    let off = nlen - slen;
    let mut k: usize = 0;
    while k < slen
        invariant
            0 <= k <= slen,
            nlen == name@.len(),
            slen == suffix@.len(),
            off == nlen - slen,
            forall|m: int| 0 <= m < k ==> char_matches_ci(name@[off + m], suffix@[m]),
        decreases slen - k,
    {
        if !char_eq_ci(name.get_char(off + k), suffix.get_char(k)) {
            return false;
        }
        k = k + 1;
    }
    true
}

/// `name` starts with `prefix`, compared exactly.
pub open spec fn spec_starts_with(name: Seq<char>, prefix: Seq<char>) -> bool {
    name.len() >= prefix.len() && forall|k: int| 0 <= k < prefix.len() ==> name[k] == prefix[k]
}

pub fn starts_with_str(name: &str, prefix: &str) -> (r: bool)
    ensures
        r == spec_starts_with(name@, prefix@),
{
    let nlen = name.unicode_len();
    let plen = prefix.unicode_len();
    if nlen < plen {
        return false;
    }
    let mut k: usize = 0;
    while k < plen
        invariant
            0 <= k <= plen,
            plen <= nlen,
            nlen == name@.len(),
            plen == prefix@.len(),
            forall|m: int| 0 <= m < k ==> name@[m] == prefix@[m],
        decreases plen - k,
    {
        if name.get_char(k) != prefix.get_char(k) {
            return false;
        }
        k = k + 1;
    }
    true
}

/// `name` ends with `suffix`, compared exactly.
pub open spec fn spec_ends_with(name: Seq<char>, suffix: Seq<char>) -> bool {
    name.len() >= suffix.len() && forall|k: int|
        0 <= k < suffix.len() ==> name[name.len() - suffix.len() + k] == suffix[k]
}

pub fn ends_with_str(name: &str, suffix: &str) -> (r: bool)
    ensures
        r == spec_ends_with(name@, suffix@),
{
    let nlen = name.unicode_len();
    let slen = suffix.unicode_len();
    if nlen < slen {
        return false;
    }
    let off = nlen - slen;
    let mut k: usize = 0;
    while k < slen
        invariant
            0 <= k <= slen,
            nlen == name@.len(),
            slen == suffix@.len(),
            off == nlen - slen,
            forall|m: int| 0 <= m < k ==> name@[off + m] == suffix@[m],
        decreases slen - k,
    {
        if name.get_char(off + k) != suffix.get_char(k) {
            return false;
        }
        k = k + 1;
    }
    true
}

/// The character for one decimal digit.
pub open spec fn dec_digit_char(d: int) -> char {
    if d == 0 {
        '0'
    } else if d == 1 {
        '1'
    } else if d == 2 {
        '2'
    } else if d == 3 {
        '3'
    } else if d == 4 {
        '4'
    } else if d == 5 {
        '5'
    } else if d == 6 {
        '6'
    } else if d == 7 {
        '7'
    } else if d == 8 {
        '8'
    } else {
        '9'
    }
}

/// Decimal rendering of a non-negative integer, most significant digit
/// first, with no leading zeros (a lone zero for 0).
pub open spec fn spec_dec(n: int) -> Seq<char>
    decreases n,
{
    if n < 10 {
        seq![dec_digit_char(n)]
    } else {
        spec_dec(n / 10).push(dec_digit_char(n % 10))
    }
}

fn digit_str(d: u64) -> (r: &'static str)
    requires
        d < 10,
    ensures
        r@ == seq![dec_digit_char(d as int)],
{
    proof {
        reveal_strlit("0");
        reveal_strlit("1");
        reveal_strlit("2");
        reveal_strlit("3");
        reveal_strlit("4");
        reveal_strlit("5");
        reveal_strlit("6");
        reveal_strlit("7");
        reveal_strlit("8");
        reveal_strlit("9");
    }
    let r = if d == 0 {
        "0"
    } else if d == 1 {
        "1"
    } else if d == 2 {
        "2"
    } else if d == 3 {
        "3"
    } else if d == 4 {
        "4"
    } else if d == 5 {
        "5"
    } else if d == 6 {
        "6"
    } else if d == 7 {
        "7"
    } else if d == 8 {
        "8"
    } else {
        "9"
    };
    proof {
        assert(r@ =~= seq![dec_digit_char(d as int)]);
    }
    r
}

/// Decimal rendering of `n`.
pub fn u64_to_string(n: u64) -> (s: String)
    ensures
        s@ == spec_dec(n as int),
    decreases n,
{
    if n < 10 {
        String::from_str(digit_str(n))
    } else {
        let prefix = u64_to_string(n / 10);
        prefix.concat(digit_str(n % 10))
    }
}

/// Concatenation of two string slices.
pub fn concat_str(a: &str, b: &str) -> (s: String)
    ensures
        s@ == a@ + b@,
{
    String::from_str(a).concat(b)
}

} // verus!
