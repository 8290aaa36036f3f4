//! Human-readable formatting of byte counts and paths.

use vstd::prelude::*;
use vstd::string::*;
use crate::strings::{spec_dec, spec_starts_with, u64_to_string, str_eq, starts_with_str,
    concat_str, dec_digit_char, ends_with_str};

verus! {

/// An integer clamped into u64.
pub open spec fn clamp_u64(x: int) -> u64 {
    if x > u64::MAX {
        u64::MAX
    } else if x < 0 {
        0
    } else {
        x as u64
    }
}

/// An integer clamped into usize.
pub open spec fn clamp_usize(x: int) -> usize {
    if x > usize::MAX {
        usize::MAX
    } else if x < 0 {
        0
    } else {
        x as usize
    }
}

/// Scale `bytes` by 100/divisor, rounding half up: the two-decimal
/// fixed-point value shown for this unit.
pub open spec fn scaled_hundredths(bytes: u64, divisor: u64) -> int {
    (bytes * 100 + divisor / 2) / divisor as int
}

/// "W.FF" where W is the whole part and FF the two-digit fraction.
pub open spec fn spec_two_decimals(bytes: u64, divisor: u64) -> Seq<char> {
    let scaled = scaled_hundredths(bytes, divisor);
    spec_dec(scaled / 100) + seq!['.'] + seq![
        dec_digit_char((scaled % 100) / 10),
        dec_digit_char(scaled % 10),
    ]
}

/// The displayed form of a byte count: two decimals of the largest
/// fitting binary unit, or plain bytes below 1 KB.
pub open spec fn spec_format_size(bytes: u64) -> Seq<char> {
    if bytes >= 1_073_741_824 {
        spec_two_decimals(bytes, 1_073_741_824) + " GB"@
    } else if bytes >= 1_048_576 {
        spec_two_decimals(bytes, 1_048_576) + " MB"@
    } else if bytes >= 1_024 {
        spec_two_decimals(bytes, 1_024) + " KB"@
    } else {
        spec_dec(bytes as int) + " B"@
    }
}

/// Render the two-decimal form for one unit.
fn two_decimals(bytes: u64, divisor: u64) -> (s: String)
    requires
        divisor == 1_073_741_824 || divisor == 1_048_576 || divisor == 1_024,
    ensures
        s@ == spec_two_decimals(bytes, divisor),
{
    let wide: u128 = (bytes as u128) * 100 + (divisor / 2) as u128;
    let scaled: u64 = (wide / (divisor as u128)) as u64;
    proof {
        assert(wide / (divisor as u128) <= wide / 1024) by (nonlinear_arith)
            requires
                divisor >= 1024,
                wide >= 0,
        ;
        assert(scaled == scaled_hundredths(bytes, divisor));
    }
    let whole = u64_to_string(scaled / 100);
    let frac_tens = digit_of((scaled % 100) / 10);
    let frac_ones = digit_of(scaled % 10);
    let mut s = whole.concat(".");
    proof {
        reveal_strlit(".");
        assert(s@ =~= spec_dec((scaled / 100) as int) + seq!['.']);
    }
    let s = s.concat(frac_tens).concat(frac_ones);
    proof {
        assert(s@ =~= spec_two_decimals(bytes, divisor));
    }
    s
}

/// The single character of one decimal digit, as a string slice.
fn digit_of(d: u64) -> (r: &'static str)
    requires
        d < 10,
    ensures
        r@ == seq![dec_digit_char(d as int)],
{
    proof {
        reveal_strlit("0");
        reveal_strlit("1");
        reveal_strlit("2");
        reveal_strlit("3");
        reveal_strlit("4");
        reveal_strlit("5");
        reveal_strlit("6");
        reveal_strlit("7");
        reveal_strlit("8");
        reveal_strlit("9");
    }
    let r = if d == 0 {
        "0"
    } else if d == 1 {
        "1"
    } else if d == 2 {
        "2"
    } else if d == 3 {
        "3"
    } else if d == 4 {
        "4"
    } else if d == 5 {
        "5"
    } else if d == 6 {
        "6"
    } else if d == 7 {
        "7"
    } else if d == 8 {
        "8"
    } else {
        "9"
    };
    proof {
        assert(r@ =~= seq![dec_digit_char(d as int)]);
    }
    r
}

/// Format a byte count as a human-readable string ("1.50 GB").
pub fn format_size(bytes: u64) -> (s: String)
    ensures
        s@ == spec_format_size(bytes),
{
    if bytes >= 1_073_741_824 {
        two_decimals(bytes, 1_073_741_824).concat(" GB")
    } else if bytes >= 1_048_576 {
        two_decimals(bytes, 1_048_576).concat(" MB")
    } else if bytes >= 1_024 {
        two_decimals(bytes, 1_024).concat(" KB")
    } else {
        u64_to_string(bytes).concat(" B")
    }
}

/// The displayed form of a path: the home directory prefix replaced
/// by `~`, other paths unchanged.
pub open spec fn spec_display_path(path: Seq<char>, home: Seq<char>) -> Seq<char> {
    if path == home {
        "~/"@
    } else if spec_starts_with(path, home + "/"@) {
        "~"@ + path.skip(home.len() as int)
    } else {
        path
    }
}

/// Shorten a path for display by replacing the home directory with
/// `~`.
pub fn display_path(path: &str, home: &str) -> (s: String)
    ensures
        s@ == spec_display_path(path@, home@),
{
    if str_eq(path, home) {
        return String::from_str("~/");
    }
    let prefix = concat_str(home, "/");
    if starts_with_str(path, prefix.as_str()) {
        let hl = home.unicode_len();
        let pl = path.unicode_len();
        let rest = path.substring_char(hl, pl);
        let s = concat_str("~", rest);
        proof {
            assert(rest@ =~= path@.skip(home@.len() as int));
        }
        s
    } else {
        String::from_str(path)
    }
}

/// A whitespace character, for trimming.
pub open spec fn is_space_char(c: char) -> bool {
    c == ' ' || c == '\t' || c == '\n' || c == '\r'
}

/// The sequence with leading whitespace removed.
pub open spec fn spec_trim_front(s: Seq<char>) -> Seq<char>
    decreases s.len(),
{
    if s.len() > 0 && is_space_char(s[0]) {
        spec_trim_front(s.drop_first())
    } else {
        s
    }
}

/// The sequence with trailing whitespace removed.
pub open spec fn spec_trim_back(s: Seq<char>) -> Seq<char>
    decreases s.len(),
{
    if s.len() > 0 && is_space_char(s.last()) {
        spec_trim_back(s.drop_last())
    } else {
        s
    }
}

/// The sequence with surrounding whitespace removed.
pub open spec fn spec_trim(s: Seq<char>) -> Seq<char> {
    spec_trim_back(spec_trim_front(s))
}

proof fn lemma_trim_front_skip(s: Seq<char>, i: int)
    requires
        0 <= i <= s.len(),
        forall|k: int| 0 <= k < i ==> is_space_char(s[k]),
        i == s.len() || !is_space_char(s[i]),
    ensures
        spec_trim_front(s) == s.skip(i),
    decreases i,
{
    if i == 0 {
        assert(s.skip(0) =~= s);
    } else {
        lemma_trim_front_skip(s.drop_first(), i - 1);
        assert(s.drop_first().skip(i - 1) =~= s.skip(i));
    }
}

proof fn lemma_trim_back_take(s: Seq<char>, j: int)
    requires
        0 <= j <= s.len(),
        forall|k: int| j <= k < s.len() ==> is_space_char(s[k]),
        j == 0 || !is_space_char(s[j - 1]),
    ensures
        spec_trim_back(s) == s.take(j),
    decreases s.len() - j,
{
    if j == s.len() {
        assert(s.take(j) =~= s);
    } else {
        lemma_trim_back_take(s.drop_last(), j);
        assert(s.drop_last().take(j) =~= s.take(j));
    }
}

fn exec_is_space(c: char) -> (r: bool)
    ensures
        r == is_space_char(c),
{
    c == ' ' || c == '\t' || c == '\n' || c == '\r'
}

/// Remove surrounding whitespace.
pub fn trim_str(s: &str) -> (r: String)
    ensures
        r@ == spec_trim(s@),
{
    let n = s.unicode_len();
    let mut i: usize = 0;
    while i < n && exec_is_space(s.get_char(i))
        invariant
            0 <= i <= n,
            n == s@.len(),
            forall|k: int| 0 <= k < i ==> is_space_char(s@[k]),
        decreases n - i,
    {
        i = i + 1;
    }
    let mut j: usize = n;
    while j > i && exec_is_space(s.get_char(j - 1))
        invariant
            i <= j <= n,
            n == s@.len(),
            forall|k: int| 0 <= k < i ==> is_space_char(s@[k]),
            forall|k: int| j <= k < n ==> is_space_char(s@[k]),
        decreases j,
    {
        j = j - 1;
    }
    let r = String::from_str(s.substring_char(i, j));
    proof {
        lemma_trim_front_skip(s@, i as int);
        let u = s@.skip(i as int);
        if j == i {
            lemma_trim_back_take(u, 0);
        } else {
            assert(u[j - i - 1] == s@[j - 1]);
            assert(forall|k: int| j - i <= k < u.len() ==> is_space_char(u[k]));
            lemma_trim_back_take(u, j - i);
        }
        assert(u.take(j - i) =~= s@.subrange(i as int, j as int));
    }
    r
}

/// How many characters the recognized unit suffix occupies.
pub open spec fn spec_suffix_strip(t: Seq<char>) -> int {
    if crate::strings::spec_ends_with(t, "GB"@) || crate::strings::spec_ends_with(t, "gb"@)
        || crate::strings::spec_ends_with(t, "MB"@) || crate::strings::spec_ends_with(t, "mb"@)
        || crate::strings::spec_ends_with(t, "KB"@) || crate::strings::spec_ends_with(t, "kb"@) {
        2
    } else if crate::strings::spec_ends_with(t, "B"@) || crate::strings::spec_ends_with(t, "b"@) {
        1
    } else {
        0
    }
}

/// The byte multiplier of the recognized unit suffix.
pub open spec fn spec_suffix_mult(t: Seq<char>) -> int {
    if crate::strings::spec_ends_with(t, "GB"@) || crate::strings::spec_ends_with(t, "gb"@) {
        1_073_741_824
    } else if crate::strings::spec_ends_with(t, "MB"@) || crate::strings::spec_ends_with(t, "mb"@) {
        1_048_576
    } else if crate::strings::spec_ends_with(t, "KB"@) || crate::strings::spec_ends_with(t, "kb"@) {
        1_024
    } else {
        1
    }
}

/// Every character is a decimal digit.
pub open spec fn all_digits(s: Seq<char>) -> bool {
    forall|k: int| 0 <= k < s.len() ==> 48 <= (#[trigger] s[k]) as u32 <= 57
}

/// The value of a digit string, most significant first.
pub open spec fn digits_val(s: Seq<char>) -> int
    decreases s.len(),
{
    if s.len() == 0 {
        0
    } else {
        digits_val(s.drop_last()) * 10 + (s.last() as u32 - 48)
    }
}

/// Powers of ten.
pub open spec fn pow10(n: int) -> int
    decreases n,
{
    if n <= 0 {
        1
    } else {
        10 * pow10(n - 1)
    }
}

proof fn lemma_digits_val_bound(s: Seq<char>)
    requires
        all_digits(s),
    ensures
        0 <= digits_val(s) < pow10(s.len() as int),
    decreases s.len(),
{
    if s.len() > 0 {
        assert(all_digits(s.drop_last())) by {
            assert(forall|k: int| 0 <= k < s.len() - 1 ==> s.drop_last()[k] == s[k]);
        }
        lemma_digits_val_bound(s.drop_last());
    }
}

proof fn lemma_pow10_pos(a: int)
    ensures
        pow10(a) >= 1,
    decreases a,
{
    if a > 0 {
        lemma_pow10_pos(a - 1);
    }
}

proof fn lemma_pow10_mono(a: int, b: int)
    requires
        a <= b,
    ensures
        pow10(a) <= pow10(b),
        pow10(a) >= 1,
    decreases b - a,
{
    lemma_pow10_pos(a);
    if a < b {
        lemma_pow10_mono(a, b - 1);
        lemma_pow10_pos(b - 1);
    }
}

proof fn lemma_first_dot_ge(s: Seq<char>, i: int)
    requires
        0 <= i <= s.len(),
    ensures
        i <= spec_first_dot(s, i) <= s.len(),
    decreases s.len() - i,
{
    if i < s.len() && s[i] != '.' {
        lemma_first_dot_ge(s, i + 1);
    }
}

/// The position of the first `.`, or the length when none.
pub open spec fn spec_first_dot(s: Seq<char>, i: int) -> int
    decreases s.len() - i,
{
    if i < 0 || i >= s.len() {
        s.len() as int
    } else if s[i] == '.' {
        i
    } else {
        spec_first_dot(s, i + 1)
    }
}

fn first_dot(s: &str) -> (r: usize)
    ensures
        r == spec_first_dot(s@, 0),
        r <= s@.len(),
{
    let n = s.unicode_len();
    let mut i: usize = 0;
    while i < n
        invariant
            0 <= i <= n,
            n == s@.len(),
            spec_first_dot(s@, 0) == spec_first_dot(s@, i as int),
            forall|k: int| 0 <= k < i ==> s@[k] != '.',
        decreases n - i,
    {
        if s.get_char(i) == '.' {
            return i;
        }
        i = i + 1;
    }
    i
}

/// The whole digits of a plain decimal: up to the first dot.
pub open spec fn spec_whole_part(u: Seq<char>) -> Seq<char> {
    u.take(spec_first_dot(u, 0))
}

/// The fraction digits of a plain decimal: after the first dot.
pub open spec fn spec_frac_part(u: Seq<char>) -> Seq<char> {
    if spec_first_dot(u, 0) < u.len() {
        u.skip(spec_first_dot(u, 0) + 1)
    } else {
        Seq::empty()
    }
}

/// A valid unsigned decimal: digits, at most one dot, and at least
/// one digit somewhere.
pub open spec fn spec_valid_number_body(u: Seq<char>) -> bool {
    &&& all_digits(spec_whole_part(u))
    &&& all_digits(spec_frac_part(u))
    &&& spec_whole_part(u).len() + spec_frac_part(u).len() > 0
}

/// The fraction digits that contribute to the value: everything past
/// the ninth is below the resolution of a one-byte unit and ignored.
pub open spec fn spec_frac_used(u: Seq<char>) -> Seq<char> {
    if spec_frac_part(u).len() > 9 {
        spec_frac_part(u).take(9)
    } else {
        spec_frac_part(u)
    }
}

/// The byte value of a decimal with a unit multiplier, truncated to
/// whole bytes.
pub open spec fn spec_number_value(u: Seq<char>, mult: int) -> int {
    digits_val(spec_whole_part(u)) * mult + digits_val(spec_frac_used(u)) * mult / pow10(
        spec_frac_used(u).len() as int,
    )
}

proof fn lemma_digits_take_succ(s: Seq<char>, i: int)
    requires
        0 <= i < s.len(),
    ensures
        digits_val(s.take(i + 1)) == digits_val(s.take(i)) * 10 + (s[i] as u32 - 48),
{
    assert(s.take(i + 1).drop_last() =~= s.take(i));
    assert(s.take(i + 1).last() == s[i]);
}

/// One power of ten, for the fraction scale.
fn pow10_u64(k: usize) -> (r: u64)
    requires
        k <= 9,
    ensures
        r == pow10(k as int),
{
    proof {
        reveal_with_fuel(pow10, 11);
    }
    if k == 0 {
        1
    } else if k == 1 {
        10
    } else if k == 2 {
        100
    } else if k == 3 {
        1000
    } else if k == 4 {
        10000
    } else if k == 5 {
        100000
    } else if k == 6 {
        1000000
    } else if k == 7 {
        10000000
    } else if k == 8 {
        100000000
    } else {
        1000000000
    }
}

/// Parse an unsigned decimal and scale it by the unit multiplier;
/// nothing when the text is not a valid decimal. Values beyond the
/// range of u64 saturate.
fn parse_number_value(body: &str, mult: u64) -> (r: Option<u64>)
    requires
        mult == 1 || mult == 1_024 || mult == 1_048_576 || mult == 1_073_741_824,
    ensures
        (r is Some) == spec_valid_number_body(body@),
        r matches Some(v) ==> v == clamp_u64(spec_number_value(body@, mult as int)),
{
    let n = body.unicode_len();
    let dot = first_dot(body);
    // validate the digits around the dot
    let mut k: usize = 0;
    while k < dot
        invariant
            0 <= k <= dot,
            dot <= n,
            n == body@.len(),
            dot == spec_first_dot(body@, 0),
            forall|m: int| 0 <= m < k ==> 48 <= (#[trigger] body@[m]) as u32 <= 57,
        decreases dot - k,
    {
        let c = body.get_char(k);
        if !(48 <= c as u32 && c as u32 <= 57) {
            proof {
                assert(!all_digits(spec_whole_part(body@))) by {
                    assert(spec_whole_part(body@)[k as int] == body@[k as int]);
                }
            }
            return None;
        }
        k = k + 1;
    }
    let frac_start = if dot < n {
        dot + 1
    } else {
        n
    };
    let mut k2: usize = frac_start;
    while k2 < n
        invariant
            frac_start <= k2 <= n,
            n == body@.len(),
            dot == spec_first_dot(body@, 0),
            dot <= n,
            frac_start == if dot < n {
                dot + 1
            } else {
                n as int
            },
            forall|m: int| frac_start <= m < k2 ==> 48 <= (#[trigger] body@[m]) as u32 <= 57,
        decreases n - k2,
    {
        let c = body.get_char(k2);
        if !(48 <= c as u32 && c as u32 <= 57) {
            proof {
                assert(!all_digits(spec_frac_part(body@))) by {
                    assert(spec_frac_part(body@)[k2 - frac_start] == body@[k2 as int]);
                }
            }
            return None;
        }
        k2 = k2 + 1;
    }
    proof {
        assert(all_digits(spec_whole_part(body@))) by {
            assert(forall|m: int|
                0 <= m < spec_whole_part(body@).len() ==> spec_whole_part(body@)[m] == body@[m]);
        }
        assert(all_digits(spec_frac_part(body@))) by {
            assert(forall|m: int|
                0 <= m < spec_frac_part(body@).len() ==> spec_frac_part(body@)[m] == body@[m
                    + frac_start]);
        }
    }
    if dot == 0 && frac_start >= n {
        proof {
            assert(spec_whole_part(body@).len() == 0);
            assert(spec_frac_part(body@).len() == 0);
        }
        return None;
    }
    proof {
        assert(spec_whole_part(body@).len() + spec_frac_part(body@).len() > 0);
    }
    // whole part, clamped at 2^64
    let ghost whole_digits = spec_whole_part(body@);
    let mut whole: u128 = 0;
    let mut i: usize = 0;
    proof {
        assert(whole_digits.take(0) =~= Seq::<char>::empty());
    }
    while i < dot
        invariant
            0 <= i <= dot,
            dot <= n,
            n == body@.len(),
            dot == spec_first_dot(body@, 0),
            whole_digits == spec_whole_part(body@),
            all_digits(whole_digits),
            whole_digits.len() == dot,
            forall|m: int| 0 <= m < dot ==> whole_digits[m] == body@[m],
            whole as int == if digits_val(whole_digits.take(i as int)) <= 0x1_0000_0000_0000_0000
                {
                digits_val(whole_digits.take(i as int))
            } else {
                0x1_0000_0000_0000_0000
            },
        decreases dot - i,
    {
        proof {
            lemma_digits_take_succ(whole_digits, i as int);
            assert(all_digits(whole_digits.take(i as int))) by {
                assert(forall|m: int|
                    0 <= m < i ==> whole_digits.take(i as int)[m] == whole_digits[m]);
            }
            lemma_digits_val_bound(whole_digits.take(i as int));
        }
        let c = body.get_char(i);
        let d: u128 = (c as u32 - 48) as u128;
        if whole >= 0x1_0000_0000_0000_0000 {
            whole = 0x1_0000_0000_0000_0000;
        } else {
            whole = whole * 10 + d;
            if whole > 0x1_0000_0000_0000_0000 {
                whole = 0x1_0000_0000_0000_0000;
            }
        }
        i = i + 1;
    }
    proof {
        assert(whole_digits.take(dot as int) =~= whole_digits);
    }
    // fraction: the first nine digits
    let frac_avail = n - frac_start;
    let frac_len = if frac_avail > 9 {
        9
    } else {
        frac_avail
    };
    let ghost frac_digits = spec_frac_used(body@);
    proof {
        assert(spec_frac_part(body@).len() == frac_avail);
        assert(frac_digits.len() == frac_len);
        assert(all_digits(frac_digits)) by {
            assert(forall|m: int|
                0 <= m < frac_digits.len() ==> frac_digits[m] == spec_frac_part(body@)[m]);
        }
        assert(forall|m: int| 0 <= m < frac_len ==> frac_digits[m] == body@[m + frac_start]);
        assert(frac_digits.take(0) =~= Seq::<char>::empty());
    }
    let mut frac: u64 = 0;
    let mut f: usize = 0;
    while f < frac_len
        invariant
            0 <= f <= frac_len,
            frac_len <= 9,
            frac_len <= n - frac_start,
            frac_start <= n,
            n == body@.len(),
            frac_digits == spec_frac_used(body@),
            all_digits(frac_digits),
            frac_digits.len() == frac_len,
            forall|m: int| 0 <= m < frac_len ==> frac_digits[m] == body@[m + frac_start],
            frac as int == digits_val(frac_digits.take(f as int)),
            frac < pow10(f as int),
            frac < 1_000_000_000,
        decreases frac_len - f,
    {
        proof {
            lemma_digits_take_succ(frac_digits, f as int);
            assert(all_digits(frac_digits.take(f + 1))) by {
                assert(forall|m: int|
                    0 <= m < f + 1 ==> frac_digits.take(f + 1)[m] == frac_digits[m]);
            }
            lemma_digits_val_bound(frac_digits.take(f + 1));
            assert(frac_digits.take(f + 1).len() == f + 1);
            lemma_pow10_mono(f + 1, 9);
            reveal_with_fuel(pow10, 11);
        }
        let c = body.get_char(frac_start + f);
        let d: u64 = (c as u32 - 48) as u64;
        frac = frac * 10 + d;
        f = f + 1;
    }
    proof {
        assert(frac_digits.take(frac_len as int) =~= frac_digits);
        reveal_with_fuel(pow10, 11);
    }
    // combine
    if whole >= 0x1_0000_0000_0000_0000 {
        proof {
            let wv = digits_val(whole_digits);
            let fterm = digits_val(frac_digits) * (mult as int) / pow10(frac_len as int);
            lemma_digits_val_bound(whole_digits);
            lemma_digits_val_bound(frac_digits);
            assert(wv * (mult as int) >= wv) by (nonlinear_arith)
                requires
                    wv >= 0,
                    mult >= 1,
            ;
            assert(digits_val(frac_digits) * (mult as int) >= 0) by (nonlinear_arith)
                requires
                    digits_val(frac_digits) >= 0,
                    mult >= 1,
            ;
            lemma_pow10_mono(0, frac_len as int);
            vstd::arithmetic::div_mod::lemma_div_pos_is_pos(
                digits_val(frac_digits) * (mult as int),
                pow10(frac_len as int),
            );
            assert(fterm >= 0);
        }
        return Some(u64::MAX);
    }
    let p10 = pow10_u64(frac_len);
    proof {
        assert((whole as int) * (mult as int) <= 0xFFFF_FFFF_FFFF_FFFF * 0x4000_0000)
            by (nonlinear_arith)
            requires
                0 <= whole as int <= 0xFFFF_FFFF_FFFF_FFFF,
                0 <= mult <= 0x4000_0000,
        ;
        assert((frac as int) * (mult as int) <= 0x3B9A_C9FF * 0x4000_0000) by (nonlinear_arith)
            requires
                0 <= frac as int <= 0x3B9A_C9FF,
                0 <= mult <= 0x4000_0000,
        ;
        reveal_with_fuel(pow10, 11);
    }
    let value: u128 = (whole as u128) * (mult as u128) + ((frac as u128) * (mult as u128)) / (
    p10 as u128);
    proof {
        let wv = digits_val(whole_digits);
        let fv = digits_val(frac_digits);
        assert(whole as int == wv);
        assert(frac as int == fv);
        assert(value as int == wv * (mult as int) + fv * (mult as int) / pow10(frac_len as int));
        assert(wv * (mult as int) >= 0) by (nonlinear_arith)
            requires
                wv >= 0,
                mult >= 1,
        ;
        assert(fv * (mult as int) >= 0) by (nonlinear_arith)
            requires
                fv >= 0,
                mult >= 1,
        ;
        assert(value as int == spec_number_value(body@, mult as int));
    }
    if value > 0xFFFF_FFFF_FFFF_FFFF {
        Some(u64::MAX)
    } else {
        Some(value as u64)
    }
}

/// The text whose number is parsed: the trimmed input without its
/// unit suffix (quoted in the error message when invalid).
pub open spec fn spec_size_numpart(s: Seq<char>) -> Seq<char> {
    spec_trim(s).take(spec_trim(s).len() - spec_suffix_strip(spec_trim(s)))
}

/// The number itself: the numeric text, trimmed again.
pub open spec fn spec_size_num(s: Seq<char>) -> Seq<char> {
    spec_trim(spec_size_numpart(s))
}

/// A well-formed positive size literal.
pub open spec fn spec_size_is_valid(s: Seq<char>) -> bool {
    spec_valid_number_body(spec_size_num(s))
}

/// A size literal that is a valid number made negative.
pub open spec fn spec_size_is_negative(s: Seq<char>) -> bool {
    &&& spec_size_num(s).len() > 0
    &&& spec_size_num(s)[0] == '-'
    &&& spec_valid_number_body(spec_size_num(s).skip(1))
}

/// The parsed byte value of a valid size literal.
pub open spec fn spec_size_value(s: Seq<char>) -> int {
    spec_number_value(spec_size_num(s), spec_suffix_mult(spec_trim(s)))
}

/// Parse a human-readable size ("100MB", "1.5GB") into bytes. The
/// unit suffix may be upper or lower case; a bare number counts
/// bytes; surrounding whitespace is ignored; values beyond u64
/// saturate; fraction digits past the ninth are ignored. A negative
/// number and a malformed number are rejected with distinct errors.
pub fn parse_size(s: &str) -> (r: Result<u64, String>)
    ensures
        (r is Ok) == spec_size_is_valid(s@),
        r matches Ok(v) ==> v == clamp_u64(spec_size_value(s@)),
        r matches Err(e) ==> e@ == if spec_size_is_negative(s@) {
            "Size cannot be negative"@
        } else {
            "Invalid number: '"@ + spec_size_numpart(s@) + "'"@
        },
{
    let t = trim_str(s);
    let tlen = t.as_str().unicode_len();
    let (strip, mult): (usize, u64) = if ends_with_str(t.as_str(), "GB") {
        (2, 1_073_741_824)
    } else if ends_with_str(t.as_str(), "gb") {
        (2, 1_073_741_824)
    } else if ends_with_str(t.as_str(), "MB") {
        (2, 1_048_576)
    } else if ends_with_str(t.as_str(), "mb") {
        (2, 1_048_576)
    } else if ends_with_str(t.as_str(), "KB") {
        (2, 1_024)
    } else if ends_with_str(t.as_str(), "kb") {
        (2, 1_024)
    } else if ends_with_str(t.as_str(), "B") {
        (1, 1)
    } else if ends_with_str(t.as_str(), "b") {
        (1, 1)
    } else {
        (0, 1)
    };
    proof {
        reveal_strlit("GB");
        reveal_strlit("gb");
        reveal_strlit("MB");
        reveal_strlit("mb");
        reveal_strlit("KB");
        reveal_strlit("kb");
        reveal_strlit("B");
        reveal_strlit("b");
        assert(strip == spec_suffix_strip(t@));
        assert(mult == spec_suffix_mult(t@));
    }
    let np_msg = t.as_str().substring_char(0, tlen - strip);
    proof {
        assert(np_msg@ =~= spec_size_numpart(s@));
    }
    let np = trim_str(np_msg);
    let nplen = np.as_str().unicode_len();
    if nplen > 0 && np.as_str().get_char(0) == '-' {
        let body = np.as_str().substring_char(1, nplen);
        proof {
            assert(body@ =~= np@.skip(1));
        }
        match parse_number_value(body, mult) {
            Some(_) => {
                proof {
                    assert(!spec_valid_number_body(np@)) by {
                        if spec_valid_number_body(np@) {
                            let d0 = spec_first_dot(np@, 0);
                            lemma_first_dot_ge(np@, 0);
                            if d0 == 0 {
                                assert(np@[0] == '.') by {
                                    if np@[0] != '.' {
                                        lemma_first_dot_ge(np@, 1);
                                    }
                                }
                            } else {
                                assert(spec_whole_part(np@).len() >= 1);
                                assert(spec_whole_part(np@)[0] == np@[0]);
                                assert(48 <= np@[0] as u32 <= 57);
                            }
                        }
                    }
                }
                Err(String::from_str("Size cannot be negative"))
            },
            None => {
                proof {
                    assert(!spec_valid_number_body(np@)) by {
                        if spec_valid_number_body(np@) {
                            let d0 = spec_first_dot(np@, 0);
                            lemma_first_dot_ge(np@, 0);
                            if d0 == 0 {
                                assert(np@[0] == '.') by {
                                    if np@[0] != '.' {
                                        lemma_first_dot_ge(np@, 1);
                                    }
                                }
                            } else {
                                assert(spec_whole_part(np@).len() >= 1);
                                assert(spec_whole_part(np@)[0] == np@[0]);
                                assert(48 <= np@[0] as u32 <= 57);
                            }
                        }
                    }
                }
                Err(
                    String::from_str("Invalid number: '").concat(np_msg).concat("'"),
                )
            },
        }
    } else {
        match parse_number_value(np.as_str(), mult) {
            Some(v) => {
                proof {
                    if nplen > 0 {
                        assert(np@[0] != '-');
                    }
                }
                Ok(v)
            },
            None => {
                proof {
                    if nplen > 0 {
                        assert(np@[0] != '-');
                    }
                }
                Err(
                    String::from_str("Invalid number: '").concat(np_msg).concat("'"),
                )
            },
        }
    }
}

/// The large-file floor from a command-line value: the parsed size,
/// or 100 MB when the text is not a valid size.
pub fn parse_min_size(s: &str) -> (r: u64)
    ensures
        r == if spec_size_is_valid(s@) {
            clamp_u64(spec_size_value(s@))
        } else {
            104_857_600u64
        },
{
    match parse_size(s) {
        Ok(v) => v,
        Err(_) => 104_857_600,
    }
}

} // verus!
