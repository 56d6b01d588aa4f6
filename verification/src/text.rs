//! Character and string helpers used across the pipeline: ASCII
//! case-insensitive matching (for throttle detection and feed-label
//! comparison) and decimal formatting of counters.

use vstd::prelude::*;

verus! {

/// Unicode scalar value of `c`, with ASCII upper-case letters folded to
/// their lower-case counterparts.
pub open spec fn lower_code(c: char) -> int {
    if 65 <= c as int && c as int <= 90 {
        c as int + 32
    } else {
        c as int
    }
}

/// Case-insensitive (ASCII folding) character equality.
pub open spec fn chars_eq_ci(a: char, b: char) -> bool {
    lower_code(a) == lower_code(b)
}

/// `needle` occurs in `hay` at position `i`, comparing characters
/// case-insensitively.
pub open spec fn matches_ci_at(hay: Seq<char>, needle: Seq<char>, i: int) -> bool {
    forall|k: int| 0 <= k < needle.len() ==> chars_eq_ci(hay[i + k], needle[k])
}

/// `needle` occurs somewhere in `hay`, comparing characters
/// case-insensitively.
pub open spec fn seq_contains_ci(hay: Seq<char>, needle: Seq<char>) -> bool {
    exists|i: int| 0 <= i && i + needle.len() <= hay.len() && matches_ci_at(hay, needle, i)
}

/// The two character sequences are equal up to ASCII case.
pub open spec fn seq_eq_ci(a: Seq<char>, b: Seq<char>) -> bool {
    a.len() == b.len() && (forall|k: int| 0 <= k < a.len() ==> chars_eq_ci(a[k], b[k]))
}

fn char_eq_ci(a: char, b: char) -> (r: bool)
    ensures
        r == chars_eq_ci(a, b),
{
    let ac: u32 = a as u32;
    let bc: u32 = b as u32;
    let al: u32 = if 65 <= ac && ac <= 90 {
        ac + 32
    } else {
        ac
    };
    let bl: u32 = if 65 <= bc && bc <= 90 {
        bc + 32
    } else {
        bc
    };
    al == bl
}

fn match_ci_at(hay: &str, needle: &str, i: usize) -> (r: bool)
    requires
        i + needle@.len() <= hay@.len(),
        i + needle@.len() <= usize::MAX,
    ensures
        r == matches_ci_at(hay@, needle@, i as int),
{
    let m = needle.unicode_len();
    let mut k: usize = 0;
    while k < m
        invariant
            i + m <= hay@.len(),
            i + m <= usize::MAX,
            m == needle@.len(),
            k <= m,
            forall|l: int| 0 <= l < k ==> chars_eq_ci(hay@[i + l], needle@[l]),
        decreases m - k,
    {
        if !char_eq_ci(hay.get_char(i + k), needle.get_char(k)) {
            assert(!chars_eq_ci(hay@[i + k], needle@[k as int]));
            return false;
        }
        k = k + 1;
    }
    true
}

/// Whether `needle` occurs in `hay`, comparing characters case-insensitively
/// after folding ASCII letters.
pub fn str_contains_ci(hay: &str, needle: &str) -> (r: bool)
    ensures
        r == seq_contains_ci(hay@, needle@),
{
    let n = hay.unicode_len();
    let m = needle.unicode_len();
    if m > n {
        return false;
    }
    let mut i: usize = 0;
    while i <= n - m
        invariant
            m <= n,
            n == hay@.len(),
            m == needle@.len(),
            i <= n - m + 1,
            forall|j: int| 0 <= j < i ==> !matches_ci_at(hay@, needle@, j),
        decreases n + 1 - i,
    {
        if match_ci_at(hay, needle, i) {
            assert(matches_ci_at(hay@, needle@, i as int));
            return true;
        }
        i = i + 1;
    }
    false
}

/// The two strings are equal up to ASCII case.
pub fn str_eq_ci(a: &str, b: &str) -> (r: bool)
    ensures
        r == seq_eq_ci(a@, b@),
{
    let n = a.unicode_len();
    let m = b.unicode_len();
    if n != m {
        return false;
    }
    let mut k: usize = 0;
    while k < n
        invariant
            n == a@.len(),
            n == b@.len(),
            k <= n,
            forall|l: int| 0 <= l < k ==> chars_eq_ci(a@[l], b@[l]),
        decreases n - k,
    {
        if !char_eq_ci(a.get_char(k), b.get_char(k)) {
            return false;
        }
        k = k + 1;
    }
    true
}

/// The character for one decimal digit.
pub open spec fn digit_char(d: int) -> char {
    if d == 0 {
        '0'
    } else if d == 1 {
        '1'
    } else if d == 2 {
        '2'
    } else if d == 3 {
        '3'
    } else if d == 4 {
        '4'
    } else if d == 5 {
        '5'
    } else if d == 6 {
        '6'
    } else if d == 7 {
        '7'
    } else if d == 8 {
        '8'
    } else {
        '9'
    }
}

/// Decimal representation of a non-negative integer, most significant digit
/// first.
pub open spec fn dec_chars(n: int) -> Seq<char>
    decreases n,
{
    if n < 10 {
        seq![digit_char(n)]
    } else {
        dec_chars(n / 10).push(digit_char(n % 10))
    }
}

fn digit_to_char(d: u64) -> (c: char)
    requires
        d < 10,
    ensures
        c == digit_char(d as int),
{
    if d == 0 {
        '0'
    } else if d == 1 {
        '1'
    } else if d == 2 {
        '2'
    } else if d == 3 {
        '3'
    } else if d == 4 {
        '4'
    } else if d == 5 {
        '5'
    } else if d == 6 {
        '6'
    } else if d == 7 {
        '7'
    } else if d == 8 {
        '8'
    } else {
        '9'
    }
}

/// Relies on std's `String::push`: appends one character at the end of the
/// string.
#[verifier::external_body]
pub(crate) fn push_char(s: &mut String, c: char)
    ensures
        final(s)@ == old(s)@.push(c),
{
    s.push(c);
}

/// Whether the two strings hold the same character sequence.
pub(crate) fn str_eq(a: &str, b: &str) -> (r: bool)
    ensures
        r == (a@ == b@),
{
    let n = a.unicode_len();
    let m = b.unicode_len();
    if n != m {
        return false;
    }
    let mut k: usize = 0;
    while k < n
        invariant
            n == a@.len(),
            n == b@.len(),
            k <= n,
            forall|l: int| 0 <= l < k ==> a@[l] == b@[l],
        decreases n - k,
    {
        if a.get_char(k) != b.get_char(k) {
            assert(a@[k as int] != b@[k as int]);
            return false;
        }
        k = k + 1;
    }
    assert(a@ =~= b@);
    true
}

/// Formats `n` in decimal.
pub fn u64_to_string(n: u64) -> (r: String)
    ensures
        r@ == dec_chars(n as int),
    decreases n,
{
    if n < 10 {
        let mut s = String::new();
        push_char(&mut s, digit_to_char(n));
        assert(s@ =~= dec_chars(n as int));
        s
    } else {
        let mut s = u64_to_string(n / 10);
        push_char(&mut s, digit_to_char(n % 10));
        s
    }
}

/// Formats `n` in decimal.
pub fn usize_to_string(n: usize) -> (r: String)
    ensures
        r@ == dec_chars(n as int),
{
    u64_to_string(n as u64)
}

} // verus!
