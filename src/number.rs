//! Recognition of the decimal floating-point syntax that Rust's standard
//! library accepts for `f64`: an optional sign, then `inf`, `infinity`, `nan`
//! (in any case) or a decimal number with an optional exponent.
use vstd::prelude::*;
use crate::text::{slice_chars, spells_ignoring_case, spells_word};

verus! {

pub open spec fn is_digit(c: char) -> bool {
    '0' <= c && c <= '9'
}

pub open spec fn all_digits(s: Seq<char>) -> bool {
    forall|i: int| 0 <= i < s.len() ==> is_digit(#[trigger] s[i])
}

pub open spec fn is_sign(c: char) -> bool {
    c == '+' || c == '-'
}

pub open spec fn is_exponent_marker(c: char) -> bool {
    c == 'e' || c == 'E'
}

/// `s` with one leading sign removed, if it has one.
pub open spec fn without_sign(s: Seq<char>) -> Seq<char> {
    if s.len() > 0 && is_sign(s[0]) {
        s.drop_first()
    } else {
        s
    }
}

/// Digits and at most one decimal point, with at least one digit.
pub open spec fn decimal_mantissa(m: Seq<char>) -> bool {
    &&& forall|i: int| 0 <= i < m.len() ==> is_digit(#[trigger] m[i]) || m[i] == '.'
    &&& forall|i: int, j: int|
        0 <= i < m.len() && 0 <= j < m.len() && #[trigger] m[i] == '.' && #[trigger] m[j] == '.'
            ==> i == j
    &&& exists|i: int| 0 <= i < m.len() && is_digit(#[trigger] m[i])
}

/// The part after an exponent marker: an optional sign and at least one digit.
pub open spec fn exponent_part(e: Seq<char>) -> bool {
    let d = without_sign(e);
    d.len() > 0 && all_digits(d)
}

/// A mantissa, optionally followed by an exponent marker and an exponent.
pub open spec fn decimal_number(s: Seq<char>) -> bool {
    ||| decimal_mantissa(s)
    ||| exists|k: int|
        0 <= k < s.len() && is_exponent_marker(#[trigger] s[k]) && decimal_mantissa(s.take(k))
            && exponent_part(s.skip(k + 1))
}

/// `s` is text that parses as a 64-bit floating-point number.
pub open spec fn float_text(s: Seq<char>) -> bool {
    let u = without_sign(s);
    ||| spells_ignoring_case(u, seq!['i', 'n', 'f'])
    ||| spells_ignoring_case(u, seq!['i', 'n', 'f', 'i', 'n', 'i', 't', 'y'])
    ||| spells_ignoring_case(u, seq!['n', 'a', 'n'])
    ||| decimal_number(u)
}

fn is_digit_char(c: char) -> (r: bool)
    ensures
        r == is_digit(c),
{
    '0' <= c && c <= '9'
}

/// Decides `decimal_mantissa`.
pub fn is_mantissa(m: &Vec<char>) -> (r: bool)
    ensures
        r == decimal_mantissa(m@),
{
    let n = m.len();
    let mut dot: usize = n;
    let mut seen_digit = false;
    let mut i: usize = 0;
    while i < n
        invariant
            n == m.len(),
            i <= n,
            forall|j: int| 0 <= j < i ==> is_digit(#[trigger] m@[j]) || m@[j] == '.',
            dot == n ==> forall|j: int| 0 <= j < i ==> m@[j] != '.',
            dot != n ==> dot < i && m@[dot as int] == '.',
            dot != n ==> forall|j: int| 0 <= j < i && m@[j] == '.' ==> j == dot,
            seen_digit <==> exists|j: int| 0 <= j < i && is_digit(#[trigger] m@[j]),
        decreases n - i,
    {
        let c = m[i];
        if is_digit_char(c) {
            seen_digit = true;
        } else if c == '.' {
            if dot != n {
                assert(m@[dot as int] == '.' && m@[i as int] == '.');
                return false;
            }
            dot = i;
        } else {
            assert(!(is_digit(m@[i as int]) || m@[i as int] == '.'));
            return false;
        }
        i = i + 1;
    }
    if !seen_digit {
        return false;
    }
    assert forall|a: int, b: int|
        0 <= a < m.len() && 0 <= b < m.len() && #[trigger] m@[a] == '.' && #[trigger] m@[b] == '.'
            implies a == b by {
        if dot == n {
            assert(m@[a] != '.');
        }
    }
    true
}

/// Decides `exponent_part`.
pub fn is_exponent_part(e: &Vec<char>) -> (r: bool)
    ensures
        r == exponent_part(e@),
{
    let mut start: usize = 0;
    if e.len() > 0 && (e[0] == '+' || e[0] == '-') {
        start = 1;
    }
    let d = slice_chars(e, start, e.len());
    assert(d@ == without_sign(e@));
    if d.len() == 0 {
        return false;
    }
    let mut i: usize = 0;
    while i < d.len()
        invariant
            i <= d.len(),
            d@ == without_sign(e@),
            forall|j: int| 0 <= j < i ==> is_digit(#[trigger] d@[j]),
        decreases d.len() - i,
    {
        if !is_digit_char(d[i]) {
            assert(!is_digit(d@[i as int]));
            assert(!all_digits(without_sign(e@)));
            return false;
        }
        i = i + 1;
    }
    assert(all_digits(without_sign(e@)));
    true
}

/// Decides `decimal_number`.
pub fn is_decimal_number(s: &Vec<char>) -> (r: bool)
    ensures
        r == decimal_number(s@),
{
    let n = s.len();
    let mut k: usize = 0;
    while k < n && !(s[k] == 'e' || s[k] == 'E')
        invariant
            k <= n == s.len(),
            forall|j: int| 0 <= j < k ==> !is_exponent_marker(#[trigger] s@[j]),
        decreases n - k,
    {
        k = k + 1;
    }
    if k == n {
        return is_mantissa(s);
    }
    assert(!decimal_mantissa(s@)) by {
        assert(!(is_digit(s@[k as int]) || s@[k as int] == '.'));
    }
    let m = slice_chars(s, 0, k);
    let e = slice_chars(s, k + 1, n);
    assert(m@ == s@.take(k as int));
    assert(e@ == s@.skip(k + 1));
    let r = is_mantissa(&m) && is_exponent_part(&e);
    assert(r == decimal_number(s@)) by {
        if !r {
            assert forall|k2: int|
                0 <= k2 < s.len() && is_exponent_marker(#[trigger] s@[k2]) implies !(decimal_mantissa(
                s@.take(k2),
            ) && exponent_part(s@.skip(k2 + 1))) by {
                if k2 > k {
                    let t = s@.take(k2);
                    assert(t[k as int] == s@[k as int]);
                    assert(!(is_digit(t[k as int]) || t[k as int] == '.'));
                } else if k2 < k {
                } else {
                }
            }
        }
    }
    r
}

/// Decides `float_text`.
pub fn is_float_text(s: &Vec<char>) -> (r: bool)
    ensures
        r == float_text(s@),
{
    let mut start: usize = 0;
    if s.len() > 0 && (s[0] == '+' || s[0] == '-') {
        start = 1;
    }
    let u = slice_chars(s, start, s.len());
    assert(u@ == without_sign(s@));
    let inf: Vec<char> = vec!['i', 'n', 'f'];
    let infinity: Vec<char> = vec!['i', 'n', 'f', 'i', 'n', 'i', 't', 'y'];
    let nan: Vec<char> = vec!['n', 'a', 'n'];
    spells_word(&u, &inf) || spells_word(&u, &infinity) || spells_word(&u, &nan)
        || is_decimal_number(&u)
}

} // verus!
