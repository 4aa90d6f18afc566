//! Recognition of number literals in plugin output: which texts denote a
//! 64-bit signed integer, and which are written in the decimal floating-point
//! notation.

use vstd::prelude::*;
use crate::text::{char_len, digit_value, is_digit, slice};

verus! {

/// Every character of `s` is a decimal digit.
pub open spec fn all_digits(s: Seq<char>) -> bool {
    forall|i: int| 0 <= i < s.len() ==> is_digit(#[trigger] s[i])
}

/// The number written by the digit string `s`, most significant digit first.
pub open spec fn digits_value(s: Seq<char>) -> nat
    decreases s.len(),
{
    if s.len() == 0 {
        0
    } else {
        (digits_value(s.drop_last()) * 10 + digit_value(s.last())) as nat
    }
}

/// Whether `s` starts with a plus or a minus sign.
pub open spec fn has_sign(s: Seq<char>) -> bool {
    s.len() > 0 && (s[0] == '+' || s[0] == '-')
}

/// `s` without its leading sign, if it has one.
pub open spec fn unsigned_part(s: Seq<char>) -> Seq<char> {
    if has_sign(s) {
        s.subrange(1, s.len() as int)
    } else {
        s
    }
}

/// The integer that `s` writes: an optional sign followed by one or more
/// decimal digits. `None` for any other text.
pub open spec fn int_literal_value(s: Seq<char>) -> Option<int> {
    let body = unsigned_part(s);
    if body.len() > 0 && all_digits(body) {
        if s[0] == '-' {
            Some(-(digits_value(body) as int))
        } else {
            Some(digits_value(body) as int)
        }
    } else {
        None
    }
}

/// The 64-bit signed integer that `s` writes, if it writes one that fits.
pub open spec fn i64_literal(s: Seq<char>) -> Option<i64> {
    match int_literal_value(s) {
        Some(v) => if i64::MIN <= v <= i64::MAX {
            Some(v as i64)
        } else {
            None
        },
        None => None,
    }
}

/// `c` is the letter `lower`, in either case. `lower` is a lower-case ASCII
/// letter.
pub open spec fn is_letter(c: char, lower: char) -> bool {
    c == lower || ('A' <= c && c <= 'Z' && c as u32 + 32 == lower as u32)
}

/// `s` spells `word`, ignoring ASCII case. `word` is in lower case.
pub open spec fn spells(s: Seq<char>, word: Seq<char>) -> bool {
    s.len() == word.len() && forall|i: int| 0 <= i < s.len() ==> is_letter(#[trigger] s[i], word[i])
}

/// The three special values of the floating-point notation.
pub open spec fn is_special_float(s: Seq<char>) -> bool {
    spells(s, seq!['i', 'n', 'f']) || spells(s, seq!['i', 'n', 'f', 'i', 'n', 'i', 't', 'y'])
        || spells(s, seq!['n', 'a', 'n'])
}

/// `c` introduces the exponent of a floating-point literal.
pub open spec fn is_exponent_mark(c: char) -> bool {
    c == 'e' || c == 'E'
}

/// Position of the first exponent mark in `s`, or `s.len()` without one.
pub open spec fn exponent_mark_index(s: Seq<char>) -> nat
    decreases s.len(),
{
    if s.len() == 0 {
        0
    } else if is_exponent_mark(s[0]) {
        0
    } else {
        1 + exponent_mark_index(s.drop_first())
    }
}

/// A mantissa: digits with at most one decimal point among them, and at
/// least one digit.
pub open spec fn is_mantissa(s: Seq<char>) -> bool {
    &&& forall|i: int| 0 <= i < s.len() ==> is_digit(#[trigger] s[i]) || s[i] == '.'
    &&& forall|i: int, j: int|
        0 <= i < j < s.len() ==> !(#[trigger] s[i] == '.' && #[trigger] s[j] == '.')
    &&& exists|i: int| 0 <= i < s.len() && is_digit(#[trigger] s[i])
}

/// What may follow an exponent mark: an optional sign and one or more digits.
pub open spec fn is_exponent(s: Seq<char>) -> bool {
    unsigned_part(s).len() > 0 && all_digits(unsigned_part(s))
}

/// An unsigned decimal number: a mantissa, optionally followed by an
/// exponent mark and an exponent.
pub open spec fn is_decimal_number(s: Seq<char>) -> bool {
    let k = exponent_mark_index(s) as int;
    is_mantissa(s.subrange(0, k)) && (k == s.len() || is_exponent(
        s.subrange(k + 1, s.len() as int),
    ))
}

/// Whether `s` is written in the floating-point notation: an optional sign,
/// then `inf`, `infinity` or `nan` in any case, or a decimal number such as
/// `12`, `1.5`, `.5`, `5.` or `2.5e-3`.
pub open spec fn is_float_literal(s: Seq<char>) -> bool {
    let body = unsigned_part(s);
    is_special_float(body) || is_decimal_number(body)
}

/// The first exponent mark is at `exponent_mark_index`, which is `s.len()`
/// exactly when `s` has none.
pub proof fn lemma_exponent_mark_index(s: Seq<char>)
    ensures
        0 <= exponent_mark_index(s) <= s.len(),
        exponent_mark_index(s) < s.len() ==> is_exponent_mark(s[exponent_mark_index(s) as int]),
        forall|j: int| 0 <= j < exponent_mark_index(s) ==> !is_exponent_mark(s[j]),
    decreases s.len(),
{
    if s.len() != 0 && !is_exponent_mark(s[0]) {
        let t = s.drop_first();
        lemma_exponent_mark_index(t);
        assert forall|j: int| 0 <= j < exponent_mark_index(s) implies !is_exponent_mark(s[j]) by {
            if j > 0 {
                assert(s[j] == t[j - 1]);
            }
        }
    }
}

proof fn lemma_exponent_mark_index_is(s: Seq<char>, i: int)
    requires
        0 <= i <= s.len(),
        i < s.len() ==> is_exponent_mark(s[i]),
        forall|j: int| 0 <= j < i ==> !is_exponent_mark(s[j]),
    ensures
        exponent_mark_index(s) == i,
{
    lemma_exponent_mark_index(s);
    let f = exponent_mark_index(s) as int;
    if f < i {
        assert(is_exponent_mark(s[f]));
    }
}

/// Extending a digit string never lowers its value.
proof fn lemma_digits_value_prefix(s: Seq<char>, k: int)
    requires
        0 <= k <= s.len(),
        all_digits(s),
    ensures
        digits_value(s.subrange(0, k)) <= digits_value(s),
    decreases s.len() - k,
{
    if k < s.len() {
        let t = s.drop_last();
        assert(is_digit(s.last()));
        if k == s.len() - 1 {
            assert(s.subrange(0, k) =~= t);
        } else {
            assert(all_digits(t)) by {
                assert forall|i: int| 0 <= i < t.len() implies is_digit(#[trigger] t[i]) by {
                    assert(t[i] == s[i]);
                }
            }
            lemma_digits_value_prefix(t, k);
            assert(t.subrange(0, k) =~= s.subrange(0, k));
        }
    } else {
        assert(s.subrange(0, k) =~= s);
    }
}

/// Whether `c` is a decimal digit.
pub fn char_is_digit(c: char) -> (r: bool)
    ensures
        r == is_digit(c),
{
    '0' <= c && c <= '9'
}

/// Whether `s` consists of decimal digits only.
pub fn str_all_digits(s: &str) -> (r: bool)
    ensures
        r == all_digits(s@),
{
    for c in it: s.chars()
        invariant
            it.seq() == s@,
            forall|j: int| 0 <= j < it.index() ==> is_digit(#[trigger] s@[j]),
    {
        if !char_is_digit(c) {
            assert(!is_digit(s@[it.index() as int]));
            return false;
        }
    }
    true
}

/// `s` without its leading sign, and whether that sign was a minus.
pub fn split_sign(s: &str) -> (r: (bool, String))
    ensures
        r.0 == (s@.len() > 0 && s@[0] == '-'),
        r.1@ == unsigned_part(s@),
{
    let n = char_len(s);
    if n == 0 {
        return (false, slice(s, 0, 0));
    }
    let first = s.get_char(0);
    if first == '-' || first == '+' {
        (first == '-', slice(s, 1, n))
    } else {
        let body = slice(s, 0, n);
        assert(body@ =~= s@);
        (false, body)
    }
}

/// Reads `s` as a 64-bit signed integer: an optional sign and one or more
/// decimal digits whose value fits. Any other text gives `None`.
pub fn parse_i64(s: &str) -> (r: Option<i64>)
    ensures
        r == i64_literal(s@),
{
    let (negative, body) = split_sign(s);
    let n = char_len(body.as_str());
    if n == 0 {
        return None;
    }
    // The magnitude is gathered as a non-positive number, so that the most
    // negative value is reached without overflow.
    let mut acc: i64 = 0;
    for c in it: body.as_str().chars()
        invariant
            it.seq() == body@,
            body@ == unsigned_part(s@),
            body@.len() > 0,
            forall|j: int| 0 <= j < it.index() ==> is_digit(#[trigger] body@[j]),
            acc as int == -(digits_value(body@.subrange(0, it.index() as int)) as int),
    {
        let ghost i = it.index() as int;
        if !char_is_digit(c) {
            assert(!is_digit(body@[i]));
            return None;
        }
        let d: i128 = (c as u32 - '0' as u32) as i128;
        let wide: i128 = (acc as i128) * 10 - d;
        proof {
            let next = body@.subrange(0, i + 1);
            assert(next.drop_last() =~= body@.subrange(0, i));
            assert(next.last() == body@[i]);
            assert(wide as int == -(digits_value(next) as int));
            if wide < i64::MIN as i128 {
                if all_digits(body@) {
                    lemma_digits_value_prefix(body@, i + 1);
                }
            }
        }
        if wide < i64::MIN as i128 {
            return None;
        }
        acc = wide as i64;
    }
    proof {
        assert(body@.subrange(0, body@.len() as int) =~= body@);
    }
    if negative {
        Some(acc)
    } else if acc == i64::MIN {
        None
    } else {
        Some(-acc)
    }
}

/// Whether `s` spells the lower-case `word`, ignoring ASCII case.
fn str_spells(s: &str, word: &str) -> (r: bool)
    ensures
        r == spells(s@, word@),
{
    let n = char_len(s);
    if n != char_len(word) {
        return false;
    }
    let mut i: usize = 0;
    for c in it: s.chars()
        invariant
            it.seq() == s@,
            i == it.index(),
            n == s@.len(),
            s@.len() == word@.len(),
            forall|j: int| 0 <= j < i ==> is_letter(#[trigger] s@[j], word@[j]),
    {
        let w = word.get_char(i);
        let same = c == w || ('A' <= c && c <= 'Z' && c as u32 + 32 == w as u32);
        if !same {
            assert(!is_letter(s@[i as int], word@[i as int]));
            return false;
        }
        i = i + 1;
    }
    true
}

/// Whether `s` is `inf`, `infinity` or `nan`, in any case.
fn str_is_special_float(s: &str) -> (r: bool)
    ensures
        r == is_special_float(s@),
{
    proof {
        reveal_strlit("inf");
        reveal_strlit("infinity");
        reveal_strlit("nan");
        assert("inf"@ =~= seq!['i', 'n', 'f']);
        assert("infinity"@ =~= seq!['i', 'n', 'f', 'i', 'n', 'i', 't', 'y']);
        assert("nan"@ =~= seq!['n', 'a', 'n']);
    }
    str_spells(s, "inf") || str_spells(s, "infinity") || str_spells(s, "nan")
}

/// Position of the first exponent mark of `s`, or its length.
fn find_exponent_mark(s: &str) -> (k: usize)
    ensures
        k == exponent_mark_index(s@),
        k <= s@.len(),
{
    let n = char_len(s);
    let mut i: usize = 0;
    for c in it: s.chars()
        invariant
            it.seq() == s@,
            i == it.index(),
            n == s@.len(),
            forall|j: int| 0 <= j < i ==> !is_exponent_mark(s@[j]),
    {
        if c == 'e' || c == 'E' {
            proof {
                lemma_exponent_mark_index_is(s@, i as int);
            }
            return i;
        }
        i = i + 1;
    }
    proof {
        lemma_exponent_mark_index_is(s@, s@.len() as int);
    }
    n
}

/// Whether `s` is a mantissa.
fn str_is_mantissa(s: &str) -> (r: bool)
    ensures
        r == is_mantissa(s@),
{
    let mut seen_point = false;
    let mut seen_digit = false;
    let ghost mut point_at: int = 0;
    let ghost mut digit_at: int = 0;
    for c in it: s.chars()
        invariant
            it.seq() == s@,
            forall|j: int| 0 <= j < it.index() ==> is_digit(#[trigger] s@[j]) || s@[j] == '.',
            seen_point ==> 0 <= point_at < it.index() && s@[point_at] == '.',
            !seen_point ==> forall|j: int| 0 <= j < it.index() ==> #[trigger] s@[j] != '.',
            seen_point ==> forall|j: int|
                0 <= j < it.index() && j != point_at ==> #[trigger] s@[j] != '.',
            seen_digit ==> 0 <= digit_at < it.index() && is_digit(s@[digit_at]),
            !seen_digit ==> forall|j: int| 0 <= j < it.index() ==> !is_digit(#[trigger] s@[j]),
    {
        let ghost i = it.index() as int;
        if char_is_digit(c) {
            seen_digit = true;
            proof {
                digit_at = i;
            }
        } else if c == '.' {
            if seen_point {
                assert(s@[point_at] == '.' && s@[i] == '.');
                return false;
            }
            seen_point = true;
            proof {
                point_at = i;
            }
        } else {
            assert(!(is_digit(s@[i]) || s@[i] == '.'));
            return false;
        }
    }
    seen_digit
}

/// Whether `s` is an unsigned decimal number.
fn str_is_decimal_number(s: &str) -> (r: bool)
    ensures
        r == is_decimal_number(s@),
{
    let n = char_len(s);
    let k = find_exponent_mark(s);
    let mantissa = slice(s, 0, k);
    if !str_is_mantissa(mantissa.as_str()) {
        return false;
    }
    if k == n {
        return true;
    }
    let exponent = slice(s, k + 1, n);
    let (_, digits) = split_sign(exponent.as_str());
    char_len(digits.as_str()) > 0 && str_all_digits(digits.as_str())
}

/// Whether `s` is written in the floating-point notation.
pub fn is_float_text(s: &str) -> (r: bool)
    ensures
        r == is_float_literal(s@),
{
    let (_, body) = split_sign(s);
    str_is_special_float(body.as_str()) || str_is_decimal_number(body.as_str())
}

} // verus!
