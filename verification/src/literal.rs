//! Numeric literals: which texts are integers and doubles, and which integer.
use vstd::prelude::*;
use vstd::slice::slice_subrange;

verus! {

/// Whether a character is one of the ten ASCII digits.
pub open spec fn is_digit(c: char) -> bool {
    '0' <= c <= '9'
}

/// Whether a character is `+` or `-`.
pub open spec fn is_sign(c: char) -> bool {
    c == '+' || c == '-'
}

/// The number that a sequence of decimal digits stands for.
pub open spec fn digits_value(s: Seq<char>) -> nat
    decreases s.len(),
{
    if s.len() == 0 {
        0
    } else {
        (digits_value(s.drop_last()) * 10 + (s.last() as nat - '0' as nat)) as nat
    }
}

/// Whether every character is an ASCII digit.
pub open spec fn all_digits(s: Seq<char>) -> bool {
    forall|i: int| 0 <= i < s.len() ==> is_digit(#[trigger] s[i])
}

/// The text without a leading sign.
pub open spec fn unsigned(text: Seq<char>) -> Seq<char> {
    if text.len() > 0 && is_sign(text[0]) {
        text.skip(1)
    } else {
        text
    }
}

/// The integer that a text stands for: an optional sign and at least one
/// decimal digit, of a value that fits in 64 bits.
pub open spec fn integer_spec(text: Seq<char>) -> Option<i64> {
    let digits = unsigned(text);
    if digits.len() == 0 || !all_digits(digits) {
        None
    } else {
        let magnitude = digits_value(digits) as int;
        let value = if text[0] == '-' {
            -magnitude
        } else {
            magnitude
        };
        if i64::MIN <= value <= i64::MAX {
            Some(value as i64)
        } else {
            None
        }
    }
}

/// Where the decimal digits from `pos` on end.
pub open spec fn digits_end(s: Seq<char>, pos: int) -> int
    decreases s.len() - pos,
{
    if 0 <= pos < s.len() && is_digit(s[pos]) {
        digits_end(s, pos + 1)
    } else {
        pos
    }
}

/// The lower-case form of an ASCII letter; any other character is itself.
pub open spec fn lower(c: char) -> char {
    if 'A' <= c <= 'Z' {
        ((c as u8) + 32) as char
    } else {
        c
    }
}

/// Whether `text` is `word` up to the case of its letters.
pub open spec fn is_word(text: Seq<char>, word: Seq<char>) -> bool {
    text.len() == word.len() && forall|i: int|
        0 <= i < text.len() ==> lower(#[trigger] text[i]) == word[i]
}

/// Whether an unsigned text is a decimal number: digits with at most one
/// decimal point among, before or behind them, and at least one digit; then, if
/// anything, `e` or `E`, an optional sign and at least one digit.
pub open spec fn is_decimal(t: Seq<char>) -> bool {
    let a = digits_end(t, 0);
    let has_point = a < t.len() && t[a] == '.';
    let b = if has_point {
        digits_end(t, a + 1)
    } else {
        a
    };
    let has_digit = a > 0 || (has_point && b > a + 1);
    if !has_digit {
        false
    } else if b == t.len() {
        true
    } else if t[b] == 'e' || t[b] == 'E' {
        let c = if b + 1 < t.len() && is_sign(t[b + 1]) {
            b + 2
        } else {
            b + 1
        };
        let d = digits_end(t, c);
        d > c && d == t.len()
    } else {
        false
    }
}

/// Whether a text is a double literal: an optional sign, then a decimal number,
/// `inf`, `infinity` or `nan`, the words in any case.
pub open spec fn double_spec(text: Seq<char>) -> bool {
    let t = unsigned(text);
    is_decimal(t) || is_word(t, seq!['i', 'n', 'f']) || is_word(
        t,
        seq!['i', 'n', 'f', 'i', 'n', 'i', 't', 'y'],
    ) || is_word(t, seq!['n', 'a', 'n'])
}

/// The digits of a prefix stand for no more than the digits of the whole.
proof fn lemma_digits_value_grows(s: Seq<char>, k: int)
    requires
        0 <= k <= s.len(),
        all_digits(s),
    ensures
        digits_value(s.take(k)) <= digits_value(s),
    decreases s.len() - k,
{
    if k < s.len() {
        lemma_digits_value_grows(s, k + 1);
        assert(s.take(k + 1).drop_last() =~= s.take(k));
        assert(is_digit(s[k]));
        assert(s.take(k + 1).last() == s[k]);
    } else {
        assert(s.take(k) =~= s);
    }
}

fn is_decimal_digit(c: char) -> (r: bool)
    ensures
        r == is_digit(c),
{
    '0' <= c && c <= '9'
}

/// The integer that `text` stands for, if it stands for one.
pub fn parse_integer(text: &Vec<char>) -> (r: Option<i64>)
    ensures
        r == integer_spec(text@),
{
    let n = text.len();
    let negative = n > 0 && text[0] == '-';
    let start: usize = if n > 0 && (text[0] == '+' || text[0] == '-') {
        1
    } else {
        0
    };
    let ghost digits = unsigned(text@);
    assert(digits =~= text@.subrange(start as int, n as int));
    if start == n {
        return None;
    }
    let limit: u64 = if negative {
        9223372036854775808u64
    } else {
        9223372036854775807u64
    };
    let mut acc: u64 = 0;
    let mut i: usize = start;
    assert(digits.take(0) =~= Seq::<char>::empty());
    while i < n
        invariant
            start <= i <= n,
            n == text.len(),
            start < n,
            digits == text@.subrange(start as int, n as int),
            digits == unsigned(text@),
            all_digits(digits.take(i - start)),
            acc == digits_value(digits.take(i - start)),
            acc <= limit,
            negative == (text@[0] == '-'),
            limit == if negative {
                9223372036854775808u64
            } else {
                9223372036854775807u64
            },
        decreases n - i,
    {
        let c = text[i];
        assert(digits[i - start] == c);
        if !is_decimal_digit(c) {
            return None;
        }
        let d: u64 = (c as u64) - ('0' as u64);
        assert(d <= 9);
        proof {
            assert(digits.take(i - start + 1).drop_last() =~= digits.take(i - start));
            assert(digits.take(i - start + 1).last() == c);
            assert forall|j: int| 0 <= j < i - start + 1 implies is_digit(
                #[trigger] digits.take(i - start + 1)[j],
            ) by {
                if j < i - start {
                    assert(digits.take(i - start)[j] == digits.take(i - start + 1)[j]);
                }
            }
        }
        if acc > (limit - d) / 10 {
            proof {
                // The digits read so far already stand for more than the limit.
                let k = i - start + 1;
                assert(digits_value(digits.take(k)) == acc * 10 + d);
                assert(acc * 10 + d > limit) by (nonlinear_arith)
                    requires
                        acc > (limit - d) / 10,
                        d <= limit,
                ;
                if all_digits(digits) {
                    lemma_digits_value_grows(digits, k);
                }
            }
            return None;
        }
        assert(acc * 10 + d <= limit) by (nonlinear_arith)
            requires
                acc <= (limit - d) / 10,
                d <= limit,
        ;
        acc = acc * 10 + d;
        i += 1;
    }
    assert(digits.take(n - start) =~= digits);
    if negative {
        if acc == 9223372036854775808u64 {
            Some(i64::MIN)
        } else {
            Some(-(acc as i64))
        }
    } else {
        Some(acc as i64)
    }
}

fn scan_digits(t: &[char], pos: usize) -> (end: usize)
    requires
        pos <= t.len(),
    ensures
        end == digits_end(t@, pos as int),
        pos <= end <= t.len(),
{
    let mut i: usize = pos;
    while i < t.len()
        invariant
            pos <= i <= t.len(),
            digits_end(t@, i as int) == digits_end(t@, pos as int),
        decreases t.len() - i,
    {
        if !is_decimal_digit(t[i]) {
            return i;
        }
        i += 1;
    }
    i
}

fn to_lower(c: char) -> (r: char)
    ensures
        r == lower(c),
{
    if 'A' <= c && c <= 'Z' {
        ((c as u8) + 32) as char
    } else {
        c
    }
}

fn matches_word(t: &[char], word: &Vec<char>) -> (r: bool)
    ensures
        r == is_word(t@, word@),
{
    if t.len() != word.len() {
        return false;
    }
    let mut i: usize = 0;
    while i < t.len()
        invariant
            i <= t.len(),
            t.len() == word.len(),
            forall|j: int| 0 <= j < i ==> lower(#[trigger] t@[j]) == word@[j],
        decreases t.len() - i,
    {
        if to_lower(t[i]) != word[i] {
            return false;
        }
        i += 1;
    }
    true
}

fn is_decimal_number(t: &[char]) -> (r: bool)
    ensures
        r == is_decimal(t@),
{
    let n = t.len();
    let a = scan_digits(t, 0);
    let has_point = a < n && t[a] == '.';
    let b = if has_point {
        scan_digits(t, a + 1)
    } else {
        a
    };
    let has_digit = a > 0 || (has_point && b > a + 1);
    if !has_digit {
        false
    } else if b == n {
        true
    } else if t[b] == 'e' || t[b] == 'E' {
        let c = if b + 1 < n && (t[b + 1] == '+' || t[b + 1] == '-') {
            b + 2
        } else {
            b + 1
        };
        let d = scan_digits(t, c);
        d > c && d == n
    } else {
        false
    }
}

/// Whether `text` is a double literal.
pub fn is_double_literal(text: &Vec<char>) -> (r: bool)
    ensures
        r == double_spec(text@),
{
    let n = text.len();
    let start: usize = if n > 0 && (text[0] == '+' || text[0] == '-') {
        1
    } else {
        0
    };
    let t = slice_subrange(text.as_slice(), start, n);
    assert(t@ =~= unsigned(text@));
    is_decimal_number(t) || matches_word(t, &vec!['i', 'n', 'f']) || matches_word(
        t,
        &vec!['i', 'n', 'f', 'i', 'n', 'i', 't', 'y'],
    ) || matches_word(t, &vec!['n', 'a', 'n'])
}

} // verus!
