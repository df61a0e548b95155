//! Characters, decimal numerals and the few string operations the codec is built on.

use vstd::prelude::*;
use vstd::std_specs::iter::IteratorSpec;

verus! {

/// `String::push` of std appends one character to the end of the string.
pub assume_specification[ std::string::String::push ](s: &mut std::string::String, c: char)
    ensures
        final(s)@ == old(s)@.push(c),
;

/// `==` on `str` of std holds exactly when both slices hold the same characters.
pub assume_specification[ <str as PartialEq>::eq ](a: &str, b: &str) -> (r: bool)
    ensures
        r == (a@ == b@),
;

/// Whether `c` has the Unicode property White_Space, as `char::is_whitespace` of std reports it.
pub uninterp spec fn white_space(c: char) -> bool;

/// `char::is_whitespace` of std: the result is named, not spelled out, because
/// std's documentation defines it by reference to the Unicode database.
pub assume_specification[ char::is_whitespace ](c: char) -> (r: bool)
    ensures
        r == white_space(c),
;

/// An ASCII decimal digit.
pub open spec fn is_digit(c: char) -> bool {
    '0' <= c && c <= '9'
}

/// The number a digit stands for.
pub open spec fn digit_value(c: char) -> nat {
    (c as int - 48) as nat
}

/// The digit that stands for `d`, for `d < 10`.
pub open spec fn digit_char(d: nat) -> char {
    ((48 + d) as u8) as char
}

/// A numeral: one or more ASCII decimal digits.
pub open spec fn is_numeral(s: Seq<char>) -> bool {
    s.len() > 0 && forall|i: int| 0 <= i < s.len() ==> is_digit(#[trigger] s[i])
}

/// The number that a sequence of digits denotes in base ten; leading zeros count for nothing.
pub open spec fn numeral_value(s: Seq<char>) -> nat
    decreases s.len(),
{
    if s.len() == 0 {
        0
    } else {
        numeral_value(s.drop_last()) * 10 + digit_value(s.last())
    }
}

/// The shortest numeral that denotes `n`.
pub open spec fn numeral_of(n: nat) -> Seq<char>
    decreases n,
{
    if n < 10 {
        seq![digit_char(n)]
    } else {
        numeral_of(n / 10).push(digit_char(n % 10))
    }
}

/// The decimal text of an integer: a minus sign before the numeral of a negative one.
pub open spec fn integer_text(i: int) -> Seq<char> {
    if i < 0 {
        seq!['-'] + numeral_of((-i) as nat)
    } else {
        numeral_of(i as nat)
    }
}

/// `p` is an initial part of `s`.
pub open spec fn has_prefix(s: Seq<char>, p: Seq<char>) -> bool {
    p.len() <= s.len() && s.subrange(0, p.len() as int) == p
}

/// `numeral_of` yields a numeral, and that numeral denotes the number it was made from.
pub proof fn lemma_numeral_of(n: nat)
    ensures
        is_numeral(numeral_of(n)),
        numeral_value(numeral_of(n)) == n,
    decreases n,
{
    if n < 10 {
        let s = numeral_of(n);
        assert(s.drop_last() =~= Seq::<char>::empty());
        assert(numeral_value(s.drop_last()) == 0);
        assert(s.last() == digit_char(n));
    } else {
        lemma_numeral_of(n / 10);
        let head = numeral_of(n / 10);
        let s = numeral_of(n);
        assert(s.drop_last() =~= head);
        assert(s.last() == digit_char(n % 10));
        assert forall|i: int| 0 <= i < s.len() implies is_digit(#[trigger] s[i]) by {
            if i < head.len() {
                assert(s[i] == head[i]);
            }
        }
    }
}

/// Reading more digits never makes the number smaller.
pub proof fn lemma_numeral_value_grows(s: Seq<char>, k: int)
    requires
        0 <= k <= s.len(),
    ensures
        numeral_value(s.take(k)) <= numeral_value(s),
    decreases s.len() - k,
{
    if k == s.len() {
        assert(s.take(k) =~= s);
    } else {
        lemma_numeral_value_grows(s, k + 1);
        let t = s.take(k + 1);
        assert(t.drop_last() =~= s.take(k));
    }
}

/// The characters of a string slice, one by one.
pub fn chars_of(text: &str) -> (chars: Vec<char>)
    ensures
        chars@ == text@,
{
    let mut chars: Vec<char> = Vec::new();
    for c in it: text.chars()
        invariant
            chars@ == it.seq().take(it.index()),
    {
        chars.push(c);
    }
    chars
}

/// Whether `text` begins with `prefix`.
pub fn starts_with(text: &str, prefix: &str) -> (r: bool)
    ensures
        r == has_prefix(text@, prefix@),
{
    let n: usize = text.unicode_len();
    let m: usize = prefix.unicode_len();
    if m > n {
        return false;
    }
    let mut i: usize = 0;
    while i < m
        invariant
            i <= m <= n,
            n == text@.len(),
            m == prefix@.len(),
            text@.subrange(0, i as int) == prefix@.subrange(0, i as int),
        decreases m - i,
    {
        if text.get_char(i) != prefix.get_char(i) {
            assert(text@.subrange(0, m as int)[i as int] != prefix@[i as int]);
            return false;
        }
        assert(text@.subrange(0, i + 1) =~= text@.subrange(0, i as int).push(text@[i as int]));
        assert(prefix@.subrange(0, i + 1) =~= prefix@.subrange(0, i as int).push(prefix@[i as int]));
        i += 1;
    }
    assert(prefix@.subrange(0, m as int) =~= prefix@);
    true
}

/// Reads `chars` as a numeral no greater than `max`.
///
/// `None` is returned for the empty sequence, for any character that is not
/// an ASCII digit, and for a number above `max`.
pub fn parse_numeral(chars: &Vec<char>, max: u64) -> (r: Option<u64>)
    ensures
        r == if is_numeral(chars@) && numeral_value(chars@) <= max {
            Some(numeral_value(chars@) as u64)
        } else {
            None
        },
{
    let n: usize = chars.len();
    if n == 0 {
        return None;
    }
    let mut value: u64 = 0;
    let mut i: usize = 0;
    while i < n
        invariant
            0 < n == chars.len(),
            i <= n,
            forall|j: int| 0 <= j < i ==> is_digit(#[trigger] chars@[j]),
            value == numeral_value(chars@.take(i as int)),
            value <= max,
        decreases n - i,
    {
        let c: char = chars[i];
        if !(c >= '0' && c <= '9') {
            return None;
        }
        let d: u64 = (c as u32 - 48) as u64;
        proof {
            let t = chars@.take(i + 1);
            assert(t.drop_last() =~= chars@.take(i as int));
            assert(t.last() == c);
            assert(numeral_value(t) == value * 10 + d);
            lemma_numeral_value_grows(chars@, i + 1);
        }
        if d > max || value > (max - d) / 10 {
            return None;
        }
        value = value * 10 + d;
        i += 1;
    }
    assert(chars@.take(n as int) =~= chars@);
    Some(value)
}

/// Appends the shortest numeral of `n` to `out`.
pub fn push_numeral(out: &mut String, n: u64)
    ensures
        final(out)@ == old(out)@ + numeral_of(n as nat),
    decreases n,
{
    if n >= 10 {
        push_numeral(out, n / 10);
    }
    let d: u8 = (n % 10) as u8;
    out.push((48u8 + d) as char);
    proof {
        if n >= 10 {
            assert(final(out)@ =~= old(out)@ + numeral_of(n as nat));
        } else {
            assert(final(out)@ =~= old(out)@ + numeral_of(n as nat));
        }
    }
}

/// Appends the decimal text of `i` to `out`.
pub fn push_integer(out: &mut String, i: i64)
    ensures
        final(out)@ == old(out)@ + integer_text(i as int),
{
    if i < 0 {
        out.push('-');
        let magnitude: u64 = (-(i as i128)) as u64;
        push_numeral(out, magnitude);
        assert(final(out)@ =~= old(out)@ + integer_text(i as int));
    } else {
        push_numeral(out, i as u64);
    }
}

} // verus!
