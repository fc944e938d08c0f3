//! Decimal literals: which texts denote a number, and the value of an unsigned one.

use crate::text::{chars_of, string_of};
use vstd::prelude::*;

verus! {

/// The decimal digits `0` to `9`.
pub open spec fn is_digit(c: char) -> bool {
    '0' <= c <= '9'
}

/// The signs `+` and `-`.
pub open spec fn is_sign(c: char) -> bool {
    c == '+' || c == '-'
}

/// How many decimal digits `s` starts with.
pub open spec fn leading_digits(s: Seq<char>) -> nat
    decreases s.len(),
{
    if s.len() > 0 && is_digit(s[0]) {
        1 + leading_digits(s.skip(1))
    } else {
        0
    }
}

/// `s` without the sign it may start with.
pub open spec fn unsigned_part(s: Seq<char>) -> Seq<char> {
    if s.len() > 0 && is_sign(s[0]) {
        s.skip(1)
    } else {
        s
    }
}

/// The ASCII letter `c` in lower case; any other character unchanged.
pub open spec fn ascii_lower(c: char) -> char {
    if 'A' <= c <= 'Z' {
        ((c as u32) + 32) as char
    } else {
        c
    }
}

/// Whether `s` spells `word`, letter case aside. `word` is in lower case.
pub open spec fn spells(s: Seq<char>, word: Seq<char>) -> bool {
    &&& s.len() == word.len()
    &&& forall|i: int| 0 <= i < s.len() ==> ascii_lower(#[trigger] s[i]) == word[i]
}

/// `inf`, `infinity` or `nan`, in any letter case.
pub open spec fn is_special(s: Seq<char>) -> bool {
    spells(s, "inf"@) || spells(s, "infinity"@) || spells(s, "nan"@)
}

/// An exponent: `e` or `E`, an optional sign, and at least one digit.
pub open spec fn is_exponent(s: Seq<char>) -> bool {
    &&& s.len() > 0
    &&& (s[0] == 'e' || s[0] == 'E')
    &&& unsigned_part(s.skip(1)).len() > 0
    &&& leading_digits(unsigned_part(s.skip(1))) == unsigned_part(s.skip(1)).len()
}

/// Digits with at most one point among them and at least one digit in all, then an
/// optional exponent.
pub open spec fn is_number(s: Seq<char>) -> bool {
    let whole = leading_digits(s);
    let after_whole = s.skip(whole as int);
    let has_point = after_whole.len() > 0 && after_whole[0] == '.';
    let fraction = if has_point {
        leading_digits(after_whole.skip(1))
    } else {
        0
    };
    let rest = if has_point {
        after_whole.skip(1 + fraction as int)
    } else {
        after_whole
    };
    &&& whole + fraction > 0
    &&& (rest.len() == 0 || is_exponent(rest))
}

/// The texts that denote a floating-point number: an optional sign, then a special
/// word or a decimal number. No whitespace, no digit separators, no radix prefix.
pub open spec fn is_float_text(s: Seq<char>) -> bool {
    is_special(unsigned_part(s)) || is_number(unsigned_part(s))
}

/// The number that the decimal digit `c` denotes.
pub open spec fn digit_value(c: char) -> nat {
    (c as u32 - '0' as u32) as nat
}

/// The number that the decimal digits `s` denote.
pub open spec fn decimal_value(s: Seq<char>) -> nat
    decreases s.len(),
{
    if s.len() == 0 {
        0
    } else {
        decimal_value(s.drop_last()) * 10 + digit_value(s.last())
    }
}

/// The value of an unsigned decimal literal: an optional `+`, then at least one digit
/// and nothing else; `None` for any other text and for a value above `u64::MAX`.
pub open spec fn unsigned_value(s: Seq<char>) -> Option<u64> {
    let digits = if s.len() > 0 && s[0] == '+' {
        s.skip(1)
    } else {
        s
    };
    if digits.len() > 0 && leading_digits(digits) == digits.len() && decimal_value(digits)
        <= u64::MAX {
        Some(decimal_value(digits) as u64)
    } else {
        None
    }
}

/// A text starts with no more digits than it has characters.
pub proof fn lemma_leading_digits_bound(s: Seq<char>)
    ensures
        leading_digits(s) <= s.len(),
    decreases s.len(),
{
    if s.len() > 0 && is_digit(s[0]) {
        lemma_leading_digits_bound(s.skip(1));
    }
}

/// A text that digits fill entirely is made of digits only, and conversely.
pub proof fn lemma_leading_digits_full(s: Seq<char>)
    ensures
        leading_digits(s) == s.len() <==> (forall|i: int| 0 <= i < s.len() ==> is_digit(s[i])),
    decreases s.len(),
{
    if s.len() > 0 {
        lemma_leading_digits_bound(s.skip(1));
        lemma_leading_digits_full(s.skip(1));
        if is_digit(s[0]) {
            if leading_digits(s) == s.len() {
                assert forall|i: int| 0 <= i < s.len() implies is_digit(s[i]) by {
                    if i > 0 {
                        assert(s[i] == s.skip(1)[i - 1]);
                    }
                }
            }
            if forall|i: int| 0 <= i < s.len() ==> is_digit(s[i]) {
                assert forall|i: int| 0 <= i < s.skip(1).len() implies is_digit(s.skip(1)[i]) by {
                    assert(s.skip(1)[i] == s[i + 1]);
                }
            }
        }
    }
}

/// Digits alone denote a number.
pub proof fn lemma_digits_are_float_text(s: Seq<char>)
    requires
        s.len() > 0,
        forall|i: int| 0 <= i < s.len() ==> is_digit(s[i]),
    ensures
        is_float_text(s),
{
    lemma_leading_digits_full(s);
}

fn is_digit_char(c: char) -> (d: bool)
    ensures
        d == is_digit(c),
{
    '0' <= c && c <= '9'
}

/// The index of the first character at or after `from` that is no digit, or `to`.
fn skip_digits(chars: &Vec<char>, from: usize, to: usize) -> (i: usize)
    requires
        from <= to <= chars.len(),
    ensures
        i == from + leading_digits(chars@.subrange(from as int, to as int)),
        from <= i <= to,
{
    let mut i: usize = from;
    while i < to && is_digit_char(chars[i])
        invariant
            from <= i <= to <= chars.len(),
            leading_digits(chars@.subrange(from as int, to as int)) == (i - from) + leading_digits(
                chars@.subrange(i as int, to as int),
            ),
        decreases to - i,
    {
        assert(chars@.subrange(i as int, to as int).skip(1) == chars@.subrange(
            i as int + 1,
            to as int,
        ));
        i += 1;
    }
    i
}

/// The index after the sign that `chars[from..to]` may start with.
fn skip_sign(chars: &Vec<char>, from: usize, to: usize) -> (i: usize)
    requires
        from <= to <= chars.len(),
    ensures
        from <= i <= to,
        chars@.subrange(i as int, to as int) == unsigned_part(
            chars@.subrange(from as int, to as int),
        ),
{
    if from < to && (chars[from] == '+' || chars[from] == '-') {
        from + 1
    } else {
        from
    }
}

fn lower(c: char) -> (l: char)
    ensures
        l == ascii_lower(c),
{
    if 'A' <= c && c <= 'Z' {
        ((c as u8) + 32) as char
    } else {
        c
    }
}

/// Whether `chars[from..to]` spells `word`, letter case aside.
fn spells_word(chars: &Vec<char>, from: usize, to: usize, word: &str) -> (b: bool)
    requires
        from <= to <= chars.len(),
    ensures
        b == spells(chars@.subrange(from as int, to as int), word@),
{
    let letters = chars_of(word);
    if letters.len() != to - from {
        return false;
    }
    let ghost s = chars@.subrange(from as int, to as int);
    let mut i: usize = 0;
    while i < letters.len()
        invariant
            from <= to <= chars.len(),
            letters.len() == to - from,
            letters@ == word@,
            s == chars@.subrange(from as int, to as int),
            i <= letters.len(),
            forall|k: int| 0 <= k < i ==> ascii_lower(#[trigger] s[k]) == word@[k],
        decreases letters.len() - i,
    {
        if lower(chars[from + i]) != letters[i] {
            assert(ascii_lower(s[i as int]) != word@[i as int]);
            return false;
        }
        i += 1;
    }
    true
}

/// Whether `chars[from..to]` is an exponent.
fn is_exponent_at(chars: &Vec<char>, from: usize, to: usize) -> (b: bool)
    requires
        from <= to <= chars.len(),
    ensures
        b == is_exponent(chars@.subrange(from as int, to as int)),
{
    if from == to || !(chars[from] == 'e' || chars[from] == 'E') {
        return false;
    }
    assert(chars@.subrange(from as int, to as int).skip(1) == chars@.subrange(
        from as int + 1,
        to as int,
    ));
    let digits = skip_sign(chars, from + 1, to);
    let end = skip_digits(chars, digits, to);
    digits < to && end == to
}

/// Whether `chars[from..to]` is a decimal number without a sign.
fn is_number_at(chars: &Vec<char>, from: usize, to: usize) -> (b: bool)
    requires
        from <= to <= chars.len(),
    ensures
        b == is_number(chars@.subrange(from as int, to as int)),
{
    let ghost s = chars@.subrange(from as int, to as int);
    let whole_end = skip_digits(chars, from, to);
    assert(s.skip(whole_end - from) == chars@.subrange(whole_end as int, to as int));
    let has_point = whole_end < to && chars[whole_end] == '.';
    let mut rest = whole_end;
    if has_point {
        assert(s.skip(whole_end - from).skip(1) == chars@.subrange(
            whole_end as int + 1,
            to as int,
        ));
        rest = skip_digits(chars, whole_end + 1, to);
        assert(s.skip(whole_end - from).skip(1 + (rest - whole_end - 1)) == chars@.subrange(
            rest as int,
            to as int,
        ));
        if rest - from < 2 {
            return false;
        }
    } else if whole_end == from {
        return false;
    }
    rest == to || is_exponent_at(chars, rest, to)
}

/// Whether `chars[from..to]` denotes a floating-point number.
fn is_float_at(chars: &Vec<char>, from: usize, to: usize) -> (b: bool)
    requires
        from <= to <= chars.len(),
    ensures
        b == is_float_text(chars@.subrange(from as int, to as int)),
{
    let body = skip_sign(chars, from, to);
    spells_word(chars, body, to, "inf") || spells_word(chars, body, to, "infinity") || spells_word(
        chars,
        body,
        to,
        "nan",
    ) || is_number_at(chars, body, to)
}

/// A longer run of digits denotes no smaller number than the digits it starts with.
pub proof fn lemma_decimal_value_grows(s: Seq<char>, k: int)
    requires
        0 <= k <= s.len(),
    ensures
        decimal_value(s.take(k)) <= decimal_value(s),
    decreases s.len() - k,
{
    if k < s.len() {
        lemma_decimal_value_grows(s.drop_last(), k);
        assert(s.drop_last().take(k) == s.take(k));
    } else {
        assert(s.take(k) == s);
    }
}

/// The value of the unsigned decimal literal `chars[from..to]`, as `str::parse::<u64>`
/// reads it.
fn parse_unsigned_at(chars: &Vec<char>, from: usize, to: usize) -> (value: Option<u64>)
    requires
        from <= to <= chars.len(),
    ensures
        value == unsigned_value(chars@.subrange(from as int, to as int)),
{
    let ghost s = chars@.subrange(from as int, to as int);
    let start = if from < to && chars[from] == '+' {
        from + 1
    } else {
        from
    };
    let ghost digits = chars@.subrange(start as int, to as int);
    assert(digits == if s.len() > 0 && s[0] == '+' {
        s.skip(1)
    } else {
        s
    });
    let end = skip_digits(chars, start, to);
    if start == to || end != to {
        return None;
    }
    proof {
        lemma_leading_digits_full(digits);
    }
    let ghost expected = unsigned_value(s);
    let mut value: u64 = 0;
    let mut i: usize = start;
    while i < to
        invariant
            start <= i <= to <= chars.len(),
            digits == chars@.subrange(start as int, to as int),
            forall|k: int| 0 <= k < digits.len() ==> is_digit(digits[k]),
            value == decimal_value(digits.take(i - start)),
            expected == if decimal_value(digits) <= u64::MAX {
                Some(decimal_value(digits) as u64)
            } else {
                None
            },
            expected == unsigned_value(chars@.subrange(from as int, to as int)),
        decreases to - i,
    {
        let c = chars[i];
        assert(c == digits[i - start]);
        let d = (c as u8 - '0' as u8) as u64;
        proof {
            assert(digits.take(i - start + 1).drop_last() == digits.take(i - start));
            lemma_decimal_value_grows(digits, i - start + 1);
        }
        let next = match value.checked_mul(10) {
            Some(v) => v.checked_add(d),
            None => None,
        };
        match next {
            Some(v) => {
                value = v;
            },
            None => {
                return None;
            },
        }
        i += 1;
    }
    assert(digits.take(to - start) == digits);
    Some(value)
}

/// The value of the unsigned decimal literal `s`: an optional `+` and digits.
pub fn parse_unsigned(s: &str) -> (value: Option<u64>)
    ensures
        value == unsigned_value(s@),
{
    let chars = chars_of(s);
    assert(chars@.subrange(0, chars.len() as int) == s@);
    parse_unsigned_at(&chars, 0, chars.len())
}

/// A text that denotes a floating-point number, kept as it was written.
#[derive(Debug, PartialEq, Eq)]
pub struct Decimal {
    text: String,
}

impl View for Decimal {
    type V = Seq<char>;

    /// The literal's characters.
    closed spec fn view(&self) -> Seq<char> {
        self.text@
    }
}

impl DeepView for Decimal {
    type V = Seq<char>;

    open spec fn deep_view(&self) -> Seq<char> {
        self@
    }
}

impl Decimal {
    #[verifier::type_invariant]
    spec fn well_formed(self) -> bool {
        is_float_text(self.text@)
    }

    /// `s` as a `Decimal`, where `s` denotes a floating-point number.
    pub fn parse(s: &str) -> (d: Option<Decimal>)
        ensures
            d is Some <==> is_float_text(s@),
            d is Some ==> d->0@ == s@,
    {
        let chars = chars_of(s);
        assert(chars@.subrange(0, chars.len() as int) == s@);
        Decimal::from_chars(&chars, 0, chars.len())
    }

    /// `chars[from..to]` as a `Decimal`, where it denotes a floating-point number.
    pub(crate) fn from_chars(chars: &Vec<char>, from: usize, to: usize) -> (d: Option<Decimal>)
        requires
            from <= to <= chars.len(),
        ensures
            d is Some <==> is_float_text(chars@.subrange(from as int, to as int)),
            d is Some ==> d->0@ == chars@.subrange(from as int, to as int),
    {
        if is_float_at(chars, from, to) {
            Some(Decimal { text: string_of(chars, from, to) })
        } else {
            None
        }
    }

    /// The literal as it was written; it always denotes a floating-point number.
    pub fn as_str(&self) -> (s: &str)
        ensures
            s@ == self@,
            is_float_text(s@),
    {
        proof {
            use_type_invariant(self);
        }
        self.text.as_str()
    }
}

} // verus!
