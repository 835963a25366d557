//! Numbers as decimal text.

use vstd::prelude::*;

use crate::text::chars_of;

verus! {

/// The digit that stands for `d`, which is below ten.
pub open spec fn digit(d: nat) -> char {
    (48 + d) as char
}

/// `c` is a decimal digit.
pub open spec fn is_digit(c: char) -> bool {
    '0' <= c <= '9'
}

/// The value of a decimal digit.
pub open spec fn digit_value(c: char) -> nat {
    (c as int - 48) as nat
}

/// The decimal digits of `n`, without leading zeros.
pub open spec fn decimal(n: nat) -> Seq<char>
    decreases n,
{
    if n < 10 {
        seq![digit(n)]
    } else {
        decimal(n / 10).push(digit(n % 10))
    }
}

/// The decimal digits of `n`, with zeros in front of them up to `width` characters.
pub open spec fn padded_decimal(n: nat, width: nat) -> Seq<char> {
    let digits = decimal(n);
    if digits.len() < width {
        Seq::new((width - digits.len()) as nat, |i: int| '0') + digits
    } else {
        digits
    }
}

/// The number that a text of decimal digits stands for.
pub open spec fn digits_value(s: Seq<char>) -> nat
    decreases s.len(),
{
    if s.len() == 0 {
        0
    } else {
        digits_value(s.drop_last()) * 10 + digit_value(s.last())
    }
}

/// The text without one leading plus sign.
pub open spec fn without_plus(s: Seq<char>) -> Seq<char> {
    if s.len() > 0 && s[0] == '+' {
        s.drop_first()
    } else {
        s
    }
}

/// The unsigned number that `s` is written as: digits, at least one, after an optional plus sign.
pub open spec fn parsed_number(s: Seq<char>) -> Option<nat> {
    let digits = without_plus(s);
    if digits.len() > 0 && forall|i: int| 0 <= i < digits.len() ==> is_digit(#[trigger] digits[i]) {
        Some(digits_value(digits))
    } else {
        None
    }
}

/// The digit that stands for `d`.
fn digit_of(d: u64) -> (c: char)
    requires
        d < 10,
    ensures
        c == digit(d as nat),
{
    (48 + d as u8) as char
}

/// `n` in decimal.
pub fn decimal_text(n: u64) -> (text: String)
    ensures
        text@ == decimal(n as nat),
    decreases n,
{
    let mut text = if n < 10 {
        String::new()
    } else {
        decimal_text(n / 10)
    };
    text.push(digit_of(n % 10));
    assert(text@ =~= decimal(n as nat));
    text
}

/// `n` in decimal, with zeros in front up to `width` characters.
pub fn padded_text(n: u64, width: usize) -> (text: String)
    ensures
        text@ == padded_decimal(n as nat, width as nat),
{
    let digits = decimal_text(n);
    let count: usize = chars_of(digits.as_str()).len();
    let mut text = String::new();
    let mut i: usize = count;
    while i < width
        invariant
            count == digits@.len(),
            count <= i,
            i <= width || count == i,
            text@ == Seq::new((i - count) as nat, |j: int| '0'),
        decreases width - i,
    {
        text.push('0');
        i += 1;
        assert(text@ =~= Seq::new((i - count) as nat, |j: int| '0'));
    }
    text.append(digits.as_str());
    assert(text@ =~= padded_decimal(n as nat, width as nat));
    text
}

/// A number in decimal, with a minus sign where it is negative.
pub open spec fn signed_decimal(n: int) -> Seq<char> {
    if n < 0 {
        "-"@ + decimal((-n) as nat)
    } else {
        decimal(n as nat)
    }
}

/// `n` in decimal, with a minus sign where it is negative.
pub fn signed_text(n: i32) -> (text: String)
    ensures
        text@ == signed_decimal(n as int),
{
    let wide: i64 = n as i64;
    if wide < 0 {
        "-".to_string().concat(decimal_text((-wide) as u64).as_str())
    } else {
        decimal_text(wide as u64)
    }
}

/// The number that `text` is written as, where it is one that fits.
pub fn parse_number(text: &str) -> (number: Option<usize>)
    ensures
        match parsed_number(text@) {
            Some(value) => number == (if value <= usize::MAX {
                Some(value as usize)
            } else {
                None
            }),
            None => number is None,
        },
{
    let chars = chars_of(text);
    let start: usize = if chars.len() > 0 && chars[0] == '+' {
        1
    } else {
        0
    };
    let ghost digits = without_plus(text@);
    assert(digits == chars@.skip(start as int));
    if start == chars.len() {
        return None;
    }
    let mut value: usize = 0;
    let mut fits = true;
    let mut i: usize = start;
    while i < chars.len()
        invariant
            chars@ == text@,
            start <= i <= chars@.len(),
            digits == chars@.skip(start as int),
            digits == without_plus(text@),
            start < chars@.len(),
            forall|j: int| 0 <= j < i - start ==> is_digit(#[trigger] digits[j]),
            fits ==> value == digits_value(digits.take(i - start)),
            !fits ==> digits_value(digits.take(i - start)) > usize::MAX,
        decreases chars@.len() - i,
    {
        let c = chars[i];
        let ghost k = i - start;
        assert(digits[k] == c);
        if !('0' <= c && c <= '9') {
            assert(!is_digit(digits[k]));
            return None;
        }
        assert(digits.take(k + 1).drop_last() == digits.take(k));
        let d: usize = c as usize - 48;
        if fits {
            if value > (usize::MAX - d) / 10 {
                proof {
                    assert(value * 10 + d > usize::MAX) by (nonlinear_arith)
                        requires
                            value > (usize::MAX - d) / 10,
                            d <= usize::MAX,
                    ;
                }
                fits = false;
            } else {
                value = value * 10 + d;
            }
        }
        i += 1;
    }
    assert(digits.take(i - start) == digits);
    if fits {
        Some(value)
    } else {
        None
    }
}

/// The digits of a number are digits, and stand for it.
pub proof fn lemma_decimal_value(n: nat)
    ensures
        decimal(n).len() > 0,
        forall|i: int| 0 <= i < decimal(n).len() ==> is_digit(#[trigger] decimal(n)[i]),
        digits_value(decimal(n)) == n,
    decreases n,
{
    if n < 10 {
        assert(seq![digit(n)].drop_last() == Seq::<char>::empty());
        assert(digits_value(Seq::<char>::empty()) == 0);
        assert(digit_value(digit(n)) == n);
    } else {
        lemma_decimal_value(n / 10);
        assert(decimal(n).drop_last() == decimal(n / 10));
    }
}

/// A number written in decimal is read back as that number.
pub proof fn lemma_number_round_trip(n: nat)
    ensures
        parsed_number(decimal(n)) == Some(n),
{
    lemma_decimal_value(n);
    assert(is_digit(decimal(n)[0]));
}

/// A number with zeros in front is read back as that number, and has the width that it was given, or
/// more where its digits need more.
pub proof fn law_padding_keeps_the_number(n: nat, width: nat)
    ensures
        parsed_number(padded_decimal(n, width)) == Some(n),
        padded_decimal(n, width).len() >= width,
        padded_decimal(n, width).len() == width || padded_decimal(n, width) == decimal(n),
{
    let digits = decimal(n);
    lemma_decimal_value(n);
    assert(is_digit(digits[0]));
    if digits.len() < width {
        let zeros = Seq::new((width - digits.len()) as nat, |i: int| '0');
        lemma_zeros_in_front(zeros, digits);
        let padded = padded_decimal(n, width);
        assert(padded == zeros + digits);
        assert(padded[0] == '0');
        assert forall|i: int| 0 <= i < padded.len() implies is_digit(#[trigger] padded[i]) by {
            if i >= zeros.len() {
                assert(padded[i] == digits[i - zeros.len()]);
            }
        }
    }
}

/// Zeros in front do not change what digits stand for.
proof fn lemma_zeros_in_front(zeros: Seq<char>, digits: Seq<char>)
    requires
        forall|i: int| 0 <= i < zeros.len() ==> #[trigger] zeros[i] == '0',
    ensures
        digits_value(zeros + digits) == digits_value(digits),
    decreases zeros.len() + digits.len(),
{
    let all = zeros + digits;
    if digits.len() > 0 {
        assert(all.drop_last() =~= zeros + digits.drop_last());
        lemma_zeros_in_front(zeros, digits.drop_last());
    } else if zeros.len() > 0 {
        let rest = zeros.drop_last();
        assert forall|i: int| 0 <= i < rest.len() implies #[trigger] rest[i] == '0' by {
            assert(rest[i] == zeros[i]);
        }
        assert(all.drop_last() =~= rest + digits);
        assert(all.last() == zeros[zeros.len() - 1]);
        lemma_zeros_in_front(rest, digits);
    } else {
        assert(all =~= digits);
    }
}

/// Different numbers are written differently, and a negative one with a sign before its size.
pub proof fn law_numbers_are_told_apart(n: int, m: int)
    ensures
        signed_decimal(n) == signed_decimal(m) ==> n == m,
        n >= 0 ==> parsed_number(signed_decimal(n)) == Some(n as nat),
        n < 0 ==> signed_decimal(n)[0] == '-' && parsed_number(signed_decimal(n).drop_first()) == Some((-n) as nat),
{
    reveal_strlit("-");
    lemma_number_round_trip(if n < 0 { (-n) as nat } else { n as nat });
    lemma_number_round_trip(if m < 0 { (-m) as nat } else { m as nat });
    lemma_decimal_value(if n < 0 { (-n) as nat } else { n as nat });
    lemma_decimal_value(if m < 0 { (-m) as nat } else { m as nat });
    if n < 0 {
        assert(signed_decimal(n).drop_first() =~= decimal((-n) as nat));
    } else {
        assert(is_digit(decimal(n as nat)[0]));
    }
    if m < 0 {
        assert(signed_decimal(m).drop_first() =~= decimal((-m) as nat));
    } else {
        assert(is_digit(decimal(m as nat)[0]));
    }
}

/// Numbers are written in tens: a further digit behind a number makes ten times as much and the digit.
pub proof fn law_numbers_are_written_in_tens(n: nat, d: nat)
    requires
        d < 10,
    ensures
        decimal(d) == seq!["0123456789"@[d as int]],
        n > 0 ==> decimal(n * 10 + d) == decimal(n).push("0123456789"@[d as int]),
{
    reveal_strlit("0123456789");
    assert((n * 10 + d) / 10 == n);
    assert((n * 10 + d) % 10 == d);
    assert(decimal(d) =~= seq![digit(d)]);
    if n > 0 {
        assert(decimal(n * 10 + d) =~= decimal(n).push(digit(d)));
    }
}

/// A text is a number exactly when it is digits, at least one, behind a plus sign or none, and the plus
/// sign makes no difference.
pub proof fn law_only_digits_are_numbers(s: Seq<char>)
    ensures
        s.len() > 0 && (forall|i: int| 0 <= i < s.len() ==> '0' <= #[trigger] s[i] && s[i] <= '9') ==> parsed_number(s)
            is Some && parsed_number(seq!['+'] + s) == parsed_number(s),
        parsed_number(s) is Some ==> s.len() > 0 && (s[0] == '+' || ('0' <= s[0] && s[0] <= '9')) && forall|i: int|
            1 <= i < s.len() ==> '0' <= #[trigger] s[i] && s[i] <= '9',
{
    if parsed_number(s) is Some {
        let digits = without_plus(s);
        assert forall|i: int| 1 <= i < s.len() implies '0' <= #[trigger] s[i] && s[i] <= '9' by {
            if s[0] == '+' {
                assert(is_digit(digits[i - 1]));
            } else {
                assert(is_digit(digits[i]));
            }
        }
        assert(is_digit(digits[0]));
    }
    if s.len() > 0 && (forall|i: int| 0 <= i < s.len() ==> '0' <= #[trigger] s[i] && s[i] <= '9') {
        assert(s[0] != '+');
        assert(without_plus(s) =~= s);
        assert((seq!['+'] + s)[0] == '+');
        assert(without_plus(seq!['+'] + s) =~= s);
        assert forall|i: int| 0 <= i < s.len() implies is_digit(#[trigger] s[i]) by {}
    }
}

} // verus!
