//! Decimal numerals: writing a number and reading one back.

use vstd::prelude::*;

verus! {

/// The character for a decimal digit.
pub open spec fn digit_char(d: nat) -> char
    recommends
        d < 10,
{
    if d == 0 {
        '0'
    } else if d == 1 {
        '1'
    } else if d == 2 {
        '2'
    } else if d == 3 {
        '3'
    } else if d == 4 {
        '4'
    } else if d == 5 {
        '5'
    } else if d == 6 {
        '6'
    } else if d == 7 {
        '7'
    } else if d == 8 {
        '8'
    } else {
        '9'
    }
}

/// The decimal numeral of `n`, without leading zeros.
pub open spec fn decimal(n: nat) -> Seq<char>
    decreases n,
{
    if n < 10 {
        seq![digit_char(n)]
    } else {
        decimal(n / 10).push(digit_char(n % 10))
    }
}

/// The digit that a character writes, if it writes one.
pub open spec fn digit_of(c: char) -> Option<nat> {
    if c == '0' {
        Some(0)
    } else if c == '1' {
        Some(1)
    } else if c == '2' {
        Some(2)
    } else if c == '3' {
        Some(3)
    } else if c == '4' {
        Some(4)
    } else if c == '5' {
        Some(5)
    } else if c == '6' {
        Some(6)
    } else if c == '7' {
        Some(7)
    } else if c == '8' {
        Some(8)
    } else if c == '9' {
        Some(9)
    } else {
        None
    }
}

/// Whether `text` is a decimal numeral: one digit or more and nothing else.
pub open spec fn is_numeral(text: Seq<char>) -> bool {
    text.len() > 0 && forall|i: int| 0 <= i < text.len() ==> digit_of(#[trigger] text[i]).is_some()
}

/// The number that a decimal numeral writes.
pub open spec fn numeral_value(text: Seq<char>) -> nat
    decreases text.len(),
{
    if text.len() == 0 {
        0
    } else {
        numeral_value(text.drop_last()) * 10 + match digit_of(text.last()) {
            Some(d) => d,
            None => 0,
        }
    }
}

/// What a flag's text means: the number it writes, if it is a decimal
/// numeral and the number is no larger than `max`.
pub open spec fn parsed(text: Seq<char>, max: u64) -> Option<u64> {
    if is_numeral(text) && numeral_value(text) <= max {
        Some(numeral_value(text) as u64)
    } else {
        None
    }
}

/// What a flag is set to: the number its text writes, or `default` where
/// the text is no number or one larger than `max`.
pub open spec fn flag_value(text: Seq<char>, default: u64, max: u64) -> u64 {
    match parsed(text, max) {
        Some(v) => v,
        None => default,
    }
}

/// A longer numeral writes no smaller number than its beginning.
proof fn lemma_numeral_grows(text: Seq<char>, n: int)
    requires
        0 <= n <= text.len(),
    ensures
        numeral_value(text.take(n)) <= numeral_value(text),
    decreases text.len() - n,
{
    if n == text.len() {
        assert(text.take(n) =~= text);
    } else {
        lemma_numeral_grows(text, n + 1);
        assert(text.take(n + 1).drop_last() =~= text.take(n));
    }
}

/// Writing a number in decimal and reading it back gives the number.
pub proof fn lemma_decimal_round_trip(n: nat)
    ensures
        is_numeral(decimal(n)),
        numeral_value(decimal(n)) == n,
    decreases n,
{
    if n < 10 {
        let text = decimal(n);
        assert(text.len() == 1 && text[0] == digit_char(n));
        assert(text.last() == digit_char(n));
        assert(numeral_value(text.drop_last()) == 0);
    } else {
        lemma_decimal_round_trip(n / 10);
        let front = decimal(n / 10);
        let text = front.push(digit_char(n % 10));
        assert(text.drop_last() =~= front);
        assert(text.last() == digit_char(n % 10));
        assert forall|i: int| 0 <= i < text.len() implies digit_of(#[trigger] text[i]).is_some() by {
            if i < front.len() {
                assert(text[i] == front[i]);
            }
        }
    }
}

/// The digit that a character writes, if it writes one.
fn digit_value(c: char) -> (d: Option<u64>)
    ensures
        match d {
            Some(v) => digit_of(c) == Some(v as nat) && v <= 9,
            None => digit_of(c).is_none(),
        },
{
    if c == '0' {
        Some(0)
    } else if c == '1' {
        Some(1)
    } else if c == '2' {
        Some(2)
    } else if c == '3' {
        Some(3)
    } else if c == '4' {
        Some(4)
    } else if c == '5' {
        Some(5)
    } else if c == '6' {
        Some(6)
    } else if c == '7' {
        Some(7)
    } else if c == '8' {
        Some(8)
    } else if c == '9' {
        Some(9)
    } else {
        None
    }
}

/// Reads a flag's text as a decimal number no larger than `max`. Anything
/// else (no text at all, a sign, a blank, a letter, a number too large) is
/// no number.
pub fn parse_number(text: &str, max: u64) -> (r: Option<u64>)
    ensures
        r == parsed(text@, max),
{
    let len: usize = text.unicode_len();
    if len == 0 {
        return None;
    }
    let mut value: u64 = 0;
    let mut i: usize = 0;
    while i < len
        invariant
            len == text@.len(),
            i <= len,
            value == numeral_value(text@.take(i as int)),
            value <= max,
            forall|j: int| 0 <= j < i ==> digit_of(#[trigger] text@[j]).is_some(),
        decreases len - i,
    {
        let c: char = text.get_char(i);
        proof {
            assert(text@.take(i + 1).drop_last() =~= text@.take(i as int));
            assert(text@.take(i + 1).last() == c);
            lemma_numeral_grows(text@, i + 1);
        }
        match digit_value(c) {
            None => {
                return None;
            },
            Some(d) => {
                if d > max || value > (max - d) / 10 {
                    return None;
                }
                value = value * 10 + d;
            },
        }
        i = i + 1;
    }
    proof {
        assert(text@.take(len as int) =~= text@);
    }
    Some(value)
}

/// Reads a flag's text as a number no larger than `max`, and falls back to
/// `default` where the text is no such number.
pub fn number_or_default(text: &str, default: u64, max: u64) -> (n: u64)
    ensures
        n == flag_value(text@, default, max),
        default <= max ==> n <= max,
{
    match parse_number(text, max) {
        Some(v) => v,
        None => default,
    }
}

/// The one-character text of a decimal digit.
fn digit_text(d: u16) -> (t: &'static str)
    requires
        d < 10,
    ensures
        t@ == seq![digit_char(d as nat)],
{
    proof {
        reveal_strlit("0");
        reveal_strlit("1");
        reveal_strlit("2");
        reveal_strlit("3");
        reveal_strlit("4");
        reveal_strlit("5");
        reveal_strlit("6");
        reveal_strlit("7");
        reveal_strlit("8");
        reveal_strlit("9");
    }
    let t = if d == 0 {
        "0"
    } else if d == 1 {
        "1"
    } else if d == 2 {
        "2"
    } else if d == 3 {
        "3"
    } else if d == 4 {
        "4"
    } else if d == 5 {
        "5"
    } else if d == 6 {
        "6"
    } else if d == 7 {
        "7"
    } else if d == 8 {
        "8"
    } else {
        "9"
    };
    assert(t@ =~= seq![digit_char(d as nat)]);
    t
}

/// Appends the decimal numeral of `n` to `out`.
pub(crate) fn push_decimal(out: &mut String, n: u16)
    ensures
        final(out)@ == old(out)@ + decimal(n as nat),
    decreases n,
{
    if n >= 10 {
        push_decimal(out, n / 10);
    }
    out.append(digit_text(n % 10));
    proof {
        if n >= 10 {
            assert(old(out)@ + decimal((n / 10) as nat) + seq![digit_char((n % 10) as nat)]
                =~= old(out)@ + decimal((n / 10) as nat).push(digit_char((n % 10) as nat)));
        }
    }
}

} // verus!
