//! Building text: decimal numbers, padding and joining.

use vstd::prelude::*;
use vstd::string::{StringExecFns, StringSliceAdditionalSpecFns};
use vstd::utf8::is_ascii_chars;

verus! {

/// The character that stands for the decimal digit `d`.
pub open spec fn digit_char(d: nat) -> char {
    if d == 0 {
        '0'
    } else if d == 1 {
        '1'
    } else if d == 2 {
        '2'
    } else if d == 3 {
        '3'
    } else if d == 4 {
        '4'
    } else if d == 5 {
        '5'
    } else if d == 6 {
        '6'
    } else if d == 7 {
        '7'
    } else if d == 8 {
        '8'
    } else {
        '9'
    }
}

/// `n` written in base ten, most significant digit first, without padding.
pub open spec fn decimal(n: nat) -> Seq<char>
    decreases n,
{
    if n < 10 {
        seq![digit_char(n)]
    } else {
        decimal(n / 10).push(digit_char(n % 10))
    }
}

/// `n` in base ten, with zeros before it where it has fewer than four digits.
pub open spec fn decimal4(n: nat) -> Seq<char> {
    if n < 10 {
        "000"@ + decimal(n)
    } else if n < 100 {
        "00"@ + decimal(n)
    } else if n < 1000 {
        "0"@ + decimal(n)
    } else {
        decimal(n)
    }
}

/// The texts of `parts` in a row, with `separator` between each two.
pub open spec fn joined(parts: Seq<Seq<char>>, separator: Seq<char>) -> Seq<char>
    decreases parts.len(),
{
    if parts.len() == 0 {
        Seq::empty()
    } else if parts.len() == 1 {
        parts[0]
    } else {
        joined(parts.drop_last(), separator) + separator + parts.last()
    }
}

/// The characters of each of `texts`.
pub open spec fn views(texts: Seq<String>) -> Seq<Seq<char>> {
    texts.map_values(|text: String| text@)
}

/// The one-character text of a decimal digit.
fn digit_str(d: u64) -> (s: &'static str)
    requires
        d < 10,
    ensures
        s@ == seq![digit_char(d as nat)],
{
    proof {
        reveal_strlit("0");
        reveal_strlit("1");
        reveal_strlit("2");
        reveal_strlit("3");
        reveal_strlit("4");
        reveal_strlit("5");
        reveal_strlit("6");
        reveal_strlit("7");
        reveal_strlit("8");
        reveal_strlit("9");
    }
    let s = if d == 0 {
        "0"
    } else if d == 1 {
        "1"
    } else if d == 2 {
        "2"
    } else if d == 3 {
        "3"
    } else if d == 4 {
        "4"
    } else if d == 5 {
        "5"
    } else if d == 6 {
        "6"
    } else if d == 7 {
        "7"
    } else if d == 8 {
        "8"
    } else {
        "9"
    };
    assert(s@ =~= seq![digit_char(d as nat)]);
    s
}

/// Appends `n` in base ten to `out`.
pub fn push_decimal(out: &mut String, n: u64)
    ensures
        final(out)@ == old(out)@ + decimal(n as nat),
    decreases n,
{
    if n >= 10 {
        push_decimal(out, n / 10);
    }
    out.append(digit_str(n % 10));
    assert(out@ =~= old(out)@ + decimal(n as nat));
}

/// Appends `n` in base ten to `out`, with zeros before it where it has fewer
/// than four digits.
pub fn push_decimal4(out: &mut String, n: u16)
    ensures
        final(out)@ == old(out)@ + decimal4(n as nat),
{
    if n < 10 {
        out.append("000");
    } else if n < 100 {
        out.append("00");
    } else if n < 1000 {
        out.append("0");
    }
    push_decimal(out, n as u64);
    assert(out@ =~= old(out)@ + decimal4(n as nat));
}

/// Appends the texts of `parts` to `out`, with `separator` between each two.
pub fn push_joined(out: &mut String, parts: &Vec<String>, separator: &str)
    ensures
        final(out)@ == old(out)@ + joined(views(parts@), separator@),
{
    let mut i: usize = 0;
    while i < parts.len()
        invariant
            i <= parts.len(),
            out@ == old(out)@ + joined(views(parts@).take(i as int), separator@),
        decreases parts.len() - i,
    {
        proof {
            let next = views(parts@).take(i + 1);
            assert(next.drop_last() =~= views(parts@).take(i as int));
            assert(next.last() == parts@[i as int]@);
        }
        if i > 0 {
            out.append(separator);
        }
        out.append(parts[i].as_str());
        i = i + 1;
        assert(out@ =~= old(out)@ + joined(views(parts@).take(i as int), separator@));
    }
    assert(views(parts@).take(parts.len() as int) =~= views(parts@));
}

/// `n` in base ten.
pub fn decimal_string(n: u64) -> (text: String)
    ensures
        text@ == decimal(n as nat),
{
    let mut text = String::new();
    push_decimal(&mut text, n);
    assert(text@ =~= decimal(n as nat));
    text
}

} // verus!

verus! {

/// The value of a decimal digit.
pub open spec fn digit_value(c: char) -> Option<nat> {
    if '0' <= c <= '9' {
        Some((c as nat - '0' as nat) as nat)
    } else {
        None
    }
}

/// The number that a row of decimal digits stands for; the empty row stands
/// for 0.
pub open spec fn number(digits: Seq<char>) -> Option<nat>
    decreases digits.len(),
{
    if digits.len() == 0 {
        Some(0)
    } else {
        match (number(digits.drop_last()), digit_value(digits.last())) {
            (Some(before), Some(digit)) => Some(before * 10 + digit),
            _ => None,
        }
    }
}

/// The number that `text` stands for: one or more decimal digits, with a
/// plus sign before them or without, and no more than a `u64` holds.
pub open spec fn parsed_number(text: Seq<char>) -> Option<u64> {
    let digits = if text.len() > 0 && text[0] == '+' {
        text.drop_first()
    } else {
        text
    };
    match number(digits) {
        Some(value) if digits.len() > 0 && value <= u64::MAX => Some(value as u64),
        _ => None,
    }
}

/// Digits that stand for a number begin with digits that stand for a number
/// no greater, and are digits throughout.
pub proof fn lemma_number_prefix(digits: Seq<char>, n: int)
    requires
        0 <= n <= digits.len(),
        number(digits) is Some,
    ensures
        number(digits.take(n)) is Some,
        number(digits.take(n))->0 <= number(digits)->0,
        forall|i: int| 0 <= i < digits.len() ==> digit_value(#[trigger] digits[i]) is Some,
    decreases digits.len(),
{
    if digits.len() == 0 {
        assert(digits.take(n) =~= digits);
    } else {
        let shorter = digits.drop_last();
        if n == digits.len() {
            assert(digits.take(n) =~= digits);
            lemma_number_prefix(shorter, n - 1);
        } else {
            lemma_number_prefix(shorter, n);
            assert(shorter.take(n) =~= digits.take(n));
        }
        assert forall|i: int| 0 <= i < digits.len() implies digit_value(#[trigger] digits[i])
            is Some by {
            if i < shorter.len() {
                assert(shorter[i] == digits[i]);
            }
        }
    }
}

/// The number that `text` stands for, if it stands for one.
pub fn parse_number(text: &str) -> (value: Option<u64>)
    ensures
        value == parsed_number(text@),
{
    let ghost digits = if text@.len() > 0 && text@[0] == '+' {
        text@.drop_first()
    } else {
        text@
    };
    if !text.is_ascii() {
        proof {
            let at = choose|at: int|
                0 <= at < text@.len() && !('\0' <= #[trigger] text@[at] <= '\u{7f}');
            if number(digits) is Some {
                lemma_number_prefix(digits, 0);
                if text@.len() > 0 && text@[0] == '+' {
                    assert(digits[at - 1] == text@[at]);
                } else {
                    assert(digits[at] == text@[at]);
                }
            }
        }
        return None;
    }
    let bytes = text.as_bytes();
    proof {
        vstd::string::is_ascii_spec_bytes(text);
    }
    let n = bytes.len();
    assert(n == text@.len());
    assert(forall|i: int| 0 <= i < n ==> bytes@[i] == #[trigger] text@[i] as u8);
    let start: usize = if n > 0 && bytes[0] == 43u8 {
        1
    } else {
        0
    };
    assert(digits =~= text@.skip(start as int)) by {
        if n > 0 {
            assert(bytes@[0] == text@[0] as u8);
            assert('\0' <= text@[0] <= '\u{7f}');
        }
    }
    if start == n {
        return None;
    }
    let mut value: u64 = 0;
    let mut i: usize = start;
    while i < n
        invariant
            start <= i <= n,
            n == text@.len(),
            bytes@.len() == n,
            is_ascii_chars(text@),
            forall|j: int| 0 <= j < n ==> bytes@[j] == #[trigger] text@[j] as u8,
            digits == text@.skip(start as int),
            digits == if text@.len() > 0 && text@[0] == '+' {
                text@.drop_first()
            } else {
                text@
            },
            number(digits.take(i - start)) == Some(value as nat),
        decreases n - i,
    {
        let byte = bytes[i];
        proof {
            let next = digits.take(i - start + 1);
            assert(next.drop_last() =~= digits.take(i - start));
            assert(next.last() == text@[i as int]);
            assert(bytes@[i as int] == text@[i as int] as u8);
            assert('\0' <= text@[i as int] <= '\u{7f}');
        }
        if byte < 48u8 || byte > 57u8 {
            proof {
                assert(digit_value(text@[i as int]) is None);
                if number(digits) is Some {
                    lemma_number_prefix(digits, i - start + 1);
                }
            }
            return None;
        }
        let digit: u64 = (byte - 48u8) as u64;
        assert(digit_value(text@[i as int]) == Some(digit as nat));
        let next = match value.checked_mul(10) {
            Some(tenfold) => tenfold.checked_add(digit),
            None => None,
        };
        match next {
            Some(next) => {
                value = next;
            },
            None => {
                proof {
                    assert(value * 10 + digit > u64::MAX);
                    if number(digits) is Some {
                        lemma_number_prefix(digits, i - start + 1);
                    }
                }
                return None;
            },
        }
        i = i + 1;
    }
    assert(digits.take(n - start) =~= digits);
    Some(value)
}

} // verus!
