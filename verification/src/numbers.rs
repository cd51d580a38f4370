//! Numbers as text: decimal and hexadecimal digits.

use vstd::prelude::*;
use crate::text::to_chars;

verus! {

/// The decimal digit for a value below ten.
pub open spec fn digit_char(d: int) -> char {
    if d == 0 {
        '0'
    } else if d == 1 {
        '1'
    } else if d == 2 {
        '2'
    } else if d == 3 {
        '3'
    } else if d == 4 {
        '4'
    } else if d == 5 {
        '5'
    } else if d == 6 {
        '6'
    } else if d == 7 {
        '7'
    } else if d == 8 {
        '8'
    } else {
        '9'
    }
}

/// The decimal digits of `n`, without leading zeros; `0` for zero.
pub open spec fn decimal(n: nat) -> Seq<char>
    decreases n,
{
    if n < 10 {
        seq![digit_char(n as int)]
    } else {
        decimal(n / 10).push(digit_char((n % 10) as int))
    }
}

fn digit_text(d: u64) -> (s: &'static str)
    requires
        d < 10,
    ensures
        s@ == seq![digit_char(d as int)],
{
    let s = if d == 0 {
        "0"
    } else if d == 1 {
        "1"
    } else if d == 2 {
        "2"
    } else if d == 3 {
        "3"
    } else if d == 4 {
        "4"
    } else if d == 5 {
        "5"
    } else if d == 6 {
        "6"
    } else if d == 7 {
        "7"
    } else if d == 8 {
        "8"
    } else {
        "9"
    };
    proof {
        reveal_strlit("0");
        reveal_strlit("1");
        reveal_strlit("2");
        reveal_strlit("3");
        reveal_strlit("4");
        reveal_strlit("5");
        reveal_strlit("6");
        reveal_strlit("7");
        reveal_strlit("8");
        reveal_strlit("9");
        assert(s@ =~= seq![digit_char(d as int)]);
    }
    s
}

/// Writes `n` in decimal.
pub fn to_decimal(n: u64) -> (out: String)
    ensures
        out@ == decimal(n as nat),
    decreases n,
{
    if n < 10 {
        digit_text(n).to_owned()
    } else {
        let mut out: String = to_decimal(n / 10);
        out.append(digit_text(n % 10));
        out
    }
}

/// The value of a decimal digit, if the character is one.
pub open spec fn digit_value(c: char) -> Option<int> {
    if '0' <= c <= '9' {
        Some(c as u32 - '0' as u32)
    } else {
        None
    }
}

/// The number that a run of decimal digits spells, if every character is a
/// digit; leading zeros count for nothing, and no digits spell nothing.
pub open spec fn digits_value(digits: Seq<char>) -> Option<nat>
    decreases digits.len(),
{
    if digits.len() == 0 {
        None
    } else if digits.len() == 1 {
        match digit_value(digits[0]) {
            Some(d) => Some(d as nat),
            None => None,
        }
    } else {
        match (digits_value(digits.drop_last()), digit_value(digits.last())) {
            (Some(head), Some(d)) => Some((head * 10 + d) as nat),
            _ => None,
        }
    }
}

/// The unsigned number that a text spells and that does not exceed `max`:
/// decimal digits, which a single `+` may precede.
pub open spec fn unsigned_value(text: Seq<char>, max: nat) -> Option<nat> {
    let digits = if text.len() > 0 && text[0] == '+' {
        text.skip(1)
    } else {
        text
    };
    match digits_value(digits) {
        Some(n) => if n <= max {
            Some(n)
        } else {
            None
        },
        None => None,
    }
}

/// Reads an unsigned decimal number that does not exceed `max`.
pub fn parse_unsigned(text: &str, max: u64) -> (value: Option<u64>)
    ensures
        match unsigned_value(text@, max as nat) {
            Some(n) => value == Some(n as u64),
            None => value is None,
        },
{
    let chars = to_chars(text);
    let start: usize = if chars.len() > 0 && chars[0] == '+' {
        1
    } else {
        0
    };
    let ghost digits = if start == 1 {
        text@.skip(1)
    } else {
        text@
    };
    assert(digits =~= chars@.subrange(start as int, chars.len() as int));
    if start == chars.len() {
        return None;
    }
    let mut total: u64 = 0;
    let mut i: usize = start;
    while i < chars.len()
        invariant
            start <= i <= chars.len(),
            start < chars.len(),
            chars@ == text@,
            digits == chars@.subrange(start as int, chars.len() as int),
            digits == if text@.len() > 0 && text@[0] == '+' {
                text@.skip(1)
            } else {
                text@
            },
            i > start ==> digits_value(digits.take(i - start)) == Some(total as nat),
            i == start ==> total == 0,
            total <= max,
        decreases chars.len() - i,
    {
        let c: char = chars[i];
        let ghost sofar = digits.take(i - start + 1);
        assert(sofar.drop_last() =~= digits.take(i - start));
        assert(sofar.last() == c);
        if c < '0' || c > '9' {
            proof {
                assert(digit_value(c) is None);
                assert(digits_value(sofar) is None);
                lemma_digits_none_stays(digits, i - start + 1);
            }
            return None;
        }
        let d: u64 = (c as u32 - '0' as u32) as u64;
        assert(digit_value(c) == Some(d as int));
        assert(digits_value(sofar) == Some((total * 10 + d) as nat));
        let next: u128 = (total as u128) * 10 + (d as u128);
        if next > max as u128 {
            proof {
                lemma_digits_large_stays(digits, i - start + 1, max as nat);
            }
            return None;
        }
        total = next as u64;
        i = i + 1;
    }
    assert(digits.take(chars.len() - start) =~= digits);
    Some(total)
}

/// Digits that spell nothing spell nothing however they go on.
proof fn lemma_digits_none_stays(digits: Seq<char>, upto: int)
    requires
        1 <= upto <= digits.len(),
        digits_value(digits.take(upto)) is None,
    ensures
        digits_value(digits) is None,
    decreases digits.len() - upto,
{
    if upto < digits.len() {
        assert(digits.take(upto + 1).drop_last() =~= digits.take(upto));
        lemma_digits_none_stays(digits, upto + 1);
    } else {
        assert(digits.take(upto) =~= digits);
    }
}

/// Digits that spell too much spell too much, or nothing, however they go
/// on.
proof fn lemma_digits_large_stays(digits: Seq<char>, upto: int, max: nat)
    requires
        1 <= upto <= digits.len(),
        digits_value(digits.take(upto)) matches Some(n) && n > max,
    ensures
        digits_value(digits) matches Some(n) ==> n > max,
    decreases digits.len() - upto,
{
    if upto < digits.len() {
        let next = digits.take(upto + 1);
        assert(next.drop_last() =~= digits.take(upto));
        if digits_value(next) is Some {
            lemma_digits_large_stays(digits, upto + 1, max);
        } else {
            lemma_digits_none_stays(digits, upto + 1);
        }
    } else {
        assert(digits.take(upto) =~= digits);
    }
}

/// The lower-case hexadecimal digit for a value below sixteen.
pub open spec fn hex_char(d: int) -> char {
    if d < 10 {
        digit_char(d)
    } else if d == 10 {
        'a'
    } else if d == 11 {
        'b'
    } else if d == 12 {
        'c'
    } else if d == 13 {
        'd'
    } else if d == 14 {
        'e'
    } else {
        'f'
    }
}

fn hex_text(d: u8) -> (s: &'static str)
    requires
        d < 16,
    ensures
        s@ == seq![hex_char(d as int)],
{
    if d < 10 {
        digit_text(d as u64)
    } else {
        let s = if d == 10 {
            "a"
        } else if d == 11 {
            "b"
        } else if d == 12 {
            "c"
        } else if d == 13 {
            "d"
        } else if d == 14 {
            "e"
        } else {
            "f"
        };
        proof {
            reveal_strlit("a");
            reveal_strlit("b");
            reveal_strlit("c");
            reveal_strlit("d");
            reveal_strlit("e");
            reveal_strlit("f");
            assert(s@ =~= seq![hex_char(d as int)]);
        }
        s
    }
}

/// Bytes in lower-case hexadecimal, two digits each.
pub open spec fn hex_of_bytes(bytes: Seq<u8>) -> Seq<char>
    decreases bytes.len(),
{
    if bytes.len() == 0 {
        Seq::empty()
    } else {
        hex_of_bytes(bytes.drop_last()) + seq![
            hex_char(bytes.last() as int / 16),
            hex_char(bytes.last() as int % 16),
        ]
    }
}

/// Writes bytes in lower-case hexadecimal.
pub fn to_hex(bytes: &Vec<u8>) -> (out: String)
    ensures
        out@ == hex_of_bytes(bytes@),
{
    let mut out: String = String::new();
    let mut i: usize = 0;
    while i < bytes.len()
        invariant
            i <= bytes.len(),
            out@ == hex_of_bytes(bytes@.take(i as int)),
        decreases bytes.len() - i,
    {
        let b: u8 = bytes[i];
        assert(bytes@.take(i + 1).drop_last() =~= bytes@.take(i as int));
        let ghost before = out@;
        out.append(hex_text(b / 16));
        out.append(hex_text(b % 16));
        assert(out@ =~= before + seq![hex_char(b as int / 16), hex_char(b as int % 16)]);
        i = i + 1;
    }
    assert(bytes@.take(bytes.len() as int) =~= bytes@);
    out
}

/// The last `width` hexadecimal digits of `n`, lower case, zeros in front
/// where `n` has fewer.
pub open spec fn hex_digits(n: nat, width: nat) -> Seq<char>
    decreases width,
{
    if width == 0 {
        Seq::empty()
    } else {
        hex_digits(n / 16, (width - 1) as nat).push(hex_char((n % 16) as int))
    }
}

/// Writes the last `width` hexadecimal digits of `n`.
pub fn to_hex_digits(n: u128, width: u32) -> (out: String)
    ensures
        out@ == hex_digits(n as nat, width as nat),
    decreases width,
{
    if width == 0 {
        String::new()
    } else {
        let mut out: String = to_hex_digits(n / 16, width - 1);
        let ghost before = out@;
        out.append(hex_text((n % 16) as u8));
        assert(out@ =~= before.push(hex_char((n % 16) as int)));
        out
    }
}

} // verus!
