//! Numbers in hex.
use vstd::prelude::*;

verus! {

/// The hex digit that stands for `n`.
pub open spec fn digit_char(n: int) -> char {
    seq!['0', '1', '2', '3', '4', '5', '6', '7', '8', '9', 'a', 'b', 'c', 'd', 'e', 'f'][n]
}

/// The two hex digits of `n`, after `0x`.
pub open spec fn hex8(n: u8) -> Seq<char> {
    seq!['0', 'x', digit_char(n as int / 16), digit_char(n as int % 16)]
}

/// The four hex digits of `n`, after `0x`.
pub open spec fn hex16(n: u16) -> Seq<char> {
    seq![
        '0',
        'x',
        digit_char(n as int / 4096),
        digit_char(n as int / 256 % 16),
        digit_char(n as int / 16 % 16),
        digit_char(n as int % 16),
    ]
}

/// What the hex digit `c` stands for, of either case.
pub open spec fn digit_value(c: char) -> Option<nat> {
    if '0' <= c <= '9' {
        Some((c as int - '0' as int) as nat)
    } else if 'a' <= c <= 'f' {
        Some((c as int - 'a' as int + 10) as nat)
    } else if 'A' <= c <= 'F' {
        Some((c as int - 'A' as int + 10) as nat)
    } else {
        None
    }
}

/// Whether every character of `digits` is a hex digit.
pub open spec fn all_digits(digits: Seq<char>) -> bool {
    forall|i: int| 0 <= i < digits.len() ==> digit_value(#[trigger] digits[i]) is Some
}

/// The number that `digits`, all of them hex digits, spell.
pub open spec fn digits_value(digits: Seq<char>) -> nat
    decreases digits.len(),
{
    if digits.len() == 0 {
        0
    } else {
        digits_value(digits.drop_last()) * 16 + digit_value(digits.last())->0
    }
}

/// `text` without the plus sign it starts with, if it starts with one.
pub open spec fn without_plus(text: Seq<char>) -> Seq<char> {
    if text.len() > 0 && text[0] == '+' {
        text.skip(1)
    } else {
        text
    }
}

/// The sixteen-bit number that `text` spells in hex: at least one digit,
/// after a plus sign if there is one, and nothing else.
pub open spec fn hex_value(text: Seq<char>) -> Option<u16> {
    let digits = without_plus(text);
    if digits.len() > 0 && all_digits(digits) && digits_value(digits) <= 0xffff {
        Some(digits_value(digits) as u16)
    } else {
        None
    }
}

/// One hex digit.
fn hex_digit(n: u8) -> (digit: &'static str)
    requires
        n < 16,
    ensures
        digit@ == seq![digit_char(n as int)],
{
    proof {
        reveal_strlit("0");
        reveal_strlit("1");
        reveal_strlit("2");
        reveal_strlit("3");
        reveal_strlit("4");
        reveal_strlit("5");
        reveal_strlit("6");
        reveal_strlit("7");
        reveal_strlit("8");
        reveal_strlit("9");
        reveal_strlit("a");
        reveal_strlit("b");
        reveal_strlit("c");
        reveal_strlit("d");
        reveal_strlit("e");
        reveal_strlit("f");
    }
    match n {
        0 => "0",
        1 => "1",
        2 => "2",
        3 => "3",
        4 => "4",
        5 => "5",
        6 => "6",
        7 => "7",
        8 => "8",
        9 => "9",
        10 => "a",
        11 => "b",
        12 => "c",
        13 => "d",
        14 => "e",
        _ => "f",
    }
}

/// Append `n` to `out`: `0x` and two hex digits.
pub fn push_hex8(out: &mut String, n: u8)
    ensures
        final(out)@ == old(out)@ + hex8(n),
{
    proof {
        reveal_strlit("0x");
    }
    out.append("0x");
    out.append(hex_digit(n / 16));
    out.append(hex_digit(n % 16));
    assert(out@ =~= old(out)@ + hex8(n));
}

/// Append `n` to `out`: `0x` and four hex digits.
pub fn push_hex16(out: &mut String, n: u16)
    ensures
        final(out)@ == old(out)@ + hex16(n),
{
    proof {
        reveal_strlit("0x");
    }
    out.append("0x");
    out.append(hex_digit((n / 4096) as u8));
    out.append(hex_digit((n / 256 % 16) as u8));
    out.append(hex_digit((n / 16 % 16) as u8));
    out.append(hex_digit((n % 16) as u8));
    assert(out@ =~= old(out)@ + hex16(n));
}

/// What the hex digit `c` stands for.
fn read_digit(c: char) -> (value: Option<u8>)
    ensures
        match value {
            Some(n) => n < 16 && digit_value(c) == Some(n as nat),
            None => digit_value(c) is None,
        },
{
    if '0' <= c && c <= '9' {
        Some((c as u32 - '0' as u32) as u8)
    } else if 'a' <= c && c <= 'f' {
        Some((c as u32 - 'a' as u32 + 10) as u8)
    } else if 'A' <= c && c <= 'F' {
        Some((c as u32 - 'A' as u32 + 10) as u8)
    } else {
        None
    }
}

/// The sixteen-bit number that the characters of `text` from `from` on
/// spell in hex.
pub fn read_hex16(text: &str, from: usize) -> (value: Option<u16>)
    requires
        from <= text@.len(),
    ensures
        value == hex_value(text@.skip(from as int)),
{
    let end = text.unicode_len();
    let mut at = from;
    if at < end && text.get_char(at) == '+' {
        at = at + 1;
    }
    let ghost digits = text@.skip(at as int);
    assert(digits =~= without_plus(text@.skip(from as int)));
    if at == end {
        return None;
    }
    let start = at;
    let mut value: u16 = 0;
    while at < end
        invariant
            start <= at <= end,
            end == text@.len(),
            digits == text@.skip(start as int),
            digits == without_plus(text@.skip(from as int)),
            all_digits(digits.take(at - start)),
            value == digits_value(digits.take(at - start)),
        decreases end - at,
    {
        let ghost done = digits.take(at - start);
        let ghost next = digits.take(at + 1 - start);
        assert(next.drop_last() =~= done);
        assert(next.last() == text@[at as int]);
        match read_digit(text.get_char(at)) {
            None => {
                assert(digit_value(digits[at - start]) is None);
                return None;
            },
            Some(n) => {
                if value > 0xfff {
                    proof {
                        digits_value_grows(digits, at + 1 - start);
                    }
                    return None;
                }
                value = value * 16 + n as u16;
                assert forall|i: int| 0 <= i < next.len() implies digit_value(
                    #[trigger] next[i],
                ) is Some by {
                    if i < done.len() {
                        assert(next[i] == done[i]);
                    }
                }
            },
        }
        at = at + 1;
    }
    assert(digits.take(at - start) =~= digits);
    Some(value)
}

/// More digits never spell a smaller number.
proof fn digits_value_grows(digits: Seq<char>, n: int)
    requires
        0 <= n <= digits.len(),
    ensures
        digits_value(digits.take(n)) <= digits_value(digits),
    decreases digits.len(),
{
    if n < digits.len() {
        digits_value_grows(digits.drop_last(), n);
        assert(digits.drop_last().take(n) =~= digits.take(n));
    } else {
        assert(digits.take(n) =~= digits);
    }
}

} // verus!
