//! Text building blocks: decimal and hexadecimal numbers, and UTF-16.

use vstd::prelude::*;

verus! {

/// `String::push` appends one character to the end of the string.
pub assume_specification[ String::push ](s: &mut String, c: char)
    ensures
        final(s)@ == old(s)@.push(c),
;

/// The lower-case digit of `d` in base sixteen.
pub open spec fn digit_char(d: int) -> char {
    if d == 0 {
        '0'
    } else if d == 1 {
        '1'
    } else if d == 2 {
        '2'
    } else if d == 3 {
        '3'
    } else if d == 4 {
        '4'
    } else if d == 5 {
        '5'
    } else if d == 6 {
        '6'
    } else if d == 7 {
        '7'
    } else if d == 8 {
        '8'
    } else if d == 9 {
        '9'
    } else if d == 10 {
        'a'
    } else if d == 11 {
        'b'
    } else if d == 12 {
        'c'
    } else if d == 13 {
        'd'
    } else if d == 14 {
        'e'
    } else {
        'f'
    }
}

/// `n` in base ten, without leading zeros.
pub open spec fn decimal(n: nat) -> Seq<char>
    decreases n,
{
    if n < 10 {
        seq![digit_char(n as int)]
    } else {
        decimal(n / 10).push(digit_char((n % 10) as int))
    }
}

/// `n` in base sixteen, without leading zeros.
pub open spec fn hexadecimal(n: nat) -> Seq<char>
    decreases n,
{
    if n < 16 {
        seq![digit_char(n as int)]
    } else {
        hexadecimal(n / 16).push(digit_char((n % 16) as int))
    }
}

/// `n` as `0x` and four digits in base sixteen.
pub open spec fn hex4(n: u16) -> Seq<char> {
    "0x"@.push(digit_char(n as int / 4096)).push(digit_char(n as int / 256 % 16)).push(
        digit_char(n as int / 16 % 16),
    ).push(digit_char(n as int % 16))
}

/// The digit of `d` in base sixteen.
pub fn digit(d: u8) -> (c: char)
    requires
        d < 16,
    ensures
        c == digit_char(d as int),
{
    match d {
        0 => '0',
        1 => '1',
        2 => '2',
        3 => '3',
        4 => '4',
        5 => '5',
        6 => '6',
        7 => '7',
        8 => '8',
        9 => '9',
        10 => 'a',
        11 => 'b',
        12 => 'c',
        13 => 'd',
        14 => 'e',
        _ => 'f',
    }
}

/// Append `n` in base ten.
pub fn push_decimal(s: &mut String, n: u64)
    ensures
        final(s)@ == old(s)@ + decimal(n as nat),
    decreases n,
{
    if n >= 10 {
        push_decimal(s, n / 10);
    }
    let last: u8 = (n % 10) as u8;
    s.push(digit(last));
    proof {
        assert(final(s)@ =~= old(s)@ + decimal(n as nat));
    }
}

/// Append `n` in base sixteen.
pub fn push_hexadecimal(s: &mut String, n: u32)
    ensures
        final(s)@ == old(s)@ + hexadecimal(n as nat),
    decreases n,
{
    if n >= 16 {
        push_hexadecimal(s, n / 16);
    }
    let last: u8 = (n % 16) as u8;
    s.push(digit(last));
    proof {
        assert(final(s)@ =~= old(s)@ + hexadecimal(n as nat));
    }
}

/// Append `n` as `0x` and four digits in base sixteen.
pub fn push_hex4(s: &mut String, n: u16)
    ensures
        final(s)@ == old(s)@ + hex4(n),
{
    s.append("0x");
    s.push(digit((n / 4096) as u8));
    s.push(digit((n / 256 % 16) as u8));
    s.push(digit((n / 16 % 16) as u8));
    s.push(digit((n % 16) as u8));
    proof {
        assert(s@ =~= old(s)@ + hex4(n));
    }
}

/// A UTF-16 unit that stands for half a character.
pub open spec fn is_surrogate(unit: u16) -> bool {
    0xd800 <= unit <= 0xdfff
}

/// The text of UTF-16 units, with U+FFFD in place of every unpaired surrogate.
pub open spec fn utf16_text(units: Seq<u16>) -> Seq<char>
    decreases units.len(),
{
    if units.len() == 0 {
        Seq::empty()
    } else if !is_surrogate(units[0]) {
        seq![units[0] as char] + utf16_text(units.skip(1))
    } else if units[0] < 0xdc00 && units.len() > 1 && 0xdc00 <= units[1] <= 0xdfff {
        seq![(0x10000 + (units[0] - 0xd800) * 0x400 + (units[1] - 0xdc00)) as char] + utf16_text(
            units.skip(2),
        )
    } else {
        seq!['\u{fffd}'] + utf16_text(units.skip(1))
    }
}

/// `String::from_utf16_lossy` decodes UTF-16, replacing each unpaired surrogate
/// with U+FFFD.
#[verifier::external_body]
pub(crate) fn from_utf16_lossy(units: &[u16]) -> (text: String)
    ensures
        text@ == utf16_text(units@),
{
    String::from_utf16_lossy(units)
}

/// The UTF-16 units of one character.
pub open spec fn char_units(c: char) -> Seq<u16> {
    let n = c as u32;
    if n < 0x10000 {
        seq![n as u16]
    } else {
        seq![
            (0xd800 + (n - 0x10000) / 0x400) as u16,
            (0xdc00 + (n - 0x10000) % 0x400) as u16,
        ]
    }
}

/// The UTF-16 units of a text.
pub open spec fn utf16_units(text: Seq<char>) -> Seq<u16>
    decreases text.len(),
{
    if text.len() == 0 {
        Seq::empty()
    } else {
        char_units(text[0]) + utf16_units(text.skip(1))
    }
}

/// Append the UTF-16 units of `text`.
pub fn push_utf16(units: &mut Vec<u16>, text: &str)
    ensures
        final(units)@ == old(units)@ + utf16_units(text@),
{
    let len: usize = text.unicode_len();
    let mut i: usize = 0;
    assert(text@.skip(0) =~= text@);
    while i < len
        invariant
            i <= len,
            len == text@.len(),
            units@ + utf16_units(text@.skip(i as int)) == old(units)@ + utf16_units(text@),
        decreases len - i,
    {
        let c = text.get_char(i);
        let n: u32 = c as u32;
        let ghost before = units@;
        assert(text@.skip(i as int)[0] == c);
        assert(text@.skip(i as int).skip(1) =~= text@.skip(i + 1));
        if n < 0x10000 {
            units.push(n as u16);
        } else {
            units.push((0xd800 + (n - 0x10000) / 0x400) as u16);
            units.push((0xdc00 + (n - 0x10000) % 0x400) as u16);
        }
        assert(units@ =~= before + char_units(c));
        assert(units@ + utf16_units(text@.skip(i + 1)) =~= before + (char_units(c) + utf16_units(
            text@.skip(i + 1),
        )));
        i += 1;
    }
    assert(text@.skip(i as int) =~= Seq::empty());
    assert(units@ =~= units@ + utf16_units(text@.skip(i as int)));
}

/// One character decodes from its units.
proof fn lemma_char_units(c: char)
    ensures
        ({
            let units = char_units(c);
            ||| units.len() == 1 && !is_surrogate(units[0]) && units[0] as char == c && (c != '\0'
                ==> units[0] != 0)
            ||| units.len() == 2 && 0xd800 <= units[0] < 0xdc00 && 0xdc00 <= units[1] <= 0xdfff && (
            0x10000 + (units[0] - 0xd800) * 0x400 + (units[1] - 0xdc00)) as char == c
        }),
{
    let n = c as u32;
    assert(n <= 0x10ffff && !(0xd800 <= n <= 0xdfff));
    if n >= 0x10000 {
        let m = n - 0x10000;
        assert(m / 0x400 < 0x400);
        assert(m == m / 0x400 * 0x400 + m % 0x400);
        assert(char_units(c)[0] == 0xd800 + m / 0x400);
        assert(char_units(c)[1] == 0xdc00 + m % 0x400);
    }
}

/// UTF-16 keeps every character of a text, those outside the basic plane too.
pub proof fn utf16_keeps_the_text(text: Seq<char>)
    ensures
        utf16_text(utf16_units(text)) == text,
    decreases text.len(),
{
    if text.len() > 0 {
        let units = utf16_units(text);
        let first = char_units(text[0]);
        let rest = utf16_units(text.skip(1));
        lemma_char_units(text[0]);
        utf16_keeps_the_text(text.skip(1));
        assert(units[0] == first[0]);
        if first.len() == 1 {
            assert(units.skip(1) =~= rest);
        } else {
            assert(units[1] == first[1]);
            assert(units.skip(2) =~= rest);
        }
        assert(seq![text[0]] + text.skip(1) =~= text);
    } else {
        assert(utf16_text(utf16_units(text)) =~= text);
    }
}

/// A text without a NUL has no NUL among its units.
pub proof fn lemma_units_without_nul(text: Seq<char>)
    requires
        !text.contains('\0'),
    ensures
        !utf16_units(text).contains(0),
    decreases text.len(),
{
    if text.len() > 0 {
        let rest = text.skip(1);
        assert forall|i: int| 0 <= i < rest.len() implies rest[i] != '\0' by {
            assert(text[i + 1] == rest[i]);
        }
        lemma_units_without_nul(rest);
        lemma_char_units(text[0]);
        assert(text[0] != '\0');
        let units = utf16_units(text);
        let first = char_units(text[0]);
        assert forall|i: int| 0 <= i < units.len() implies units[i] != 0 by {
            if i >= first.len() {
                assert(units[i] == utf16_units(rest)[i - first.len()]);
            } else {
                assert(units[i] == first[i]);
            }
        }
    }
}

} // verus!
