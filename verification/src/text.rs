//! Characters: indentation, decimal numbers and double-quoted scalars.
use vstd::prelude::*;
use vstd::utf8::{decode_utf8, encode_utf8, is_char_boundary};

verus! {

/// `String::push` appends the given character to the end of the string.
pub assume_specification[ String::push ](s: &mut String, c: char)
    ensures
        final(s)@ == old(s)@.push(c),
;

/// `n` spaces.
pub open spec fn spaces(n: nat) -> Seq<char> {
    Seq::new(n, |i: int| ' ')
}

/// Appends `spaces` spaces.
pub fn indent(out: &mut String, spaces: usize)
    ensures
        final(out)@ == old(out)@ + self::spaces(spaces as nat),
{
    let mut written: usize = 0;
    while written < spaces
        invariant
            written <= spaces,
            out@ == old(out)@ + self::spaces(written as nat),
        decreases spaces - written,
    {
        out.push(' ');
        written = written + 1;
    }
}

/// The character of a decimal digit.
pub open spec fn digit(d: nat) -> char
    recommends
        d < 10,
{
    (48 + d) as char
}

/// The decimal digits of a natural number, without leading zeros.
pub open spec fn digits(n: nat) -> Seq<char>
    decreases n,
{
    if n < 10 {
        seq![digit(n)]
    } else {
        digits(n / 10).push(digit(n % 10))
    }
}

/// An integer in decimal notation, with a leading minus sign where it is negative.
pub open spec fn decimal(n: int) -> Seq<char> {
    if n < 0 {
        seq!['-'] + digits((-n) as nat)
    } else {
        digits(n as nat)
    }
}

/// Appends the decimal digits of `n`.
fn push_digits(out: &mut String, n: u64)
    ensures
        final(out)@ == old(out)@ + digits(n as nat),
    decreases n,
{
    if n >= 10 {
        push_digits(out, n / 10);
    }
    out.push((48u8 + (n % 10) as u8) as char);
}

/// Appends `n` in decimal notation.
pub(crate) fn push_decimal(out: &mut String, n: i64)
    ensures
        final(out)@ == old(out)@ + decimal(n as int),
{
    if n < 0 {
        out.push('-');
        let magnitude: u64 = (-(n + 1)) as u64 + 1;
        push_digits(out, magnitude);
    } else {
        push_digits(out, n as u64);
    }
}

/// Appends the index `n` in decimal notation.
pub(crate) fn push_index(out: &mut String, n: usize)
    ensures
        final(out)@ == old(out)@ + decimal(n as int),
{
    push_digits(out, n as u64);
}

/// The control characters: the code points below the space, the delete
/// character and the block that follows it.
pub open spec fn is_control(c: char) -> bool {
    (c as u32) < 0x20 || 0x7f <= (c as u32) < 0xa0
}

/// An upper-case hexadecimal digit.
pub open spec fn hex_digit(d: nat) -> char
    recommends
        d < 16,
{
    if d < 10 {
        (48 + d) as char
    } else {
        (55 + d) as char
    }
}

/// Four upper-case hexadecimal digits.
pub open spec fn hex4(n: nat) -> Seq<char>
    recommends
        n < 0x10000,
{
    seq![
        hex_digit(n / 0x1000),
        hex_digit(n / 0x100 % 0x10),
        hex_digit(n / 0x10 % 0x10),
        hex_digit(n % 0x10),
    ]
}

/// How a character is written between double quotes.
pub open spec fn escape(c: char) -> Seq<char> {
    if c == '\\' {
        seq!['\\', '\\']
    } else if c == '"' {
        seq!['\\', '"']
    } else if c == '\n' {
        seq!['\\', 'n']
    } else if c == '\r' {
        seq!['\\', 'r']
    } else if c == '\t' {
        seq!['\\', 't']
    } else if is_control(c) {
        seq!['\\', 'u'] + hex4(c as nat)
    } else {
        seq![c]
    }
}

/// The escaped characters of `s`, one after the other.
pub open spec fn escaped(s: Seq<char>) -> Seq<char>
    decreases s.len(),
{
    if s.len() == 0 {
        Seq::empty()
    } else {
        escaped(s.drop_last()) + escape(s.last())
    }
}

/// `s` as a double-quoted scalar.
pub open spec fn quoted(s: Seq<char>) -> Seq<char> {
    seq!['"'] + escaped(s) + seq!['"']
}

fn push_hex_digit(out: &mut String, d: u32)
    requires
        d < 16,
    ensures
        final(out)@ == old(out)@.push(hex_digit(d as nat)),
{
    if d < 10 {
        out.push((48u8 + d as u8) as char);
    } else {
        out.push((55u8 + d as u8) as char);
    }
}

fn push_escaped(out: &mut String, c: char)
    ensures
        final(out)@ == old(out)@ + escape(c),
{
    let code: u32 = c as u32;
    if c == '\\' || c == '"' {
        out.push('\\');
        out.push(c);
    } else if c == '\n' {
        out.push('\\');
        out.push('n');
    } else if c == '\r' {
        out.push('\\');
        out.push('r');
    } else if c == '\t' {
        out.push('\\');
        out.push('t');
    } else if code < 0x20 || (0x7f <= code && code < 0xa0) {
        out.push('\\');
        out.push('u');
        push_hex_digit(out, code / 0x1000);
        push_hex_digit(out, code / 0x100 % 0x10);
        push_hex_digit(out, code / 0x10 % 0x10);
        push_hex_digit(out, code % 0x10);
    } else {
        out.push(c);
    }
}

/// `s` as a double-quoted scalar: backslashes, double quotes and control
/// characters are escaped.
pub fn yaml_quote(s: &str) -> (res: String)
    ensures
        res@ == quoted(s@),
{
    let mut out = String::new();
    out.push('"');
    for ch in it: s.chars()
        invariant
            it.seq() == s@,
            out@ == seq!['"'] + escaped(s@.take(it.index() as int)),
    {
        push_escaped(&mut out, ch);
        proof {
            assert(s@.take(it.index() + 1).drop_last() =~= s@.take(it.index() as int));
        }
    }
    out.push('"');
    proof {
        assert(s@.take(s@.len() as int) =~= s@);
    }
    out
}

/// The characters between two byte offsets into the UTF-8 encoding of `s`.
/// There are none where the offsets are out of order, beyond the end, or inside
/// the encoding of a character.
pub open spec fn byte_range(s: Seq<char>, start: int, end: int) -> Option<Seq<char>> {
    let bytes = encode_utf8(s);
    if 0 <= start <= end <= bytes.len() && is_char_boundary(bytes, start) && is_char_boundary(
        bytes,
        end,
    ) {
        Some(decode_utf8(bytes.subrange(start, end)))
    } else {
        None
    }
}

/// The part of `s` between two byte offsets.
pub(crate) fn slice_bytes(s: &str, start: usize, end: usize) -> (res: Option<&str>)
    ensures
        byte_range(s@, start as int, end as int) == (match res {
            Some(part) => Some(part@),
            None => None,
        }),
{
    let ghost bytes = encode_utf8(s@);
    proof {
        vstd::utf8::encode_utf8_valid_utf8(s@);
    }
    if start <= end && s.is_char_boundary(start) && s.is_char_boundary(end) {
        let (head, _) = s.split_at(end);
        proof {
            let cut = encode_utf8(head@);
            vstd::utf8::encode_utf8_valid_utf8(head@);
            vstd::utf8::is_char_boundary_start_end_of_seq(cut);
            if start < end {
                vstd::utf8::is_char_boundary_iff_not_is_continuation_byte(bytes, start as int);
                vstd::utf8::is_char_boundary_iff_not_is_continuation_byte(cut, start as int);
            }
        }
        let (_, part) = head.split_at(start);
        proof {
            assert(encode_utf8(part@) =~= bytes.subrange(start as int, end as int));
            vstd::utf8::encode_utf8_decode_utf8(part@);
        }
        Some(part)
    } else {
        None
    }
}

/// Whether `s` ends in a newline.
pub(crate) fn ends_with_newline(s: &str) -> (res: bool)
    ensures
        res == (s@.len() > 0 && s@.last() == '\n'),
{
    let mut newline = false;
    for ch in it: s.chars()
        invariant
            it.seq() == s@,
            newline == (it.index() > 0 && s@[it.index() - 1] == '\n'),
    {
        newline = ch == '\n';
    }
    newline
}

} // verus!
