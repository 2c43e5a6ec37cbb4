//! What can be read back of what is written.
use vstd::prelude::*;
use vstd::utf8::{decode_utf8, encode_utf8, is_char_boundary};

use crate::text::{
    byte_range, decimal, digit, digits, escape, escaped, hex4, hex_digit, is_control, quoted, spaces,
};
use crate::tree::{block, lines};

verus! {

/// The number that a hexadecimal digit stands for.
pub open spec fn hex_value(c: char) -> nat {
    if (c as int) < 65 {
        (c as int - 48) as nat
    } else {
        (c as int - 55) as nat
    }
}

/// Reads one character between double quotes, which may be escaped. Returns it
/// with what comes after it.
pub open spec fn read_char(t: Seq<char>) -> Option<(char, Seq<char>)> {
    if t.len() == 0 {
        None
    } else if t[0] != '\\' {
        Some((t[0], t.skip(1)))
    } else if t.len() < 2 {
        None
    } else if t[1] == '\\' || t[1] == '"' {
        Some((t[1], t.skip(2)))
    } else if t[1] == 'n' {
        Some(('\n', t.skip(2)))
    } else if t[1] == 'r' {
        Some(('\r', t.skip(2)))
    } else if t[1] == 't' {
        Some(('\t', t.skip(2)))
    } else if t[1] == 'u' && t.len() >= 6 {
        let code = hex_value(t[2]) * 0x1000 + hex_value(t[3]) * 0x100 + hex_value(t[4]) * 0x10
            + hex_value(t[5]);
        Some((code as char, t.skip(6)))
    } else {
        None
    }
}

/// Reads up to the closing double quote. Returns the characters with what
/// comes after the quote.
pub open spec fn read_until_quote(t: Seq<char>) -> Option<(Seq<char>, Seq<char>)>
    decreases t.len(),
{
    if t.len() > 0 && t[0] == '"' {
        Some((Seq::empty(), t.skip(1)))
    } else {
        match read_char(t) {
            Some((c, after)) => match read_until_quote(after) {
                Some((s, rest)) => Some((seq![c] + s, rest)),
                None => None,
            },
            None => None,
        }
    }
}

/// Reads a double-quoted scalar. Returns it with what comes after it.
pub open spec fn read_quoted(t: Seq<char>) -> Option<(Seq<char>, Seq<char>)> {
    if t.len() > 0 && t[0] == '"' {
        read_until_quote(t.skip(1))
    } else {
        None
    }
}

proof fn lemma_hex4(n: nat)
    requires
        n < 0x100,
    ensures
        hex_value(hex4(n)[0]) * 0x1000 + hex_value(hex4(n)[1]) * 0x100 + hex_value(hex4(n)[2])
            * 0x10 + hex_value(hex4(n)[3]) == n,
{
    assert(forall|d: nat| d < 16 ==> #[trigger] hex_value(hex_digit(d)) == d);
    assert(n / 0x1000 == 0);
    assert(n / 0x100 == 0);
    assert(n / 0x10 < 0x10);
}

/// An escaped character is read back.
proof fn lemma_read_char(c: char, rest: Seq<char>)
    ensures
        escape(c).len() > 0,
        escape(c)[0] != '"',
        read_char(escape(c) + rest) == Some((c, rest)),
{
    let t = escape(c) + rest;
    if c == '\\' || c == '"' || c == '\n' || c == '\r' || c == '\t' {
        assert(t.skip(2) =~= rest);
    } else if is_control(c) {
        assert(t.skip(6) =~= rest);
        lemma_hex4(c as nat);
        assert(t[2] == hex4(c as nat)[0]);
        assert(t[3] == hex4(c as nat)[1]);
        assert(t[4] == hex4(c as nat)[2]);
        assert(t[5] == hex4(c as nat)[3]);
    } else {
        assert(t.skip(1) =~= rest);
    }
}

proof fn lemma_escaped_first(s: Seq<char>)
    requires
        s.len() > 0,
    ensures
        escaped(s) == escape(s[0]) + escaped(s.drop_first()),
    decreases s.len(),
{
    if s.len() == 1 {
        assert(s.drop_last() =~= Seq::empty());
        assert(s.drop_first() =~= Seq::empty());
        assert(escaped(s.drop_last()) =~= Seq::empty());
        assert(escaped(s.drop_first()) =~= Seq::empty());
    } else {
        lemma_escaped_first(s.drop_last());
        assert(s.drop_last().drop_first() =~= s.drop_first().drop_last());
        assert(escaped(s) =~= escape(s[0]) + escaped(s.drop_first()));
    }
}

proof fn lemma_read_until_quote(s: Seq<char>, rest: Seq<char>)
    ensures
        read_until_quote(escaped(s) + (seq!['"'] + rest)) == Some((s, rest)),
    decreases s.len(),
{
    let after = seq!['"'] + rest;
    let t = escaped(s) + after;
    if s.len() == 0 {
        assert(t =~= after);
        assert(t.skip(1) =~= rest);
        assert(s =~= Seq::empty());
    } else {
        let tail = s.drop_first();
        lemma_escaped_first(s);
        lemma_read_char(s[0], escaped(tail) + after);
        lemma_read_until_quote(tail, rest);
        assert(t =~= escape(s[0]) + (escaped(tail) + after));
        assert(seq![s[0]] + tail =~= s);
    }
}

/// Whatever string is written between double quotes, reading gives it back,
/// and reading stops where the scalar ends.
pub proof fn law_quoted_read_back(s: Seq<char>, rest: Seq<char>)
    ensures
        read_quoted(quoted(s) + rest) == Some((s, rest)),
{
    let t = quoted(s) + rest;
    assert(t.skip(1) =~= escaped(s) + (seq!['"'] + rest));
    lemma_read_until_quote(s, rest);
}

/// Different strings are quoted differently.
pub proof fn law_quoted_injective(a: Seq<char>, b: Seq<char>)
    requires
        quoted(a) == quoted(b),
    ensures
        a == b,
{
    law_quoted_read_back(a, Seq::empty());
    law_quoted_read_back(b, Seq::empty());
}

/// A double-quoted scalar holds no control characters, and so no newline.
pub proof fn law_quoted_on_one_line(s: Seq<char>)
    ensures
        forall|i: int| 0 <= i < quoted(s).len() ==> !is_control(#[trigger] quoted(s)[i]),
{
    lemma_escaped_clean(s);
}

proof fn lemma_escape_clean(c: char)
    ensures
        forall|i: int| 0 <= i < escape(c).len() ==> !is_control(#[trigger] escape(c)[i]),
{
    assert forall|i: int| 0 <= i < escape(c).len() implies !is_control(#[trigger] escape(c)[i]) by {
        if c != '\\' && c != '"' && c != '\n' && c != '\r' && c != '\t' && is_control(c) {
            let n = c as nat;
            assert(n / 0x1000 < 16);
            assert(escape(c).len() == 6);
            if i >= 2 {
                assert(escape(c)[i] == hex4(n)[i - 2]);
            }
        }
    }
}

proof fn lemma_escaped_clean(s: Seq<char>)
    ensures
        forall|i: int| 0 <= i < escaped(s).len() ==> !is_control(#[trigger] escaped(s)[i]),
    decreases s.len(),
{
    if s.len() > 0 {
        let before = escaped(s.drop_last());
        lemma_escaped_clean(s.drop_last());
        lemma_escape_clean(s.last());
        assert forall|i: int| 0 <= i < escaped(s).len() implies !is_control(
            #[trigger] escaped(s)[i],
        ) by {
            if i < before.len() {
                assert(escaped(s)[i] == before[i]);
            } else {
                assert(escaped(s)[i] == escape(s.last())[i - before.len()]);
            }
        }
    }
}

/// The number that decimal digits stand for.
pub open spec fn natural(t: Seq<char>) -> int
    decreases t.len(),
{
    if t.len() == 0 {
        0
    } else {
        natural(t.drop_last()) * 10 + (t.last() as int - 48)
    }
}

/// The number that is written in decimal notation.
pub open spec fn read_decimal(t: Seq<char>) -> int {
    if t.len() > 0 && t[0] == '-' {
        -natural(t.skip(1))
    } else {
        natural(t)
    }
}

proof fn lemma_digits(n: nat)
    ensures
        natural(digits(n)) == n,
        digits(n).len() > 0,
        forall|i: int| 0 <= i < digits(n).len() ==> 48 <= (#[trigger] digits(n)[i]) as int <= 57,
    decreases n,
{
    if n < 10 {
        assert(digits(n).drop_last() =~= Seq::empty());
        assert(natural(digits(n).drop_last()) == 0);
    } else {
        lemma_digits(n / 10);
        assert(digits(n).drop_last() =~= digits(n / 10));
    }
}

/// Whatever integer is written, reading gives it back.
pub proof fn law_decimal_read_back(n: int)
    ensures
        read_decimal(decimal(n)) == n,
{
    if n < 0 {
        lemma_digits((-n) as nat);
        assert(decimal(n).skip(1) =~= digits((-n) as nat));
    } else {
        lemma_digits(n as nat);
    }
}

/// The text whose lines these are.
pub open spec fn joined(ls: Seq<Seq<char>>) -> Seq<char>
    decreases ls.len(),
{
    if ls.len() == 0 {
        Seq::empty()
    } else if ls.len() == 1 {
        ls[0]
    } else {
        joined(ls.drop_last()) + seq!['\n'] + ls.last()
    }
}

/// Reads a literal block that stands at `column`: the indentation of each line
/// goes, and so does the newline after the last line.
pub open spec fn read_literal(t: Seq<char>, column: nat) -> Seq<char> {
    let found = lines(t).drop_last();
    joined(found.map_values(|line: Seq<char>| line.skip(column as int)))
}

/// Splitting into lines and joining them again changes nothing.
pub(crate) proof fn lemma_joined_lines(s: Seq<char>)
    ensures
        lines(s).len() > 0,
        joined(lines(s)) == s,
    decreases s.len(),
{
    if s.len() == 0 {
        assert(joined(lines(s)) =~= s);
    } else {
        let before = lines(s.drop_last());
        lemma_joined_lines(s.drop_last());
        if s.last() == '\n' {
            assert(lines(s).drop_last() =~= before);
            assert(joined(lines(s)) =~= joined(before).push('\n'));
        } else {
            assert(lines(s).drop_last() =~= before.drop_last());
            if before.len() > 1 {
                assert(joined(before) == joined(before.drop_last()) + seq!['\n'] + before.last());
            }
            assert(joined(lines(s)) =~= joined(before).push(s.last()));
        }
        assert(s =~= s.drop_last().push(s.last()));
    }
}

/// A line holds no newline.
pub proof fn lemma_lines_clean(s: Seq<char>)
    ensures
        lines(s).len() > 0,
        forall|i: int, j: int|
            0 <= i < lines(s).len() && 0 <= j < lines(s)[i].len() ==> (#[trigger] lines(s)[i][j])
                != '\n',
    decreases s.len(),
{
    if s.len() > 0 {
        lemma_lines_clean(s.drop_last());
    }
}

/// A line that is added without a newline in it extends the last line.
pub(crate) proof fn lemma_lines_extend(t: Seq<char>, line: Seq<char>)
    requires
        forall|j: int| 0 <= j < line.len() ==> line[j] != '\n',
    ensures
        lines(t).len() > 0,
        lines(t + line) == lines(t).drop_last().push(lines(t).last() + line),
    decreases line.len(),
{
    lemma_lines_clean(t);
    if line.len() == 0 {
        assert(t + line =~= t);
        assert(lines(t).drop_last().push(lines(t).last() + line) =~= lines(t));
    } else {
        lemma_lines_extend(t, line.drop_last());
        assert((t + line).drop_last() =~= t + line.drop_last());
        let before = lines(t + line.drop_last());
        assert(before.drop_last() =~= lines(t).drop_last());
        assert(before.last().push(line.last()) =~= lines(t).last() + line);
    }
}

proof fn lemma_lines_block(ls: Seq<Seq<char>>, column: nat)
    requires
        forall|i: int, j: int|
            0 <= i < ls.len() && 0 <= j < ls[i].len() ==> (#[trigger] ls[i][j]) != '\n',
    ensures
        lines(block(ls, column)).len() == ls.len() + 1,
        forall|i: int|
            0 <= i < ls.len() ==> (#[trigger] lines(block(ls, column))[i]) == spaces(column)
                + ls[i],
        lines(block(ls, column))[ls.len() as int] == Seq::<char>::empty(),
    decreases ls.len(),
{
    if ls.len() > 0 {
        let front = ls.drop_last();
        let before = block(front, column);
        let line = spaces(column) + ls.last();
        assert forall|i: int, j: int| 0 <= i < front.len() && 0 <= j < front[i].len() implies (
        #[trigger] front[i][j]) != '\n' by {
            assert(ls[i][j] != '\n');
        }
        assert forall|j: int| 0 <= j < line.len() implies line[j] != '\n' by {
            if j >= column {
                assert(ls[ls.len() - 1][j - column] != '\n');
            }
        }
        lemma_lines_block(front, column);
        lemma_lines_extend(before, line);
        let t = block(ls, column);
        assert(t =~= (before + line).push('\n'));
        assert(t.drop_last() =~= before + line);
        assert(Seq::<char>::empty() + line =~= line);
        assert(lines(t) == lines(before + line).push(Seq::empty()));
        assert(lines(before + line) == lines(before).drop_last().push(line));
        assert forall|i: int| 0 <= i < ls.len() implies (#[trigger] lines(t)[i]) == spaces(column)
            + ls[i] by {
            if i < front.len() {
                assert(lines(t)[i] == lines(before)[i]);
            }
        }
    }
}

/// Whatever text is written as a literal block, reading gives it back, line
/// for line.
pub proof fn law_literal_read_back(s: Seq<char>, column: nat)
    ensures
        read_literal(block(lines(s), column), column) == s,
{
    lemma_lines_clean(s);
    lemma_lines_block(lines(s), column);
    lemma_joined_lines(s);
    let t = block(lines(s), column);
    let stripped = lines(t).drop_last().map_values(|line: Seq<char>| line.skip(column as int));
    assert forall|i: int| 0 <= i < lines(s).len() implies #[trigger] stripped[i] == lines(s)[i] by {
        assert(lines(t)[i] == spaces(column) + lines(s)[i]);
        assert((spaces(column) + lines(s)[i]).skip(column as int) =~= lines(s)[i]);
    }
    assert(stripped =~= lines(s));
}

/// Quoting works character by character: what is between the quotes of two
/// strings together is what is between the quotes of each, one after the other.
pub proof fn law_quoting_joins(a: Seq<char>, b: Seq<char>)
    ensures
        quoted(a + b) == quoted(a).drop_last() + quoted(b).drop_first(),
{
    lemma_escaped_append(a, b);
    assert(quoted(a + b) =~= quoted(a).drop_last() + quoted(b).drop_first());
}

proof fn lemma_escaped_append(a: Seq<char>, b: Seq<char>)
    ensures
        escaped(a + b) == escaped(a) + escaped(b),
    decreases b.len(),
{
    if b.len() == 0 {
        assert(a + b =~= a);
    } else {
        lemma_escaped_append(a, b.drop_last());
        assert((a + b).drop_last() =~= a + b.drop_last());
    }
    assert(escaped(a + b) =~= escaped(a) + escaped(b));
}

/// How a character is quoted: a backslash and a double quote after a backslash,
/// a newline, a carriage return and a tabulator by their letters, the other
/// control characters by their code in four hexadecimal digits in upper case,
/// and every other character as it is.
pub proof fn law_quoted_character(c: char)
    ensures
        ({
            let code = c as u32;
            let high = code / 16;
            let low = code % 16;
            quoted(seq![c]) == if c == '\\' || c == '"' {
                seq!['"', '\\', c, '"']
            } else if code == 10 {
                seq!['"', '\\', 'n', '"']
            } else if code == 13 {
                seq!['"', '\\', 'r', '"']
            } else if code == 9 {
                seq!['"', '\\', 't', '"']
            } else if code < 32 || 127 <= code < 160 {
                seq![
                    '"',
                    '\\',
                    'u',
                    '0',
                    '0',
                    if high < 10 { (48 + high) as char } else { (55 + high) as char },
                    if low < 10 { (48 + low) as char } else { (55 + low) as char },
                    '"',
                ]
            } else {
                seq!['"', c, '"']
            }
        }),
{
    let one = seq![c];
    assert(one.drop_last() =~= Seq::empty());
    assert(escaped(one.drop_last()) =~= Seq::empty());
    assert(escaped(one) =~= escape(c));
    assert(quoted(one) =~= seq!['"'] + escape(c) + seq!['"']);
    if is_control(c) && c != '\n' && c != '\r' && c != '\t' {
        let n = c as nat;
        assert(n / 0x1000 == 0);
        assert(n / 0x100 == 0);
        assert(n / 0x10 < 0x10);
        assert(n / 0x10 % 0x10 == n / 0x10);
    }
}

/// Decimal notation has a minus sign exactly where the integer is negative,
/// digits otherwise, and no zero before other digits.
pub proof fn law_decimal_notation(n: int)
    ensures
        ({
            let t = decimal(n);
            let from: int = if n < 0 { 1 } else { 0 };
            &&& t.len() > from
            &&& n < 0 ==> t[0] == '-'
            &&& forall|i: int| from <= i < t.len() ==> '0' <= #[trigger] t[i] <= '9'
            &&& t[from] == '0' ==> n == 0
            &&& n == 0 ==> t.len() == 1
        }),
{
    let m = if n < 0 { (-n) as nat } else { n as nat };
    lemma_digits(m);
    lemma_no_leading_zero(m);
    assert forall|i: int| (if n < 0 { 1int } else { 0int }) <= i < decimal(n).len() implies '0'
        <= #[trigger] decimal(n)[i] <= '9' by {
        assert(decimal(n)[i] == digits(m)[if n < 0 { i - 1 } else { i }]);
    }
}

proof fn lemma_no_leading_zero(n: nat)
    ensures
        digits(n).len() > 0,
        digits(n)[0] == '0' ==> n == 0,
        n == 0 ==> digits(n).len() == 1,
    decreases n,
{
    if n >= 10 {
        lemma_no_leading_zero(n / 10);
    }
}

/// A text of one line is written as one line of the block, at its column; a text
/// with a newline is written as what stands before it and what stands after it,
/// one after the other.
pub proof fn law_literal_line_by_line(a: Seq<char>, b: Seq<char>, line: Seq<char>, column: nat)
    requires
        forall|i: int| 0 <= i < line.len() ==> line[i] != '\n',
    ensures
        block(lines(line), column) == spaces(column) + line + seq!['\n'],
        block(lines(a + seq!['\n'] + b), column) == block(lines(a), column) + block(
            lines(b),
            column,
        ),
{
    let none = Seq::<char>::empty();
    lemma_lines_extend(none, line);
    assert(none + line =~= line);
    assert(lines(line) =~= seq![line]);
    assert(lines(line).drop_last() =~= Seq::empty());
    assert(block(lines(line).drop_last(), column) =~= Seq::empty());
    assert(block(lines(line), column) =~= spaces(column) + line + seq!['\n']);
    lemma_lines_join(a, b);
    lemma_block_append(lines(a), lines(b), column);
}

proof fn lemma_lines_join(a: Seq<char>, b: Seq<char>)
    ensures
        lines(a + seq!['\n'] + b) == lines(a) + lines(b),
    decreases b.len(),
{
    let t = a + seq!['\n'] + b;
    if b.len() == 0 {
        assert(t.drop_last() =~= a);
    } else {
        lemma_lines_join(a, b.drop_last());
        lemma_lines_clean(b.drop_last());
        assert(t.drop_last() =~= a + seq!['\n'] + b.drop_last());
    }
    assert(lines(t) =~= lines(a) + lines(b));
}

proof fn lemma_block_append(a: Seq<Seq<char>>, b: Seq<Seq<char>>, column: nat)
    ensures
        block(a + b, column) == block(a, column) + block(b, column),
    decreases b.len(),
{
    if b.len() == 0 {
        assert(a + b =~= a);
    } else {
        lemma_block_append(a, b.drop_last(), column);
        assert((a + b).drop_last() =~= a + b.drop_last());
    }
    assert(block(a + b, column) =~= block(a, column) + block(b, column));
}

proof fn lemma_encode_append(a: Seq<char>, b: Seq<char>)
    ensures
        encode_utf8(a + b) == encode_utf8(a) + encode_utf8(b),
    decreases a.len(),
{
    if a.len() == 0 {
        assert(a + b =~= b);
    } else {
        lemma_encode_append(a.drop_first(), b);
        assert((a + b).drop_first() =~= a.drop_first() + b);
    }
    assert(encode_utf8(a + b) =~= encode_utf8(a) + encode_utf8(b));
}

/// Where a text is encoded, the part between the lengths of what comes before
/// it and of that with it is the part.
pub proof fn law_byte_range_of_part(before: Seq<char>, part: Seq<char>, after: Seq<char>)
    ensures
        byte_range(
            before + part + after,
            encode_utf8(before).len() as int,
            encode_utf8(before + part).len() as int,
        ) == Some(part),
{
    let s = before + part + after;
    let bytes = encode_utf8(s);
    let start = encode_utf8(before).len() as int;
    let end = encode_utf8(before + part).len() as int;
    lemma_encode_append(before, part);
    lemma_encode_append(before + part, after);
    assert(s =~= before + (part + after));
    lemma_encode_append(before, part + after);
    lemma_boundary(before, part + after);
    lemma_boundary(before + part, after);
    assert(bytes.subrange(start, end) =~= encode_utf8(part));
    vstd::utf8::encode_utf8_decode_utf8(part);
}

/// The end of an encoded text is a boundary in any text that goes on.
proof fn lemma_boundary(a: Seq<char>, b: Seq<char>)
    ensures
        is_char_boundary(encode_utf8(a + b), encode_utf8(a).len() as int),
    decreases a.len(),
{
    let bytes = encode_utf8(a + b);
    vstd::utf8::encode_utf8_valid_utf8(a + b);
    if a.len() > 0 {
        lemma_boundary(a.drop_first(), b);
        assert((a + b).drop_first() =~= a.drop_first() + b);
        vstd::utf8::encode_utf8_first_scalar(a + b);
        lemma_encode_append(a, b);
        assert(vstd::utf8::pop_first_scalar(bytes) =~= encode_utf8(a.drop_first() + b));
    }
}

/// Where there are characters between two byte offsets, the text is what comes
/// before them, they, and what comes after, and the offsets are the lengths of
/// the encodings.
pub proof fn law_byte_range_is_part(s: Seq<char>, start: int, end: int)
    requires
        byte_range(s, start, end) is Some,
    ensures
        exists|before: Seq<char>, after: Seq<char>| #[trigger]
            (before + byte_range(s, start, end)->0 + after) == s && encode_utf8(before).len()
                == start && encode_utf8(before + byte_range(s, start, end)->0).len() == end,
{
    let bytes = encode_utf8(s);
    vstd::utf8::encode_utf8_valid_utf8(s);
    vstd::utf8::encode_utf8_decode_utf8(s);
    let head = bytes.subrange(0, end);
    let tail = bytes.subrange(end, bytes.len() as int);
    vstd::utf8::decode_utf8_split(bytes, end);
    vstd::utf8::valid_utf8_split(bytes, end);
    vstd::utf8::is_char_boundary_start_end_of_seq(head);
    if start < end {
        vstd::utf8::is_char_boundary_iff_not_is_continuation_byte(bytes, start);
        vstd::utf8::is_char_boundary_iff_not_is_continuation_byte(head, start);
    }
    vstd::utf8::decode_utf8_split(head, start);
    vstd::utf8::valid_utf8_split(head, start);
    let first = head.subrange(0, start);
    let middle = head.subrange(start, end);
    assert(middle =~= bytes.subrange(start, end));
    let before = decode_utf8(first);
    let part = decode_utf8(middle);
    let after = decode_utf8(tail);
    vstd::utf8::decode_utf8_encode_utf8(first);
    vstd::utf8::decode_utf8_encode_utf8(middle);
    lemma_encode_append(before, part);
    assert(byte_range(s, start, end)->0 == part);
    assert((before + byte_range(s, start, end)->0 + after) =~= s);
    assert(encode_utf8(before).len() == start);
    assert(encode_utf8(before + byte_range(s, start, end)->0).len() == end);
}

} // verus!
