use vstd::prelude::*;
use vstd::string::*;

use crate::number::{
    ascii_chars,
    decimal_text,
    lemma_decimal_text_reads_back,
    parse_token,
    push_decimal,
    token_value,
};

verus! {

/// A character with the Unicode `White_Space` property: these separate the numbers of a
/// command line.
pub open spec fn is_separator(c: char) -> bool {
    ||| ('\t' <= c && c <= '\r')
    ||| c == ' '
    ||| c == '\u{85}'
    ||| c == '\u{a0}'
    ||| c == '\u{1680}'
    ||| ('\u{2000}' <= c && c <= '\u{200a}')
    ||| c == '\u{2028}'
    ||| c == '\u{2029}'
    ||| c == '\u{202f}'
    ||| c == '\u{205f}'
    ||| c == '\u{3000}'
}

fn separator(c: char) -> (r: bool)
    ensures
        r == is_separator(c),
{
    ('\t' <= c && c <= '\r') || c == ' ' || c == '\u{85}' || c == '\u{a0}' || c == '\u{1680}'
        || ('\u{2000}' <= c && c <= '\u{200a}') || c == '\u{2028}' || c == '\u{2029}' || c
        == '\u{202f}' || c == '\u{205f}' || c == '\u{3000}'
}

/// The index of the first separator in `s` at or after `from`, or `s.len()` if there is none.
pub open spec fn next_separator(s: Seq<char>, from: int) -> int
    decreases s.len() - from,
{
    if from >= s.len() {
        s.len() as int
    } else if is_separator(s[from]) {
        from
    } else {
        next_separator(s, from + 1)
    }
}

proof fn lemma_next_separator_bounds(s: Seq<char>, from: int)
    requires
        0 <= from <= s.len(),
    ensures
        from <= next_separator(s, from) <= s.len(),
    decreases s.len() - from,
{
    if from < s.len() && !is_separator(s[from]) {
        lemma_next_separator_bounds(s, from + 1);
    }
}

fn find_separator(text: &str, from: usize, len: usize) -> (r: usize)
    requires
        len == text@.len(),
        from <= len,
    ensures
        r == next_separator(text@, from as int),
{
    let mut i = from;
    while i < len
        invariant
            from <= i <= len == text@.len(),
            next_separator(text@, from as int) == next_separator(text@, i as int),
        decreases len - i,
    {
        if separator(text.get_char(i)) {
            return i;
        }
        i = i + 1;
    }
    i
}

/// The (left, right) pair that a command line carries: the first two pieces of the line
/// between separators, each a signed 32-bit decimal integer. Anything after the second
/// piece is ignored. `None` for a malformed line.
pub open spec fn command_of_line(s: Seq<char>) -> Option<(i32, i32)> {
    let first_end = next_separator(s, 0);
    if first_end >= s.len() {
        None
    } else {
        let second_end = next_separator(s, first_end + 1);
        match (
            token_value(s.subrange(0, first_end)),
            token_value(s.subrange(first_end + 1, second_end)),
        ) {
            (Some(l), Some(r)) => Some((l as i32, r as i32)),
            _ => None,
        }
    }
}

/// Reads the (left, right) pair of a command line.
pub fn parse_command(line: &str) -> (r: Option<(i32, i32)>)
    ensures
        r == command_of_line(line@),
{
    let len = line.unicode_len();
    let first_end = find_separator(line, 0, len);
    if first_end >= len {
        return None;
    }
    proof {
        lemma_next_separator_bounds(line@, first_end + 1);
    }
    let second_end = find_separator(line, first_end + 1, len);
    let left = parse_token(line, 0, first_end);
    let right = parse_token(line, first_end + 1, second_end);
    match (left, right) {
        (Some(l), Some(r)) => Some((l, r)),
        _ => None,
    }
}

/// The bytes of a text all of whose characters are ASCII.
pub open spec fn ascii_bytes(s: Seq<char>) -> Seq<u8> {
    s.map_values(|c: char| c as u8)
}

fn push_ascii(out: &mut Vec<u8>, s: &str)
    ensures
        final(out)@ == old(out)@ + ascii_bytes(s@),
{
    let len = s.unicode_len();
    let mut i: usize = 0;
    while i < len
        invariant
            i <= len == s@.len(),
            out@ == old(out)@ + ascii_bytes(s@.subrange(0, i as int)),
        decreases len - i,
    {
        let c = s.get_char(i);
        out.push(c as u8);
        assert(s@.subrange(0, i + 1) =~= s@.subrange(0, i as int).push(c));
        assert(out@ =~= old(out)@ + ascii_bytes(s@.subrange(0, i + 1)));
        i = i + 1;
    }
    assert(s@.subrange(0, len as int) =~= s@);
}

/// The line that carries a (left, right) command: `<left> <right>` and a line feed.
pub open spec fn command_text(left: int, right: int) -> Seq<u8> {
    decimal_text(left) + ascii_bytes(" "@) + decimal_text(right) + ascii_bytes("\n"@)
}

/// The status line that reports the held state: `l=<left> r=<right>` and a line feed.
pub open spec fn status_text(left: int, right: int) -> Seq<u8> {
    ascii_bytes("l="@) + decimal_text(left) + ascii_bytes(" r="@) + decimal_text(right)
        + ascii_bytes("\n"@)
}

/// The line sent back for a malformed command.
pub open spec fn invalid_text() -> Seq<u8> {
    ascii_bytes("invalid command\n"@)
}

/// Writes a (left, right) command as one protocol line.
pub fn command_line(left: i32, right: i32) -> (r: Vec<u8>)
    ensures
        r@ == command_text(left as int, right as int),
{
    let mut out: Vec<u8> = Vec::new();
    push_decimal(&mut out, left);
    push_ascii(&mut out, " ");
    push_decimal(&mut out, right);
    push_ascii(&mut out, "\n");
    assert(out@ =~= command_text(left as int, right as int));
    out
}

/// Appends the status line for the state (left, right) to `out`.
pub fn push_status(out: &mut Vec<u8>, left: i32, right: i32)
    ensures
        final(out)@ == old(out)@ + status_text(left as int, right as int),
{
    push_ascii(out, "l=");
    push_decimal(out, left);
    push_ascii(out, " r=");
    push_decimal(out, right);
    push_ascii(out, "\n");
    assert(final(out)@ =~= old(out)@ + status_text(left as int, right as int));
}

/// Appends the line sent back for a malformed command to `out`.
pub fn push_invalid(out: &mut Vec<u8>)
    ensures
        final(out)@ == old(out)@ + invalid_text(),
{
    push_ascii(out, "invalid command\n");
}

proof fn lemma_next_separator_at(s: Seq<char>, from: int, k: int)
    requires
        0 <= from <= k < s.len(),
        is_separator(s[k]),
        forall|i: int| from <= i < k ==> !is_separator(#[trigger] s[i]),
    ensures
        next_separator(s, from) == k,
    decreases k - from,
{
    if from < k {
        lemma_next_separator_at(s, from + 1, k);
    }
}

/// A command line as the encoder writes it reads back, at the server, as the same pair.
pub proof fn lemma_command_line_round_trip(left: i32, right: i32)
    ensures
        command_of_line(ascii_chars(command_text(left as int, right as int))) == Some((left, right)),
{
    reveal_strlit(" ");
    reveal_strlit("\n");
    lemma_decimal_text_reads_back(left as int);
    lemma_decimal_text_reads_back(right as int);
    let a = ascii_chars(decimal_text(left as int));
    let b = ascii_chars(decimal_text(right as int));
    let s = ascii_chars(command_text(left as int, right as int));
    assert(s =~= a + seq![' '] + b + seq!['\n']);
    let n = a.len() as int;
    let m = b.len() as int;
    assert forall|i: int| 0 <= i < n implies !is_separator(#[trigger] s[i]) by {
        assert(s[i] == a[i]);
    }
    lemma_next_separator_at(s, 0, n);
    assert forall|i: int| n + 1 <= i < n + 1 + m implies !is_separator(#[trigger] s[i]) by {
        assert(s[i] == b[i - n - 1]);
    }
    lemma_next_separator_at(s, n + 1, n + 1 + m);
    assert(s.subrange(0, n) =~= a);
    assert(s.subrange(n + 1, n + 1 + m) =~= b);
}

} // verus!
