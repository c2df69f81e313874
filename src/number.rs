use vstd::prelude::*;
use vstd::string::*;

verus! {

/// An ASCII decimal digit.
pub open spec fn is_digit(c: char) -> bool {
    '0' <= c && c <= '9'
}

/// The value of a decimal digit.
pub open spec fn digit_value(c: char) -> int {
    (c as int) - ('0' as int)
}

/// The value of a run of decimal digits, most significant first.
pub open spec fn digits_value(s: Seq<char>) -> int
    decreases s.len(),
{
    if s.len() == 0 {
        0
    } else {
        digits_value(s.drop_last()) * 10 + digit_value(s.last())
    }
}

pub open spec fn all_digits(s: Seq<char>) -> bool {
    forall|i: int| 0 <= i < s.len() ==> is_digit(#[trigger] s[i])
}

pub open spec fn in_i32(v: int) -> bool {
    i32::MIN <= v && v <= i32::MAX
}

/// What follows the sign of a token, if it has one.
pub open spec fn token_digits(t: Seq<char>) -> Seq<char> {
    if t.len() > 0 && (t[0] == '-' || t[0] == '+') {
        t.subrange(1, t.len() as int)
    } else {
        t
    }
}

/// The signed 32-bit integer written by `t`: an optional `+` or `-`, then one or more
/// decimal digits, and nothing else; `None` where `t` is not such a text or its value does
/// not fit.
pub open spec fn token_value(t: Seq<char>) -> Option<int> {
    let body = token_digits(t);
    let magnitude = digits_value(body);
    let v = if t.len() > 0 && t[0] == '-' { -magnitude } else { magnitude };
    if body.len() == 0 || !all_digits(body) || !in_i32(v) {
        None
    } else {
        Some(v)
    }
}

/// Past this every magnitude is too large for an `i32`.
const MAGNITUDE_CAP: i64 = 4294967296;

/// Reads the characters `from..to` of `text` as one token, as `token_value` does.
pub fn parse_token(text: &str, from: usize, to: usize) -> (r: Option<i32>)
    requires
        from <= to <= text@.len(),
    ensures
        match token_value(text@.subrange(from as int, to as int)) {
            Some(v) => r == Some(v as i32),
            None => r.is_none(),
        },
{
    let ghost t = text@.subrange(from as int, to as int);
    let mut start = from;
    let mut negative = false;
    if from < to {
        let c = text.get_char(from);
        if c == '-' || c == '+' {
            negative = c == '-';
            start = from + 1;
        }
    }
    let ghost body = text@.subrange(start as int, to as int);
    assert(body =~= token_digits(t));
    if start == to {
        assert(body.len() == 0);
        assert(token_value(t).is_none());
        return None;
    }
    let mut acc: i64 = 0;
    let mut i = start;
    while i < to
        invariant
            start <= i <= to <= text@.len(),
            body == text@.subrange(start as int, to as int),
            body == token_digits(t),
            t == text@.subrange(from as int, to as int),
            negative == (t.len() > 0 && t[0] == '-'),
            all_digits(text@.subrange(start as int, i as int)),
            0 <= digits_value(text@.subrange(start as int, i as int)),
            acc == if digits_value(text@.subrange(start as int, i as int)) < MAGNITUDE_CAP {
                digits_value(text@.subrange(start as int, i as int))
            } else {
                MAGNITUDE_CAP as int
            },
        decreases to - i,
    {
        let c = text.get_char(i);
        if !('0' <= c && c <= '9') {
            assert(body[i - start] == c);
            assert(!all_digits(body));
            return None;
        }
        let ghost prev = text@.subrange(start as int, i as int);
        let ghost next = text@.subrange(start as int, i + 1);
        assert(next.drop_last() =~= prev);
        assert(next.last() == c);
        let d = (c as u32 - '0' as u32) as i64;
        assert(digits_value(next) == digits_value(prev) * 10 + d);
        if acc >= MAGNITUDE_CAP {
            assert(digits_value(prev) >= MAGNITUDE_CAP);
            assert(digits_value(next) >= MAGNITUDE_CAP) by (nonlinear_arith)
                requires
                    digits_value(next) == digits_value(prev) * 10 + d,
                    digits_value(prev) >= MAGNITUDE_CAP,
                    d >= 0,
            ;
        } else {
            acc = acc * 10 + d;
            if acc > MAGNITUDE_CAP {
                acc = MAGNITUDE_CAP;
            }
        }
        assert(all_digits(next)) by {
            assert(forall|k: int| 0 <= k < prev.len() ==> next[k] == prev[k]);
        }
        i = i + 1;
    }
    assert(text@.subrange(start as int, i as int) =~= body);
    let value: i64 = if negative { -acc } else { acc };
    if value < i32::MIN as i64 || value > i32::MAX as i64 {
        None
    } else {
        Some(value as i32)
    }
}

/// The ASCII code of `0`.
pub const ASCII_ZERO: u8 = 48;

/// The ASCII code of `-`.
pub const ASCII_MINUS: u8 = 45;

/// The ASCII byte of the decimal digit `d`.
pub open spec fn digit_byte(d: int) -> u8 {
    (ASCII_ZERO + d) as u8
}

/// The shortest decimal text of a natural number.
pub open spec fn natural_text(n: nat) -> Seq<u8>
    decreases n,
{
    if n < 10 {
        seq![digit_byte(n as int)]
    } else {
        natural_text(n / 10).push(digit_byte((n % 10) as int))
    }
}

/// The decimal text of an integer: a `-` before the digits of a negative one.
pub open spec fn decimal_text(v: int) -> Seq<u8> {
    if v < 0 {
        seq![ASCII_MINUS] + natural_text((-v) as nat)
    } else {
        natural_text(v as nat)
    }
}

fn push_natural(out: &mut Vec<u8>, n: u32)
    ensures
        final(out)@ == old(out)@ + natural_text(n as nat),
    decreases n,
{
    if n >= 10 {
        push_natural(out, n / 10);
    }
    out.push(ASCII_ZERO + (n % 10) as u8);
    assert(final(out)@ =~= old(out)@ + natural_text(n as nat));
}

/// Appends the decimal text of `v` to `out`.
pub fn push_decimal(out: &mut Vec<u8>, v: i32)
    ensures
        final(out)@ == old(out)@ + decimal_text(v as int),
{
    if v < 0 {
        out.push(ASCII_MINUS);
        push_natural(out, (-(v as i64)) as u32);
    } else {
        push_natural(out, v as u32);
    }
    assert(final(out)@ =~= old(out)@ + decimal_text(v as int));
}

/// The characters of an ASCII byte string.
pub open spec fn ascii_chars(b: Seq<u8>) -> Seq<char> {
    b.map_values(|x: u8| x as char)
}

proof fn lemma_natural_text_reads_back(n: nat)
    ensures
        all_digits(ascii_chars(natural_text(n))),
        digits_value(ascii_chars(natural_text(n))) == n,
        ascii_chars(natural_text(n)).len() > 0,
    decreases n,
{
    let s = ascii_chars(natural_text(n));
    if n < 10 {
        assert(s.drop_last() =~= Seq::<char>::empty());
        assert(s.last() == (ASCII_ZERO + n) as u8 as char);
        assert(digit_value(s.last()) == n);
        assert(digits_value(s.drop_last()) == 0);
    } else {
        lemma_natural_text_reads_back(n / 10);
        let p = ascii_chars(natural_text(n / 10));
        assert(s.drop_last() =~= p);
        assert(s.last() == (ASCII_ZERO + n % 10) as u8 as char);
        assert(digit_value(s.last()) == n % 10);
        assert(digits_value(s) == digits_value(p) * 10 + n % 10);
        assert((n / 10) * 10 + n % 10 == n) by (nonlinear_arith);
        assert(forall|i: int| 0 <= i < p.len() ==> s[i] == p[i]);
    }
}

/// The decimal text of an `i32` reads back as that value, and holds only digits and `-`.
pub proof fn lemma_decimal_text_reads_back(v: int)
    requires
        in_i32(v),
    ensures
        token_value(ascii_chars(decimal_text(v))) == Some(v),
        forall|i: int|
            0 <= i < ascii_chars(decimal_text(v)).len() ==> (is_digit(
                #[trigger] ascii_chars(decimal_text(v))[i],
            ) || ascii_chars(decimal_text(v))[i] == '-'),
{
    let t = ascii_chars(decimal_text(v));
    if v < 0 {
        let n = (-v) as nat;
        lemma_natural_text_reads_back(n);
        let d = ascii_chars(natural_text(n));
        assert(t =~= seq![ASCII_MINUS as char] + d);
        assert(t[0] == '-');
        assert(token_digits(t) =~= d);
    } else {
        lemma_natural_text_reads_back(v as nat);
        assert(t == ascii_chars(natural_text(v as nat)));
        assert(is_digit(t[0]));
        assert(token_digits(t) == t);
    }
}

} // verus!
