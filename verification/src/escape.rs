//! The visible form of output bytes: printable ASCII as it is, the rest as backslash escapes.

use vstd::prelude::*;

verus! {

/// ASCII horizontal tab.
pub const TAB: u8 = 0x09;

/// ASCII line feed.
pub const LINE_FEED: u8 = 0x0a;

/// ASCII carriage return.
pub const CARRIAGE_RETURN: u8 = 0x0d;

/// ASCII `"`.
pub const DOUBLE_QUOTE: u8 = 0x22;

/// ASCII `'`.
pub const SINGLE_QUOTE: u8 = 0x27;

/// ASCII `0`.
pub const DIGIT_ZERO: u8 = 0x30;

/// ASCII `\`.
pub const BACKSLASH: u8 = 0x5c;

/// ASCII `a`.
pub const LOWER_A: u8 = 0x61;

/// ASCII `n`.
pub const LOWER_N: u8 = 0x6e;

/// ASCII `r`.
pub const LOWER_R: u8 = 0x72;

/// ASCII `t`.
pub const LOWER_T: u8 = 0x74;

/// ASCII `x`.
pub const LOWER_X: u8 = 0x78;

/// The lower-case hexadecimal digit for a value below sixteen, as an ASCII byte.
pub open spec fn hex_digit(n: u8) -> u8 {
    if n < 10 {
        (DIGIT_ZERO + n) as u8
    } else {
        (LOWER_A + (n - 10)) as u8
    }
}

/// The visible form of one byte, as ASCII bytes: `\t`, `\r`, `\n`, `\'`, `\"` and `\\` for
/// tab, carriage return, line feed, the two quotes and the backslash; the byte itself from
/// space to `~`; `\x` and two lower-case hexadecimal digits for every other byte.
pub open spec fn escaped(b: u8) -> Seq<u8> {
    if b == TAB {
        seq![BACKSLASH, LOWER_T]
    } else if b == CARRIAGE_RETURN {
        seq![BACKSLASH, LOWER_R]
    } else if b == LINE_FEED {
        seq![BACKSLASH, LOWER_N]
    } else if b == SINGLE_QUOTE {
        seq![BACKSLASH, SINGLE_QUOTE]
    } else if b == DOUBLE_QUOTE {
        seq![BACKSLASH, DOUBLE_QUOTE]
    } else if b == BACKSLASH {
        seq![BACKSLASH, BACKSLASH]
    } else if 0x20 <= b <= 0x7e {
        seq![b]
    } else {
        seq![BACKSLASH, LOWER_X, hex_digit(b / 16), hex_digit(b % 16)]
    }
}

/// The visible forms of the bytes of `bytes`, one after the other.
pub open spec fn escaped_all(bytes: Seq<u8>) -> Seq<u8>
    decreases bytes.len(),
{
    if bytes.len() == 0 {
        Seq::empty()
    } else {
        escaped_all(bytes.drop_last()) + escaped(bytes.last())
    }
}

/// The hexadecimal digit for a value below sixteen.
fn hex_digit_of(n: u8) -> (d: u8)
    requires
        n < 16,
    ensures
        d == hex_digit(n),
{
    if n < 10 {
        DIGIT_ZERO + n
    } else {
        LOWER_A + (n - 10)
    }
}

/// Appends the visible form of `b` to `out`.
fn push_escaped(out: &mut Vec<u8>, b: u8)
    ensures
        final(out)@ == old(out)@ + escaped(b),
{
    if b == TAB {
        out.push(BACKSLASH);
        out.push(LOWER_T);
    } else if b == CARRIAGE_RETURN {
        out.push(BACKSLASH);
        out.push(LOWER_R);
    } else if b == LINE_FEED {
        out.push(BACKSLASH);
        out.push(LOWER_N);
    } else if b == SINGLE_QUOTE || b == DOUBLE_QUOTE || b == BACKSLASH {
        out.push(BACKSLASH);
        out.push(b);
    } else if 0x20 <= b && b <= 0x7e {
        out.push(b);
    } else {
        out.push(BACKSLASH);
        out.push(LOWER_X);
        out.push(hex_digit_of(b / 16));
        out.push(hex_digit_of(b % 16));
    }
    assert(out@ =~= old(out)@ + escaped(b));
}

/// The visible form of one output byte.
pub fn escape_byte(b: u8) -> (v: Vec<u8>)
    ensures
        v@ == escaped(b),
{
    let mut v: Vec<u8> = Vec::new();
    push_escaped(&mut v, b);
    assert(v@ =~= escaped(b));
    v
}

/// The visible form of a whole output.
pub fn escape_output(bytes: &Vec<u8>) -> (v: Vec<u8>)
    ensures
        v@ == escaped_all(bytes@),
{
    let mut v: Vec<u8> = Vec::new();
    let mut i: usize = 0;
    while i < bytes.len()
        invariant
            i <= bytes@.len(),
            v@ == escaped_all(bytes@.take(i as int)),
        decreases bytes.len() - i,
    {
        assert(bytes@.take(i + 1).drop_last() =~= bytes@.take(i as int));
        push_escaped(&mut v, bytes[i]);
        i = i + 1;
    }
    assert(bytes@.take(i as int) =~= bytes@);
    v
}

} // verus!
