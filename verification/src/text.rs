//! Text as bytes: what the interpreter writes to its output sink and reads
//! from its input stream.

use vstd::prelude::*;

verus! {

/// The digit `0`.
pub const ZERO: u8 = 48;

/// The minus sign.
pub const MINUS: u8 = 45;

/// The plus sign.
pub const PLUS: u8 = 43;

/// The line feed, which ends a line of input.
pub const LINE_FEED: u8 = 10;

/// The decimal digits of `n`, most significant first, without leading
/// zeros; `0` is the one digit `0`.
pub open spec fn decimal_digits(n: nat) -> Seq<u8>
    decreases n,
{
    if n < 10 {
        seq![(ZERO + n) as u8]
    } else {
        decimal_digits(n / 10).push((ZERO + n % 10) as u8)
    }
}

/// The decimal text of an integer: a minus sign for a negative one, then
/// the digits of its magnitude.
pub open spec fn decimal_text(v: int) -> Seq<u8> {
    if v < 0 {
        seq![MINUS] + decimal_digits((-v) as nat)
    } else {
        decimal_digits(v as nat)
    }
}

/// The upper-case hexadecimal digit for `d`.
pub open spec fn hex_digit(d: nat) -> u8 {
    if d < 10 {
        (48 + d) as u8
    } else {
        (55 + d) as u8
    }
}

/// The hexadecimal digits of `n`, most significant first, without leading
/// zeros; `0` is the one digit `0`.
pub open spec fn hex_digits(n: nat) -> Seq<u8>
    decreases n,
{
    if n < 16 {
        seq![hex_digit(n)]
    } else {
        hex_digits(n / 16).push(hex_digit(n % 16))
    }
}

/// The bytes that encode the character with code `byte` in UTF-8: the byte
/// itself below 128, two bytes from there on.
pub open spec fn latin1_text(byte: u8) -> Seq<u8> {
    if byte < 128 {
        seq![byte]
    } else {
        seq![(192 + byte / 64) as u8, (128 + byte % 64) as u8]
    }
}

/// Appends `bytes` to `out`.
pub fn append(out: &mut Vec<u8>, bytes: &[u8])
    ensures
        final(out)@ == old(out)@ + bytes@,
{
    let mut i: usize = 0;
    while i < bytes.len()
        invariant
            i <= bytes.len(),
            out@ == old(out)@ + bytes@.take(i as int),
        decreases bytes.len() - i,
    {
        out.push(bytes[i]);
        proof {
            assert(bytes@.take(i + 1) =~= bytes@.take(i as int).push(bytes@[i as int]));
            assert(out@ =~= old(out)@ + bytes@.take(i + 1));
        }
        i = i + 1;
    }
    proof {
        assert(bytes@.take(bytes@.len() as int) =~= bytes@);
    }
}

/// Appends the decimal digits of `n` to `out`.
pub fn push_decimal(out: &mut Vec<u8>, n: u64)
    ensures
        final(out)@ == old(out)@ + decimal_digits(n as nat),
    decreases n,
{
    if n >= 10 {
        push_decimal(out, n / 10);
    }
    let digit: u8 = (n % 10) as u8;
    out.push(ZERO + digit);
    proof {
        if n >= 10 {
            assert(out@ =~= old(out)@ + decimal_digits(n as nat));
        } else {
            assert(out@ =~= old(out)@ + decimal_digits(n as nat));
        }
    }
}

/// The magnitude of `v`.
pub fn magnitude(v: i64) -> (m: u64)
    ensures
        m == if v < 0 {
            -v
        } else {
            v as int
        },
{
    if v >= 0 {
        v as u64
    } else {
        let below: i64 = -(v + 1);
        below as u64 + 1
    }
}

/// Appends the decimal text of `v` to `out`.
pub fn push_integer(out: &mut Vec<u8>, v: i64)
    ensures
        final(out)@ == old(out)@ + decimal_text(v as int),
{
    if v < 0 {
        out.push(MINUS);
    }
    push_decimal(out, magnitude(v));
    proof {
        assert(out@ =~= old(out)@ + decimal_text(v as int));
    }
}

/// Appends the hexadecimal digits of `n` to `out`.
pub fn push_hex(out: &mut Vec<u8>, n: u64)
    ensures
        final(out)@ == old(out)@ + hex_digits(n as nat),
    decreases n,
{
    if n >= 16 {
        push_hex(out, n / 16);
    }
    let d: u8 = (n % 16) as u8;
    let digit: u8 = if d < 10 {
        48 + d
    } else {
        55 + d
    };
    out.push(digit);
    proof {
        assert(out@ =~= old(out)@ + hex_digits(n as nat));
    }
}

/// Appends the UTF-8 encoding of the character with code `byte` to `out`.
pub fn push_latin1(out: &mut Vec<u8>, byte: u8)
    ensures
        final(out)@ == old(out)@ + latin1_text(byte),
{
    if byte < 128 {
        out.push(byte);
    } else {
        out.push(192 + byte / 64);
        out.push(128 + byte % 64);
    }
    proof {
        assert(out@ =~= old(out)@ + latin1_text(byte));
    }
}

/// The length of the first line of `s`: everything up to and including the
/// first line feed, or all of `s` where it holds none.
pub open spec fn line_len(s: Seq<u8>) -> nat
    decreases s.len(),
{
    if s.len() == 0 {
        0
    } else if s[0] == LINE_FEED {
        1
    } else {
        1 + line_len(s.skip(1))
    }
}

/// The index just behind the first line of `bytes` that starts at `from`.
pub fn line_end(bytes: &[u8], from: usize) -> (end: usize)
    requires
        from <= bytes@.len(),
    ensures
        from <= end <= bytes@.len(),
        end - from == line_len(bytes@.skip(from as int)),
{
    let mut i: usize = from;
    loop
        invariant_except_break
            from <= i <= bytes@.len(),
            line_len(bytes@.skip(from as int)) == (i - from) + line_len(bytes@.skip(i as int)),
        ensures
            from <= i <= bytes@.len(),
            i - from == line_len(bytes@.skip(from as int)),
        decreases bytes@.len() - i,
    {
        if i >= bytes.len() {
            break ;
        }
        proof {
            assert(bytes@.skip(i as int).skip(1) =~= bytes@.skip(i + 1));
            assert(bytes@.skip(i as int)[0] == bytes@[i as int]);
        }
        if bytes[i] == LINE_FEED {
            i = i + 1;
            break ;
        }
        i = i + 1;
    }
    i
}

/// A white-space character that one byte encodes: tab, line feed, vertical
/// tab, form feed, carriage return, space.
pub open spec fn is_space1(a: u8) -> bool {
    9 <= a <= 13 || a == 32
}

/// A white-space character that two bytes encode: U+0085 and U+00A0.
pub open spec fn is_space2(a: u8, b: u8) -> bool {
    a == 0xC2 && (b == 0x85 || b == 0xA0)
}

/// A white-space character that three bytes encode: U+1680, U+2000 to
/// U+200A, U+2028, U+2029, U+202F, U+205F and U+3000.
pub open spec fn is_space3(a: u8, b: u8, c: u8) -> bool {
    ||| a == 0xE1 && b == 0x9A && c == 0x80
    ||| a == 0xE2 && b == 0x80 && (0x80 <= c <= 0x8A || c == 0xA8 || c == 0xA9 || c == 0xAF)
    ||| a == 0xE2 && b == 0x81 && c == 0x9F
    ||| a == 0xE3 && b == 0x80 && c == 0x80
}

/// The number of bytes of the white-space character that `s` starts with;
/// zero where it starts with none.
pub open spec fn space_ahead(s: Seq<u8>) -> nat {
    if s.len() >= 1 && is_space1(s[0]) {
        1
    } else if s.len() >= 2 && is_space2(s[0], s[1]) {
        2
    } else if s.len() >= 3 && is_space3(s[0], s[1], s[2]) {
        3
    } else {
        0
    }
}

/// The number of bytes of the white-space character that `s` ends with;
/// zero where it ends with none.
pub open spec fn space_behind(s: Seq<u8>) -> nat {
    let n = s.len() as int;
    if n >= 1 && is_space1(s[n - 1]) {
        1
    } else if n >= 2 && is_space2(s[n - 2], s[n - 1]) {
        2
    } else if n >= 3 && is_space3(s[n - 3], s[n - 2], s[n - 1]) {
        3
    } else {
        0
    }
}

/// `s` without the white space that it starts with.
pub open spec fn trim_start(s: Seq<u8>) -> Seq<u8>
    decreases s.len(),
{
    let w = space_ahead(s);
    if w == 0 {
        s
    } else {
        trim_start(s.skip(w as int))
    }
}

/// `s` without the white space that it ends with.
pub open spec fn trim_end(s: Seq<u8>) -> Seq<u8>
    decreases s.len(),
{
    let w = space_behind(s);
    if w == 0 {
        s
    } else {
        trim_end(s.take(s.len() - w))
    }
}

/// `s` without the white space around it.
pub open spec fn trim(s: Seq<u8>) -> Seq<u8> {
    trim_end(trim_start(s))
}

/// The number of bytes of the white-space character at `from`, within the
/// part of `bytes` that ends at `to`.
fn space_ahead_at(bytes: &[u8], from: usize, to: usize) -> (w: usize)
    requires
        from <= to <= bytes@.len(),
    ensures
        w == space_ahead(bytes@.subrange(from as int, to as int)),
        from + w <= to,
{
    let ghost s = bytes@.subrange(from as int, to as int);
    let n = to - from;
    if n >= 1 && (9 <= bytes[from] && bytes[from] <= 13 || bytes[from] == 32) {
        assert(s[0] == bytes@[from as int]);
        return 1;
    }
    if n >= 2 {
        assert(s[0] == bytes@[from as int] && s[1] == bytes@[from + 1]);
        let a = bytes[from];
        let b = bytes[from + 1];
        if a == 0xC2 && (b == 0x85 || b == 0xA0) {
            return 2;
        }
    }
    if n >= 3 {
        assert(s[0] == bytes@[from as int] && s[1] == bytes@[from + 1] && s[2] == bytes@[from
            + 2]);
        let a = bytes[from];
        let b = bytes[from + 1];
        let c = bytes[from + 2];
        if a == 0xE1 && b == 0x9A && c == 0x80 || a == 0xE2 && b == 0x80 && (0x80 <= c && c
            <= 0x8A || c == 0xA8 || c == 0xA9 || c == 0xAF) || a == 0xE2 && b == 0x81 && c == 0x9F
            || a == 0xE3 && b == 0x80 && c == 0x80 {
            return 3;
        }
    }
    if n >= 1 {
        assert(s[0] == bytes@[from as int]);
    }
    0
}

/// The number of bytes of the white-space character that ends at `to`,
/// within the part of `bytes` that starts at `from`.
fn space_behind_at(bytes: &[u8], from: usize, to: usize) -> (w: usize)
    requires
        from <= to <= bytes@.len(),
    ensures
        w == space_behind(bytes@.subrange(from as int, to as int)),
        from + w <= to,
{
    let ghost s = bytes@.subrange(from as int, to as int);
    let n = to - from;
    if n >= 1 {
        assert(s[n - 1] == bytes@[to - 1]);
        if 9 <= bytes[to - 1] && bytes[to - 1] <= 13 || bytes[to - 1] == 32 {
            return 1;
        }
    }
    if n >= 2 {
        assert(s[n - 2] == bytes@[to - 2]);
        let a = bytes[to - 2];
        let b = bytes[to - 1];
        if a == 0xC2 && (b == 0x85 || b == 0xA0) {
            return 2;
        }
    }
    if n >= 3 {
        assert(s[n - 3] == bytes@[to - 3]);
        let a = bytes[to - 3];
        let b = bytes[to - 2];
        let c = bytes[to - 1];
        if a == 0xE1 && b == 0x9A && c == 0x80 || a == 0xE2 && b == 0x80 && (0x80 <= c && c
            <= 0x8A || c == 0xA8 || c == 0xA9 || c == 0xAF) || a == 0xE2 && b == 0x81 && c == 0x9F
            || a == 0xE3 && b == 0x80 && c == 0x80 {
            return 3;
        }
    }
    0
}

/// The bounds of the part of `bytes` between `from` and `to` that is left
/// when the white space around it is taken away.
pub fn trim_bounds(bytes: &[u8], from: usize, to: usize) -> (bounds: (usize, usize))
    requires
        from <= to <= bytes@.len(),
    ensures
        from <= bounds.0 <= bounds.1 <= to,
        bytes@.subrange(bounds.0 as int, bounds.1 as int) == trim(
            bytes@.subrange(from as int, to as int),
        ),
{
    let mut a: usize = from;
    loop
        invariant
            from <= a <= to <= bytes@.len(),
            trim_start(bytes@.subrange(from as int, to as int)) == trim_start(
                bytes@.subrange(a as int, to as int),
            ),
        ensures
            from <= a <= to,
            trim_start(bytes@.subrange(from as int, to as int)) == bytes@.subrange(
                a as int,
                to as int,
            ),
        decreases to - a,
    {
        let w = space_ahead_at(bytes, a, to);
        if w == 0 {
            break ;
        }
        proof {
            assert(bytes@.subrange(a as int, to as int).skip(w as int) =~= bytes@.subrange(
                a + w,
                to as int,
            ));
        }
        a = a + w;
    }
    let mut b: usize = to;
    loop
        invariant
            a <= b <= to <= bytes@.len(),
            trim_end(bytes@.subrange(a as int, to as int)) == trim_end(
                bytes@.subrange(a as int, b as int),
            ),
        ensures
            a <= b <= to,
            trim_end(bytes@.subrange(a as int, to as int)) == bytes@.subrange(a as int, b as int),
        decreases b - a,
    {
        let w = space_behind_at(bytes, a, b);
        if w == 0 {
            break ;
        }
        proof {
            assert(bytes@.subrange(a as int, b as int).take(b - a - w) =~= bytes@.subrange(
                a as int,
                b - w,
            ));
        }
        b = b - w;
    }
    (a, b)
}

/// A decimal digit.
pub open spec fn is_digit(b: u8) -> bool {
    48 <= b <= 57
}

/// Every byte of `s` is a decimal digit.
pub open spec fn all_digits(s: Seq<u8>) -> bool {
    forall|i: int| 0 <= i < s.len() ==> is_digit(#[trigger] s[i])
}

/// What a digit counts for; a byte that is no digit counts for nothing.
pub open spec fn digit_value(b: u8) -> nat {
    if is_digit(b) {
        (b - 48) as nat
    } else {
        0
    }
}

/// The number that a run of decimal digits writes, most significant digit
/// first.
pub open spec fn digits_value(s: Seq<u8>) -> nat
    decreases s.len(),
{
    if s.len() == 0 {
        0
    } else {
        digits_value(s.drop_last()) * 10 + digit_value(s.last())
    }
}

/// The integer that `s` writes: an optional sign, then one decimal digit or
/// more, and a value that a signed 64-bit integer holds. Anything else
/// writes no integer.
pub open spec fn parse_integer(s: Seq<u8>) -> Option<i64> {
    let negative = s.len() > 0 && s[0] == MINUS;
    let signed = s.len() > 0 && (s[0] == MINUS || s[0] == PLUS);
    let digits = if signed {
        s.skip(1)
    } else {
        s
    };
    let value: int = if negative {
        -digits_value(digits)
    } else {
        digits_value(digits) as int
    };
    if digits.len() > 0 && all_digits(digits) && i64::MIN <= value <= i64::MAX {
        Some(value as i64)
    } else {
        None
    }
}

/// A run of digits is worth at least as much as any part that it starts
/// with.
pub proof fn lemma_digits_value_grows(s: Seq<u8>, k: int)
    requires
        0 <= k <= s.len(),
    ensures
        digits_value(s.take(k)) <= digits_value(s),
    decreases s.len() - k,
{
    if k == s.len() {
        assert(s.take(k) =~= s);
    } else {
        lemma_digits_value_grows(s, k + 1);
        assert(s.take(k + 1).drop_last() =~= s.take(k));
    }
}

/// Reads the integer that the part of `bytes` between `from` and `to`
/// writes.
pub fn parse_between(bytes: &[u8], from: usize, to: usize) -> (parsed: Option<i64>)
    requires
        from <= to <= bytes@.len(),
    ensures
        parsed == parse_integer(bytes@.subrange(from as int, to as int)),
{
    let ghost s = bytes@.subrange(from as int, to as int);
    if from == to {
        return None;
    }
    assert(s[0] == bytes@[from as int]);
    let negative = bytes[from] == MINUS;
    let signed = negative || bytes[from] == PLUS;
    let start: usize = if signed {
        from + 1
    } else {
        from
    };
    let ghost digits = bytes@.subrange(start as int, to as int);
    proof {
        if signed {
            assert(s.skip(1) =~= digits);
        } else {
            assert(s =~= digits);
        }
    }
    if start == to {
        return None;
    }
    let mut acc: u64 = 0;
    let mut i: usize = start;
    proof {
        assert(digits.take(0) =~= Seq::<u8>::empty());
    }
    while i < to
        invariant
            start <= i <= to <= bytes@.len(),
            from < to,
            s == bytes@.subrange(from as int, to as int),
            negative == (s[0] == MINUS),
            signed == (s[0] == MINUS || s[0] == PLUS),
            digits == if signed {
                s.skip(1)
            } else {
                s
            },
            digits == bytes@.subrange(start as int, to as int),
            acc == digits_value(digits.take(i - start)),
            acc <= 0x8000_0000_0000_0000,
            all_digits(digits.take(i - start)),
        decreases to - i,
    {
        let byte = bytes[i];
        proof {
            assert(digits[i - start] == byte);
            assert(digits.take(i - start + 1).drop_last() =~= digits.take(i - start));
            assert(digits.take(i - start + 1).last() == byte);
        }
        if byte < 48 || byte > 57 {
            assert(!is_digit(digits[i - start]));
            return None;
        }
        let next: u128 = (acc as u128) * 10 + ((byte - 48) as u128);
        assert(next == digits_value(digits.take(i - start + 1)));
        if next > 0x8000_0000_0000_0000 {
            proof {
                lemma_digits_value_grows(digits, i - start + 1);
            }
            return None;
        }
        proof {
            assert forall|k: int| 0 <= k < i - start + 1 implies is_digit(
                #[trigger] digits.take(i - start + 1)[k],
            ) by {
                if k < i - start {
                    assert(digits.take(i - start)[k] == digits[k]);
                }
            }
        }
        acc = next as u64;
        i = i + 1;
    }
    proof {
        assert(digits.take(to - start) =~= digits);
    }
    if negative {
        if acc == 0x8000_0000_0000_0000 {
            Some(i64::MIN)
        } else {
            Some(-(acc as i64))
        }
    } else if acc == 0x8000_0000_0000_0000 {
        None
    } else {
        Some(acc as i64)
    }
}

} // verus!
