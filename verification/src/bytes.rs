//! Byte-sequence helpers shared by the formatting modules: bridging ASCII
//! string literals to byte vectors, and rendering integers in decimal.

use vstd::prelude::*;
use vstd::string::{StrSliceExecFns, StringSliceAdditionalSpecFns};

verus! {

/// The UTF-8 bytes of a string slice, as a byte vector.
pub fn lit_bytes(s: &str) -> (r: Vec<u8>)
    ensures
        r@ == s.spec_bytes(),
{
    s.as_bytes_vec()
}

/// A copy of a byte vector.
pub fn dup_bytes(src: &Vec<u8>) -> (r: Vec<u8>)
    ensures
        r@ == src@,
{
    let mut r: Vec<u8> = Vec::new();
    push_all(&mut r, src);
    r
}

/// Appends all of `src` to `out`.
pub fn push_all(out: &mut Vec<u8>, src: &Vec<u8>)
    ensures
        final(out)@ == old(out)@ + src@,
{
    let mut i: usize = 0;
    while i < src.len()
        invariant
            i <= src.len(),
            out@ == old(out)@ + src@.subrange(0, i as int),
        decreases src.len() - i,
    {
        out.push(src[i]);
        i = i + 1;
        assert(out@ =~= old(out)@ + src@.subrange(0, i as int));
    }
    assert(out@ =~= old(out)@ + src@);
}

/// Appends the UTF-8 bytes of a string slice to `out`.
pub fn push_lit(out: &mut Vec<u8>, s: &str)
    ensures
        final(out)@ == old(out)@ + s.spec_bytes(),
{
    let v = lit_bytes(s);
    push_all(out, &v);
}

/// Decimal digits of `n`, most significant first.
pub open spec fn dec_digits(n: nat) -> Seq<u8>
    decreases n,
{
    if n < 10 {
        seq![(48 + n) as u8]
    } else {
        dec_digits(n / 10).push((48 + n % 10) as u8)
    }
}

/// Decimal form of a possibly negative number: a minus sign, then digits.
pub open spec fn dec_int(n: int) -> Seq<u8> {
    if n < 0 {
        seq![45u8] + dec_digits((-n) as nat)
    } else {
        dec_digits(n as nat)
    }
}

/// The decimal digits of `n`, as a byte vector.
fn u64_digits(n: u64) -> (r: Vec<u8>)
    ensures
        r@ == dec_digits(n as nat),
    decreases n,
{
    if n < 10 {
        let mut r: Vec<u8> = Vec::new();
        r.push(48 + n as u8);
        assert(r@ =~= dec_digits(n as nat));
        r
    } else {
        let mut r = u64_digits(n / 10);
        r.push(48 + (n % 10) as u8);
        r
    }
}

/// Appends the decimal form of `n` to `out`.
pub fn push_dec_u64(out: &mut Vec<u8>, n: u64)
    ensures
        final(out)@ == old(out)@ + dec_digits(n as nat),
{
    let d = u64_digits(n);
    push_all(out, &d);
}

/// Appends the decimal form of `n` to `out`, minus sign included.
pub fn push_dec_i64(out: &mut Vec<u8>, n: i64)
    ensures
        final(out)@ == old(out)@ + dec_int(n as int),
{
    if n < 0 {
        out.push(45);
        let magnitude: u64 = ((-(n + 1)) as u64) + 1;
        assert(magnitude as nat == (-(n as int)) as nat);
        push_dec_u64(out, magnitude);
        assert(out@ =~= old(out)@ + dec_int(n as int));
    } else {
        push_dec_u64(out, n as u64);
    }
}

/// Why a byte sequence is not the decimal form of a 32-bit integer.
#[derive(Copy, Clone, Debug, PartialEq, Eq, Structural)]
pub enum IntParseError {
    Empty,
    InvalidDigit,
    OutOfRange,
}

/// Parses the digits after the sign, left to right, with the running
/// value: the first non-digit, or the first step out of the 32-bit
/// range, ends the parse.
pub open spec fn parse_decimal(s: Seq<u8>, acc: int, negative: bool) -> Result<i32, IntParseError>
    decreases s.len(),
{
    if s.len() == 0 {
        Ok(acc as i32)
    } else {
        let b = s[0];
        if !(48 <= b <= 57) {
            Err(IntParseError::InvalidDigit)
        } else {
            let next = if negative {
                acc * 10 - (b - 48)
            } else {
                acc * 10 + (b - 48)
            };
            if next < -0x8000_0000 || next > 0x7fff_ffff {
                Err(IntParseError::OutOfRange)
            } else {
                parse_decimal(s.skip(1), next, negative)
            }
        }
    }
}

/// The 32-bit integer a byte sequence denotes in decimal: an optional
/// sign, then digits, nothing else.
pub open spec fn parse_i32_spec(s: Seq<u8>) -> Result<i32, IntParseError> {
    if s.len() == 0 {
        Err(IntParseError::Empty)
    } else if s[0] == 43 || s[0] == 45 {
        if s.len() == 1 {
            Err(IntParseError::InvalidDigit)
        } else {
            parse_decimal(s.skip(1), 0, s[0] == 45)
        }
    } else {
        parse_decimal(s, 0, false)
    }
}

/// Parses a 32-bit integer written in decimal: an optional `+` or `-`,
/// then at least one digit, nothing else, the value within range.
pub fn parse_i32(data: &Vec<u8>) -> (r: Result<i32, IntParseError>)
    ensures
        r == parse_i32_spec(data@),
{
    let n = data.len();
    if n == 0 {
        return Err(IntParseError::Empty);
    }
    let first = data[0];
    let negative = first == 45;
    let start: usize = if first == 43 || first == 45 {
        1
    } else {
        0
    };
    if start == 1 && n == 1 {
        return Err(IntParseError::InvalidDigit);
    }
    let mut acc: i32 = 0;
    let mut i: usize = start;
    proof {
        if start == 0 {
            assert(data@.skip(0) =~= data@);
        }
        assert(parse_i32_spec(data@) == parse_decimal(data@.skip(start as int), 0, negative));
    }
    while i < n
        invariant
            start <= i <= n,
            n == data.len(),
            -0x8000_0000 <= acc <= 0x7fff_ffff,
            parse_i32_spec(data@) == parse_decimal(data@.skip(i as int), acc as int, negative),
        decreases n - i,
    {
        let ghost s = data@.skip(i as int);
        let b = data[i];
        proof {
            assert(s[0] == data@[i as int]);
            assert(s.skip(1) =~= data@.skip(i as int + 1));
        }
        if !(48 <= b && b <= 57) {
            return Err(IntParseError::InvalidDigit);
        }
        let next: i64 = if negative {
            acc as i64 * 10 - ((b - 48) as i64)
        } else {
            acc as i64 * 10 + ((b - 48) as i64)
        };
        if next < -0x8000_0000 || next > 0x7fff_ffff {
            return Err(IntParseError::OutOfRange);
        }
        acc = next as i32;
        i = i + 1;
    }
    proof {
        assert(data@.skip(i as int) =~= Seq::<u8>::empty());
    }
    Ok(acc)
}

/// Appends the decimal form of `n` to `out`, minus sign included.
pub fn push_dec_i32(out: &mut Vec<u8>, n: i32)
    ensures
        final(out)@ == old(out)@ + dec_int(n as int),
{
    push_dec_i64(out, n as i64);
}

} // verus!
