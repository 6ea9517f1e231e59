//! Decimal text for the integer operands that travel inside wire arguments.
//!
//! Command arguments are strings, so deltas, expiry seconds and timestamps
//! must be rendered in decimal. The rendering is specified once, at the byte
//! level ([`dec_nat_bytes`]), and lifted to characters ([`dec_nat`],
//! [`dec_int`]); the executable renderers are proved against it.

use vstd::prelude::*;

verus! {

/// The ASCII decimal digits of `n`, most significant first, with no sign and
/// no leading zeros (`0` renders as a single `0x30` byte).
pub open spec fn dec_nat_bytes(n: int) -> Seq<u8>
    recommends
        0 <= n,
    decreases n,
{
    if n < 10 {
        seq![(0x30 + n) as u8]
    } else {
        dec_nat_bytes(n / 10).push((0x30 + n % 10) as u8)
    }
}

/// The decimal rendering of a non-negative value, as characters.
pub open spec fn dec_nat(n: int) -> Seq<char> {
    dec_nat_bytes(n).map_values(|b: u8| b as char)
}

/// The decimal rendering of a signed value: a leading `-` (ASCII 0x2d) for
/// negative values, then the digits of the magnitude.
pub open spec fn dec_int(v: int) -> Seq<char> {
    if v < 0 {
        seq![(0x2du8) as char] + dec_nat(-v)
    } else {
        dec_nat(v)
    }
}

/// Every byte of a decimal rendering is an ASCII digit.
proof fn lemma_dec_bytes_ascii(n: int)
    requires
        0 <= n,
    ensures
        forall|i: int|
            0 <= i < dec_nat_bytes(n).len() ==> 0x30 <= #[trigger] dec_nat_bytes(n)[i] < 0x3a,
    decreases n,
{
    let s = dec_nat_bytes(n);
    if n < 10 {
        assert(s == seq![(0x30 + n) as u8]);
        assert(s[0] == (0x30 + n) as u8);
    } else {
        lemma_dec_bytes_ascii(n / 10);
        let p = dec_nat_bytes(n / 10);
        assert(s == p.push((0x30 + n % 10) as u8));
        assert forall|i: int| 0 <= i < s.len() implies 0x30 <= #[trigger] s[i] < 0x3a by {
            if i < p.len() {
                assert(s[i] == p[i]);
            } else {
                assert(s[i] == (0x30 + n % 10) as u8);
            }
        }
    }
}

/// Relies on `String::from_utf8`: a sequence of ASCII bytes is valid UTF-8
/// and decodes to the characters with the same code points.
#[verifier::external_body]
fn ascii_to_string(b: Vec<u8>) -> (r: String)
    requires
        forall|i: int| 0 <= i < b@.len() ==> b@[i] < 128,
    ensures
        r@ == b@.map_values(|x: u8| x as char),
{
    String::from_utf8(b).unwrap_or_default()
}

/// Appends the decimal digits of `n` to `out`.
fn push_dec(n: u64, out: &mut Vec<u8>)
    ensures
        final(out)@ == old(out)@ + dec_nat_bytes(n as int),
    decreases n,
{
    if n < 10 {
        out.push((0x30 + n) as u8);
        assert(out@ =~= old(out)@ + dec_nat_bytes(n as int));
    } else {
        push_dec(n / 10, out);
        out.push((0x30 + n % 10) as u8);
        assert(out@ =~= old(out)@ + dec_nat_bytes(n as int));
    }
}

/// The decimal rendering of an unsigned 64-bit value.
pub fn u64_text(n: u64) -> (r: String)
    ensures
        r@ == dec_nat(n as int),
{
    let mut buf: Vec<u8> = Vec::new();
    push_dec(n, &mut buf);
    proof {
        lemma_dec_bytes_ascii(n as int);
    }
    ascii_to_string(buf)
}

/// The decimal rendering of a signed 64-bit value.
pub fn i64_text(v: i64) -> (r: String)
    ensures
        r@ == dec_int(v as int),
{
    if v >= 0 {
        let r = u64_text(v as u64);
        r
    } else {
        let mag: u64 = if v == i64::MIN {
            9223372036854775808
        } else {
            (-v) as u64
        };
        assert(mag as int == -(v as int));
        let mut buf: Vec<u8> = Vec::new();
        buf.push(0x2d);
        push_dec(mag, &mut buf);
        proof {
            lemma_dec_bytes_ascii(mag as int);
            assert(buf@ =~= seq![0x2du8] + dec_nat_bytes(mag as int));
        }
        let r = ascii_to_string(buf);
        proof {
            assert(r@ =~= dec_int(v as int));
        }
        r
    }
}

} // verus!
