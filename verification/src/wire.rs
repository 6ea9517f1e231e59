//! The primitive layer of the binary frame format: little-endian base-128
//! varints, 64-bit little-endian values, and length-delimited chunks.
//!
//! Encoding is specified by [`enc_varint`], [`enc_le`], [`enc_header`] and
//! [`enc_len_field`]; parsing by [`parse_varint`], [`parse_le`] and
//! [`parse_bytes`]. The round-trip lemmas state that parsing an encoding,
//! wherever it sits inside a larger buffer, yields back the encoded value
//! and stops exactly at its end.

use vstd::prelude::*;

use vstd::arithmetic::div_mod::lemma_fundamental_div_mod;
use vstd::arithmetic::div_mod::lemma_multiply_divide_lt;
use vstd::arithmetic::mul::lemma_mul_inequality;
use vstd::slice::slice_index_get;
use vstd::slice::slice_subrange;
use vstd::slice::slice_to_vec;

verus! {

/// Most bytes a 64-bit varint may span.
pub const VARINT_FUEL: usize = 10;

/// 128 to the `k`.
pub open spec fn pow128(k: int) -> int
    decreases k,
{
    if k <= 0 {
        1
    } else {
        0x80 * pow128(k - 1)
    }
}

/// 256 to the `k`.
pub open spec fn pow256(k: int) -> int
    decreases k,
{
    if k <= 0 {
        1
    } else {
        0x100 * pow256(k - 1)
    }
}

/// The little-endian base-128 varint encoding of `n`: seven value bits per
/// byte, high bit set on every byte but the last.
pub open spec fn enc_varint(n: int) -> Seq<u8>
    recommends
        0 <= n,
    decreases n,
{
    if n < 0x80 {
        seq![n as u8]
    } else {
        seq![(0x80 + n % 0x80) as u8] + enc_varint(n / 0x80)
    }
}

/// The `k` little-endian bytes of `n`.
pub open spec fn enc_le(n: int, k: int) -> Seq<u8>
    recommends
        0 <= n,
    decreases k,
{
    if k <= 0 {
        Seq::empty()
    } else {
        seq![(n % 0x100) as u8] + enc_le(n / 0x100, k - 1)
    }
}

/// A field header: field number and wire type packed into one varint.
pub open spec fn enc_header(field: int, wire: int) -> Seq<u8> {
    enc_varint(field * 8 + wire)
}

/// A length-delimited field: header, byte count, bytes.
pub open spec fn enc_len_field(field: int, bytes: Seq<u8>) -> Seq<u8> {
    enc_header(field, 2) + enc_varint(bytes.len() as int) + bytes
}

/// A varint field.
pub open spec fn enc_varint_field(field: int, n: int) -> Seq<u8> {
    enc_header(field, 0) + enc_varint(n)
}

/// A 64-bit fixed-width field.
pub open spec fn enc_fixed64_field(field: int, bits: u64) -> Seq<u8> {
    enc_header(field, 1) + enc_le(bits as int, 8)
}

/// Parses a varint at `i`: the value and the index just past it. Fails past
/// the end of the buffer, when the value would not fit 64 bits, or when the
/// encoding spans more than `fuel` bytes.
pub open spec fn parse_varint(s: Seq<u8>, i: int, fuel: int) -> Option<(int, int)>
    decreases fuel,
{
    if fuel <= 0 || i < 0 || i >= s.len() {
        Option::None
    } else if s[i] < 0x80 {
        Option::Some((s[i] as int, i + 1))
    } else {
        match parse_varint(s, i + 1, fuel - 1) {
            Option::None => Option::None,
            Option::Some((v, j)) => {
                let val = (s[i] - 0x80) as int + 0x80 * v;
                if val < 0x1_0000_0000_0000_0000 {
                    Option::Some((val, j))
                } else {
                    Option::None
                }
            },
        }
    }
}

/// Parses `k` little-endian bytes at `i`.
pub open spec fn parse_le(s: Seq<u8>, i: int, k: int) -> Option<(int, int)>
    decreases k,
{
    if k <= 0 {
        if 0 <= i <= s.len() {
            Option::Some((0, i))
        } else {
            Option::None
        }
    } else if i < 0 || i >= s.len() {
        Option::None
    } else {
        match parse_le(s, i + 1, k - 1) {
            Option::None => Option::None,
            Option::Some((v, j)) => Option::Some((s[i] + 0x100 * v, j)),
        }
    }
}

/// Takes `len` raw bytes at `i`.
pub open spec fn parse_bytes(s: Seq<u8>, i: int, len: int) -> Option<(Seq<u8>, int)> {
    if 0 <= i && 0 <= len && i + len <= s.len() {
        Option::Some((s.subrange(i, i + len), i + len))
    } else {
        Option::None
    }
}

/// A parsed varint value fits 64 bits, and parsing advances within bounds.
pub proof fn lemma_parse_varint_bounds(s: Seq<u8>, i: int, fuel: int)
    ensures
        (match parse_varint(s, i, fuel) {
            Option::Some((v, j)) => 0 <= v < 0x1_0000_0000_0000_0000 && i < j <= s.len(),
            Option::None => true,
        }),
    decreases fuel,
{
    if fuel > 0 && 0 <= i < s.len() && s[i] >= 0x80 {
        lemma_parse_varint_bounds(s, i + 1, fuel - 1);
    }
}

/// A parsed little-endian value is bounded by 256 to the `k`, and parsing
/// advances exactly `k` bytes.
pub proof fn lemma_parse_le_bounds(s: Seq<u8>, i: int, k: int)
    requires
        0 <= k,
    ensures
        (match parse_le(s, i, k) {
            Option::Some((v, j)) => 0 <= v < pow256(k) && j == i + k && 0 <= i && j <= s.len(),
            Option::None => true,
        }),
    decreases k,
{
    if k > 0 && 0 <= i < s.len() {
        lemma_parse_le_bounds(s, i + 1, k - 1);
        match parse_le(s, i + 1, k - 1) {
            Option::Some((v, _j)) => {
                assert(s[i] + 0x100 * v < 0x100 * pow256(k - 1)) by {
                    lemma_mul_inequality(v + 1, pow256(k - 1), 0x100);
                };
            },
            Option::None => {},
        }
    }
}

/// The varint encoding of a 64-bit value spans at most `k` bytes when the
/// value is below 128 to the `k`.
pub proof fn lemma_enc_varint_len(n: int, k: int)
    requires
        0 <= n,
        1 <= k,
        n < pow128(k),
    ensures
        1 <= enc_varint(n).len() <= k,
    decreases k,
{
    if n >= 0x80 {
        lemma_multiply_divide_lt(n, 0x80, pow128(k - 1));
        lemma_enc_varint_len(n / 0x80, k - 1);
    }
}

/// Every 64-bit value's varint encoding fits the parsing fuel.
pub proof fn lemma_enc_varint_len64(n: int)
    requires
        0 <= n < 0x1_0000_0000_0000_0000,
    ensures
        1 <= enc_varint(n).len() <= 10,
{
    assert(pow128(10) == 0x40_0000_0000_0000_0000) by {
        reveal_with_fuel(pow128, 11);
    };
    lemma_enc_varint_len(n, 10);
}

/// Powers of 256 are monotone.
pub proof fn lemma_pow256_mono(a: int, b: int)
    requires
        a <= b,
    ensures
        pow256(a) <= pow256(b),
        1 <= pow256(a),
    decreases b,
{
    if b > 0 {
        if a == b {
            lemma_pow256_mono(a - 1, b - 1);
        } else {
            lemma_pow256_mono(a, b - 1);
        }
    }
}

/// The little-endian encoding spans exactly `k` bytes.
pub proof fn lemma_enc_le_len(n: int, k: int)
    requires
        0 <= n,
        0 <= k,
    ensures
        enc_le(n, k).len() == k,
    decreases k,
{
    if k > 0 {
        lemma_enc_le_len(n / 0x100, k - 1);
    }
}

/// Parsing a varint encoding embedded at `i` yields the encoded value and
/// stops just past it.
pub proof fn lemma_varint_round_trip(s: Seq<u8>, i: int, n: int, fuel: int)
    requires
        0 <= n < 0x1_0000_0000_0000_0000,
        0 <= i,
        i + enc_varint(n).len() <= s.len(),
        s.subrange(i, i + enc_varint(n).len() as int) == enc_varint(n),
        fuel >= enc_varint(n).len(),
    ensures
        parse_varint(s, i, fuel) == Option::Some((n, i + enc_varint(n).len())),
    decreases n,
{
    let e = enc_varint(n);
    assert(s[i] == e[0]);
    if n < 0x80 {
        assert(s[i] == n as u8);
    } else {
        let rest = enc_varint(n / 0x80);
        assert(e[0] == (0x80 + n % 0x80) as u8);
        assert forall|t: int| 0 <= t < rest.len() implies s.subrange(
            i + 1,
            i + 1 + rest.len() as int,
        )[t] == rest[t] by {
            assert(s.subrange(i, i + e.len() as int)[t + 1] == e[t + 1]);
        }
        assert(s.subrange(i + 1, i + 1 + rest.len() as int) =~= rest);
        lemma_varint_round_trip(s, i + 1, n / 0x80, fuel - 1);
        lemma_fundamental_div_mod(n, 0x80);
        assert((s[i] - 0x80) as int == n % 0x80);
    }
}

/// Parsing `k` little-endian bytes embedded at `i` yields the encoded value.
pub proof fn lemma_le_round_trip(s: Seq<u8>, i: int, n: int, k: int)
    requires
        0 <= k,
        0 <= n < pow256(k),
        0 <= i,
        i + k <= s.len(),
        s.subrange(i, i + k) == enc_le(n, k),
    ensures
        parse_le(s, i, k) == Option::Some((n, i + k)),
    decreases k,
{
    lemma_enc_le_len(n, k);
    if k > 0 {
        let e = enc_le(n, k);
        assert(s[i] == e[0]);
        assert(e[0] == (n % 0x100) as u8);
        let rest = enc_le(n / 0x100, k - 1);
        lemma_enc_le_len(n / 0x100, k - 1);
        assert forall|t: int| 0 <= t < k - 1 implies s.subrange(i + 1, i + k)[t] == rest[t] by {
            assert(s.subrange(i, i + k)[t + 1] == e[t + 1]);
        }
        assert(s.subrange(i + 1, i + k) =~= rest);
        lemma_multiply_divide_lt(n, 0x100, pow256(k - 1));
        lemma_le_round_trip(s, i + 1, n / 0x100, k - 1);
        lemma_fundamental_div_mod(n, 0x100);
    }
}

/// Appends the varint encoding of `n`.
pub fn write_varint(n: u64, out: &mut Vec<u8>)
    ensures
        final(out)@ == old(out)@ + enc_varint(n as int),
    decreases n,
{
    if n < 0x80 {
        out.push(n as u8);
        assert(out@ =~= old(out)@ + enc_varint(n as int));
    } else {
        out.push((0x80 + n % 0x80) as u8);
        write_varint(n / 0x80, out);
        assert(out@ =~= old(out)@ + enc_varint(n as int));
    }
}

/// Appends the `k` little-endian bytes of `n`.
pub fn write_le(n: u64, k: u8, out: &mut Vec<u8>)
    ensures
        final(out)@ == old(out)@ + enc_le(n as int, k as int),
    decreases k,
{
    if k > 0 {
        out.push((n % 0x100) as u8);
        write_le(n / 0x100, k - 1, out);
        assert(out@ =~= old(out)@ + enc_le(n as int, k as int));
    } else {
        assert(out@ =~= old(out)@ + enc_le(n as int, 0));
    }
}

/// Appends a field header.
pub fn write_header(field: u64, wire: u64, out: &mut Vec<u8>)
    requires
        field <= 0xff,
        wire <= 7,
    ensures
        final(out)@ == old(out)@ + enc_header(field as int, wire as int),
{
    write_varint(field * 8 + wire, out);
}

/// Appends a length-delimited field holding `bytes`.
pub fn write_len_field(field: u64, bytes: &[u8], out: &mut Vec<u8>)
    requires
        field <= 0xff,
    ensures
        final(out)@ == old(out)@ + enc_len_field(field as int, bytes@),
{
    write_header(field, 2, out);
    write_varint(bytes.len() as u64, out);
    let mut i: usize = 0;
    let n = bytes.len();
    let ghost mid = out@;
    while i < n
        invariant
            i <= n,
            n == bytes@.len(),
            out@ == mid + bytes@.take(i as int),
        decreases n - i,
    {
        out.push(bytes[i]);
        proof {
            assert(out@ =~= mid + bytes@.take(i + 1));
        }
        i = i + 1;
    }
    proof {
        assert(bytes@.take(n as int) =~= bytes@);
        assert(out@ =~= old(out)@ + enc_len_field(field as int, bytes@));
    }
}

/// Appends a varint field holding `n`.
pub fn write_varint_field(field: u64, n: u64, out: &mut Vec<u8>)
    requires
        field <= 0xff,
    ensures
        final(out)@ == old(out)@ + enc_varint_field(field as int, n as int),
{
    write_header(field, 0, out);
    write_varint(n, out);
    assert(out@ =~= old(out)@ + enc_varint_field(field as int, n as int));
}

/// Appends a 64-bit fixed-width field holding `bits`.
pub fn write_fixed64_field(field: u64, bits: u64, out: &mut Vec<u8>)
    requires
        field <= 0xff,
    ensures
        final(out)@ == old(out)@ + enc_fixed64_field(field as int, bits),
{
    write_header(field, 1, out);
    write_le(bits, 8, out);
    assert(out@ =~= old(out)@ + enc_fixed64_field(field as int, bits));
}

/// Reads a varint at `i`, spending at most `fuel` bytes.
fn read_varint_fuel(s: &[u8], i: usize, fuel: usize) -> (r: Option<(u64, usize)>)
    ensures
        (match parse_varint(s@, i as int, fuel as int) {
            Option::Some((v, j)) => r matches Some(p) && p.0 == v && p.1 == j,
            Option::None => r matches None,
        }),
    decreases fuel,
{
    proof {
        lemma_parse_varint_bounds(s@, i as int, fuel as int);
    }
    if fuel == 0 || i >= s.len() {
        return None;
    }
    let b = *slice_index_get(s, i);
    if b < 0x80 {
        Some((b as u64, i + 1))
    } else {
        match read_varint_fuel(s, i + 1, fuel - 1) {
            None => None,
            Some((v, j)) => {
                proof {
                    lemma_parse_varint_bounds(s@, i + 1, fuel - 1);
                }
                let low = (b - 0x80) as u64;
                if v <= (u64::MAX - low) / 0x80 {
                    proof {
                        lemma_fundamental_div_mod((u64::MAX - low) as int, 0x80);
                        lemma_mul_inequality(v as int, ((u64::MAX - low) / 0x80) as int, 0x80);
                    }
                    Some((low + 0x80 * v, j))
                } else {
                    proof {
                        lemma_fundamental_div_mod((u64::MAX - low) as int, 0x80);
                        lemma_mul_inequality(((u64::MAX - low) / 0x80 + 1) as int, v as int, 0x80);
                    }
                    None
                }
            },
        }
    }
}

/// Reads a varint at `i`.
pub fn read_varint(s: &[u8], i: usize) -> (r: Option<(u64, usize)>)
    ensures
        (match parse_varint(s@, i as int, VARINT_FUEL as int) {
            Option::Some((v, j)) => r matches Some(p) && p.0 == v && p.1 == j,
            Option::None => r matches None,
        }),
{
    read_varint_fuel(s, i, VARINT_FUEL)
}

/// Reads `k` little-endian bytes at `i` (with `k` at most 8, so the value
/// fits 64 bits).
pub fn read_le(s: &[u8], i: usize, k: u8) -> (r: Option<(u64, usize)>)
    requires
        k <= 8,
    ensures
        (match parse_le(s@, i as int, k as int) {
            Option::Some((v, j)) => r matches Some(p) && p.0 == v && p.1 == j,
            Option::None => r matches None,
        }),
    decreases k,
{
    proof {
        lemma_parse_le_bounds(s@, i as int, k as int);
    }
    if k == 0 {
        if i <= s.len() {
            Some((0, i))
        } else {
            None
        }
    } else if i >= s.len() {
        None
    } else {
        let b = *slice_index_get(s, i);
        match read_le(s, i + 1, k - 1) {
            None => None,
            Some((v, j)) => {
                proof {
                    lemma_parse_le_bounds(s@, i + 1, k - 1);
                    lemma_pow256_mono(k - 1, 7);
                    assert(pow256(7) == 0x100_0000_0000_0000) by {
                        reveal_with_fuel(pow256, 9);
                    };
                    lemma_mul_inequality(v as int, pow256(7) - 1, 0x100);
                }
                Some((b as u64 + 0x100 * v, j))
            },
        }
    }
}

/// Copies `len` raw bytes starting at `i`.
pub fn read_bytes(s: &[u8], i: usize, len: u64) -> (r: Option<(Vec<u8>, usize)>)
    ensures
        (match parse_bytes(s@, i as int, len as int) {
            Option::Some((b, j)) => r matches Some(p) && p.0@ == b && p.1 == j,
            Option::None => r matches None,
        }),
{
    if i > s.len() {
        return None;
    }
    if len > (s.len() - i) as u64 {
        return None;
    }
    let end = i + (len as usize);
    let part = slice_subrange(s, i, end);
    let v = slice_to_vec(part);
    Some((v, end))
}

} // verus!
