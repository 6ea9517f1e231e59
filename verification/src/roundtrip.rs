//! Round-trip laws for the frame codec: parsing the canonical encoding of
//! a reply model yields back exactly that model.
//!
//! [`lemma_response_round_trip`] is the main law: for every well-formed
//! reply model, the reply writer ([`crate::codec::encode_response`]) and
//! the reply parser invert each other. Together with the exact contracts
//! of the decode functions, a well-formed server reply carrying a given
//! payload always decodes to the value that payload denotes.

use vstd::prelude::*;

use crate::codec::enc_attr_entries;
use crate::codec::enc_attr_entry;
use crate::codec::enc_attr_val;
use crate::codec::enc_map_entries;
use crate::codec::enc_map_entry;
use crate::codec::enc_payload;
use crate::codec::enc_response;
use crate::codec::empty_response;
use crate::codec::parse_attr_entry;
use crate::codec::parse_attr_entry_fields;
use crate::codec::parse_attr_val;
use crate::codec::parse_attr_val_fields;
use crate::codec::parse_attrs;
use crate::codec::parse_attrs_fields;
use crate::codec::parse_len_bytes;
use crate::codec::parse_map_entry;
use crate::codec::parse_map_entry_fields;
use crate::codec::parse_resp_fields;
use crate::codec::parse_response;
use crate::codec::SpecAttrVal;
use crate::codec::SpecPayload;
use crate::codec::SpecResponse;
use crate::decode::scalar_of_payload;
use crate::values::SpecScalar;
use crate::wire::enc_fixed64_field;
use crate::wire::enc_le;
use crate::wire::enc_len_field;
use crate::wire::enc_varint;
use crate::wire::enc_varint_field;
use crate::wire::lemma_enc_le_len;
use crate::wire::lemma_enc_varint_len64;
use crate::wire::lemma_le_round_trip;
use crate::wire::lemma_varint_round_trip;
use crate::wire::parse_bytes;
use crate::wire::parse_le;
use crate::wire::parse_varint;
use crate::wire::pow256;

verus! {

/// The ceiling on each byte string of a well-formed reply model, and on
/// its entry counts. Real frames fit one read buffer; this bound keeps
/// every encoded length far below what a length varint can carry.
pub open spec fn byte_limit() -> int {
    0x10_0000
}

/// A well-formed attribute value: its string bounded.
pub open spec fn attr_val_wf(v: SpecAttrVal) -> bool {
    match v {
        SpecAttrVal::Str(b) => b.len() <= byte_limit(),
        _ => true,
    }
}

/// A well-formed attribute entry: key and value bounded.
pub open spec fn attr_entry_wf(e: (Seq<u8>, SpecAttrVal)) -> bool {
    e.0.len() <= byte_limit() && attr_val_wf(e.1)
}

/// A well-formed payload: its bytes bounded.
pub open spec fn payload_wf(p: SpecPayload) -> bool {
    match p {
        SpecPayload::Str(b) => b.len() <= byte_limit(),
        SpecPayload::Bytes(b) => b.len() <= byte_limit(),
        _ => true,
    }
}

/// A well-formed map entry: key and value bounded.
pub open spec fn map_entry_wf(e: (Seq<u8>, Seq<u8>)) -> bool {
    e.0.len() <= byte_limit() && e.1.len() <= byte_limit()
}

/// A well-formed reply model: every byte string and entry count bounded.
pub open spec fn resp_wf(m: SpecResponse) -> bool {
    &&& m.err.len() <= byte_limit()
    &&& (match m.payload {
        Option::Some(p) => payload_wf(p),
        Option::None => true,
    })
    &&& (match m.attrs {
        Option::Some(es) => es.len() <= byte_limit() && (forall|i: int|
            0 <= i < es.len() ==> attr_entry_wf(#[trigger] es[i])),
        Option::None => true,
    })
    &&& m.field_map.len() <= byte_limit()
    &&& (forall|i: int| 0 <= i < m.field_map.len() ==> map_entry_wf(#[trigger] m.field_map[i]))
}

/// A length-delimited field spans its bytes plus at most 11 framing bytes,
/// and at least 2 bytes.
proof fn lemma_len_field_len(field: int, b: Seq<u8>)
    requires
        0 <= field <= 15,
        b.len() < 0x1_0000_0000_0000_0000,
    ensures
        b.len() + 2 <= enc_len_field(field, b).len() <= b.len() + 11,
{
    lemma_enc_varint_len64(b.len() as int);
}

/// An encoded attribute value spans at most the limit plus 11 bytes.
proof fn lemma_attr_val_len(v: SpecAttrVal)
    requires
        attr_val_wf(v),
    ensures
        enc_attr_val(v).len() <= byte_limit() + 11,
{
    match v {
        SpecAttrVal::Str(b) => {
            lemma_len_field_len(3, b);
        },
        SpecAttrVal::Null => {
            lemma_enc_varint_len64(0);
        },
        SpecAttrVal::Bool(b) => {
            lemma_enc_varint_len64(
                if b {
                    1
                } else {
                    0
                },
            );
        },
        SpecAttrVal::Num(bits) => {
            lemma_enc_le_len(bits as int, 8);
        },
        SpecAttrVal::Unset => {},
    }
}

/// An encoded attribute entry spans at most twice the limit plus 33 bytes.
proof fn lemma_attr_entry_len(k: Seq<u8>, v: SpecAttrVal)
    requires
        k.len() <= byte_limit(),
        attr_val_wf(v),
    ensures
        enc_attr_entry(k, v).len() <= 2 * byte_limit() + 33,
{
    lemma_attr_val_len(v);
    lemma_len_field_len(1, k);
    lemma_len_field_len(2, enc_attr_val(v));
}

/// An attribute record body spans at most a fixed budget per entry.
proof fn lemma_attr_entries_len(es: Seq<(Seq<u8>, SpecAttrVal)>)
    requires
        forall|i: int| 0 <= i < es.len() ==> attr_entry_wf(#[trigger] es[i]),
    ensures
        enc_attr_entries(es).len() <= es.len() * 0x40_0000,
    decreases es.len(),
{
    if es.len() > 0 {
        let dl = es.drop_last();
        assert(forall|i: int| 0 <= i < dl.len() ==> #[trigger] dl[i] == es[i]);
        lemma_attr_entries_len(dl);
        lemma_attr_entry_len(es.last().0, es.last().1);
        lemma_len_field_len(1, enc_attr_entry(es.last().0, es.last().1));
    }
}

/// An encoded map entry spans at most twice the limit plus 22 bytes.
proof fn lemma_map_entry_len(k: Seq<u8>, v: Seq<u8>)
    requires
        k.len() <= byte_limit(),
        v.len() <= byte_limit(),
    ensures
        enc_map_entry(k, v).len() <= 2 * byte_limit() + 22,
{
    lemma_len_field_len(1, k);
    lemma_len_field_len(2, v);
}

/// The map-entry fields of a reply span at most a fixed budget per entry.
proof fn lemma_map_entries_len(es: Seq<(Seq<u8>, Seq<u8>)>)
    requires
        forall|i: int| 0 <= i < es.len() ==> map_entry_wf(#[trigger] es[i]),
    ensures
        enc_map_entries(es).len() <= es.len() * 0x40_0000,
    decreases es.len(),
{
    if es.len() > 0 {
        let dl = es.drop_last();
        assert(forall|i: int| 0 <= i < dl.len() ==> #[trigger] dl[i] == es[i]);
        lemma_map_entries_len(dl);
        lemma_map_entry_len(es.last().0, es.last().1);
        lemma_len_field_len(8, enc_map_entry(es.last().0, es.last().1));
    }
}

/// Parsing a length-delimited field embedded at `i`: the header reads as
/// one byte, and the chunk parse yields the field's bytes, ending just
/// past the field.
proof fn lemma_parse_len_field(s: Seq<u8>, i: int, field: int, b: Seq<u8>)
    requires
        0 <= field <= 15,
        b.len() < 0x1_0000_0000_0000_0000,
        0 <= i,
        i + enc_len_field(field, b).len() <= s.len(),
        s.subrange(i, i + enc_len_field(field, b).len() as int) == enc_len_field(field, b),
    ensures
        parse_varint(s, i, 10) == Option::Some((8 * field + 2, i + 1)),
        parse_len_bytes(s, i + 1) == Option::Some(
            (b, i + enc_len_field(field, b).len() as int),
        ),
{
    let e = enc_len_field(field, b);
    let hv = 8 * field + 2;
    let vl = enc_varint(b.len() as int);
    lemma_enc_varint_len64(b.len() as int);
    assert(enc_varint(hv) == seq![hv as u8]);
    assert(e == enc_varint(hv) + vl + b);
    assert(s[i] == e[0]);
    assert(e[0] == hv as u8);
    assert forall|t: int| 0 <= t < vl.len() implies s.subrange(i + 1, i + 1 + vl.len() as int)[t]
        == vl[t] by {
        assert(s.subrange(i, i + e.len() as int)[t + 1] == e[t + 1]);
        assert(e[t + 1] == vl[t]);
    }
    assert(s.subrange(i + 1, i + 1 + vl.len() as int) =~= vl);
    lemma_varint_round_trip(s, i + 1, b.len() as int, 10);
    let j2 = i + 1 + vl.len() as int;
    assert forall|t: int| 0 <= t < b.len() implies s.subrange(j2, j2 + b.len() as int)[t] == b[t] by {
        assert(s.subrange(i, i + e.len() as int)[1 + vl.len() + t] == e[1 + vl.len() + t]);
        assert(e[1 + vl.len() + t] == b[t]);
    }
    assert(s.subrange(j2, j2 + b.len() as int) =~= b);
}

/// Parsing a varint field embedded at `i`.
proof fn lemma_parse_varint_field(s: Seq<u8>, i: int, field: int, n: int)
    requires
        0 <= field <= 15,
        0 <= n < 0x1_0000_0000_0000_0000,
        0 <= i,
        i + enc_varint_field(field, n).len() <= s.len(),
        s.subrange(i, i + enc_varint_field(field, n).len() as int) == enc_varint_field(field, n),
    ensures
        parse_varint(s, i, 10) == Option::Some((8 * field, i + 1)),
        parse_varint(s, i + 1, 10) == Option::Some(
            (n, i + enc_varint_field(field, n).len() as int),
        ),
{
    let e = enc_varint_field(field, n);
    let hv = 8 * field;
    let vl = enc_varint(n);
    lemma_enc_varint_len64(n);
    assert(enc_varint(hv) == seq![hv as u8]);
    assert(e == enc_varint(hv) + vl);
    assert(s[i] == e[0]);
    assert(e[0] == hv as u8);
    assert forall|t: int| 0 <= t < vl.len() implies s.subrange(i + 1, i + 1 + vl.len() as int)[t]
        == vl[t] by {
        assert(s.subrange(i, i + e.len() as int)[t + 1] == e[t + 1]);
        assert(e[t + 1] == vl[t]);
    }
    assert(s.subrange(i + 1, i + 1 + vl.len() as int) =~= vl);
    lemma_varint_round_trip(s, i + 1, n, 10);
}

/// Parsing a 64-bit fixed-width field embedded at `i`.
proof fn lemma_parse_fixed64_field(s: Seq<u8>, i: int, field: int, bits: u64)
    requires
        0 <= field <= 15,
        0 <= i,
        i + 9 <= s.len(),
        s.subrange(i, i + 9) == enc_fixed64_field(field, bits),
    ensures
        parse_varint(s, i, 10) == Option::Some((8 * field + 1, i + 1)),
        parse_le(s, i + 1, 8) == Option::Some((bits as int, i + 9)),
{
    let e = enc_fixed64_field(field, bits);
    let hv = 8 * field + 1;
    let le = enc_le(bits as int, 8);
    lemma_enc_le_len(bits as int, 8);
    assert(enc_varint(hv) == seq![hv as u8]);
    assert(e == enc_varint(hv) + le);
    assert(s[i] == e[0]);
    assert(e[0] == hv as u8);
    assert forall|t: int| 0 <= t < 8 implies s.subrange(i + 1, i + 9)[t] == le[t] by {
        assert(s.subrange(i, i + 9)[t + 1] == e[t + 1]);
        assert(e[t + 1] == le[t]);
    }
    assert(s.subrange(i + 1, i + 9) =~= le);
    assert(pow256(8) == 0x1_0000_0000_0000_0000) by {
        reveal_with_fuel(pow256, 9);
    };
    lemma_le_round_trip(s, i + 1, bits as int, 8);
}

/// Splitting the tail of a buffer that holds a concatenation.
proof fn lemma_concat_subranges(s: Seq<u8>, i: int, x: Seq<u8>, y: Seq<u8>)
    requires
        0 <= i,
        i + x.len() + y.len() == s.len(),
        s.subrange(i, s.len() as int) == x + y,
    ensures
        s.subrange(i, i + x.len() as int) == x,
        s.subrange(i + x.len() as int, s.len() as int) == y,
{
    assert forall|t: int| 0 <= t < x.len() implies s.subrange(i, i + x.len() as int)[t] == x[t] by {
        assert(s.subrange(i, s.len() as int)[t] == (x + y)[t]);
    }
    assert(s.subrange(i, i + x.len() as int) =~= x);
    assert forall|t: int| 0 <= t < y.len() implies s.subrange(i + x.len() as int, s.len() as int)[t]
        == y[t] by {
        assert(s.subrange(i, s.len() as int)[x.len() + t] == (x + y)[x.len() + t]);
        assert(s.subrange(i, s.len() as int)[x.len() + t] == s[i + x.len() + t]);
        assert((x + y)[x.len() + t] == y[t]);
        assert(s.subrange(i + x.len() as int, s.len() as int)[t] == s[i + x.len() + t]);
    }
    assert(s.subrange(i + x.len() as int, s.len() as int) =~= y);
}

/// Parsing the encoding of an attribute value message yields it back.
#[verifier::rlimit(60)]
proof fn lemma_attr_val_round_trip(v: SpecAttrVal)
    requires
        attr_val_wf(v),
    ensures
        parse_attr_val(enc_attr_val(v)) == Option::Some(v),
{
    reveal_with_fuel(crate::codec::parse_attr_val_fields, 4);
    let s = enc_attr_val(v);
    match v {
        SpecAttrVal::Unset => {},
        SpecAttrVal::Null => {
            assert(s.subrange(0, s.len() as int) =~= s);
            lemma_parse_varint_field(s, 0, 1, 0);
        },
        SpecAttrVal::Num(bits) => {
            lemma_enc_le_len(bits as int, 8);
            assert(s.subrange(0, s.len() as int) =~= s);
            lemma_parse_fixed64_field(s, 0, 2, bits);
        },
        SpecAttrVal::Str(b) => {
            assert(s.subrange(0, s.len() as int) =~= s);
            lemma_parse_len_field(s, 0, 3, b);
        },
        SpecAttrVal::Bool(b) => {
            assert(s.subrange(0, s.len() as int) =~= s);
            lemma_parse_varint_field(
                s,
                0,
                4,
                if b {
                    1
                } else {
                    0
                },
            );
        },
    }
}

/// Parsing the encoding of an attribute entry message yields it back.
#[verifier::rlimit(60)]
proof fn lemma_attr_entry_round_trip(k: Seq<u8>, v: SpecAttrVal)
    requires
        k.len() <= byte_limit(),
        attr_val_wf(v),
    ensures
        parse_attr_entry(enc_attr_entry(k, v)) == Option::Some((k, v)),
{
    reveal_with_fuel(crate::codec::parse_attr_entry_fields, 4);
    let a = enc_len_field(1, k);
    let bb = enc_attr_val(v);
    let b = enc_len_field(2, bb);
    let s = enc_attr_entry(k, v);
    lemma_attr_val_len(v);
    lemma_len_field_len(1, k);
    lemma_len_field_len(2, bb);
    assert(s == a + b);
    assert(s.subrange(0, s.len() as int) =~= s);
    lemma_concat_subranges(s, 0, a, b);
    lemma_parse_len_field(s, 0, 1, k);
    lemma_parse_len_field(s, a.len() as int, 2, bb);
    lemma_attr_val_round_trip(v);
}

/// Parsing the encoding of a field-map entry message yields it back.
#[verifier::rlimit(60)]
proof fn lemma_map_entry_round_trip(k: Seq<u8>, v: Seq<u8>)
    requires
        k.len() <= byte_limit(),
        v.len() <= byte_limit(),
    ensures
        parse_map_entry(enc_map_entry(k, v)) == Option::Some((k, v)),
{
    reveal_with_fuel(crate::codec::parse_map_entry_fields, 4);
    let a = enc_len_field(1, k);
    let b = enc_len_field(2, v);
    let s = enc_map_entry(k, v);
    lemma_len_field_len(1, k);
    lemma_len_field_len(2, v);
    assert(s == a + b);
    assert(s.subrange(0, s.len() as int) =~= s);
    lemma_concat_subranges(s, 0, a, b);
    lemma_parse_len_field(s, 0, 1, k);
    lemma_parse_len_field(s, a.len() as int, 2, v);
}

/// The attribute record body decomposes at its first entry.
proof fn lemma_attr_entries_first(es: Seq<(Seq<u8>, SpecAttrVal)>)
    requires
        es.len() > 0,
    ensures
        enc_attr_entries(es) == enc_len_field(1, enc_attr_entry(es.first().0, es.first().1))
            + enc_attr_entries(es.drop_first()),
    decreases es.len(),
{
    let f = enc_len_field(1, enc_attr_entry(es.first().0, es.first().1));
    if es.len() == 1 {
        assert(es.drop_last() =~= Seq::<(Seq<u8>, SpecAttrVal)>::empty());
        assert(es.last() == es.first());
        assert(es.drop_first() =~= Seq::<(Seq<u8>, SpecAttrVal)>::empty());
        assert(enc_attr_entries(es) =~= f + enc_attr_entries(es.drop_first()));
    } else {
        let dl = es.drop_last();
        lemma_attr_entries_first(dl);
        assert(dl.first() == es.first());
        let last_f = enc_len_field(1, enc_attr_entry(es.last().0, es.last().1));
        assert(es.drop_first().drop_last() =~= dl.drop_first());
        assert(es.drop_first().last() == es.last());
        assert(enc_attr_entries(es.drop_first()) == enc_attr_entries(dl.drop_first()) + last_f);
        assert(enc_attr_entries(es) =~= f + enc_attr_entries(es.drop_first()));
    }
}

/// The map-entry fields of a reply decompose at their first entry.
proof fn lemma_map_entries_first(es: Seq<(Seq<u8>, Seq<u8>)>)
    requires
        es.len() > 0,
    ensures
        enc_map_entries(es) == enc_len_field(8, enc_map_entry(es.first().0, es.first().1))
            + enc_map_entries(es.drop_first()),
    decreases es.len(),
{
    let f = enc_len_field(8, enc_map_entry(es.first().0, es.first().1));
    if es.len() == 1 {
        assert(es.drop_last() =~= Seq::<(Seq<u8>, Seq<u8>)>::empty());
        assert(es.last() == es.first());
        assert(es.drop_first() =~= Seq::<(Seq<u8>, Seq<u8>)>::empty());
        assert(enc_map_entries(es) =~= f + enc_map_entries(es.drop_first()));
    } else {
        let dl = es.drop_last();
        lemma_map_entries_first(dl);
        assert(dl.first() == es.first());
        let last_f = enc_len_field(8, enc_map_entry(es.last().0, es.last().1));
        assert(es.drop_first().drop_last() =~= dl.drop_first());
        assert(es.drop_first().last() == es.last());
        assert(enc_map_entries(es.drop_first()) == enc_map_entries(dl.drop_first()) + last_f);
        assert(enc_map_entries(es) =~= f + enc_map_entries(es.drop_first()));
    }
}

/// Walking an attribute record: parsing the encoded entries that fill the
/// buffer from `i` on accumulates exactly those entries.
#[verifier::rlimit(60)]
proof fn lemma_attrs_chain(
    s: Seq<u8>,
    i: int,
    fuel: int,
    acc: Seq<(Seq<u8>, SpecAttrVal)>,
    es: Seq<(Seq<u8>, SpecAttrVal)>,
)
    requires
        forall|t: int| 0 <= t < es.len() ==> attr_entry_wf(#[trigger] es[t]),
        0 <= i <= s.len(),
        s.subrange(i, s.len() as int) == enc_attr_entries(es),
        fuel >= s.len() - i,
    ensures
        parse_attrs_fields(s, i, fuel, acc) == Option::Some(acc + es),
    decreases es.len(),
{
    reveal_with_fuel(crate::codec::parse_attrs_fields, 3);
    if es.len() == 0 {
        assert(s.len() - i == 0);
        assert(acc + es =~= acc);
    } else {
        let k = es.first().0;
        let v = es.first().1;
        assert(attr_entry_wf(es[0]));
        let entry = enc_attr_entry(k, v);
        let f = enc_len_field(1, entry);
        lemma_attr_entries_first(es);
        lemma_attr_entry_len(k, v);
        lemma_len_field_len(1, entry);
        let rest = enc_attr_entries(es.drop_first());
        assert(s.subrange(i, s.len() as int) == f + rest);
        lemma_concat_subranges(s, i, f, rest);
        lemma_parse_len_field(s, i, 1, entry);
        lemma_attr_entry_round_trip(k, v);
        let j2 = i + f.len() as int;
        assert forall|t: int| 0 <= t < es.drop_first().len() implies attr_entry_wf(
            #[trigger] es.drop_first()[t],
        ) by {
            assert(es.drop_first()[t] == es[t + 1]);
        }
        lemma_attrs_chain(s, j2, fuel - 1, acc.push(es.first()), es.drop_first());
        assert(acc.push(es.first()) + es.drop_first() =~= acc + es);
    }
}

/// Walking the field-map entries: parsing the encoded entries that close
/// the frame from `i` on accumulates exactly those entries.
#[verifier::rlimit(60)]
proof fn lemma_map_chain(s: Seq<u8>, i: int, fuel: int, m: SpecResponse, es: Seq<(Seq<u8>, Seq<u8>)>)
    requires
        forall|t: int| 0 <= t < es.len() ==> map_entry_wf(#[trigger] es[t]),
        0 <= i <= s.len(),
        s.subrange(i, s.len() as int) == enc_map_entries(es),
        fuel >= s.len() - i,
    ensures
        parse_resp_fields(s, i, fuel, m) == Option::Some(
            (SpecResponse { field_map: m.field_map + es, ..m }),
        ),
    decreases es.len(),
{
    reveal_with_fuel(crate::codec::parse_resp_fields, 3);
    if es.len() == 0 {
        assert(s.len() - i == 0);
        assert(m.field_map + es =~= m.field_map);
        assert((SpecResponse { field_map: m.field_map + es, ..m }) == m);
    } else {
        let k = es.first().0;
        let v = es.first().1;
        assert(map_entry_wf(es[0]));
        let entry = enc_map_entry(k, v);
        let f = enc_len_field(8, entry);
        lemma_map_entries_first(es);
        lemma_map_entry_len(k, v);
        lemma_len_field_len(8, entry);
        let rest = enc_map_entries(es.drop_first());
        assert(enc_map_entries(es) == f + rest);
        assert(s.subrange(i, s.len() as int) == f + rest);
        assert((f + rest).len() == s.len() - i) by {
            assert(s.subrange(i, s.len() as int).len() == s.len() - i);
        };
        lemma_concat_subranges(s, i, f, rest);
        lemma_parse_len_field(s, i, 8, entry);
        lemma_map_entry_round_trip(k, v);
        let j2 = i + f.len() as int;
        assert forall|t: int| 0 <= t < es.drop_first().len() implies map_entry_wf(
            #[trigger] es.drop_first()[t],
        ) by {
            assert(es.drop_first()[t] == es[t + 1]);
        }
        let m2 = SpecResponse { field_map: m.field_map.push(es.first()), ..m };
        lemma_map_chain(s, j2, fuel - 1, m2, es.drop_first());
        assert(m.field_map.push(es.first()) + es.drop_first() =~= m.field_map + es);
        assert((SpecResponse { field_map: m2.field_map + es.drop_first(), ..m2 }) == (SpecResponse {
            field_map: m.field_map + es,
            ..m
        }));
    }
}

/// One parsing step of a reply frame: the error-text field.
proof fn lemma_step_err(s: Seq<u8>, fuel: int, m0: SpecResponse, err: Seq<u8>)
    requires
        0 < err.len() < 0x1_0000_0000_0000_0000,
        enc_len_field(1, err).len() <= s.len(),
        s.subrange(0, enc_len_field(1, err).len() as int) == enc_len_field(1, err),
        fuel > 0,
    ensures
        parse_resp_fields(s, 0, fuel, m0) == parse_resp_fields(
            s,
            enc_len_field(1, err).len() as int,
            fuel - 1,
            (SpecResponse { err, ..m0 }),
        ),
{
    lemma_len_field_len(1, err);
    lemma_parse_len_field(s, 0, 1, err);
}

/// One parsing step of a reply frame: the attribute-record field.
proof fn lemma_step_attrs(
    s: Seq<u8>,
    i: int,
    fuel: int,
    mm: SpecResponse,
    es: Seq<(Seq<u8>, SpecAttrVal)>,
)
    requires
        es.len() <= byte_limit(),
        forall|t: int| 0 <= t < es.len() ==> attr_entry_wf(#[trigger] es[t]),
        0 <= i,
        i + enc_len_field(2, enc_attr_entries(es)).len() <= s.len(),
        s.subrange(i, i + enc_len_field(2, enc_attr_entries(es)).len() as int) == enc_len_field(
            2,
            enc_attr_entries(es),
        ),
        fuel > 0,
    ensures
        parse_resp_fields(s, i, fuel, mm) == parse_resp_fields(
            s,
            i + enc_len_field(2, enc_attr_entries(es)).len() as int,
            fuel - 1,
            (SpecResponse { attrs: Option::Some(es), ..mm }),
        ),
{
    let b = enc_attr_entries(es);
    lemma_attr_entries_len(es);
    lemma_len_field_len(2, b);
    lemma_parse_len_field(s, i, 2, b);
    assert(b.subrange(0, b.len() as int) =~= b);
    lemma_attrs_chain(b, 0, b.len() as int, Seq::empty(), es);
    assert(Seq::<(Seq<u8>, SpecAttrVal)>::empty() + es =~= es);
    assert(crate::codec::parse_attrs(b) == Option::Some(es));
}

/// One parsing step of a reply frame: the payload field.
proof fn lemma_step_payload(s: Seq<u8>, i: int, fuel: int, mm: SpecResponse, p: SpecPayload)
    requires
        payload_wf(p),
        0 <= i,
        i + enc_payload(p).len() <= s.len(),
        s.subrange(i, i + enc_payload(p).len() as int) == enc_payload(p),
        fuel > 0,
    ensures
        parse_resp_fields(s, i, fuel, mm) == parse_resp_fields(
            s,
            i + enc_payload(p).len() as int,
            fuel - 1,
            (SpecResponse { payload: Option::Some(p), ..mm }),
        ),
{
    match p {
        SpecPayload::Nil(bv) => {
            let n: int = if bv {
                1
            } else {
                0
            };
            lemma_parse_varint_field(s, i, 3, n);
        },
        SpecPayload::Int(iv) => {
            lemma_parse_varint_field(s, i, 4, (iv as u64) as int);
            assert((iv as u64) as i64 == iv) by (bit_vector);
        },
        SpecPayload::Str(b) => {
            lemma_len_field_len(5, b);
            lemma_parse_len_field(s, i, 5, b);
        },
        SpecPayload::Float(bits) => {
            lemma_enc_le_len(bits as int, 8);
            lemma_parse_fixed64_field(s, i, 6, bits);
        },
        SpecPayload::Bytes(b) => {
            lemma_len_field_len(7, b);
            lemma_parse_len_field(s, i, 7, b);
        },
    }
}

/// Parsing the canonical encoding of a well-formed reply model yields
/// exactly that model back.
///
/// Law: the reply round trip. Through the exact contracts of the decode
/// functions, this means a well-formed server reply decodes to what it
/// carries: a reply with a non-empty error text surfaces that error, one
/// carrying a payload decodes to the scalar the payload denotes, and the
/// attribute record and field-map entries come back untouched.
#[verifier::rlimit(100)]
pub proof fn lemma_response_round_trip(m: SpecResponse)
    requires
        resp_wf(m),
    ensures
        parse_response(enc_response(m)) == Option::Some(m),
{
    let g1 = if m.err.len() == 0 {
        Seq::<u8>::empty()
    } else {
        enc_len_field(1, m.err)
    };
    let g2 = match m.attrs {
        Option::Some(es) => enc_len_field(2, enc_attr_entries(es)),
        Option::None => Seq::<u8>::empty(),
    };
    let g3 = match m.payload {
        Option::Some(p) => enc_payload(p),
        Option::None => Seq::<u8>::empty(),
    };
    let g4 = enc_map_entries(m.field_map);
    let s = enc_response(m);
    assert(s == g1 + g2 + g3 + g4);
    let i1 = g1.len() as int;
    let i2 = i1 + g2.len() as int;
    let i3 = i2 + g3.len() as int;
    assert(s.subrange(0, s.len() as int) =~= s);
    assert(s =~= g1 + (g2 + (g3 + g4)));
    lemma_concat_subranges(s, 0, g1, g2 + (g3 + g4));
    lemma_concat_subranges(s, i1, g2, g3 + g4);
    lemma_concat_subranges(s, i2, g3, g4);
    let fuel0 = s.len() as int;
    let m0 = empty_response();
    let m1 = if m.err.len() == 0 {
        m0
    } else {
        SpecResponse { err: m.err, ..m0 }
    };
    let f1 = if m.err.len() == 0 {
        fuel0
    } else {
        fuel0 - 1
    };
    if m.err.len() > 0 {
        lemma_len_field_len(1, m.err);
        lemma_step_err(s, fuel0, m0, m.err);
    }
    let m2 = match m.attrs {
        Option::Some(es) => SpecResponse { attrs: Option::Some(es), ..m1 },
        Option::None => m1,
    };
    let f2 = match m.attrs {
        Option::Some(_) => f1 - 1,
        Option::None => f1,
    };
    match m.attrs {
        Option::Some(es) => {
            lemma_attr_entries_len(es);
            lemma_len_field_len(2, enc_attr_entries(es));
            lemma_step_attrs(s, i1, f1, m1, es);
        },
        Option::None => {},
    }
    let m3 = match m.payload {
        Option::Some(p) => SpecResponse { payload: Option::Some(p), ..m2 },
        Option::None => m2,
    };
    let f3 = match m.payload {
        Option::Some(_) => f2 - 1,
        Option::None => f2,
    };
    match m.payload {
        Option::Some(p) => {
            match p {
                SpecPayload::Str(b) => lemma_len_field_len(5, b),
                SpecPayload::Bytes(b) => lemma_len_field_len(7, b),
                SpecPayload::Nil(_) => {},
                SpecPayload::Int(_) => {},
                SpecPayload::Float(bits) => lemma_enc_le_len(bits as int, 8),
            }
            lemma_step_payload(s, i2, f2, m2, p);
        },
        Option::None => {},
    }
    lemma_map_chain(s, i3, f3, m3, m.field_map);
    let mf = SpecResponse { field_map: m3.field_map + m.field_map, ..m3 };
    assert(parse_resp_fields(s, i3, f3, m3) == Option::Some(mf));
    if m.err.len() == 0 {
        assert(m.err =~= Seq::<u8>::empty());
    }
    assert(mf.err == m.err);
    assert(mf.attrs == m.attrs);
    assert(mf.payload == m.payload);
    assert(mf.field_map =~= m.field_map);
    assert(mf == m);
}

/// A reply with no payload and no error decodes to null, never an error.
///
/// Law: null semantics. Such a reply parses back to its model, whose
/// absent payload denotes the null scalar; by the contract of the scalar
/// decoder that is an `Ok` result, distinct from every error.
pub proof fn lemma_null_reply_decodes_to_null(m: SpecResponse)
    requires
        resp_wf(m),
        m.err.len() == 0,
        m.payload is None,
    ensures
        parse_response(enc_response(m)) == Option::Some(m),
        scalar_of_payload(m.payload) == Option::Some(SpecScalar::Null),
{
    lemma_response_round_trip(m);
}

} // verus!
