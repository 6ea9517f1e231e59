//! The frame codec: commands are framed as binary request messages, and
//! binary reply frames are parsed into a response model and mapped to the
//! value types.
//!
//! A frame is a sequence of tagged fields, each a field number and wire
//! shape packed into one varint header followed by the field's bytes (see
//! [`crate::wire`]). The layout:
//!
//! - request: `1` the operation token, `2` each argument, in order; both
//!   length-delimited strings;
//! - reply: `1` the error text (omitted when empty), `2` the attribute
//!   record, `3`..`7` the payload (`3` nil flag, `4` signed 64-bit integer,
//!   `5` string, `6` double as 64 raw bits, `7` raw bytes), `8` each
//!   field-map entry;
//! - attribute record: `1` per entry, each an entry message;
//! - entry messages: `1` the key, `2` the value;
//! - attribute value: `1` null marker, `2` double as 64 raw bits, `3`
//!   string, `4` boolean.
//!
//! Unknown fields are skipped by their wire shape; a recognized field number
//! carrying an unexpected wire shape is skipped the same way. A repeated
//! scalar or nested field keeps the last occurrence; field-map entries
//! accumulate in order.

use vstd::prelude::*;

use crate::wire::enc_fixed64_field;
use crate::wire::parse_bytes;
use crate::wire::parse_le;
use crate::wire::parse_varint;
use crate::wire::enc_len_field;
use crate::wire::enc_varint_field;
use crate::wire::read_bytes;
use crate::wire::read_le;
use crate::wire::read_varint;
use crate::wire::write_fixed64_field;
use crate::wire::write_len_field;
use crate::wire::write_varint_field;
use vstd::utf8::encode_utf8;

verus! {

/// The tagged payload a reply may carry.
#[derive(Debug, Clone, PartialEq)]
pub enum WirePayload {
    /// An explicit nil marker.
    Nil(bool),
    /// A signed 64-bit integer.
    Int(i64),
    /// A string payload, as raw bytes.
    Str(Vec<u8>),
    /// A double, as its 64 raw bits.
    Float(u64),
    /// A raw byte payload.
    Bytes(Vec<u8>),
}

/// The view of a [`WirePayload`].
pub enum SpecPayload {
    Nil(bool),
    Int(i64),
    Str(Seq<u8>),
    Float(u64),
    Bytes(Seq<u8>),
}

impl View for WirePayload {
    type V = SpecPayload;

    open spec fn view(&self) -> SpecPayload {
        match self {
            WirePayload::Nil(b) => SpecPayload::Nil(*b),
            WirePayload::Int(i) => SpecPayload::Int(*i),
            WirePayload::Str(b) => SpecPayload::Str(b@),
            WirePayload::Float(bits) => SpecPayload::Float(*bits),
            WirePayload::Bytes(b) => SpecPayload::Bytes(b@),
        }
    }
}

/// An attribute value in a reply's side-channel metadata record.
#[derive(Debug, Clone, PartialEq)]
pub enum AttrVal {
    /// No recognized kind was present.
    Unset,
    /// An explicit null marker.
    Null,
    /// A double, as its 64 raw bits.
    Num(u64),
    /// A string, as raw bytes.
    Str(Vec<u8>),
    /// A boolean.
    Bool(bool),
}

/// The view of an [`AttrVal`].
pub enum SpecAttrVal {
    Unset,
    Null,
    Num(u64),
    Str(Seq<u8>),
    Bool(bool),
}

impl View for AttrVal {
    type V = SpecAttrVal;

    open spec fn view(&self) -> SpecAttrVal {
        match self {
            AttrVal::Unset => SpecAttrVal::Unset,
            AttrVal::Null => SpecAttrVal::Null,
            AttrVal::Num(bits) => SpecAttrVal::Num(*bits),
            AttrVal::Str(b) => SpecAttrVal::Str(b@),
            AttrVal::Bool(b) => SpecAttrVal::Bool(*b),
        }
    }
}

/// The response frame model: error text, optional payload, optional
/// attribute record, and field-map entries.
#[derive(Debug, Clone, PartialEq)]
pub struct WireResponse {
    /// The server-reported error text; empty means success.
    pub err: Vec<u8>,
    /// The tagged payload, if one was present.
    pub payload: Option<WirePayload>,
    /// The attribute record, if one was present.
    pub attrs: Option<Vec<(Vec<u8>, AttrVal)>>,
    /// The field-map entries, in wire order.
    pub field_map: Vec<(Vec<u8>, Vec<u8>)>,
}

/// The view of a [`WireResponse`].
pub struct SpecResponse {
    pub err: Seq<u8>,
    pub payload: Option<SpecPayload>,
    pub attrs: Option<Seq<(Seq<u8>, SpecAttrVal)>>,
    pub field_map: Seq<(Seq<u8>, Seq<u8>)>,
}

/// The view of an attribute entry list.
pub open spec fn attrs_entries_view(es: Seq<(Vec<u8>, AttrVal)>) -> Seq<(Seq<u8>, SpecAttrVal)> {
    es.map_values(|p: (Vec<u8>, AttrVal)| (p.0@, p.1@))
}

/// The view of a field-map entry list.
pub open spec fn map_entries_view(es: Seq<(Vec<u8>, Vec<u8>)>) -> Seq<(Seq<u8>, Seq<u8>)> {
    es.map_values(|p: (Vec<u8>, Vec<u8>)| (p.0@, p.1@))
}

/// The view of an optional payload.
pub open spec fn view_opt_payload(p: Option<WirePayload>) -> Option<SpecPayload> {
    match p {
        Option::Some(p) => Option::Some(p@),
        Option::None => Option::None,
    }
}

/// The view of an optional attribute entry list.
pub open spec fn view_opt_attrs(a: Option<Vec<(Vec<u8>, AttrVal)>>) -> Option<
    Seq<(Seq<u8>, SpecAttrVal)>,
> {
    match a {
        Option::Some(es) => Option::Some(attrs_entries_view(es@)),
        Option::None => Option::None,
    }
}

impl View for WireResponse {
    type V = SpecResponse;

    open spec fn view(&self) -> SpecResponse {
        SpecResponse {
            err: self.err@,
            payload: view_opt_payload(self.payload),
            attrs: view_opt_attrs(self.attrs),
            field_map: map_entries_view(self.field_map@),
        }
    }
}

impl WireResponse {
    /// A success frame with no payload.
    pub fn empty() -> (r: WireResponse)
        ensures
            r@.err == Seq::<u8>::empty(),
            r@.payload is None,
            r@.attrs is None,
            r@.field_map == Seq::<(Seq<u8>, Seq<u8>)>::empty(),
    {
        let r = WireResponse { err: Vec::new(), payload: None, attrs: None, field_map: Vec::new() };
        proof {
            assert(r@.field_map =~= Seq::<(Seq<u8>, Seq<u8>)>::empty());
        }
        r
    }
}

/// The encoding of an attribute value message.
pub open spec fn enc_attr_val(v: SpecAttrVal) -> Seq<u8> {
    match v {
        SpecAttrVal::Unset => Seq::empty(),
        SpecAttrVal::Null => enc_varint_field(1, 0),
        SpecAttrVal::Num(bits) => enc_fixed64_field(2, bits),
        SpecAttrVal::Str(b) => enc_len_field(3, b),
        SpecAttrVal::Bool(b) => enc_varint_field(
            4,
            if b {
                1
            } else {
                0
            },
        ),
    }
}

/// The encoding of one attribute entry message: key then value message.
pub open spec fn enc_attr_entry(k: Seq<u8>, v: SpecAttrVal) -> Seq<u8> {
    enc_len_field(1, k) + enc_len_field(2, enc_attr_val(v))
}

/// The body of an attribute record: one length-delimited entry per pair.
pub open spec fn enc_attr_entries(es: Seq<(Seq<u8>, SpecAttrVal)>) -> Seq<u8>
    decreases es.len(),
{
    if es.len() == 0 {
        Seq::empty()
    } else {
        enc_attr_entries(es.drop_last()) + enc_len_field(
            1,
            enc_attr_entry(es.last().0, es.last().1),
        )
    }
}

/// The encoding of one field-map entry message: key then value.
pub open spec fn enc_map_entry(k: Seq<u8>, v: Seq<u8>) -> Seq<u8> {
    enc_len_field(1, k) + enc_len_field(2, v)
}

/// The field-map fields of a reply: one length-delimited entry per pair.
pub open spec fn enc_map_entries(es: Seq<(Seq<u8>, Seq<u8>)>) -> Seq<u8>
    decreases es.len(),
{
    if es.len() == 0 {
        Seq::empty()
    } else {
        enc_map_entries(es.drop_last()) + enc_len_field(
            8,
            enc_map_entry(es.last().0, es.last().1),
        )
    }
}

/// The payload field of a reply.
pub open spec fn enc_payload(p: SpecPayload) -> Seq<u8> {
    match p {
        SpecPayload::Nil(b) => enc_varint_field(
            3,
            if b {
                1
            } else {
                0
            },
        ),
        SpecPayload::Int(i) => enc_varint_field(4, (i as u64) as int),
        SpecPayload::Str(b) => enc_len_field(5, b),
        SpecPayload::Float(bits) => enc_fixed64_field(6, bits),
        SpecPayload::Bytes(b) => enc_len_field(7, b),
    }
}

/// The canonical encoding of a reply frame: error text (omitted when
/// empty), attribute record, payload, field-map entries, in that order.
pub open spec fn enc_response(m: SpecResponse) -> Seq<u8> {
    (if m.err.len() == 0 {
        Seq::<u8>::empty()
    } else {
        enc_len_field(1, m.err)
    }) + (match m.attrs {
        Option::Some(es) => enc_len_field(2, enc_attr_entries(es)),
        Option::None => Seq::<u8>::empty(),
    }) + (match m.payload {
        Option::Some(p) => enc_payload(p),
        Option::None => Seq::<u8>::empty(),
    }) + enc_map_entries(m.field_map)
}

/// The argument fields of a request frame.
pub open spec fn enc_args(args: Seq<Seq<u8>>) -> Seq<u8>
    decreases args.len(),
{
    if args.len() == 0 {
        Seq::empty()
    } else {
        enc_args(args.drop_last()) + enc_len_field(2, args.last())
    }
}

/// The canonical encoding of a request frame: the operation token (omitted
/// when empty) then each argument, in order.
pub open spec fn enc_request(cmd: Seq<u8>, args: Seq<Seq<u8>>) -> Seq<u8> {
    (if cmd.len() == 0 {
        Seq::<u8>::empty()
    } else {
        enc_len_field(1, cmd)
    }) + enc_args(args)
}

/// Appends the encoding of an attribute value message.
fn write_attr_val(v: &AttrVal, out: &mut Vec<u8>)
    ensures
        final(out)@ == old(out)@ + enc_attr_val(v@),
{
    match v {
        AttrVal::Unset => {
            assert(out@ =~= old(out)@ + enc_attr_val(v@));
        },
        AttrVal::Null => {
            write_varint_field(1, 0, out);
        },
        AttrVal::Num(bits) => {
            write_fixed64_field(2, *bits, out);
        },
        AttrVal::Str(b) => {
            write_len_field(3, b.as_slice(), out);
        },
        AttrVal::Bool(b) => {
            if *b {
                write_varint_field(4, 1, out);
            } else {
                write_varint_field(4, 0, out);
            }
        },
    }
}

/// Builds the canonical byte frame of a reply model. This is the writer a
/// conforming server would use for the fields this client reads; the decode
/// functions are proved to invert it.
pub fn encode_response(m: &WireResponse) -> (r: Vec<u8>)
    ensures
        r@ == enc_response(m@),
{
    let mut out: Vec<u8> = Vec::new();
    if m.err.len() > 0 {
        write_len_field(1, m.err.as_slice(), &mut out);
    }
    let ghost after_err = out@;
    match &m.attrs {
        Some(entries) => {
            let mut body: Vec<u8> = Vec::new();
            let n = entries.len();
            let mut i: usize = 0;
            while i < n
                invariant
                    i <= n,
                    n == entries@.len(),
                    body@ == enc_attr_entries(attrs_entries_view(entries@.take(i as int))),
                decreases n - i,
            {
                let mut entry: Vec<u8> = Vec::new();
                write_len_field(1, entries[i].0.as_slice(), &mut entry);
                let mut val: Vec<u8> = Vec::new();
                write_attr_val(&entries[i].1, &mut val);
                write_len_field(2, val.as_slice(), &mut entry);
                write_len_field(1, entry.as_slice(), &mut body);
                proof {
                    let ev = attrs_entries_view(entries@.take(i + 1));
                    assert(ev.drop_last() =~= attrs_entries_view(entries@.take(i as int)));
                    assert(ev.last() == (entries@[i as int].0@, entries@[i as int].1@));
                    assert(entry@ == enc_attr_entry(ev.last().0, ev.last().1));
                }
                i = i + 1;
            }
            proof {
                assert(entries@.take(n as int) =~= entries@);
            }
            write_len_field(2, body.as_slice(), &mut out);
        },
        None => {},
    }
    let ghost after_attrs = out@;
    match &m.payload {
        Some(p) => {
            match p {
                WirePayload::Nil(b) => {
                    if *b {
                        write_varint_field(3, 1, &mut out);
                    } else {
                        write_varint_field(3, 0, &mut out);
                    }
                },
                WirePayload::Int(i) => {
                    write_varint_field(4, *i as u64, &mut out);
                },
                WirePayload::Str(b) => {
                    write_len_field(5, b.as_slice(), &mut out);
                },
                WirePayload::Float(bits) => {
                    write_fixed64_field(6, *bits, &mut out);
                },
                WirePayload::Bytes(b) => {
                    write_len_field(7, b.as_slice(), &mut out);
                },
            }
        },
        None => {},
    }
    let ghost after_payload = out@;
    let n = m.field_map.len();
    let mut i: usize = 0;
    while i < n
        invariant
            i <= n,
            n == m.field_map@.len(),
            out@ == after_payload + enc_map_entries(map_entries_view(m.field_map@.take(i as int))),
        decreases n - i,
    {
        let mut entry: Vec<u8> = Vec::new();
        write_len_field(1, m.field_map[i].0.as_slice(), &mut entry);
        write_len_field(2, m.field_map[i].1.as_slice(), &mut entry);
        write_len_field(8, entry.as_slice(), &mut out);
        proof {
            let ev = map_entries_view(m.field_map@.take(i + 1));
            assert(ev.drop_last() =~= map_entries_view(m.field_map@.take(i as int)));
            assert(ev.last() == (m.field_map@[i as int].0@, m.field_map@[i as int].1@));
        }
        i = i + 1;
    }
    proof {
        assert(m.field_map@.take(n as int) =~= m.field_map@);
        assert(out@ =~= enc_response(m@));
    }
    out
}

/// The request frame of a command, over the character-level layout.
pub open spec fn enc_command(cmd: Seq<char>, args: Seq<Seq<char>>) -> Seq<u8> {
    enc_request(encode_utf8(cmd), args.map_values(|a: Seq<char>| encode_utf8(a)))
}

impl crate::commands::Command {
    /// Serializes this command into its binary request frame: the operation
    /// token and the fixed per-operation argument layout, framed as fields.
    /// Encoding is total: it never fails for a well-formed command value.
    pub fn encode(&self) -> (r: Vec<u8>)
        ensures
            r@ == enc_command(
                crate::commands::cmd_token(*self),
                crate::commands::cmd_args(*self),
            ),
    {
        let m = self.wire_message();
        let mut out: Vec<u8> = Vec::new();
        let cmd_bytes = m.cmd.as_str().as_bytes();
        if cmd_bytes.len() > 0 {
            write_len_field(1, cmd_bytes, &mut out);
        }
        let ghost after_cmd = out@;
        let ghost spec_args = crate::commands::cmd_args(*self).map_values(
            |a: Seq<char>| encode_utf8(a),
        );
        let n = m.args.len();
        let mut i: usize = 0;
        proof {
            assert(spec_args.len() == n);
        }
        while i < n
            invariant
                i <= n,
                n == m.args@.len(),
                spec_args == crate::commands::strings_view(m.args@).map_values(
                    |a: Seq<char>| encode_utf8(a),
                ),
                spec_args.len() == n,
                forall|j: int| 0 <= j < n ==> #[trigger] spec_args[j] == encode_utf8(m.args@[j]@),
                out@ == after_cmd + enc_args(spec_args.take(i as int)),
            decreases n - i,
        {
            let arg_bytes = m.args[i].as_str().as_bytes();
            write_len_field(2, arg_bytes, &mut out);
            proof {
                assert(spec_args.take(i + 1).drop_last() =~= spec_args.take(i as int));
                assert(spec_args.take(i + 1).last() == encode_utf8(m.args@[i as int]@));
            }
            i = i + 1;
        }
        proof {
            assert(spec_args.take(n as int) =~= spec_args);
            assert(encode_utf8(crate::commands::cmd_token(*self)).len() == 0 <==> cmd_bytes@.len()
                == 0);
            assert(out@ =~= enc_command(
                crate::commands::cmd_token(*self),
                crate::commands::cmd_args(*self),
            ));
        }
        out
    }
}

/// Parses a length-delimited chunk: byte count then bytes.
pub open spec fn parse_len_bytes(s: Seq<u8>, i: int) -> Option<(Seq<u8>, int)> {
    match parse_varint(s, i, 10) {
        Option::Some((len, j)) => parse_bytes(s, j, len),
        Option::None => Option::None,
    }
}

/// Advances past a field body of the given wire shape without reading it.
pub open spec fn skip_field(s: Seq<u8>, i: int, wire: int) -> Option<int> {
    if wire == 0 {
        match parse_varint(s, i, 10) {
            Option::Some((_v, j)) => Option::Some(j),
            Option::None => Option::None,
        }
    } else if wire == 1 {
        if 0 <= i && i + 8 <= s.len() {
            Option::Some(i + 8)
        } else {
            Option::None
        }
    } else if wire == 2 {
        match parse_len_bytes(s, i) {
            Option::Some((_b, j)) => Option::Some(j),
            Option::None => Option::None,
        }
    } else if wire == 5 {
        if 0 <= i && i + 4 <= s.len() {
            Option::Some(i + 4)
        } else {
            Option::None
        }
    } else {
        Option::None
    }
}

/// Parses the fields of an attribute value message, keeping the last
/// recognized kind.
pub open spec fn parse_attr_val_fields(s: Seq<u8>, i: int, fuel: int, acc: SpecAttrVal) -> Option<
    SpecAttrVal,
>
    decreases fuel,
{
    if i == s.len() {
        Option::Some(acc)
    } else if i < 0 || i > s.len() || fuel <= 0 {
        Option::None
    } else {
        match parse_varint(s, i, 10) {
            Option::None => Option::None,
            Option::Some((h, j)) => {
                let field = h / 8;
                let wire = h % 8;
                if field == 1 && wire == 0 {
                    match parse_varint(s, j, 10) {
                        Option::Some((_v, j2)) => parse_attr_val_fields(
                            s,
                            j2,
                            fuel - 1,
                            SpecAttrVal::Null,
                        ),
                        Option::None => Option::None,
                    }
                } else if field == 2 && wire == 1 {
                    match parse_le(s, j, 8) {
                        Option::Some((v, j2)) => parse_attr_val_fields(
                            s,
                            j2,
                            fuel - 1,
                            SpecAttrVal::Num(v as u64),
                        ),
                        Option::None => Option::None,
                    }
                } else if field == 3 && wire == 2 {
                    match parse_len_bytes(s, j) {
                        Option::Some((b, j2)) => parse_attr_val_fields(
                            s,
                            j2,
                            fuel - 1,
                            SpecAttrVal::Str(b),
                        ),
                        Option::None => Option::None,
                    }
                } else if field == 4 && wire == 0 {
                    match parse_varint(s, j, 10) {
                        Option::Some((v, j2)) => parse_attr_val_fields(
                            s,
                            j2,
                            fuel - 1,
                            SpecAttrVal::Bool(v != 0),
                        ),
                        Option::None => Option::None,
                    }
                } else {
                    match skip_field(s, j, wire) {
                        Option::Some(j2) => parse_attr_val_fields(s, j2, fuel - 1, acc),
                        Option::None => Option::None,
                    }
                }
            },
        }
    }
}

/// Parses a whole attribute value message.
pub open spec fn parse_attr_val(s: Seq<u8>) -> Option<SpecAttrVal> {
    parse_attr_val_fields(s, 0, s.len() as int, SpecAttrVal::Unset)
}

/// Parses the fields of an attribute entry message: key and value message,
/// each defaulting to empty, the last occurrence winning.
pub open spec fn parse_attr_entry_fields(
    s: Seq<u8>,
    i: int,
    fuel: int,
    k: Seq<u8>,
    v: SpecAttrVal,
) -> Option<(Seq<u8>, SpecAttrVal)>
    decreases fuel,
{
    if i == s.len() {
        Option::Some((k, v))
    } else if i < 0 || i > s.len() || fuel <= 0 {
        Option::None
    } else {
        match parse_varint(s, i, 10) {
            Option::None => Option::None,
            Option::Some((h, j)) => {
                let field = h / 8;
                let wire = h % 8;
                if field == 1 && wire == 2 {
                    match parse_len_bytes(s, j) {
                        Option::Some((b, j2)) => parse_attr_entry_fields(s, j2, fuel - 1, b, v),
                        Option::None => Option::None,
                    }
                } else if field == 2 && wire == 2 {
                    match parse_len_bytes(s, j) {
                        Option::Some((b, j2)) => (match parse_attr_val(b) {
                            Option::Some(av) => parse_attr_entry_fields(s, j2, fuel - 1, k, av),
                            Option::None => Option::None,
                        }),
                        Option::None => Option::None,
                    }
                } else {
                    match skip_field(s, j, wire) {
                        Option::Some(j2) => parse_attr_entry_fields(s, j2, fuel - 1, k, v),
                        Option::None => Option::None,
                    }
                }
            },
        }
    }
}

/// Parses a whole attribute entry message.
pub open spec fn parse_attr_entry(s: Seq<u8>) -> Option<(Seq<u8>, SpecAttrVal)> {
    parse_attr_entry_fields(s, 0, s.len() as int, Seq::empty(), SpecAttrVal::Unset)
}

/// Parses the fields of an attribute record: one entry per entry field.
pub open spec fn parse_attrs_fields(
    s: Seq<u8>,
    i: int,
    fuel: int,
    acc: Seq<(Seq<u8>, SpecAttrVal)>,
) -> Option<Seq<(Seq<u8>, SpecAttrVal)>>
    decreases fuel,
{
    if i == s.len() {
        Option::Some(acc)
    } else if i < 0 || i > s.len() || fuel <= 0 {
        Option::None
    } else {
        match parse_varint(s, i, 10) {
            Option::None => Option::None,
            Option::Some((h, j)) => {
                let field = h / 8;
                let wire = h % 8;
                if field == 1 && wire == 2 {
                    match parse_len_bytes(s, j) {
                        Option::Some((b, j2)) => (match parse_attr_entry(b) {
                            Option::Some(e) => parse_attrs_fields(s, j2, fuel - 1, acc.push(e)),
                            Option::None => Option::None,
                        }),
                        Option::None => Option::None,
                    }
                } else {
                    match skip_field(s, j, wire) {
                        Option::Some(j2) => parse_attrs_fields(s, j2, fuel - 1, acc),
                        Option::None => Option::None,
                    }
                }
            },
        }
    }
}

/// Parses a whole attribute record.
pub open spec fn parse_attrs(s: Seq<u8>) -> Option<Seq<(Seq<u8>, SpecAttrVal)>> {
    parse_attrs_fields(s, 0, s.len() as int, Seq::empty())
}

/// Parses the fields of a field-map entry message: key and value bytes,
/// each defaulting to empty, the last occurrence winning.
pub open spec fn parse_map_entry_fields(
    s: Seq<u8>,
    i: int,
    fuel: int,
    k: Seq<u8>,
    v: Seq<u8>,
) -> Option<(Seq<u8>, Seq<u8>)>
    decreases fuel,
{
    if i == s.len() {
        Option::Some((k, v))
    } else if i < 0 || i > s.len() || fuel <= 0 {
        Option::None
    } else {
        match parse_varint(s, i, 10) {
            Option::None => Option::None,
            Option::Some((h, j)) => {
                let field = h / 8;
                let wire = h % 8;
                if field == 1 && wire == 2 {
                    match parse_len_bytes(s, j) {
                        Option::Some((b, j2)) => parse_map_entry_fields(s, j2, fuel - 1, b, v),
                        Option::None => Option::None,
                    }
                } else if field == 2 && wire == 2 {
                    match parse_len_bytes(s, j) {
                        Option::Some((b, j2)) => parse_map_entry_fields(s, j2, fuel - 1, k, b),
                        Option::None => Option::None,
                    }
                } else {
                    match skip_field(s, j, wire) {
                        Option::Some(j2) => parse_map_entry_fields(s, j2, fuel - 1, k, v),
                        Option::None => Option::None,
                    }
                }
            },
        }
    }
}

/// Parses a whole field-map entry message.
pub open spec fn parse_map_entry(s: Seq<u8>) -> Option<(Seq<u8>, Seq<u8>)> {
    parse_map_entry_fields(s, 0, s.len() as int, Seq::empty(), Seq::empty())
}

/// Parses the fields of a reply frame into the response model.
pub open spec fn parse_resp_fields(s: Seq<u8>, i: int, fuel: int, m: SpecResponse) -> Option<
    SpecResponse,
>
    decreases fuel,
{
    if i == s.len() {
        Option::Some(m)
    } else if i < 0 || i > s.len() || fuel <= 0 {
        Option::None
    } else {
        match parse_varint(s, i, 10) {
            Option::None => Option::None,
            Option::Some((h, j)) => {
                let field = h / 8;
                let wire = h % 8;
                if field == 1 && wire == 2 {
                    match parse_len_bytes(s, j) {
                        Option::Some((b, j2)) => parse_resp_fields(
                            s,
                            j2,
                            fuel - 1,
                            SpecResponse { err: b, ..m },
                        ),
                        Option::None => Option::None,
                    }
                } else if field == 2 && wire == 2 {
                    match parse_len_bytes(s, j) {
                        Option::Some((b, j2)) => (match parse_attrs(b) {
                            Option::Some(es) => parse_resp_fields(
                                s,
                                j2,
                                fuel - 1,
                                SpecResponse { attrs: Option::Some(es), ..m },
                            ),
                            Option::None => Option::None,
                        }),
                        Option::None => Option::None,
                    }
                } else if field == 3 && wire == 0 {
                    match parse_varint(s, j, 10) {
                        Option::Some((v, j2)) => parse_resp_fields(
                            s,
                            j2,
                            fuel - 1,
                            SpecResponse { payload: Option::Some(SpecPayload::Nil(v != 0)), ..m },
                        ),
                        Option::None => Option::None,
                    }
                } else if field == 4 && wire == 0 {
                    match parse_varint(s, j, 10) {
                        Option::Some((v, j2)) => parse_resp_fields(
                            s,
                            j2,
                            fuel - 1,
                            SpecResponse {
                                payload: Option::Some(SpecPayload::Int((v as u64) as i64)),
                                ..m
                            },
                        ),
                        Option::None => Option::None,
                    }
                } else if field == 5 && wire == 2 {
                    match parse_len_bytes(s, j) {
                        Option::Some((b, j2)) => parse_resp_fields(
                            s,
                            j2,
                            fuel - 1,
                            SpecResponse { payload: Option::Some(SpecPayload::Str(b)), ..m },
                        ),
                        Option::None => Option::None,
                    }
                } else if field == 6 && wire == 1 {
                    match parse_le(s, j, 8) {
                        Option::Some((v, j2)) => parse_resp_fields(
                            s,
                            j2,
                            fuel - 1,
                            SpecResponse {
                                payload: Option::Some(SpecPayload::Float(v as u64)),
                                ..m
                            },
                        ),
                        Option::None => Option::None,
                    }
                } else if field == 7 && wire == 2 {
                    match parse_len_bytes(s, j) {
                        Option::Some((b, j2)) => parse_resp_fields(
                            s,
                            j2,
                            fuel - 1,
                            SpecResponse { payload: Option::Some(SpecPayload::Bytes(b)), ..m },
                        ),
                        Option::None => Option::None,
                    }
                } else if field == 8 && wire == 2 {
                    match parse_len_bytes(s, j) {
                        Option::Some((b, j2)) => (match parse_map_entry(b) {
                            Option::Some(e) => parse_resp_fields(
                                s,
                                j2,
                                fuel - 1,
                                SpecResponse { field_map: m.field_map.push(e), ..m },
                            ),
                            Option::None => Option::None,
                        }),
                        Option::None => Option::None,
                    }
                } else {
                    match skip_field(s, j, wire) {
                        Option::Some(j2) => parse_resp_fields(s, j2, fuel - 1, m),
                        Option::None => Option::None,
                    }
                }
            },
        }
    }
}

/// The empty response model: no error, no payload, no attribute record, no
/// field-map entries.
pub open spec fn empty_response() -> SpecResponse {
    SpecResponse {
        err: Seq::empty(),
        payload: Option::None,
        attrs: Option::None,
        field_map: Seq::empty(),
    }
}

/// Parses a whole reply frame.
pub open spec fn parse_response(s: Seq<u8>) -> Option<SpecResponse> {
    parse_resp_fields(s, 0, s.len() as int, empty_response())
}

/// Reads a length-delimited chunk at `i`.
fn read_len_bytes(s: &[u8], i: usize) -> (r: Option<(Vec<u8>, usize)>)
    ensures
        (match parse_len_bytes(s@, i as int) {
            Option::Some((b, j)) => r matches Some(p) && p.0@ == b && p.1 == j && j <= s@.len(),
            Option::None => r matches None,
        }),
{
    match read_varint(s, i) {
        None => None,
        Some((len, j)) => read_bytes(s, j, len),
    }
}

/// Advances past a field body of the given wire shape.
fn skip_field_exec(s: &[u8], i: usize, wire: u64) -> (r: Option<usize>)
    ensures
        (match skip_field(s@, i as int, wire as int) {
            Option::Some(j) => r matches Some(p) && p == j && j <= s@.len(),
            Option::None => r matches None,
        }),
{
    proof {
        crate::wire::lemma_parse_varint_bounds(s@, i as int, 10);
    }
    if wire == 0 {
        match read_varint(s, i) {
            Some((_v, j)) => Some(j),
            None => None,
        }
    } else if wire == 1 {
        if i <= s.len() && s.len() - i >= 8 {
            Some(i + 8)
        } else {
            None
        }
    } else if wire == 2 {
        match read_len_bytes(s, i) {
            Some((_b, j)) => Some(j),
            None => None,
        }
    } else if wire == 5 {
        if i <= s.len() && s.len() - i >= 4 {
            Some(i + 4)
        } else {
            None
        }
    } else {
        None
    }
}

/// Parses an attribute value message.
fn parse_attr_val_exec(s: &[u8]) -> (r: Option<AttrVal>)
    ensures
        (match parse_attr_val(s@) {
            Option::Some(v) => r matches Some(a) && a@ == v,
            Option::None => r matches None,
        }),
{
    let mut acc = AttrVal::Unset;
    let mut i: usize = 0;
    let mut fuel: usize = s.len();
    while i != s.len()
        invariant
            i <= s@.len(),
            parse_attr_val(s@) == parse_attr_val_fields(s@, i as int, fuel as int, acc@),
        decreases fuel,
    {
        if fuel == 0 {
            return None;
        }
        proof {
            crate::wire::lemma_parse_varint_bounds(s@, i as int, 10);
        }
        match read_varint(s, i) {
            None => {
                return None;
            },
            Some((h, j)) => {
                let field = h / 8;
                let wire = h % 8;
                if field == 1 && wire == 0 {
                    proof {
                        crate::wire::lemma_parse_varint_bounds(s@, j as int, 10);
                    }
                    match read_varint(s, j) {
                        Some((_v, j2)) => {
                            acc = AttrVal::Null;
                            i = j2;
                        },
                        None => {
                            return None;
                        },
                    }
                } else if field == 2 && wire == 1 {
                    proof {
                        crate::wire::lemma_parse_le_bounds(s@, j as int, 8);
                    }
                    match read_le(s, j, 8) {
                        Some((v, j2)) => {
                            acc = AttrVal::Num(v);
                            i = j2;
                        },
                        None => {
                            return None;
                        },
                    }
                } else if field == 3 && wire == 2 {
                    match read_len_bytes(s, j) {
                        Some((b, j2)) => {
                            acc = AttrVal::Str(b);
                            i = j2;
                        },
                        None => {
                            return None;
                        },
                    }
                } else if field == 4 && wire == 0 {
                    proof {
                        crate::wire::lemma_parse_varint_bounds(s@, j as int, 10);
                    }
                    match read_varint(s, j) {
                        Some((v, j2)) => {
                            acc = AttrVal::Bool(v != 0);
                            i = j2;
                        },
                        None => {
                            return None;
                        },
                    }
                } else {
                    match skip_field_exec(s, j, wire) {
                        Some(j2) => {
                            i = j2;
                        },
                        None => {
                            return None;
                        },
                    }
                }
                fuel = fuel - 1;
            },
        }
    }
    Some(acc)
}

/// Parses an attribute entry message.
fn parse_attr_entry_exec(s: &[u8]) -> (r: Option<(Vec<u8>, AttrVal)>)
    ensures
        (match parse_attr_entry(s@) {
            Option::Some(e) => r matches Some(p) && p.0@ == e.0 && p.1@ == e.1,
            Option::None => r matches None,
        }),
{
    let mut key: Vec<u8> = Vec::new();
    let mut val = AttrVal::Unset;
    let mut i: usize = 0;
    let mut fuel: usize = s.len();
    proof {
        assert(key@ =~= Seq::<u8>::empty());
    }
    while i != s.len()
        invariant
            i <= s@.len(),
            parse_attr_entry(s@) == parse_attr_entry_fields(
                s@,
                i as int,
                fuel as int,
                key@,
                val@,
            ),
        decreases fuel,
    {
        if fuel == 0 {
            return None;
        }
        proof {
            crate::wire::lemma_parse_varint_bounds(s@, i as int, 10);
        }
        match read_varint(s, i) {
            None => {
                return None;
            },
            Some((h, j)) => {
                let field = h / 8;
                let wire = h % 8;
                if field == 1 && wire == 2 {
                    match read_len_bytes(s, j) {
                        Some((b, j2)) => {
                            key = b;
                            i = j2;
                        },
                        None => {
                            return None;
                        },
                    }
                } else if field == 2 && wire == 2 {
                    match read_len_bytes(s, j) {
                        Some((b, j2)) => {
                            match parse_attr_val_exec(b.as_slice()) {
                                Some(av) => {
                                    val = av;
                                    i = j2;
                                },
                                None => {
                                    return None;
                                },
                            }
                        },
                        None => {
                            return None;
                        },
                    }
                } else {
                    match skip_field_exec(s, j, wire) {
                        Some(j2) => {
                            i = j2;
                        },
                        None => {
                            return None;
                        },
                    }
                }
                fuel = fuel - 1;
            },
        }
    }
    Some((key, val))
}

/// Parses an attribute record.
fn parse_attrs_exec(s: &[u8]) -> (r: Option<Vec<(Vec<u8>, AttrVal)>>)
    ensures
        (match parse_attrs(s@) {
            Option::Some(es) => r matches Some(v) && attrs_entries_view(v@) == es,
            Option::None => r matches None,
        }),
{
    let mut acc: Vec<(Vec<u8>, AttrVal)> = Vec::new();
    let mut i: usize = 0;
    let mut fuel: usize = s.len();
    proof {
        assert(attrs_entries_view(acc@) =~= Seq::<(Seq<u8>, SpecAttrVal)>::empty());
    }
    while i != s.len()
        invariant
            i <= s@.len(),
            parse_attrs(s@) == parse_attrs_fields(
                s@,
                i as int,
                fuel as int,
                attrs_entries_view(acc@),
            ),
        decreases fuel,
    {
        if fuel == 0 {
            return None;
        }
        proof {
            crate::wire::lemma_parse_varint_bounds(s@, i as int, 10);
        }
        match read_varint(s, i) {
            None => {
                return None;
            },
            Some((h, j)) => {
                let field = h / 8;
                let wire = h % 8;
                if field == 1 && wire == 2 {
                    match read_len_bytes(s, j) {
                        Some((b, j2)) => {
                            match parse_attr_entry_exec(b.as_slice()) {
                                Some(e) => {
                                    let ghost before = attrs_entries_view(acc@);
                                    let ghost ev = (e.0@, e.1@);
                                    acc.push(e);
                                    proof {
                                        assert(attrs_entries_view(acc@) =~= before.push(ev));
                                    }
                                    i = j2;
                                },
                                None => {
                                    return None;
                                },
                            }
                        },
                        None => {
                            return None;
                        },
                    }
                } else {
                    match skip_field_exec(s, j, wire) {
                        Some(j2) => {
                            i = j2;
                        },
                        None => {
                            return None;
                        },
                    }
                }
                fuel = fuel - 1;
            },
        }
    }
    Some(acc)
}

/// Parses a field-map entry message.
fn parse_map_entry_exec(s: &[u8]) -> (r: Option<(Vec<u8>, Vec<u8>)>)
    ensures
        (match parse_map_entry(s@) {
            Option::Some(e) => r matches Some(p) && p.0@ == e.0 && p.1@ == e.1,
            Option::None => r matches None,
        }),
{
    let mut key: Vec<u8> = Vec::new();
    let mut val: Vec<u8> = Vec::new();
    let mut i: usize = 0;
    let mut fuel: usize = s.len();
    proof {
        assert(key@ =~= Seq::<u8>::empty());
        assert(val@ =~= Seq::<u8>::empty());
    }
    while i != s.len()
        invariant
            i <= s@.len(),
            parse_map_entry(s@) == parse_map_entry_fields(
                s@,
                i as int,
                fuel as int,
                key@,
                val@,
            ),
        decreases fuel,
    {
        if fuel == 0 {
            return None;
        }
        proof {
            crate::wire::lemma_parse_varint_bounds(s@, i as int, 10);
        }
        match read_varint(s, i) {
            None => {
                return None;
            },
            Some((h, j)) => {
                let field = h / 8;
                let wire = h % 8;
                if field == 1 && wire == 2 {
                    match read_len_bytes(s, j) {
                        Some((b, j2)) => {
                            key = b;
                            i = j2;
                        },
                        None => {
                            return None;
                        },
                    }
                } else if field == 2 && wire == 2 {
                    match read_len_bytes(s, j) {
                        Some((b, j2)) => {
                            val = b;
                            i = j2;
                        },
                        None => {
                            return None;
                        },
                    }
                } else {
                    match skip_field_exec(s, j, wire) {
                        Some(j2) => {
                            i = j2;
                        },
                        None => {
                            return None;
                        },
                    }
                }
                fuel = fuel - 1;
            },
        }
    }
    Some((key, val))
}

/// Parses a whole reply frame into its response model; fails exactly on
/// the frames the parsing specification refuses.
pub fn parse_response_exec(s: &[u8]) -> (r: Option<WireResponse>)
    ensures
        (match parse_response(s@) {
            Option::Some(m) => r matches Some(w) && w@ == m,
            Option::None => r matches None,
        }),
{
    let mut resp = WireResponse::empty();
    let mut i: usize = 0;
    let mut fuel: usize = s.len();
    proof {
        assert(resp@ =~= empty_response());
    }
    while i != s.len()
        invariant
            i <= s@.len(),
            parse_response(s@) == parse_resp_fields(s@, i as int, fuel as int, resp@),
        decreases fuel,
    {
        if fuel == 0 {
            return None;
        }
        proof {
            crate::wire::lemma_parse_varint_bounds(s@, i as int, 10);
        }
        match read_varint(s, i) {
            None => {
                return None;
            },
            Some((h, j)) => {
                let field = h / 8;
                let wire = h % 8;
                if field == 1 && wire == 2 {
                    match read_len_bytes(s, j) {
                        Some((b, j2)) => {
                            resp.err = b;
                            i = j2;
                        },
                        None => {
                            return None;
                        },
                    }
                } else if field == 2 && wire == 2 {
                    match read_len_bytes(s, j) {
                        Some((b, j2)) => {
                            match parse_attrs_exec(b.as_slice()) {
                                Some(es) => {
                                    resp.attrs = Some(es);
                                    i = j2;
                                },
                                None => {
                                    return None;
                                },
                            }
                        },
                        None => {
                            return None;
                        },
                    }
                } else if field == 3 && wire == 0 {
                    proof {
                        crate::wire::lemma_parse_varint_bounds(s@, j as int, 10);
                    }
                    match read_varint(s, j) {
                        Some((v, j2)) => {
                            resp.payload = Some(WirePayload::Nil(v != 0));
                            i = j2;
                        },
                        None => {
                            return None;
                        },
                    }
                } else if field == 4 && wire == 0 {
                    proof {
                        crate::wire::lemma_parse_varint_bounds(s@, j as int, 10);
                    }
                    match read_varint(s, j) {
                        Some((v, j2)) => {
                            resp.payload = Some(WirePayload::Int(v as i64));
                            i = j2;
                        },
                        None => {
                            return None;
                        },
                    }
                } else if field == 5 && wire == 2 {
                    match read_len_bytes(s, j) {
                        Some((b, j2)) => {
                            resp.payload = Some(WirePayload::Str(b));
                            i = j2;
                        },
                        None => {
                            return None;
                        },
                    }
                } else if field == 6 && wire == 1 {
                    proof {
                        crate::wire::lemma_parse_le_bounds(s@, j as int, 8);
                    }
                    match read_le(s, j, 8) {
                        Some((v, j2)) => {
                            resp.payload = Some(WirePayload::Float(v));
                            i = j2;
                        },
                        None => {
                            return None;
                        },
                    }
                } else if field == 7 && wire == 2 {
                    match read_len_bytes(s, j) {
                        Some((b, j2)) => {
                            resp.payload = Some(WirePayload::Bytes(b));
                            i = j2;
                        },
                        None => {
                            return None;
                        },
                    }
                } else if field == 8 && wire == 2 {
                    match read_len_bytes(s, j) {
                        Some((b, j2)) => {
                            match parse_map_entry_exec(b.as_slice()) {
                                Some(e) => {
                                    let ghost before = map_entries_view(resp.field_map@);
                                    let ghost ev = (e.0@, e.1@);
                                    resp.field_map.push(e);
                                    proof {
                                        assert(map_entries_view(resp.field_map@) =~= before.push(
                                            ev,
                                        ));
                                    }
                                    i = j2;
                                },
                                None => {
                                    return None;
                                },
                            }
                        },
                        None => {
                            return None;
                        },
                    }
                } else {
                    match skip_field_exec(s, j, wire) {
                        Some(j2) => {
                            i = j2;
                        },
                        None => {
                            return None;
                        },
                    }
                }
                fuel = fuel - 1;
            },
        }
    }
    Some(resp)
}

} // verus!
