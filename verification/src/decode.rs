//! Decoding reply frames into the value types: scalars, watch events, and
//! field-map records.
//!
//! A frame that does not parse, or whose string data is not UTF-8, is a
//! frame fault; a frame whose error text is non-empty is a server-reported
//! failure, surfaced verbatim; otherwise the payload decides the value, an
//! absent payload meaning null.

use vstd::prelude::*;

use crate::codec::parse_response;
use crate::codec::parse_response_exec;
use crate::codec::SpecAttrVal;
use crate::codec::SpecPayload;
use crate::codec::SpecResponse;
use crate::errors::CommandError;
use crate::values::FloatLit;
use crate::values::HSetValue;
use crate::values::ScalarValue;
use crate::values::SpecFloat;
use crate::values::SpecScalar;
use crate::values::WatchValue;
use vstd::string::StringExecFns;
use vstd::utf8::decode_utf8;
use vstd::utf8::encode_utf8;
use vstd::pervasive::VecAdditionalExecFns;
use vstd::slice::slice_index_get;
use vstd::utf8::valid_utf8;

verus! {

/// What `String::from_utf8_lossy` yields for the given bytes: a function of
/// the bytes alone.
pub uninterp spec fn lossy_utf8(bytes: Seq<u8>) -> Seq<char>;

/// Relies on `core::str::from_utf8`: it succeeds exactly on valid UTF-8 and
/// yields its decoding.
#[verifier::external_body]
fn bytes_to_str(b: &[u8]) -> (r: Option<&str>)
    ensures
        (match r {
            Option::Some(s) => valid_utf8(b@) && s@ == decode_utf8(b@),
            Option::None => !valid_utf8(b@),
        }),
{
    core::str::from_utf8(b).ok()
}

/// Relies on `String::from_utf8_lossy`: the result depends on the bytes
/// alone, and valid UTF-8 decodes to itself.
#[verifier::external_body]
fn bytes_to_string_lossy(b: &[u8]) -> (r: String)
    ensures
        r@ == lossy_utf8(b@),
        valid_utf8(b@) ==> r@ == decode_utf8(b@),
{
    String::from_utf8_lossy(b).into_owned()
}

/// The message carried by a frame fault.
pub open spec fn malformed_msg() -> Seq<char> {
    "malformed response frame"@
}

/// A frame fault.
fn malformed_err() -> (r: CommandError)
    ensures
        (r matches CommandError::DecodeError(m) && m@ == malformed_msg()),
{
    CommandError::DecodeError(String::from_str("malformed response frame"))
}

/// The scalar a parsed payload denotes: nil and absent payloads mean null;
/// a string payload must be UTF-8; a byte payload decodes lossily; a double
/// keeps its bits, with an empty rendering since the frame holds none.
pub open spec fn scalar_of_payload(p: Option<SpecPayload>) -> Option<SpecScalar> {
    match p {
        Option::None => Option::Some(SpecScalar::Null),
        Option::Some(SpecPayload::Nil(_)) => Option::Some(SpecScalar::Null),
        Option::Some(SpecPayload::Int(i)) => Option::Some(SpecScalar::Int(i)),
        Option::Some(SpecPayload::Str(b)) => {
            if valid_utf8(b) {
                Option::Some(SpecScalar::Str(decode_utf8(b)))
            } else {
                Option::None
            }
        },
        Option::Some(SpecPayload::Float(bits)) => Option::Some(
            SpecScalar::Float(SpecFloat { bits, text: Seq::empty() }),
        ),
        Option::Some(SpecPayload::Bytes(b)) => Option::Some(SpecScalar::Str(lossy_utf8(b))),
    }
}

/// Maps a parsed payload to its scalar.
fn payload_to_scalar(p: Option<crate::codec::WirePayload>) -> (r: Result<ScalarValue, CommandError>)
    ensures
        (match scalar_of_payload(crate::codec::view_opt_payload(p)) {
            Option::Some(v) => r matches Ok(sv) && sv@ == v,
            Option::None => (r matches Err(e) && e matches CommandError::DecodeError(m) && m@
                == malformed_msg()),
        }),
{
    match p {
        None => Ok(ScalarValue::VNull),
        Some(crate::codec::WirePayload::Nil(_)) => Ok(ScalarValue::VNull),
        Some(crate::codec::WirePayload::Int(i)) => Ok(ScalarValue::VInt(i)),
        Some(crate::codec::WirePayload::Str(b)) => {
            match bytes_to_str(b.as_slice()) {
                Some(s) => Ok(ScalarValue::VStr(String::from_str(s))),
                None => Err(malformed_err()),
            }
        },
        Some(crate::codec::WirePayload::Float(bits)) => Ok(
            ScalarValue::VFloat(FloatLit { bits, text: String::new() }),
        ),
        Some(crate::codec::WirePayload::Bytes(b)) => Ok(
            ScalarValue::VStr(bytes_to_string_lossy(b.as_slice())),
        ),
    }
}

/// How a reply's error text surfaces: a server-reported failure when it is
/// UTF-8, a frame fault when it is not.
pub open spec fn err_outcome(err: Seq<u8>, r: Result<ScalarValue, CommandError>) -> bool {
    if valid_utf8(err) {
        r matches Err(e) && e matches CommandError::ServerError(m) && m@ == decode_utf8(err)
    } else {
        r matches Err(e) && e matches CommandError::DecodeError(m) && m@ == malformed_msg()
    }
}

/// Surfaces a non-empty error text.
fn server_err(err: &Vec<u8>) -> (r: CommandError)
    ensures
        (if valid_utf8(err@) {
            r matches CommandError::ServerError(m) && m@ == decode_utf8(err@)
        } else {
            r matches CommandError::DecodeError(m) && m@ == malformed_msg()
        }),
{
    match bytes_to_str(err.as_slice()) {
        Some(s) => CommandError::ServerError(String::from_str(s)),
        None => malformed_err(),
    }
}

impl ScalarValue {
    /// Decodes a reply frame into a scalar. Exactly: a frame that does not
    /// parse (or whose string data is not UTF-8) is a `DecodeError`; a
    /// non-empty error text is a `ServerError` carried verbatim; otherwise
    /// the payload maps to the scalar, an absent payload yielding null.
    pub fn decode(bytes: &[u8]) -> (r: Result<ScalarValue, CommandError>)
        ensures
            (match parse_response(bytes@) {
                Option::None => (r matches Err(e) && e matches CommandError::DecodeError(m) && m@
                    == malformed_msg()),
                Option::Some(resp) => {
                    if resp.err.len() > 0 {
                        err_outcome(resp.err, r)
                    } else {
                        match scalar_of_payload(resp.payload) {
                            Option::Some(v) => r matches Ok(sv) && sv@ == v,
                            Option::None => (r matches Err(e) && e
                                matches CommandError::DecodeError(m) && m@ == malformed_msg()),
                        }
                    }
                },
            }),
    {
        match parse_response_exec(bytes) {
            None => Err(malformed_err()),
            Some(resp) => {
                if resp.err.len() > 0 {
                    Err(server_err(&resp.err))
                } else {
                    payload_to_scalar(resp.payload)
                }
            },
        }
    }
}

/// The last attribute entry with the given key, if any.
pub open spec fn attr_lookup(es: Seq<(Seq<u8>, SpecAttrVal)>, key: Seq<u8>) -> Option<SpecAttrVal>
    decreases es.len(),
{
    if es.len() == 0 {
        Option::None
    } else if es.last().0 == key {
        Option::Some(es.last().1)
    } else {
        attr_lookup(es.drop_last(), key)
    }
}

/// Compares two byte strings.
fn bytes_eq(a: &[u8], b: &[u8]) -> (r: bool)
    ensures
        r == (a@ == b@),
{
    if a.len() != b.len() {
        proof {
            assert(a@.len() != b@.len());
        }
        return false;
    }
    let n = a.len();
    let mut i: usize = 0;
    while i < n
        invariant
            i <= n,
            n == a@.len(),
            n == b@.len(),
            forall|j: int| 0 <= j < i ==> a@[j] == b@[j],
        decreases n - i,
    {
        if *slice_index_get(a, i) != *slice_index_get(b, i) {
            return false;
        }
        i = i + 1;
    }
    proof {
        assert(a@ =~= b@);
    }
    true
}

/// Looks the fingerprint attribute up, from the back.
fn find_attr<'a>(entries: &'a Vec<(Vec<u8>, crate::codec::AttrVal)>, key: &[u8]) -> (r: Option<
    &'a crate::codec::AttrVal,
>)
    ensures
        (match attr_lookup(crate::codec::attrs_entries_view(entries@), key@) {
            Option::Some(v) => r matches Some(a) && a@ == v,
            Option::None => r matches None,
        }),
{
    let n = entries.len();
    let mut i: usize = n;
    proof {
        assert(crate::codec::attrs_entries_view(entries@).take(n as int)
            =~= crate::codec::attrs_entries_view(entries@));
    }
    while i > 0
        invariant
            i <= n,
            n == entries@.len(),
            attr_lookup(crate::codec::attrs_entries_view(entries@), key@) == attr_lookup(
                crate::codec::attrs_entries_view(entries@).take(i as int),
                key@,
            ),
        decreases i,
    {
        proof {
            let ev = crate::codec::attrs_entries_view(entries@);
            assert(ev.take(i as int).drop_last() =~= ev.take(i - 1));
            assert(ev.take(i as int).last() == ev[i - 1]);
        }
        i = i - 1;
        if bytes_eq(entries[i].0.as_slice(), key) {
            return Some(&entries[i].1);
        }
    }
    proof {
        assert(crate::codec::attrs_entries_view(entries@).take(0) =~= Seq::<
            (Seq<u8>, SpecAttrVal),
        >::empty());
    }
    None
}

/// What decoding a watch reply yields for a successfully parsed frame with
/// an empty error text. The payload is treated exactly as the scalar
/// decoder treats it — an absent payload means the null scalar — and the
/// frame must additionally carry a string fingerprint attribute.
pub open spec fn watch_outcome(resp: SpecResponse, r: Result<WatchValue, CommandError>) -> bool {
    match resp.attrs {
        Option::None => (r matches Err(e) && e matches CommandError::WatchValueExpectationError(m)
            && m@ == "Missing attributes from response"@),
        Option::Some(es) => (match attr_lookup(es, encode_utf8("fingerprint"@)) {
            Option::None => (r matches Err(e) && e
                matches CommandError::WatchValueExpectationError(m) && m@
                == "Missing fingerprint from attributes"@),
            Option::Some(SpecAttrVal::Unset) => (r matches Err(e) && e
                matches CommandError::WatchValueExpectationError(m) && m@
                == "Missing kind from fingerprint attribute"@),
            Option::Some(SpecAttrVal::Str(b)) => {
                if !valid_utf8(b) {
                    r matches Err(e) && e matches CommandError::DecodeError(m) && m@
                        == malformed_msg()
                } else {
                    match scalar_of_payload(resp.payload) {
                        Option::Some(v) => (r matches Ok(w) && w.value@ == v && w.fingerprint@
                            == decode_utf8(b)),
                        Option::None => (r matches Err(e) && e matches CommandError::DecodeError(m)
                            && m@ == malformed_msg()),
                    }
                }
            },
            Option::Some(_) => (r matches Err(e) && e
                matches CommandError::WatchValueExpectationError(m) && m@
                == "Fingerprint is not a string"@),
        }),
    }
}

impl WatchValue {
    /// Decodes a watch reply frame. The value is decoded as
    /// [`ScalarValue::decode`] decodes it — an absent payload yields null —
    /// and the frame must additionally carry a string fingerprint
    /// attribute; its absence, or a non-string kind, is surfaced as a
    /// watch expectation fault naming what was missing.
    pub fn decode_watchvalue(bytes: &[u8]) -> (r: Result<WatchValue, CommandError>)
        ensures
            (match parse_response(bytes@) {
                Option::None => (r matches Err(e) && e matches CommandError::DecodeError(m) && m@
                    == malformed_msg()),
                Option::Some(resp) => {
                    if resp.err.len() > 0 {
                        (match r {
                            Result::Ok(_) => false,
                            Result::Err(e) => err_outcome(
                                resp.err,
                                Result::<ScalarValue, CommandError>::Err(e),
                            ),
                        })
                    } else {
                        watch_outcome(resp, r)
                    }
                },
            }),
    {
        match parse_response_exec(bytes) {
            None => Err(malformed_err()),
            Some(resp) => {
                if resp.err.len() > 0 {
                    Err(server_err(&resp.err))
                } else {
                    match resp.attrs {
                        None => Err(
                            CommandError::WatchValueExpectationError(
                                String::from_str("Missing attributes from response"),
                            ),
                        ),
                        Some(entries) => {
                            let key = "fingerprint";
                            match find_attr(&entries, key.as_bytes()) {
                                None => Err(
                                    CommandError::WatchValueExpectationError(
                                        String::from_str("Missing fingerprint from attributes"),
                                    ),
                                ),
                                Some(crate::codec::AttrVal::Unset) => Err(
                                    CommandError::WatchValueExpectationError(
                                        String::from_str("Missing kind from fingerprint attribute"),
                                    ),
                                ),
                                Some(crate::codec::AttrVal::Str(b)) => {
                                    match bytes_to_str(b.as_slice()) {
                                        None => Err(malformed_err()),
                                        Some(fp) => {
                                            match payload_to_scalar(resp.payload) {
                                                Ok(value) => Ok(
                                                    WatchValue {
                                                        value,
                                                        fingerprint: String::from_str(fp),
                                                    },
                                                ),
                                                Err(e) => Err(e),
                                            }
                                        },
                                    }
                                },
                                Some(_) => Err(
                                    CommandError::WatchValueExpectationError(
                                        String::from_str("Fingerprint is not a string"),
                                    ),
                                ),
                            }
                        },
                    }
                }
            },
        }
    }
}

/// Field-map entries decoded as UTF-8 pairs, in wire order; an entry that
/// is not UTF-8 refuses the record.
pub open spec fn map_chars(es: Seq<(Seq<u8>, Seq<u8>)>) -> Option<Seq<(Seq<char>, Seq<char>)>>
    decreases es.len(),
{
    if es.len() == 0 {
        Option::Some(Seq::empty())
    } else if valid_utf8(es.first().0) && valid_utf8(es.first().1) {
        match map_chars(es.drop_first()) {
            Option::Some(tail) => Option::Some(
                seq![(decode_utf8(es.first().0), decode_utf8(es.first().1))] + tail,
            ),
            Option::None => Option::None,
        }
    } else {
        Option::None
    }
}

/// One field written into a record: a repeated name keeps its first
/// position and takes the new value; a new name is appended.
pub open spec fn upsert_field(
    m: Seq<(Seq<char>, Seq<char>)>,
    k: Seq<char>,
    v: Seq<char>,
) -> Seq<(Seq<char>, Seq<char>)>
    decreases m.len(),
{
    if m.len() == 0 {
        seq![(k, v)]
    } else if m.first().0 == k {
        seq![(k, v)] + m.drop_first()
    } else {
        seq![m.first()] + upsert_field(m.drop_first(), k, v)
    }
}

/// The record a list of wire entries denotes: each entry written in
/// order, so a repeated field name holds its last value and names are
/// unique (see [`lemma_dedup_fields_unique`]).
pub open spec fn dedup_fields(ps: Seq<(Seq<char>, Seq<char>)>) -> Seq<(Seq<char>, Seq<char>)>
    decreases ps.len(),
{
    if ps.len() == 0 {
        Seq::empty()
    } else {
        upsert_field(dedup_fields(ps.drop_last()), ps.last().0, ps.last().1)
    }
}

/// Whether a record holds the given field name.
pub open spec fn has_field(m: Seq<(Seq<char>, Seq<char>)>, k: Seq<char>) -> bool {
    exists|t: int| 0 <= t < m.len() && m[t].0 == k
}

/// Field names in a record are pairwise distinct.
pub open spec fn fields_unique(m: Seq<(Seq<char>, Seq<char>)>) -> bool {
    forall|a: int, b: int| 0 <= a < b < m.len() ==> m[a].0 != m[b].0
}

/// Writing a field adds exactly its name to the record's names.
proof fn lemma_upsert_names(m: Seq<(Seq<char>, Seq<char>)>, k: Seq<char>, v: Seq<char>, x: Seq<char>)
    ensures
        has_field(upsert_field(m, k, v), x) <==> (has_field(m, x) || x == k),
    decreases m.len(),
{
    let u = upsert_field(m, k, v);
    if m.len() == 0 {
        assert(u[0].0 == k);
        if has_field(u, x) {
            let t = choose|t: int| 0 <= t < u.len() && u[t].0 == x;
            assert(t == 0);
        }
    } else if m.first().0 == k {
        if has_field(u, x) {
            let t = choose|t: int| 0 <= t < u.len() && u[t].0 == x;
            if t > 0 {
                assert(u[t] == m[t]);
            }
        }
        if has_field(m, x) {
            let t = choose|t: int| 0 <= t < m.len() && m[t].0 == x;
            if t == 0 {
                assert(u[0].0 == x);
            } else {
                assert(u[t].0 == x);
            }
        }
        if x == k {
            assert(u[0].0 == x);
        }
    } else {
        lemma_upsert_names(m.drop_first(), k, v, x);
        let rest = upsert_field(m.drop_first(), k, v);
        assert(u == seq![m.first()] + rest);
        if has_field(u, x) {
            let t = choose|t: int| 0 <= t < u.len() && u[t].0 == x;
            if t == 0 {
                assert(m[0].0 == x);
            } else {
                assert(rest[t - 1].0 == x);
                assert(has_field(rest, x));
                if has_field(m.drop_first(), x) {
                    let s = choose|s: int| 0 <= s < m.drop_first().len() && m.drop_first()[s].0
                        == x;
                    assert(m[s + 1].0 == x);
                }
            }
        }
        if has_field(m, x) {
            let t = choose|t: int| 0 <= t < m.len() && m[t].0 == x;
            if t == 0 {
                assert(u[0].0 == x);
            } else {
                assert(m.drop_first()[t - 1].0 == x);
                assert(has_field(rest, x));
                let s = choose|s: int| 0 <= s < rest.len() && rest[s].0 == x;
                assert(u[s + 1].0 == x);
            }
        }
        if x == k {
            assert(has_field(rest, x));
            let s = choose|s: int| 0 <= s < rest.len() && rest[s].0 == x;
            assert(u[s + 1].0 == x);
        }
    }
}

/// Writing a field into a record with distinct names keeps them distinct.
proof fn lemma_upsert_unique(m: Seq<(Seq<char>, Seq<char>)>, k: Seq<char>, v: Seq<char>)
    requires
        fields_unique(m),
    ensures
        fields_unique(upsert_field(m, k, v)),
    decreases m.len(),
{
    let u = upsert_field(m, k, v);
    if m.len() == 0 {
    } else if m.first().0 == k {
        assert forall|a: int, b: int| 0 <= a < b < u.len() implies u[a].0 != u[b].0 by {
            assert(u[b] == m[b]);
            if a > 0 {
                assert(u[a] == m[a]);
            } else {
                assert(u[0].0 == m[0].0);
            }
        }
    } else {
        assert forall|a: int, b: int|
            0 <= a < b < m.drop_first().len() implies m.drop_first()[a].0 != m.drop_first()[b].0 by {
            assert(m.drop_first()[a] == m[a + 1]);
            assert(m.drop_first()[b] == m[b + 1]);
        }
        lemma_upsert_unique(m.drop_first(), k, v);
        lemma_upsert_names(m.drop_first(), k, v, m.first().0);
        let rest = upsert_field(m.drop_first(), k, v);
        assert(!has_field(m.drop_first(), m.first().0)) by {
            if has_field(m.drop_first(), m.first().0) {
                let t = choose|t: int|
                    0 <= t < m.drop_first().len() && m.drop_first()[t].0 == m.first().0;
                assert(m[t + 1].0 == m[0].0);
            }
        };
        assert(!has_field(rest, m.first().0));
        assert forall|a: int, b: int| 0 <= a < b < u.len() implies u[a].0 != u[b].0 by {
            assert(u[b] == rest[b - 1]);
            if a == 0 {
                assert(u[0] == m.first());
                assert(rest[b - 1].0 != m.first().0);
            } else {
                assert(u[a] == rest[a - 1]);
            }
        }
    }
}

/// A decoded record's field names are unique.
///
/// Law: the field map holds one entry per name. Whatever the wire
/// repeated, the record a reply denotes maps each field name to a single
/// value, its last one.
pub proof fn lemma_dedup_fields_unique(ps: Seq<(Seq<char>, Seq<char>)>)
    ensures
        fields_unique(dedup_fields(ps)),
    decreases ps.len(),
{
    if ps.len() > 0 {
        lemma_dedup_fields_unique(ps.drop_last());
        lemma_upsert_unique(dedup_fields(ps.drop_last()), ps.last().0, ps.last().1);
    }
}

/// Writes one decoded field into a record under construction.
fn record_field(fields: &mut Vec<(String, String)>, k: String, v: String)
    ensures
        crate::commands::pairs_view(final(fields)@) == upsert_field(
            crate::commands::pairs_view(old(fields)@),
            k@,
            v@,
        ),
{
    let ghost m0 = crate::commands::pairs_view(fields@);
    let n = fields.len();
    let mut j: usize = 0;
    proof {
        assert(m0.skip(0) =~= m0);
        assert(m0.take(0) =~= Seq::<(Seq<char>, Seq<char>)>::empty());
    }
    while j < n
        invariant
            j <= n,
            n == fields@.len(),
            fields@ == old(fields)@,
            m0 == crate::commands::pairs_view(fields@),
            upsert_field(m0, k@, v@) == m0.take(j as int) + upsert_field(
                m0.skip(j as int),
                k@,
                v@,
            ),
        decreases n - j,
    {
        proof {
            assert(m0.skip(j as int).first() == m0[j as int]);
            assert(m0[j as int] == (fields@[j as int].0@, fields@[j as int].1@));
            assert(m0.skip(j as int).drop_first() =~= m0.skip(j + 1));
        }
        let hit = fields[j].0 == k;
        if hit {
            proof {
                assert(upsert_field(m0.skip(j as int), k@, v@) == seq![(k@, v@)] + m0.skip(j + 1));
            }
            fields.set(j, (k, v));
            proof {
                assert(crate::commands::pairs_view(fields@) =~= m0.take(j as int) + (seq![
                    (k@, v@),
                ] + m0.skip(j + 1)));
            }
            return;
        }
        proof {
            assert(m0.take(j as int) + (seq![m0[j as int]] + upsert_field(m0.skip(j + 1), k@, v@))
                =~= m0.take(j + 1) + upsert_field(m0.skip(j + 1), k@, v@));
        }
        j = j + 1;
    }
    proof {
        assert(m0.skip(n as int) =~= Seq::<(Seq<char>, Seq<char>)>::empty());
        assert(m0.take(n as int) =~= m0);
    }
    fields.push((k, v));
    proof {
        assert(crate::commands::pairs_view(fields@) =~= m0 + seq![(k@, v@)]);
    }
}

/// Under unique field names, a lookup result is the value at any entry
/// bearing the name, and a missing result means the name is absent.
proof fn lemma_lookup_unique(m: Seq<(Seq<char>, Seq<char>)>, x: Seq<char>)
    requires
        fields_unique(m),
    ensures
        (match crate::values::field_lookup(m, x) {
            Option::Some(v) => has_field(m, x) && (forall|t: int|
                0 <= t < m.len() && (#[trigger] m[t]).0 == x ==> m[t].1 == v),
            Option::None => !has_field(m, x),
        }),
    decreases m.len(),
{
    if m.len() > 0 {
        let dl = m.drop_last();
        assert(forall|t: int| 0 <= t < dl.len() ==> #[trigger] dl[t] == m[t]);
        lemma_lookup_unique(dl, x);
        if m.last().0 == x {
            assert(has_field(m, x)) by {
                assert(m[m.len() - 1].0 == x);
            };
            assert forall|t: int| 0 <= t < m.len() && (#[trigger] m[t]).0 == x implies m[t].1
                == m.last().1 by {
                if t < m.len() - 1 {
                    assert(m[t].0 != m[m.len() - 1].0);
                }
            }
        } else {
            if has_field(m, x) {
                let t = choose|t: int| 0 <= t < m.len() && m[t].0 == x;
                assert(t < m.len() - 1);
                assert(dl[t].0 == x);
                assert(has_field(dl, x));
            }
            if has_field(dl, x) {
                let t = choose|t: int| 0 <= t < dl.len() && dl[t].0 == x;
                assert(m[t].0 == x);
                assert(has_field(m, x));
            }
        }
    }
}

/// Under unique field names, every entry of the written record that bears
/// the written name holds the written value.
proof fn lemma_upsert_value(m: Seq<(Seq<char>, Seq<char>)>, k: Seq<char>, v: Seq<char>)
    requires
        fields_unique(m),
    ensures
        forall|t: int|
            0 <= t < upsert_field(m, k, v).len() && (#[trigger] upsert_field(m, k, v)[t]).0 == k
                ==> upsert_field(m, k, v)[t] == (k, v),
    decreases m.len(),
{
    let u = upsert_field(m, k, v);
    if m.len() == 0 {
    } else if m.first().0 == k {
        assert forall|t: int| 0 <= t < u.len() && (#[trigger] u[t]).0 == k implies u[t] == (
        k,
        v,
        ) by {
            if t > 0 {
                assert(u[t] == m[t]);
                assert(m[0].0 != m[t].0);
            }
        }
    } else {
        let dl = m.drop_first();
        assert(forall|a: int, b: int|
            0 <= a < b < dl.len() ==> (#[trigger] dl[a]).0 != (#[trigger] dl[b]).0) by {
            assert(forall|t: int| 0 <= t < dl.len() ==> #[trigger] dl[t] == m[t + 1]);
        };
        lemma_upsert_value(dl, k, v);
        let rest = upsert_field(dl, k, v);
        assert forall|t: int| 0 <= t < u.len() && (#[trigger] u[t]).0 == k implies u[t] == (
        k,
        v,
        ) by {
            if t > 0 {
                assert(u[t] == rest[t - 1]);
            } else {
                assert(u[0] == m.first());
            }
        }
    }
}

/// An entry whose name is not the written one survives the write.
proof fn lemma_upsert_keeps(m: Seq<(Seq<char>, Seq<char>)>, k: Seq<char>, v: Seq<char>, t: int)
    requires
        0 <= t < m.len(),
        m[t].0 != k,
    ensures
        has_field(upsert_field(m, k, v), m[t].0),
        (exists|s: int|
            0 <= s < upsert_field(m, k, v).len() && #[trigger] upsert_field(m, k, v)[s] == m[t]),
    decreases m.len(),
{
    let u = upsert_field(m, k, v);
    if m.first().0 == k {
        assert(t > 0);
        assert(u[t] == m[t]);
    } else {
        if t == 0 {
            assert(u[0] == m[0]);
        } else {
            let dl = m.drop_first();
            assert(dl[t - 1] == m[t]);
            lemma_upsert_keeps(dl, k, v, t - 1);
            let rest = upsert_field(dl, k, v);
            let s = choose|s: int| 0 <= s < rest.len() && rest[s] == dl[t - 1];
            assert(u[s + 1] == m[t]);
        }
    }
}

/// Under unique field names, a write changes exactly the written name's
/// lookup and leaves every other name's alone.
proof fn lemma_upsert_lookup(m: Seq<(Seq<char>, Seq<char>)>, k: Seq<char>, v: Seq<char>, x: Seq<
    char,
>)
    requires
        fields_unique(m),
    ensures
        crate::values::field_lookup(upsert_field(m, k, v), x) == (if x == k {
            Option::Some(v)
        } else {
            crate::values::field_lookup(m, x)
        }),
{
    let u = upsert_field(m, k, v);
    lemma_upsert_unique(m, k, v);
    lemma_lookup_unique(u, x);
    lemma_lookup_unique(m, x);
    lemma_upsert_names(m, k, v, x);
    if x == k {
        assert(has_field(u, k));
        match crate::values::field_lookup(u, k) {
            Option::Some(w) => {
                lemma_upsert_value(m, k, v);
                let t = choose|t: int| 0 <= t < u.len() && u[t].0 == k;
                assert(u[t].1 == w);
                assert(u[t] == (k, v));
            },
            Option::None => {},
        }
    } else {
        match crate::values::field_lookup(m, x) {
            Option::None => {
                assert(!has_field(u, x));
            },
            Option::Some(val) => {
                let t = choose|t: int| 0 <= t < m.len() && m[t].0 == x;
                assert(m[t].1 == val);
                lemma_upsert_keeps(m, k, v, t);
                match crate::values::field_lookup(u, x) {
                    Option::Some(w) => {
                        let s = choose|s: int| 0 <= s < u.len() && u[s] == m[t];
                        assert(u[s].1 == w);
                    },
                    Option::None => {
                        assert(has_field(u, x));
                    },
                }
            },
        }
    }
}

/// A decoded record answers every field name with the last value the wire
/// gave for it.
///
/// Law: the field map keeps last-value-wins semantics. For every list of
/// wire entries and every name, the lookup on the deduplicated record
/// equals the last-entry-wins lookup on the raw entry list.
pub proof fn lemma_record_last_value(ps: Seq<(Seq<char>, Seq<char>)>, x: Seq<char>)
    ensures
        crate::values::field_lookup(dedup_fields(ps), x) == crate::values::field_lookup(ps, x),
    decreases ps.len(),
{
    if ps.len() > 0 {
        let dl = ps.drop_last();
        lemma_record_last_value(dl, x);
        lemma_dedup_fields_unique(dl);
        lemma_upsert_lookup(dedup_fields(dl), ps.last().0, ps.last().1, x);
    }
}

impl HSetValue {
    /// Decodes a field-map reply frame. Exactly: a frame fault or server
    /// error as for scalars; otherwise the field-map entries, decoded as
    /// UTF-8 pairs and written in wire order into a record with unique
    /// field names, a repeated name holding its last value — a frame with
    /// no entries decodes to the empty record, never an error.
    pub fn decode(bytes: &[u8]) -> (r: Result<HSetValue, CommandError>)
        ensures
            (match parse_response(bytes@) {
                Option::None => (r matches Err(e) && e matches CommandError::DecodeError(m) && m@
                    == malformed_msg()),
                Option::Some(resp) => {
                    if resp.err.len() > 0 {
                        (match r {
                            Result::Ok(_) => false,
                            Result::Err(e) => err_outcome(
                                resp.err,
                                Result::<ScalarValue, CommandError>::Err(e),
                            ),
                        })
                    } else {
                        match map_chars(resp.field_map) {
                            Option::Some(fs) => r matches Ok(h) && h.fields_view() == dedup_fields(
                                fs,
                            ),
                            Option::None => (r matches Err(e) && e
                                matches CommandError::DecodeError(m) && m@ == malformed_msg()),
                        }
                    }
                },
            }),
    {
        match parse_response_exec(bytes) {
            None => Err(malformed_err()),
            Some(resp) => {
                if resp.err.len() > 0 {
                    Err(server_err(&resp.err))
                } else {
                    let entries = resp.field_map;
                    let ghost ev = crate::codec::map_entries_view(entries@);
                    let mut fields: Vec<(String, String)> = Vec::new();
                    let n = entries.len();
                    let mut i: usize = 0;
                    let ghost mut done: Seq<(Seq<char>, Seq<char>)> = Seq::empty();
                    proof {
                        assert(ev.skip(0) =~= ev);
                        assert(crate::commands::pairs_view(fields@) =~= dedup_fields(done));
                    }
                    while i < n
                        invariant
                            i <= n,
                            n == entries@.len(),
                            ev == crate::codec::map_entries_view(entries@),
                            parse_response(bytes@) matches Option::Some(mm) && mm.err.len() == 0
                                && mm.field_map == ev,
                            map_chars(ev) is None ==> map_chars(ev.skip(i as int)) is None,
                            map_chars(ev) matches Option::Some(fs) ==> (map_chars(ev.skip(i as int))
                                matches Option::Some(t) && fs == done + t),
                            crate::commands::pairs_view(fields@) == dedup_fields(done),
                        decreases n - i,
                    {
                        proof {
                            assert(ev.skip(i as int).first() == ev[i as int]);
                            assert(ev[i as int] == (entries@[i as int].0@, entries@[i as int].1@));
                            assert(ev.skip(i as int).drop_first() =~= ev.skip(i + 1));
                        }
                        let k = match bytes_to_str(entries[i].0.as_slice()) {
                            Some(s) => String::from_str(s),
                            None => {
                                proof {
                                    assert(!valid_utf8(ev.skip(i as int).first().0));
                                    assert(map_chars(ev.skip(i as int)) is None);
                                }
                                return Err(malformed_err());
                            },
                        };
                        let v = match bytes_to_str(entries[i].1.as_slice()) {
                            Some(s) => String::from_str(s),
                            None => {
                                proof {
                                    assert(!valid_utf8(ev.skip(i as int).first().1));
                                    assert(map_chars(ev.skip(i as int)) is None);
                                }
                                return Err(malformed_err());
                            },
                        };
                        let ghost pair = (decode_utf8(ev[i as int].0), decode_utf8(ev[i as int].1));
                        record_field(&mut fields, k, v);
                        proof {
                            let stepped = done.push(pair);
                            assert(stepped.drop_last() =~= done);
                            assert(stepped.last() == pair);
                            assert(crate::commands::pairs_view(fields@) == dedup_fields(stepped));
                            if map_chars(ev) is Some {
                                let fs = map_chars(ev)->Some_0;
                                let t = map_chars(ev.skip(i as int))->Some_0;
                                let t2 = map_chars(ev.skip(i + 1))->Some_0;
                                assert(t == seq![pair] + t2);
                                assert(fs =~= stepped + t2);
                            }
                            done = stepped;
                        }
                        i = i + 1;
                    }
                    proof {
                        assert(ev.skip(n as int) =~= Seq::<(Seq<u8>, Seq<u8>)>::empty());
                        if map_chars(ev) is None {
                            assert(map_chars(ev.skip(n as int)) is None);
                        }
                    }
                    let h = HSetValue { fields };
                    proof {
                        if map_chars(ev) is Some {
                            let fs = map_chars(ev)->Some_0;
                            let t = map_chars(ev.skip(n as int))->Some_0;
                            assert(fs =~= done);
                            assert(h.fields_view() =~= crate::commands::pairs_view(h.fields@));
                            assert(h.fields_view() == dedup_fields(fs));
                        }
                    }
                    Ok(h)
                }
            },
        }
    }
}

} // verus!
