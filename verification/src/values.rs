//! The value model: the tagged scalar result type, the input type for SET,
//! the field-map result type, the watch event, and the conversions between
//! them.
//!
//! A double is carried as its raw IEEE-754 bit pattern ([`FloatLit`]): the
//! verified core has no native floating point, so the bits are the value and
//! the decimal rendering is data supplied by whoever built the literal.

use vstd::prelude::*;

use crate::numtext::dec_int;
use crate::numtext::i64_text;
use vstd::string::StringExecFns;

verus! {

/// An IEEE-754 double, as its raw bit pattern plus the decimal rendering
/// chosen by the producer of the value.
///
/// The rendering is what the wire encoder emits when the value stands as a
/// command argument. A value parsed from the wire carries only the bit
/// pattern and an empty rendering, since the frame holds nothing else.
#[derive(Debug, Clone, PartialEq, PartialOrd)]
pub struct FloatLit {
    /// The raw bit pattern of the double.
    pub bits: u64,
    /// The decimal rendering used when the value becomes a wire argument.
    pub text: String,
}

/// The view of a [`FloatLit`]: bit pattern and rendering.
pub struct SpecFloat {
    pub bits: u64,
    pub text: Seq<char>,
}

impl View for FloatLit {
    type V = SpecFloat;

    open spec fn view(&self) -> SpecFloat {
        SpecFloat { bits: self.bits, text: self.text@ }
    }
}

impl FloatLit {
    /// Builds a float literal from a bit pattern and its rendering.
    pub fn new(bits: u64, text: String) -> (r: FloatLit)
        ensures
            r@.bits == bits,
            r@.text == text@,
    {
        FloatLit { bits, text }
    }
}

/// A value received from the server.
#[derive(Debug, Clone, PartialEq, PartialOrd)]
pub enum ScalarValue {
    /// A string value.
    VStr(String),
    /// An integer value.
    VInt(i64),
    /// A floating point value, carried as bits (see [`FloatLit`]).
    VFloat(FloatLit),
    /// A boolean value.
    VBool(bool),
    /// A null value: the absence of a value, never a failure.
    VNull,
}

/// The view of a [`ScalarValue`].
pub enum SpecScalar {
    Str(Seq<char>),
    Int(i64),
    Float(SpecFloat),
    Bool(bool),
    Null,
}

impl View for ScalarValue {
    type V = SpecScalar;

    open spec fn view(&self) -> SpecScalar {
        match self {
            ScalarValue::VStr(s) => SpecScalar::Str(s@),
            ScalarValue::VInt(i) => SpecScalar::Int(*i),
            ScalarValue::VFloat(f) => SpecScalar::Float(f@),
            ScalarValue::VBool(b) => SpecScalar::Bool(*b),
            ScalarValue::VNull => SpecScalar::Null,
        }
    }
}

/// Valid values that can be used with the SET operation.
#[derive(Debug, Clone, PartialEq)]
pub enum SetInput {
    /// A string value.
    Str(String),
    /// An integer value.
    Int(i64),
    /// A floating point value, carried as bits (see [`FloatLit`]).
    Float(FloatLit),
}

/// The view of a [`SetInput`].
pub enum SpecSetInput {
    Str(Seq<char>),
    Int(i64),
    Float(SpecFloat),
}

impl View for SetInput {
    type V = SpecSetInput;

    open spec fn view(&self) -> SpecSetInput {
        match self {
            SetInput::Str(s) => SpecSetInput::Str(s@),
            SetInput::Int(i) => SpecSetInput::Int(*i),
            SetInput::Float(f) => SpecSetInput::Float(f@),
        }
    }
}

/// The scalar that a SET input denotes.
pub open spec fn scalar_of_input(v: SpecSetInput) -> SpecScalar {
    match v {
        SpecSetInput::Str(s) => SpecScalar::Str(s),
        SpecSetInput::Int(i) => SpecScalar::Int(i),
        SpecSetInput::Float(f) => SpecScalar::Float(f),
    }
}

impl From<SetInput> for ScalarValue {
    /// Every input converts losslessly into the scalar it denotes.
    fn from(v: SetInput) -> (r: ScalarValue) {
        match v {
            SetInput::Str(s) => ScalarValue::VStr(s),
            SetInput::Int(i) => ScalarValue::VInt(i),
            SetInput::Float(f) => ScalarValue::VFloat(f),
        }
    }
}

impl vstd::std_specs::convert::FromSpecImpl<SetInput> for ScalarValue {
    open spec fn obeys_from_spec() -> bool {
        true
    }

    open spec fn from_spec(v: SetInput) -> ScalarValue {
        match v {
            SetInput::Str(s) => ScalarValue::VStr(s),
            SetInput::Int(i) => ScalarValue::VInt(i),
            SetInput::Float(f) => ScalarValue::VFloat(f),
        }
    }
}

impl ScalarValue {
    /// Converts a server result back into a SET input. Boolean and Null are
    /// server-only result shapes with nothing to SET, so they are rejected.
    pub fn try_into_set_input(self) -> (r: Result<SetInput, String>)
        ensures
            (match self@ {
                SpecScalar::Str(s) => r matches Ok(v) && v@ == SpecSetInput::Str(s),
                SpecScalar::Int(i) => r matches Ok(v) && v@ == SpecSetInput::Int(i),
                SpecScalar::Float(f) => r matches Ok(v) && v@ == SpecSetInput::Float(f),
                SpecScalar::Bool(_) => r matches Err(m) && m@ == "Cannot convert Value::VBool to SetValue"@,
                SpecScalar::Null => r matches Err(m) && m@ == "Cannot convert Value::VNull to SetValue"@,
            }),
    {
        match self {
            ScalarValue::VStr(s) => Ok(SetInput::Str(s)),
            ScalarValue::VInt(i) => Ok(SetInput::Int(i)),
            ScalarValue::VFloat(f) => Ok(SetInput::Float(f)),
            ScalarValue::VBool(_) => Err(String::from_str("Cannot convert Value::VBool to SetValue")),
            ScalarValue::VNull => Err(String::from_str("Cannot convert Value::VNull to SetValue")),
        }
    }
}

impl TryFrom<ScalarValue> for SetInput {
    type Error = String;

    /// As [`ScalarValue::try_into_set_input`], through the standard
    /// conversion trait.
    fn try_from(v: ScalarValue) -> (r: Result<SetInput, String>) {
        v.try_into_set_input()
    }
}

impl vstd::std_specs::convert::TryFromSpecImpl<ScalarValue> for SetInput {
    /// No specification-level equality is claimed: the error strings are
    /// `String` values, which specifications cannot pin down; the exact
    /// contract lives on [`ScalarValue::try_into_set_input`].
    open spec fn obeys_try_from_spec() -> bool {
        false
    }

    open spec fn try_from_spec(v: ScalarValue) -> Result<SetInput, String> {
        match v {
            ScalarValue::VStr(s) => Result::Ok(SetInput::Str(s)),
            ScalarValue::VInt(i) => Result::Ok(SetInput::Int(i)),
            ScalarValue::VFloat(f) => Result::Ok(SetInput::Float(f)),
            ScalarValue::VBool(_) => Result::Err(choose|s: String| s@ == s@),
            ScalarValue::VNull => Result::Err(choose|s: String| s@ == s@),
        }
    }
}

/// The rendering of a boolean, as on the wire and in display text.
pub open spec fn bool_text(b: bool) -> Seq<char> {
    if b {
        "true"@
    } else {
        "false"@
    }
}

/// The argument token a scalar contributes when it stands in a command's
/// argument list: strings stand as themselves, integers in decimal, floats
/// by their carried rendering, booleans as `true`/`false`, null as the
/// empty token.
pub open spec fn arg_of_scalar(v: SpecScalar) -> Seq<char> {
    match v {
        SpecScalar::Str(s) => s,
        SpecScalar::Int(i) => dec_int(i as int),
        SpecScalar::Float(f) => f.text,
        SpecScalar::Bool(b) => bool_text(b),
        SpecScalar::Null => Seq::empty(),
    }
}

impl ScalarValue {
    /// The wire-argument rendering of this value.
    pub fn as_arg(&self) -> (r: String)
        ensures
            r@ == arg_of_scalar(self@),
    {
        match self {
            ScalarValue::VStr(s) => s.clone(),
            ScalarValue::VInt(i) => i64_text(*i),
            ScalarValue::VFloat(f) => f.text.clone(),
            ScalarValue::VBool(b) => {
                if *b {
                    String::from_str("true")
                } else {
                    String::from_str("false")
                }
            },
            ScalarValue::VNull => String::new(),
        }
    }

    /// The display rendering: as [`Self::as_arg`], except that null renders
    /// as the literal token `null`.
    pub fn to_text(&self) -> (r: String)
        ensures
            (match self@ {
                SpecScalar::Null => r@ == "null"@,
                v => r@ == arg_of_scalar(v),
            }),
    {
        match self {
            ScalarValue::VNull => String::from_str("null"),
            other => other.as_arg(),
        }
    }
}

impl SetInput {
    /// The wire-argument rendering of this input.
    pub fn as_arg(&self) -> (r: String)
        ensures
            r@ == arg_of_scalar(scalar_of_input(self@)),
    {
        match self {
            SetInput::Str(s) => s.clone(),
            SetInput::Int(i) => i64_text(*i),
            SetInput::Float(f) => f.text.clone(),
        }
    }
}

/// A value that originates from a watch session: a scalar together with the
/// fingerprint naming the watched subject.
#[derive(Debug, Clone, PartialEq)]
pub struct WatchValue {
    /// The scalar carried by the watch event.
    pub value: ScalarValue,
    /// The fingerprint identifying the watched subject.
    pub fingerprint: String,
}

impl WatchValue {
    /// The scalar carried by this event, discarding the fingerprint.
    pub fn into_scalar(self) -> (r: ScalarValue)
        ensures
            r@ == self.value@,
    {
        self.value
    }
}

/// The association of field names to values in a field-map record.
pub open spec fn field_lookup(fields: Seq<(Seq<char>, Seq<char>)>, name: Seq<char>) -> Option<
    Seq<char>,
>
    decreases fields.len(),
{
    if fields.len() == 0 {
        Option::None
    } else if fields.last().0 == name {
        Option::Some(fields.last().1)
    } else {
        field_lookup(fields.drop_last(), name)
    }
}

/// A multi-field record snapshot, as returned by HGETALL: field names,
/// unique once decoded, each with its string value. The wire decoder
/// writes entries in order, so a name the wire repeated keeps its first
/// position and holds its last value.
#[derive(Debug, Clone, PartialEq)]
pub struct HSetValue {
    /// The fields of the record, in wire order.
    pub fields: Vec<(String, String)>,
}

impl HSetValue {
    /// The view of the field list.
    pub open spec fn fields_view(&self) -> Seq<(Seq<char>, Seq<char>)> {
        self.fields@.map_values(|p: (String, String)| (p.0@, p.1@))
    }

    /// The number of field entries.
    pub fn len(&self) -> (n: usize)
        ensures
            n == self.fields_view().len(),
    {
        self.fields.len()
    }

    /// Looks a field up by name; the last entry with that name wins.
    pub fn get(&self, name: &str) -> (r: Option<&String>)
        ensures
            (match field_lookup(self.fields_view(), name@) {
                Option::Some(v) => r matches Some(s) && s@ == v,
                Option::None => r matches None,
            }),
    {
        let wanted = String::from_str(name);
        let n = self.fields.len();
        let mut i: usize = n;
        proof {
            assert(self.fields_view().take(n as int) =~= self.fields_view());
        }
        while i > 0
            invariant
                i <= n,
                n == self.fields@.len(),
                wanted@ == name@,
                field_lookup(self.fields_view(), name@) == field_lookup(
                    self.fields_view().take(i as int),
                    name@,
                ),
            decreases i,
        {
            proof {
                assert(self.fields_view().take(i as int).drop_last() =~= self.fields_view().take(
                    i - 1,
                ));
                assert(self.fields_view().take(i as int).last() == self.fields_view()[i - 1]);
            }
            i = i - 1;
            let keys_equal = self.fields[i].0 == wanted;
            if keys_equal {
                return Some(&self.fields[i].1);
            }
        }
        proof {
            assert(self.fields_view().take(0) =~= Seq::<(Seq<char>, Seq<char>)>::empty());
        }
        None
    }
}

impl From<i64> for SetInput {
    /// Widens to the 64-bit integer shape: the bits carry over exactly.
    fn from(v: i64) -> (r: SetInput) {
        SetInput::Int(v as i64)
    }
}

impl vstd::std_specs::convert::FromSpecImpl<i64> for SetInput {
    open spec fn obeys_from_spec() -> bool {
        true
    }

    open spec fn from_spec(v: i64) -> SetInput {
        SetInput::Int(v as i64)
    }
}

impl From<i32> for SetInput {
    /// Widens to the 64-bit integer shape: the bits carry over exactly.
    fn from(v: i32) -> (r: SetInput) {
        SetInput::Int(v as i64)
    }
}

impl vstd::std_specs::convert::FromSpecImpl<i32> for SetInput {
    open spec fn obeys_from_spec() -> bool {
        true
    }

    open spec fn from_spec(v: i32) -> SetInput {
        SetInput::Int(v as i64)
    }
}

impl From<i16> for SetInput {
    /// Widens to the 64-bit integer shape: the bits carry over exactly.
    fn from(v: i16) -> (r: SetInput) {
        SetInput::Int(v as i64)
    }
}

impl vstd::std_specs::convert::FromSpecImpl<i16> for SetInput {
    open spec fn obeys_from_spec() -> bool {
        true
    }

    open spec fn from_spec(v: i16) -> SetInput {
        SetInput::Int(v as i64)
    }
}

impl From<i8> for SetInput {
    /// Widens to the 64-bit integer shape: the bits carry over exactly.
    fn from(v: i8) -> (r: SetInput) {
        SetInput::Int(v as i64)
    }
}

impl vstd::std_specs::convert::FromSpecImpl<i8> for SetInput {
    open spec fn obeys_from_spec() -> bool {
        true
    }

    open spec fn from_spec(v: i8) -> SetInput {
        SetInput::Int(v as i64)
    }
}

impl From<u64> for SetInput {
    /// Widens to the 64-bit integer shape: the bits carry over exactly.
    fn from(v: u64) -> (r: SetInput) {
        SetInput::Int(v as i64)
    }
}

impl vstd::std_specs::convert::FromSpecImpl<u64> for SetInput {
    open spec fn obeys_from_spec() -> bool {
        true
    }

    open spec fn from_spec(v: u64) -> SetInput {
        SetInput::Int(v as i64)
    }
}

impl From<u32> for SetInput {
    /// Widens to the 64-bit integer shape: the bits carry over exactly.
    fn from(v: u32) -> (r: SetInput) {
        SetInput::Int(v as i64)
    }
}

impl vstd::std_specs::convert::FromSpecImpl<u32> for SetInput {
    open spec fn obeys_from_spec() -> bool {
        true
    }

    open spec fn from_spec(v: u32) -> SetInput {
        SetInput::Int(v as i64)
    }
}

impl From<u16> for SetInput {
    /// Widens to the 64-bit integer shape: the bits carry over exactly.
    fn from(v: u16) -> (r: SetInput) {
        SetInput::Int(v as i64)
    }
}

impl vstd::std_specs::convert::FromSpecImpl<u16> for SetInput {
    open spec fn obeys_from_spec() -> bool {
        true
    }

    open spec fn from_spec(v: u16) -> SetInput {
        SetInput::Int(v as i64)
    }
}

impl From<u8> for SetInput {
    /// Widens to the 64-bit integer shape: the bits carry over exactly.
    fn from(v: u8) -> (r: SetInput) {
        SetInput::Int(v as i64)
    }
}

impl vstd::std_specs::convert::FromSpecImpl<u8> for SetInput {
    open spec fn obeys_from_spec() -> bool {
        true
    }

    open spec fn from_spec(v: u8) -> SetInput {
        SetInput::Int(v as i64)
    }
}

impl From<i64> for ScalarValue {
    /// Widens to the 64-bit integer shape: the bits carry over exactly.
    fn from(v: i64) -> (r: ScalarValue) {
        ScalarValue::VInt(v as i64)
    }
}

impl vstd::std_specs::convert::FromSpecImpl<i64> for ScalarValue {
    open spec fn obeys_from_spec() -> bool {
        true
    }

    open spec fn from_spec(v: i64) -> ScalarValue {
        ScalarValue::VInt(v as i64)
    }
}

impl From<i32> for ScalarValue {
    /// Widens to the 64-bit integer shape: the bits carry over exactly.
    fn from(v: i32) -> (r: ScalarValue) {
        ScalarValue::VInt(v as i64)
    }
}

impl vstd::std_specs::convert::FromSpecImpl<i32> for ScalarValue {
    open spec fn obeys_from_spec() -> bool {
        true
    }

    open spec fn from_spec(v: i32) -> ScalarValue {
        ScalarValue::VInt(v as i64)
    }
}

impl From<i16> for ScalarValue {
    /// Widens to the 64-bit integer shape: the bits carry over exactly.
    fn from(v: i16) -> (r: ScalarValue) {
        ScalarValue::VInt(v as i64)
    }
}

impl vstd::std_specs::convert::FromSpecImpl<i16> for ScalarValue {
    open spec fn obeys_from_spec() -> bool {
        true
    }

    open spec fn from_spec(v: i16) -> ScalarValue {
        ScalarValue::VInt(v as i64)
    }
}

impl From<i8> for ScalarValue {
    /// Widens to the 64-bit integer shape: the bits carry over exactly.
    fn from(v: i8) -> (r: ScalarValue) {
        ScalarValue::VInt(v as i64)
    }
}

impl vstd::std_specs::convert::FromSpecImpl<i8> for ScalarValue {
    open spec fn obeys_from_spec() -> bool {
        true
    }

    open spec fn from_spec(v: i8) -> ScalarValue {
        ScalarValue::VInt(v as i64)
    }
}

impl From<u64> for ScalarValue {
    /// Widens to the 64-bit integer shape: the bits carry over exactly.
    fn from(v: u64) -> (r: ScalarValue) {
        ScalarValue::VInt(v as i64)
    }
}

impl vstd::std_specs::convert::FromSpecImpl<u64> for ScalarValue {
    open spec fn obeys_from_spec() -> bool {
        true
    }

    open spec fn from_spec(v: u64) -> ScalarValue {
        ScalarValue::VInt(v as i64)
    }
}

impl From<u32> for ScalarValue {
    /// Widens to the 64-bit integer shape: the bits carry over exactly.
    fn from(v: u32) -> (r: ScalarValue) {
        ScalarValue::VInt(v as i64)
    }
}

impl vstd::std_specs::convert::FromSpecImpl<u32> for ScalarValue {
    open spec fn obeys_from_spec() -> bool {
        true
    }

    open spec fn from_spec(v: u32) -> ScalarValue {
        ScalarValue::VInt(v as i64)
    }
}

impl From<u16> for ScalarValue {
    /// Widens to the 64-bit integer shape: the bits carry over exactly.
    fn from(v: u16) -> (r: ScalarValue) {
        ScalarValue::VInt(v as i64)
    }
}

impl vstd::std_specs::convert::FromSpecImpl<u16> for ScalarValue {
    open spec fn obeys_from_spec() -> bool {
        true
    }

    open spec fn from_spec(v: u16) -> ScalarValue {
        ScalarValue::VInt(v as i64)
    }
}

impl From<u8> for ScalarValue {
    /// Widens to the 64-bit integer shape: the bits carry over exactly.
    fn from(v: u8) -> (r: ScalarValue) {
        ScalarValue::VInt(v as i64)
    }
}

impl vstd::std_specs::convert::FromSpecImpl<u8> for ScalarValue {
    open spec fn obeys_from_spec() -> bool {
        true
    }

    open spec fn from_spec(v: u8) -> ScalarValue {
        ScalarValue::VInt(v as i64)
    }
}

impl From<&str> for SetInput {
    /// Owns the characters as a string value. No specification-level
    /// equality is claimed: a `String` value is not pinned down by its
    /// characters alone, so callers that need the view reasoned about
    /// construct the variant directly.
    fn from(v: &str) -> (r: SetInput) {
        SetInput::Str(String::from_str(v))
    }
}

impl vstd::std_specs::convert::FromSpecImpl<&str> for SetInput {
    open spec fn obeys_from_spec() -> bool {
        false
    }

    open spec fn from_spec(v: &str) -> SetInput {
        SetInput::Str(choose|s: String| s@ == v@)
    }
}

impl From<&str> for ScalarValue {
    /// Owns the characters as a string value. No specification-level
    /// equality is claimed: a `String` value is not pinned down by its
    /// characters alone, so callers that need the view reasoned about
    /// construct the variant directly.
    fn from(v: &str) -> (r: ScalarValue) {
        ScalarValue::VStr(String::from_str(v))
    }
}

impl vstd::std_specs::convert::FromSpecImpl<&str> for ScalarValue {
    open spec fn obeys_from_spec() -> bool {
        false
    }

    open spec fn from_spec(v: &str) -> ScalarValue {
        ScalarValue::VStr(choose|s: String| s@ == v@)
    }
}

/// Every fixed-width integer widens into the 64-bit integer shape and
/// narrows back to exactly the original value; for the types narrower than
/// 64 bits the numeric value itself is preserved by the widening.
///
/// Law: numeric widening round trip, for the conversions into the integer
/// variant of [`SetInput`] and [`ScalarValue`].
pub proof fn lemma_numeric_widening_round_trip(
    a: i8,
    b: i16,
    c: i32,
    d: u8,
    e: u16,
    f: u32,
    g: u64,
    h: i64,
)
    ensures
        (a as i64) as i8 == a && a as i64 == a as int,
        (b as i64) as i16 == b && b as i64 == b as int,
        (c as i64) as i32 == c && c as i64 == c as int,
        (d as i64) as u8 == d && d as i64 == d as int,
        (e as i64) as u16 == e && e as i64 == e as int,
        (f as i64) as u32 == f && f as i64 == f as int,
        (g as i64) as u64 == g,
        h as i64 == h,
{
    assert((g as i64) as u64 == g) by (bit_vector);
}

} // verus!
