//! A model of JSON documents as the library reads and writes them.
//!
//! Text is parsed and rendered at the edges of the system; the library works
//! on the document trees below.  A number read from text keeps what the
//! replication logic reads of it: its integer or floating form and its value
//! rounded to `f32` (as an `f32` bit pattern).
use vstd::prelude::*;
use crate::text::str_eq;

verus! {

/// How a parsed JSON number is held.
#[derive(Debug, Clone, Copy, PartialEq, Eq, Structural)]
pub enum NumberRepr {
    /// A non-negative integer.
    PosInt(u64),
    /// A negative integer.
    NegInt(i64),
    /// A floating-point number, as an `f64` bit pattern.
    Float(u64),
}

/// A parsed JSON number: its representation, and its value as an `f64` and
/// rounded to `f32` (as bit patterns).
#[derive(Debug, Clone, Copy, PartialEq, Eq, Structural)]
pub struct JsonNumber {
    pub repr: NumberRepr,
    pub as_f64_bits: u64,
    pub as_f32_bits: u32,
}

/// A parsed JSON document. Object members keep their order and keys are unique.
#[derive(Debug)]
pub enum JsonValue {
    Null,
    Bool(bool),
    Number(JsonNumber),
    String(String),
    Array(Vec<JsonValue>),
    Object(Vec<(String, JsonValue)>),
}

/// A JSON document to be rendered as text.
#[derive(Debug)]
pub enum JsonOut {
    Null,
    Bool(bool),
    /// A non-negative integer.
    UInt(u64),
    /// A signed integer.
    Int(i64),
    /// An `f32` value given by its bit pattern (non-finite values render as `null`).
    Single(u32),
    /// An `f64` value given by its bit pattern (non-finite values render as `null`).
    Double(u64),
    String(String),
    Array(Vec<JsonOut>),
    Object(Vec<(String, JsonOut)>),
    /// JSON text to be embedded as it parses; `label` names its origin in error messages.
    Embedded { label: String, text: String },
}

/// The value of the first member named `key`, if any.
pub open spec fn field(fields: Seq<(String, JsonValue)>, key: Seq<char>) -> Option<JsonValue>
    decreases fields.len(),
{
    if fields.len() == 0 {
        None
    } else if fields[0].0@ == key {
        Some(fields[0].1)
    } else {
        field(fields.drop_first(), key)
    }
}

/// The value of the member named `key` of an object, if any.
pub fn get_field<'a>(fields: &'a Vec<(String, JsonValue)>, key: &str) -> (r: Option<&'a JsonValue>)
    ensures
        match r {
            Some(v) => field(fields@, key@) == Some(*v),
            None => field(fields@, key@) is None,
        },
{
    let n = fields.len();
    let mut i: usize = 0;
    assert(fields@.skip(0) =~= fields@);
    while i < n
        invariant
            n == fields@.len(),
            i <= n,
            field(fields@, key@) == field(fields@.skip(i as int), key@),
        decreases n - i,
    {
        let ghost rest = fields@.skip(i as int);
        if str_eq(fields[i].0.as_str(), key) {
            assert(rest[0] == fields@[i as int]);
            return Some(&fields[i].1);
        }
        assert(rest.drop_first() =~= fields@.skip(i + 1));
        i = i + 1;
    }
    assert(fields@.skip(n as int) =~= Seq::<(String, JsonValue)>::empty());
    None
}

/// Removes the first member named `key` of an object and returns its value.
pub fn take_field(fields: &mut Vec<(String, JsonValue)>, key: &str) -> (r: Option<JsonValue>)
    ensures
        r == field(old(fields)@, key@),
{
    let n = fields.len();
    let mut i: usize = 0;
    assert(fields@.skip(0) =~= fields@);
    while i < n
        invariant
            n == fields@.len(),
            *fields == *old(fields),
            i <= n,
            field(fields@, key@) == field(fields@.skip(i as int), key@),
        decreases n - i,
    {
        let ghost rest = fields@.skip(i as int);
        if str_eq(fields[i].0.as_str(), key) {
            assert(rest[0] == fields@[i as int]);
            let (_, v) = fields.remove(i);
            return Some(v);
        }
        assert(rest.drop_first() =~= fields@.skip(i + 1));
        i = i + 1;
    }
    assert(fields@.skip(n as int) =~= Seq::<(String, JsonValue)>::empty());
    None
}

/// Whether an object has a member named `key`.
pub fn has_field(fields: &Vec<(String, JsonValue)>, key: &str) -> (r: bool)
    ensures
        r == field(fields@, key@) is Some,
{
    get_field(fields, key).is_some()
}

impl JsonNumber {
    /// The number as a `u64`, when it is a non-negative integer.
    pub open spec fn spec_as_u64(self) -> Option<u64> {
        match self.repr {
            NumberRepr::PosInt(u) => Some(u),
            _ => None,
        }
    }

    /// The number as an `i64`, when it is an integer in `i64` range.
    pub open spec fn spec_as_i64(self) -> Option<i64> {
        match self.repr {
            NumberRepr::PosInt(u) => if u <= i64::MAX as u64 { Some(u as i64) } else { None },
            NumberRepr::NegInt(i) => Some(i),
            NumberRepr::Float(_) => None,
        }
    }

    pub fn as_u64(&self) -> (r: Option<u64>)
        ensures
            r == self.spec_as_u64(),
    {
        match self.repr {
            NumberRepr::PosInt(u) => Some(u),
            _ => None,
        }
    }

    pub fn as_i64(&self) -> (r: Option<i64>)
        ensures
            r == self.spec_as_i64(),
    {
        match self.repr {
            NumberRepr::PosInt(u) => if u <= i64::MAX as u64 { Some(u as i64) } else { None },
            NumberRepr::NegInt(i) => Some(i),
            NumberRepr::Float(_) => None,
        }
    }
}

/// The value of the first member named `key` of a document to be rendered, if any.
pub open spec fn out_field(fields: Seq<(String, JsonOut)>, key: Seq<char>) -> Option<JsonOut>
    decreases fields.len(),
{
    if fields.len() == 0 {
        None
    } else if fields[0].0@ == key {
        Some(fields[0].1)
    } else {
        out_field(fields.drop_first(), key)
    }
}

/// The members of an object are looked up by position when keys are distinct.
pub proof fn lemma_out_field_at(fields: Seq<(String, JsonOut)>, j: int)
    requires
        0 <= j < fields.len(),
        forall|a: int, b: int| 0 <= a < b < fields.len() ==> fields[a].0@ != fields[b].0@,
    ensures
        out_field(fields, fields[j].0@) == Some(fields[j].1),
    decreases fields.len(),
{
    if j > 0 {
        let rest = fields.drop_first();
        assert(rest[j - 1] == fields[j]);
        assert forall|a: int, b: int| 0 <= a < b < rest.len() implies rest[a].0@ != rest[b].0@ by {
            assert(rest[a] == fields[a + 1]);
            assert(rest[b] == fields[b + 1]);
        }
        lemma_out_field_at(rest, j - 1);
    }
}

/// A key held by no member is not found.
pub proof fn lemma_out_field_absent(fields: Seq<(String, JsonOut)>, key: Seq<char>)
    requires
        forall|a: int| 0 <= a < fields.len() ==> fields[a].0@ != key,
    ensures
        out_field(fields, key) is None,
    decreases fields.len(),
{
    if fields.len() > 0 {
        let rest = fields.drop_first();
        assert forall|a: int| 0 <= a < rest.len() implies rest[a].0@ != key by {
            assert(rest[a] == fields[a + 1]);
        }
        lemma_out_field_absent(rest, key);
    }
}

/// Whether the `f32` with bit pattern `b` is finite.
pub open spec fn f32_bits_finite(b: u32) -> bool {
    (b & 0x7F80_0000u32) != 0x7F80_0000u32
}

/// Whether the `f64` with bit pattern `b` is finite.
pub open spec fn f64_bits_finite(b: u64) -> bool {
    (b & 0x7FF0_0000_0000_0000u64) != 0x7FF0_0000_0000_0000u64
}

/// Rendering `o` as JSON text and parsing that text yields `i` (objects nested at most `depth` deep).
///
/// Integers keep their value and sign; finite floats are written so that they
/// read back exactly (an `f32` read back as an `f64` within `f32` range whose
/// rounding to `f32` is the original); non-finite floats are written as `null`;
/// strings keep their content; objects keep their members, looked up by key;
/// embedded text reads as whatever it parses to.
pub open spec fn transports(o: JsonOut, i: JsonValue, depth: nat) -> bool
    decreases depth,
{
    match (o, i) {
        (JsonOut::Null, JsonValue::Null) => true,
        (JsonOut::Bool(a), JsonValue::Bool(b)) => a == b,
        (JsonOut::UInt(u), JsonValue::Number(n)) => n.repr == NumberRepr::PosInt(u),
        (JsonOut::Int(x), JsonValue::Number(n)) =>
            if x >= 0 { n.repr == NumberRepr::PosInt(x as u64) } else { n.repr == NumberRepr::NegInt(x) },
        (JsonOut::Single(b), JsonValue::Number(n)) => f32_bits_finite(b) && n.as_f32_bits == b
            && (n.repr matches NumberRepr::Float(w) && (w & 0x7FFF_FFFF_FFFF_FFFFu64) <= 0x47EF_FFFF_E000_0000u64),
        (JsonOut::Single(b), JsonValue::Null) => !f32_bits_finite(b),
        (JsonOut::Double(b), JsonValue::Number(n)) => f64_bits_finite(b) && n.repr == NumberRepr::Float(b) && n.as_f64_bits == b,
        (JsonOut::Double(b), JsonValue::Null) => !f64_bits_finite(b),
        (JsonOut::String(s), JsonValue::String(t)) => s@ == t@,
        (JsonOut::Object(ofs), JsonValue::Object(ifs)) => depth > 0
            && (forall|k: Seq<char>| (#[trigger] field(ifs@, k)) is Some <==> out_field(ofs@, k) is Some)
            && (forall|k: Seq<char>| #[trigger] out_field(ofs@, k) is Some ==>
                transports(out_field(ofs@, k)->0, field(ifs@, k)->0, (depth - 1) as nat)),
        (JsonOut::Embedded { .. }, _) => true,
        _ => false,
    }
}

} // verus!
