//! The server's JSON form of property values: a tagged document
//! `{"type": <type name>, "value": <payload>}`.
use vstd::prelude::*;
use crate::json::{JsonValue, JsonNumber, NumberRepr, JsonOut, field, get_field, f32_bits_finite, f64_bits_finite};
use crate::shared::types::{Vector3, Rotator, Quat, Transform, Color};
use crate::shared::property::PropertyValue;
use crate::text::{owned, str_eq, decimal, format_u64};
use crate::text_parse::{spec_parse_u64, parse_u64, parse_error_message, parse_error_text};
use crate::client::serialization::{plain_object, distinct_keys, keys_distinct, lemma_keys3, lemma_keys4, lemma_plain_keys,
    lemma_member_transported, lemma_differ, differ};
use crate::json::transports;
use crate::shared::property::same_value;
use crate::text_parse::law_parse_decimal;

verus! {

/// The type name under which a value is tagged.
pub open spec fn tag_name(v: PropertyValue) -> Seq<char> {
    match v {
        PropertyValue::Bool(_) => "Bool"@,
        PropertyValue::Byte(_) => "Byte"@,
        PropertyValue::Int32(_) => "Int32"@,
        PropertyValue::Int64(_) => "Int64"@,
        PropertyValue::UInt32(_) => "UInt32"@,
        PropertyValue::UInt64(_) => "UInt64"@,
        PropertyValue::Float(_) => "Float"@,
        PropertyValue::Double(_) => "Double"@,
        PropertyValue::String(_) => "String"@,
        PropertyValue::Vector(_) => "Vector"@,
        PropertyValue::Rotator(_) => "Rotator"@,
        PropertyValue::Quat(_) => "Quat"@,
        PropertyValue::Transform(_) => "Transform"@,
        PropertyValue::Color(_) => "Color"@,
        PropertyValue::ObjectReference(_) => "ObjectReference"@,
        PropertyValue::ClassReference(_) => "ClassReference"@,
        PropertyValue::ArrayJson(_) => "Array"@,
        PropertyValue::MapJson(_) => "Map"@,
        PropertyValue::SetJson(_) => "Set"@,
        PropertyValue::Name(_) => "Name"@,
        PropertyValue::Text(_) => "Text"@,
        PropertyValue::CustomJson(_) => "Custom"@,
        PropertyValue::Null => "None"@,
    }
}

/// An `f32` as a JSON number, or 0 when it is not finite.
pub open spec fn single_or_zero(b: u32) -> JsonOut {
    if f32_bits_finite(b) { JsonOut::Single(b) } else { JsonOut::UInt(0) }
}

/// An `f64` as a JSON number, or 0 when it is not finite.
pub open spec fn double_or_zero(b: u64) -> JsonOut {
    if f64_bits_finite(b) { JsonOut::Double(b) } else { JsonOut::UInt(0) }
}

pub open spec fn xyz_payload(o: JsonOut, v: Vector3) -> bool {
    plain_object(o, seq!["x"@, "y"@, "z"@], seq![JsonOut::Single(v.x), JsonOut::Single(v.y), JsonOut::Single(v.z)])
}

pub open spec fn xyzw_payload(o: JsonOut, q: Quat) -> bool {
    plain_object(o, seq!["x"@, "y"@, "z"@, "w"@],
        seq![JsonOut::Single(q.x), JsonOut::Single(q.y), JsonOut::Single(q.z), JsonOut::Single(q.w)])
}

/// The payload written for a value.
pub open spec fn payload_of(v: PropertyValue, o: JsonOut) -> bool {
    match v {
        PropertyValue::Bool(b) => o == JsonOut::Bool(b),
        PropertyValue::Byte(b) => o == JsonOut::UInt(b as u64),
        PropertyValue::Int32(i) => o == JsonOut::Int(i as i64),
        PropertyValue::Int64(i) => o == JsonOut::Int(i),
        PropertyValue::UInt32(u) => o == JsonOut::UInt(u as u64),
        PropertyValue::UInt64(u) => o matches JsonOut::String(s) && s@ == decimal(u as nat),
        PropertyValue::Float(f) => o == single_or_zero(f),
        PropertyValue::Double(d) => o == double_or_zero(d),
        PropertyValue::String(s) => o matches JsonOut::String(t) && t@ == s@,
        PropertyValue::Vector(p) => xyz_payload(o, p),
        PropertyValue::Rotator(r) => plain_object(o, seq!["pitch"@, "yaw"@, "roll"@],
            seq![JsonOut::Single(r.pitch), JsonOut::Single(r.yaw), JsonOut::Single(r.roll)]),
        PropertyValue::Quat(q) => xyzw_payload(o, q),
        PropertyValue::Transform(t) => match o {
            JsonOut::Object(fs) => {
                &&& fs@.len() == 3
                &&& fs@[0].0@ == "position"@ && xyz_payload(fs@[0].1, t.location)
                &&& fs@[1].0@ == "rotation"@ && xyzw_payload(fs@[1].1, t.rotation)
                &&& fs@[2].0@ == "scale"@ && xyz_payload(fs@[2].1, t.scale)
            },
            _ => false,
        },
        PropertyValue::Color(c) => plain_object(o, seq!["r"@, "g"@, "b"@, "a"@],
            seq![JsonOut::UInt(c.r as u64), JsonOut::UInt(c.g as u64), JsonOut::UInt(c.b as u64), JsonOut::UInt(c.a as u64)]),
        PropertyValue::ObjectReference(id) => o == JsonOut::UInt(id),
        PropertyValue::ClassReference(s) => o matches JsonOut::String(t) && t@ == s@,
        PropertyValue::ArrayJson(s) => o matches JsonOut::Embedded { label, text } && label@ == "array"@ && text@ == s@,
        PropertyValue::MapJson(s) => o matches JsonOut::Embedded { label, text } && label@ == "map"@ && text@ == s@,
        PropertyValue::SetJson(s) => o matches JsonOut::Embedded { label, text } && label@ == "set"@ && text@ == s@,
        PropertyValue::Name(s) => o matches JsonOut::String(t) && t@ == s@,
        PropertyValue::Text(s) => o matches JsonOut::String(t) && t@ == s@,
        PropertyValue::CustomJson(s) => o matches JsonOut::Embedded { label, text } && label@ == "custom"@ && text@ == s@,
        PropertyValue::Null => o == JsonOut::Null,
    }
}

/// The tagged document written for a value.
pub open spec fn tagged_document(v: PropertyValue, o: JsonOut) -> bool {
    match o {
        JsonOut::Object(fs) => {
            &&& fs@.len() == 2
            &&& fs@[0].0@ == "type"@ && (fs@[0].1 matches JsonOut::String(t) && t@ == tag_name(v))
            &&& fs@[1].0@ == "value"@ && payload_of(v, fs@[1].1)
        },
        _ => false,
    }
}

/// Whole numbers below 64 bits are written as the JSON numbers they are: a
/// `Byte` or `UInt32` value as a non-negative integer, an `Int32` or `Int64`
/// value as an integer, each equal to the value, under the value's type name.
pub proof fn law_whole_number_payloads(v: PropertyValue, o: JsonOut)
    requires
        tagged_document(v, o),
    ensures
        ({
            let p = o->Object_0@[1].1;
            &&& v matches PropertyValue::Byte(b) ==> (p matches JsonOut::UInt(x) && x as int == b as int)
            &&& v matches PropertyValue::UInt32(u) ==> (p matches JsonOut::UInt(x) && x as int == u as int)
            &&& v matches PropertyValue::Int32(i) ==> (p matches JsonOut::Int(x) && x as int == i as int)
            &&& v matches PropertyValue::Int64(i) ==> (p matches JsonOut::Int(x) && x as int == i as int)
        }),
{
}

fn members_out(keys: &[&str], vals: Vec<JsonOut>) -> (o: JsonOut)
    requires
        keys@.len() == vals@.len(),
    ensures
        plain_object(o, keys@.map_values(|k: &str| k@), vals@),
{
    let mut fs: Vec<(String, JsonOut)> = Vec::new();
    let mut rest = vals;
    let ghost all = rest@;
    let n = keys.len();
    let mut i: usize = 0;
    while i < n
        invariant
            n == keys@.len(),
            n == all.len(),
            i <= n,
            rest@ == all.skip(i as int),
            fs@.len() == i,
            forall|j: int| 0 <= j < i ==> (#[trigger] fs@[j]).0@ == keys@[j]@ && fs@[j].1 == all[j],
        decreases n - i,
    {
        let v = rest.remove(0);
        assert(v == all[i as int]);
        assert(rest@ =~= all.skip(i + 1));
        fs.push((owned(keys[i]), v));
        i = i + 1;
    }
    JsonOut::Object(fs)
}

fn vector_payload(v: Vector3) -> (o: JsonOut)
    ensures
        xyz_payload(o, v),
{
    let o = members_out(&["x", "y", "z"], vec![JsonOut::Single(v.x), JsonOut::Single(v.y), JsonOut::Single(v.z)]);
    assert(seq!["x", "y", "z"].map_values(|k: &str| k@) =~= seq!["x"@, "y"@, "z"@]);
    o
}

fn quat_payload(q: Quat) -> (o: JsonOut)
    ensures
        xyzw_payload(o, q),
{
    let o = members_out(&["x", "y", "z", "w"], vec![JsonOut::Single(q.x), JsonOut::Single(q.y), JsonOut::Single(q.z), JsonOut::Single(q.w)]);
    assert(seq!["x", "y", "z", "w"].map_values(|k: &str| k@) =~= seq!["x"@, "y"@, "z"@, "w"@]);
    o
}

fn finite_single(b: u32) -> (o: JsonOut)
    ensures
        o == single_or_zero(b),
{
    if b & 0x7F80_0000u32 != 0x7F80_0000u32 { JsonOut::Single(b) } else { JsonOut::UInt(0) }
}

fn finite_double(b: u64) -> (o: JsonOut)
    ensures
        o == double_or_zero(b),
{
    if b & 0x7FF0_0000_0000_0000u64 != 0x7FF0_0000_0000_0000u64 { JsonOut::Double(b) } else { JsonOut::UInt(0) }
}

fn embedded(label: &str, text: &String) -> (o: JsonOut)
    ensures
        o matches JsonOut::Embedded { label: l, text: t } && l@ == label@ && t@ == text@,
{
    JsonOut::Embedded { label: owned(label), text: text.clone() }
}

/// The type name and payload of a value.
fn tag_and_payload(value: &PropertyValue) -> (r: (&'static str, JsonOut))
    ensures
        r.0@ == tag_name(*value),
        payload_of(*value, r.1),
{
    match value {
        PropertyValue::Bool(b) => ("Bool", JsonOut::Bool(*b)),
        PropertyValue::Byte(b) => ("Byte", JsonOut::UInt(*b as u64)),
        PropertyValue::Int32(i) => ("Int32", JsonOut::Int(*i as i64)),
        PropertyValue::Int64(i) => ("Int64", JsonOut::Int(*i)),
        PropertyValue::UInt32(u) => ("UInt32", JsonOut::UInt(*u as u64)),
        PropertyValue::UInt64(u) => ("UInt64", JsonOut::String(format_u64(*u))),
        PropertyValue::Float(f) => ("Float", finite_single(*f)),
        PropertyValue::Double(d) => ("Double", finite_double(*d)),
        PropertyValue::String(s) => ("String", JsonOut::String(s.clone())),
        PropertyValue::Vector(v) => ("Vector", vector_payload(*v)),
        PropertyValue::Rotator(r) => {
            let o = members_out(&["pitch", "yaw", "roll"], vec![JsonOut::Single(r.pitch), JsonOut::Single(r.yaw), JsonOut::Single(r.roll)]);
            assert(seq!["pitch", "yaw", "roll"].map_values(|k: &str| k@) =~= seq!["pitch"@, "yaw"@, "roll"@]);
            ("Rotator", o)
        },
        PropertyValue::Quat(q) => ("Quat", quat_payload(*q)),
        PropertyValue::Transform(t) => {
            let mut fs: Vec<(String, JsonOut)> = Vec::new();
            fs.push((owned("position"), vector_payload(t.location)));
            fs.push((owned("rotation"), quat_payload(t.rotation)));
            fs.push((owned("scale"), vector_payload(t.scale)));
            ("Transform", JsonOut::Object(fs))
        },
        PropertyValue::Color(c) => {
            let o = members_out(&["r", "g", "b", "a"],
                vec![JsonOut::UInt(c.r as u64), JsonOut::UInt(c.g as u64), JsonOut::UInt(c.b as u64), JsonOut::UInt(c.a as u64)]);
            assert(seq!["r", "g", "b", "a"].map_values(|k: &str| k@) =~= seq!["r"@, "g"@, "b"@, "a"@]);
            ("Color", o)
        },
        PropertyValue::ObjectReference(id) => ("ObjectReference", JsonOut::UInt(*id)),
        PropertyValue::ClassReference(s) => ("ClassReference", JsonOut::String(s.clone())),
        PropertyValue::ArrayJson(s) => ("Array", embedded("array", s)),
        PropertyValue::MapJson(s) => ("Map", embedded("map", s)),
        PropertyValue::SetJson(s) => ("Set", embedded("set", s)),
        PropertyValue::Name(s) => ("Name", JsonOut::String(s.clone())),
        PropertyValue::Text(s) => ("Text", JsonOut::String(s.clone())),
        PropertyValue::CustomJson(s) => ("Custom", embedded("custom", s)),
        PropertyValue::Null => ("None", JsonOut::Null),
    }
}

/// Serialize a property value to its tagged JSON document. Container values
/// embed their JSON text, which must parse when the document is written.
pub fn serialize_property_value(value: &PropertyValue) -> (r: Result<JsonOut, String>)
    ensures
        r matches Ok(o) && tagged_document(*value, o),
{
    let (tag, payload) = tag_and_payload(value);
    let mut fs: Vec<(String, JsonOut)> = Vec::new();
    fs.push((owned("type"), JsonOut::String(owned(tag))));
    fs.push((owned("value"), payload));
    Ok(JsonOut::Object(fs))
}

/// A number's value as a `u64`, when it is a non-negative integer.
pub open spec fn u64_of(v: JsonValue) -> Option<u64> {
    match v {
        JsonValue::Number(n) => n.spec_as_u64(),
        _ => None,
    }
}

/// A number's value as an `i64`, when it is an integer in range.
pub open spec fn i64_of(v: JsonValue) -> Option<i64> {
    match v {
        JsonValue::Number(n) => n.spec_as_i64(),
        _ => None,
    }
}

/// A number's value rounded to `f32`.
pub open spec fn f32_of(v: JsonValue) -> Option<u32> {
    match v {
        JsonValue::Number(n) => Some(n.as_f32_bits),
        _ => None,
    }
}

/// A number's value as an `f64`.
pub open spec fn f64_of(v: JsonValue) -> Option<u64> {
    match v {
        JsonValue::Number(n) => Some(n.as_f64_bits),
        _ => None,
    }
}

/// The string a document holds.
pub open spec fn string_of(v: JsonValue) -> Option<String> {
    match v {
        JsonValue::String(s) => Some(s),
        _ => None,
    }
}

/// The members of an object.
pub open spec fn object_of(v: Option<JsonValue>) -> Option<Seq<(String, JsonValue)>> {
    match v {
        Some(JsonValue::Object(fs)) => Some(fs@),
        _ => None,
    }
}

/// Member `k` rounded to `f32`, when it is a number.
pub open spec fn member_f32(fs: Seq<(String, JsonValue)>, k: Seq<char>) -> Option<u32> {
    match field(fs, k) {
        Some(v) => f32_of(v),
        None => None,
    }
}

/// Member `k` as a byte (taken modulo 256), when it is a non-negative integer.
pub open spec fn member_u8(fs: Seq<(String, JsonValue)>, k: Seq<char>) -> Option<u8> {
    match field(fs, k) {
        Some(v) => match u64_of(v) {
            Some(u) => Some(u as u8),
            None => None,
        },
        None => None,
    }
}

/// A vector read from members `x`, `y`, `z`, or the error naming the first missing one.
pub open spec fn read_xyz(fs: Seq<(String, JsonValue)>, prefix: Seq<char>, suffix: Seq<char>) -> Result<Vector3, Seq<char>> {
    match member_f32(fs, "x"@) {
        None => Err(prefix + "x"@ + suffix),
        Some(x) => match member_f32(fs, "y"@) {
            None => Err(prefix + "y"@ + suffix),
            Some(y) => match member_f32(fs, "z"@) {
                None => Err(prefix + "z"@ + suffix),
                Some(z) => Ok(Vector3 { x, y, z }),
            },
        },
    }
}

/// A quaternion read from members `x`, `y`, `z`, `w`, or the error naming the first missing one.
pub open spec fn read_xyzw(fs: Seq<(String, JsonValue)>, prefix: Seq<char>, suffix: Seq<char>) -> Result<Quat, Seq<char>> {
    match member_f32(fs, "x"@) {
        None => Err(prefix + "x"@ + suffix),
        Some(x) => match member_f32(fs, "y"@) {
            None => Err(prefix + "y"@ + suffix),
            Some(y) => match member_f32(fs, "z"@) {
                None => Err(prefix + "z"@ + suffix),
                Some(z) => match member_f32(fs, "w"@) {
                    None => Err(prefix + "w"@ + suffix),
                    Some(w) => Ok(Quat { x, y, z, w }),
                },
            },
        },
    }
}

/// The value a payload denotes under type name `t`; `text` is the payload's
/// canonical JSON text, which container values keep.
pub open spec fn decode_tagged(t: Seq<char>, v: JsonValue, text: String) -> Result<PropertyValue, Seq<char>> {
    if t == "Bool"@ {
        match v { JsonValue::Bool(b) => Ok(PropertyValue::Bool(b)), _ => Err("Expected boolean value"@) }
    } else if t == "Byte"@ {
        match u64_of(v) { Some(u) => Ok(PropertyValue::Byte(u as u8)), None => Err("Expected numeric value"@) }
    } else if t == "Int32"@ {
        match i64_of(v) { Some(i) => Ok(PropertyValue::Int32(i as i32)), None => Err("Expected numeric value"@) }
    } else if t == "Int64"@ {
        match i64_of(v) { Some(i) => Ok(PropertyValue::Int64(i)), None => Err("Expected numeric value"@) }
    } else if t == "UInt32"@ {
        match u64_of(v) { Some(u) => Ok(PropertyValue::UInt32(u as u32)), None => Err("Expected numeric value"@) }
    } else if t == "UInt64"@ {
        match u64_of(v) {
            Some(u) => Ok(PropertyValue::UInt64(u)),
            None => match string_of(v) {
                Some(s) => match spec_parse_u64(s@) {
                    Ok(u) => Ok(PropertyValue::UInt64(u)),
                    Err(e) => Err("Failed to parse u64: "@ + parse_error_message(e)),
                },
                None => Err("Expected numeric or string value for UInt64"@),
            },
        }
    } else if t == "Float"@ {
        match f32_of(v) { Some(f) => Ok(PropertyValue::Float(f)), None => Err("Expected floating point value"@) }
    } else if t == "Double"@ {
        match f64_of(v) { Some(d) => Ok(PropertyValue::Double(d)), None => Err("Expected floating point value"@) }
    } else if t == "String"@ {
        match string_of(v) { Some(s) => Ok(PropertyValue::String(s)), None => Err("Expected string value"@) }
    } else if t == "Vector"@ {
        match object_of(Some(v)) {
            None => Err("Expected object for Vector"@),
            Some(fs) => match read_xyz(fs, "Missing "@, " component"@) {
                Ok(p) => Ok(PropertyValue::Vector(p)),
                Err(e) => Err(e),
            },
        }
    } else if t == "Rotator"@ {
        match object_of(Some(v)) {
            None => Err("Expected object for Rotator"@),
            Some(fs) => match member_f32(fs, "pitch"@) {
                None => Err("Missing pitch component"@),
                Some(pitch) => match member_f32(fs, "yaw"@) {
                    None => Err("Missing yaw component"@),
                    Some(yaw) => match member_f32(fs, "roll"@) {
                        None => Err("Missing roll component"@),
                        Some(roll) => Ok(PropertyValue::Rotator(Rotator { pitch, yaw, roll })),
                    },
                },
            },
        }
    } else if t == "Quat"@ {
        match object_of(Some(v)) {
            None => Err("Expected object for Quat"@),
            Some(fs) => match read_xyzw(fs, "Missing "@, " component"@) {
                Ok(q) => Ok(PropertyValue::Quat(q)),
                Err(e) => Err(e),
            },
        }
    } else if t == "Transform"@ {
        match object_of(Some(v)) {
            None => Err("Expected object for Transform"@),
            Some(fs) => match object_of(field(fs, "position"@)) {
                None => Err("Missing position"@),
                Some(pos) => match object_of(field(fs, "rotation"@)) {
                    None => Err("Missing rotation"@),
                    Some(rot) => match object_of(field(fs, "scale"@)) {
                        None => Err("Missing scale"@),
                        Some(sc) => match read_xyz(pos, "Missing position."@, ""@) {
                            Err(e) => Err(e),
                            Ok(location) => match read_xyzw(rot, "Missing rotation."@, ""@) {
                                Err(e) => Err(e),
                                Ok(rotation) => match read_xyz(sc, "Missing scale."@, ""@) {
                                    Err(e) => Err(e),
                                    Ok(scale) => Ok(PropertyValue::Transform(Transform { location, rotation, scale })),
                                },
                            },
                        },
                    },
                },
            },
        }
    } else if t == "Color"@ {
        match object_of(Some(v)) {
            None => Err("Expected object for Color"@),
            Some(fs) => match member_u8(fs, "r"@) {
                None => Err("Missing r component"@),
                Some(r) => match member_u8(fs, "g"@) {
                    None => Err("Missing g component"@),
                    Some(g) => match member_u8(fs, "b"@) {
                        None => Err("Missing b component"@),
                        Some(b) => match member_u8(fs, "a"@) {
                            None => Err("Missing a component"@),
                            Some(a) => Ok(PropertyValue::Color(Color { r, g, b, a })),
                        },
                    },
                },
            },
        }
    } else if t == "ObjectReference"@ {
        match u64_of(v) { Some(u) => Ok(PropertyValue::ObjectReference(u)), None => Err("Expected numeric value for ObjectReference"@) }
    } else if t == "ClassReference"@ {
        match string_of(v) { Some(s) => Ok(PropertyValue::ClassReference(s)), None => Err("Expected string value for ClassReference"@) }
    } else if t == "Array"@ {
        Ok(PropertyValue::ArrayJson(text))
    } else if t == "Map"@ {
        Ok(PropertyValue::MapJson(text))
    } else if t == "Set"@ {
        Ok(PropertyValue::SetJson(text))
    } else if t == "Name"@ {
        match string_of(v) { Some(s) => Ok(PropertyValue::Name(s)), None => Err("Expected string value for Name"@) }
    } else if t == "Text"@ {
        match string_of(v) { Some(s) => Ok(PropertyValue::Text(s)), None => Err("Expected string value for Text"@) }
    } else if t == "Custom"@ {
        Ok(PropertyValue::CustomJson(text))
    } else if t == "None"@ {
        Ok(PropertyValue::Null)
    } else {
        Err("Unknown property type: "@ + t)
    }
}

/// The prefix of the errors of a document that is not a tagged value.
pub open spec fn shape_error(detail: Seq<char>) -> Seq<char> {
    "Failed to deserialize property value: "@ + detail
}

/// The value a tagged document denotes, or the error it causes; `value_text`
/// is the canonical JSON text of its `value` member.
pub open spec fn spec_server_deserialize(doc: JsonValue, value_text: String) -> Result<PropertyValue, Seq<char>> {
    match doc {
        JsonValue::Object(fs) => match field(fs@, "type"@) {
            None => Err(shape_error("missing field `type`"@)),
            Some(JsonValue::String(t)) => match field(fs@, "value"@) {
                None => Err(shape_error("missing field `value`"@)),
                Some(v) => decode_tagged(t@, v, value_text),
            },
            Some(_) => Err(shape_error("invalid type for field `type`, expected a string"@)),
        },
        _ => Err(shape_error("invalid type, expected a tagged property value"@)),
    }
}

fn err_text(s: &str) -> (r: Result<PropertyValue, String>)
    ensures
        r matches Err(e) && e@ == s@,
{
    Err(owned(s))
}

fn f32_member(fs: &Vec<(String, JsonValue)>, key: &str) -> (r: Option<u32>)
    ensures
        r == member_f32(fs@, key@),
{
    match get_field(fs, key) {
        Some(JsonValue::Number(n)) => Some(n.as_f32_bits),
        _ => None,
    }
}

fn u8_member(fs: &Vec<(String, JsonValue)>, key: &str) -> (r: Option<u8>)
    ensures
        r == member_u8(fs@, key@),
{
    match get_field(fs, key) {
        Some(JsonValue::Number(n)) => match n.as_u64() {
            Some(u) => Some(#[verifier::truncate] (u as u8)),
            None => None,
        },
        _ => None,
    }
}

fn missing(prefix: &str, name: &str, suffix: &str) -> (r: String)
    ensures
        r@ == prefix@ + name@ + suffix@,
{
    let mut s = owned(prefix);
    s.append(name);
    s.append(suffix);
    s
}

fn xyz_from(fs: &Vec<(String, JsonValue)>, prefix: &str, suffix: &str) -> (r: Result<Vector3, String>)
    ensures
        match read_xyz(fs@, prefix@, suffix@) {
            Ok(p) => r == Ok::<Vector3, String>(p),
            Err(e) => r matches Err(x) && x@ == e,
        },
{
    proof {
        reveal_strlit("x");
        reveal_strlit("y");
        reveal_strlit("z");
    }
    let x = match f32_member(fs, "x") { Some(x) => x, None => return Err(missing(prefix, "x", suffix)) };
    let y = match f32_member(fs, "y") { Some(y) => y, None => return Err(missing(prefix, "y", suffix)) };
    let z = match f32_member(fs, "z") { Some(z) => z, None => return Err(missing(prefix, "z", suffix)) };
    Ok(Vector3 { x, y, z })
}

fn xyzw_from(fs: &Vec<(String, JsonValue)>, prefix: &str, suffix: &str) -> (r: Result<Quat, String>)
    ensures
        match read_xyzw(fs@, prefix@, suffix@) {
            Ok(q) => r == Ok::<Quat, String>(q),
            Err(e) => r matches Err(x) && x@ == e,
        },
{
    let x = match f32_member(fs, "x") { Some(x) => x, None => return Err(missing(prefix, "x", suffix)) };
    let y = match f32_member(fs, "y") { Some(y) => y, None => return Err(missing(prefix, "y", suffix)) };
    let z = match f32_member(fs, "z") { Some(z) => z, None => return Err(missing(prefix, "z", suffix)) };
    let w = match f32_member(fs, "w") { Some(w) => w, None => return Err(missing(prefix, "w", suffix)) };
    Ok(Quat { x, y, z, w })
}

fn object_members(v: Option<&JsonValue>) -> (r: Option<&Vec<(String, JsonValue)>>)
    ensures
        match r {
            Some(fs) => object_of(match v { Some(x) => Some(*x), None => None }) == Some(fs@),
            None => object_of(match v { Some(x) => Some(*x), None => None }) is None,
        },
{
    match v {
        Some(JsonValue::Object(fs)) => Some(fs),
        _ => None,
    }
}

fn decode_payload(t: &str, v: &JsonValue, text: &String) -> (r: Result<PropertyValue, String>)
    ensures
        match decode_tagged(t@, *v, *text) {
            Ok(p) => r == Ok::<PropertyValue, String>(p),
            Err(e) => r matches Err(x) && x@ == e,
        },
{
    if str_eq(t, "Bool") {
        match v { JsonValue::Bool(b) => Ok(PropertyValue::Bool(*b)), _ => err_text("Expected boolean value") }
    } else if str_eq(t, "Byte") {
        match v {
            JsonValue::Number(n) => match n.as_u64() {
                Some(u) => Ok(PropertyValue::Byte(#[verifier::truncate] (u as u8))),
                None => err_text("Expected numeric value"),
            },
            _ => err_text("Expected numeric value"),
        }
    } else if str_eq(t, "Int32") {
        match v {
            JsonValue::Number(n) => match n.as_i64() {
                Some(i) => Ok(PropertyValue::Int32(#[verifier::truncate] (i as i32))),
                None => err_text("Expected numeric value"),
            },
            _ => err_text("Expected numeric value"),
        }
    } else if str_eq(t, "Int64") {
        match v {
            JsonValue::Number(n) => match n.as_i64() {
                Some(i) => Ok(PropertyValue::Int64(i)),
                None => err_text("Expected numeric value"),
            },
            _ => err_text("Expected numeric value"),
        }
    } else if str_eq(t, "UInt32") {
        match v {
            JsonValue::Number(n) => match n.as_u64() {
                Some(u) => Ok(PropertyValue::UInt32(#[verifier::truncate] (u as u32))),
                None => err_text("Expected numeric value"),
            },
            _ => err_text("Expected numeric value"),
        }
    } else if str_eq(t, "UInt64") {
        let direct = match v {
            JsonValue::Number(n) => n.as_u64(),
            _ => None,
        };
        match direct {
            Some(u) => Ok(PropertyValue::UInt64(u)),
            None => match v {
                JsonValue::String(s) => match parse_u64(s.as_str()) {
                    Ok(u) => Ok(PropertyValue::UInt64(u)),
                    Err(e) => {
                        let mut msg = owned("Failed to parse u64: ");
                        let detail = parse_error_text(e);
                        msg.append(detail.as_str());
                        Err(msg)
                    },
                },
                _ => err_text("Expected numeric or string value for UInt64"),
            },
        }
    } else if str_eq(t, "Float") {
        match v { JsonValue::Number(n) => Ok(PropertyValue::Float(n.as_f32_bits)), _ => err_text("Expected floating point value") }
    } else if str_eq(t, "Double") {
        match v { JsonValue::Number(n) => Ok(PropertyValue::Double(n.as_f64_bits)), _ => err_text("Expected floating point value") }
    } else if str_eq(t, "String") {
        match v { JsonValue::String(s) => Ok(PropertyValue::String(s.clone())), _ => err_text("Expected string value") }
    } else if str_eq(t, "Vector") {
        match v {
            JsonValue::Object(fs) => match xyz_from(fs, "Missing ", " component") {
                Ok(p) => Ok(PropertyValue::Vector(p)),
                Err(e) => Err(e),
            },
            _ => err_text("Expected object for Vector"),
        }
    } else if str_eq(t, "Rotator") {
        match v {
            JsonValue::Object(fs) => {
                let pitch = match f32_member(fs, "pitch") { Some(x) => x, None => return err_text("Missing pitch component") };
                let yaw = match f32_member(fs, "yaw") { Some(x) => x, None => return err_text("Missing yaw component") };
                let roll = match f32_member(fs, "roll") { Some(x) => x, None => return err_text("Missing roll component") };
                Ok(PropertyValue::Rotator(Rotator { pitch, yaw, roll }))
            },
            _ => err_text("Expected object for Rotator"),
        }
    } else if str_eq(t, "Quat") {
        match v {
            JsonValue::Object(fs) => match xyzw_from(fs, "Missing ", " component") {
                Ok(q) => Ok(PropertyValue::Quat(q)),
                Err(e) => Err(e),
            },
            _ => err_text("Expected object for Quat"),
        }
    } else if str_eq(t, "Transform") {
        match v {
            JsonValue::Object(fs) => {
                let pos = match object_members(get_field(fs, "position")) { Some(x) => x, None => return err_text("Missing position") };
                let rot = match object_members(get_field(fs, "rotation")) { Some(x) => x, None => return err_text("Missing rotation") };
                let sc = match object_members(get_field(fs, "scale")) { Some(x) => x, None => return err_text("Missing scale") };
                let location = match xyz_from(pos, "Missing position.", "") { Ok(p) => p, Err(e) => return Err(e) };
                let rotation = match xyzw_from(rot, "Missing rotation.", "") { Ok(q) => q, Err(e) => return Err(e) };
                let scale = match xyz_from(sc, "Missing scale.", "") { Ok(p) => p, Err(e) => return Err(e) };
                Ok(PropertyValue::Transform(Transform { location, rotation, scale }))
            },
            _ => err_text("Expected object for Transform"),
        }
    } else if str_eq(t, "Color") {
        match v {
            JsonValue::Object(fs) => {
                let r = match u8_member(fs, "r") { Some(x) => x, None => return err_text("Missing r component") };
                let g = match u8_member(fs, "g") { Some(x) => x, None => return err_text("Missing g component") };
                let b = match u8_member(fs, "b") { Some(x) => x, None => return err_text("Missing b component") };
                let a = match u8_member(fs, "a") { Some(x) => x, None => return err_text("Missing a component") };
                Ok(PropertyValue::Color(Color { r, g, b, a }))
            },
            _ => err_text("Expected object for Color"),
        }
    } else if str_eq(t, "ObjectReference") {
        match v {
            JsonValue::Number(n) => match n.as_u64() {
                Some(u) => Ok(PropertyValue::ObjectReference(u)),
                None => err_text("Expected numeric value for ObjectReference"),
            },
            _ => err_text("Expected numeric value for ObjectReference"),
        }
    } else if str_eq(t, "ClassReference") {
        match v { JsonValue::String(s) => Ok(PropertyValue::ClassReference(s.clone())), _ => err_text("Expected string value for ClassReference") }
    } else if str_eq(t, "Array") {
        Ok(PropertyValue::ArrayJson(text.clone()))
    } else if str_eq(t, "Map") {
        Ok(PropertyValue::MapJson(text.clone()))
    } else if str_eq(t, "Set") {
        Ok(PropertyValue::SetJson(text.clone()))
    } else if str_eq(t, "Name") {
        match v { JsonValue::String(s) => Ok(PropertyValue::Name(s.clone())), _ => err_text("Expected string value for Name") }
    } else if str_eq(t, "Text") {
        match v { JsonValue::String(s) => Ok(PropertyValue::Text(s.clone())), _ => err_text("Expected string value for Text") }
    } else if str_eq(t, "Custom") {
        Ok(PropertyValue::CustomJson(text.clone()))
    } else if str_eq(t, "None") {
        Ok(PropertyValue::Null)
    } else {
        let mut msg = owned("Unknown property type: ");
        msg.append(t);
        Err(msg)
    }
}

fn shape_err(detail: &str) -> (r: Result<PropertyValue, String>)
    ensures
        r matches Err(e) && e@ == shape_error(detail@),
{
    let mut msg = owned("Failed to deserialize property value: ");
    msg.append(detail);
    Err(msg)
}

/// Deserialize a property value from its tagged JSON document; `value_text` is
/// the canonical JSON text of the document's `value` member.
pub fn deserialize_property_value(doc: &JsonValue, value_text: &String) -> (r: Result<PropertyValue, String>)
    ensures
        match spec_server_deserialize(*doc, *value_text) {
            Ok(p) => r == Ok::<PropertyValue, String>(p),
            Err(e) => r matches Err(x) && x@ == e,
        },
{
    let fs = match doc {
        JsonValue::Object(fs) => fs,
        _ => return shape_err("invalid type, expected a tagged property value"),
    };
    let t = match get_field(fs, "type") {
        None => return shape_err("missing field `type`"),
        Some(JsonValue::String(t)) => t,
        Some(_) => return shape_err("invalid type for field `type`, expected a string"),
    };
    let v = match get_field(fs, "value") {
        None => return shape_err("missing field `value`"),
        Some(v) => v,
    };
    decode_payload(t.as_str(), v, value_text)
}

/// A number computed from the length and some characters of a name; names
/// with different numbers differ.
pub open spec fn tag_code(s: Seq<char>) -> int {
    if s.len() == 0 {
        0
    } else {
        ((s.len() * 128 + s[0] as int) * 128 + (if s.len() > 1 { s[1] as int } else { 0 })) * 128 + s[s.len() - 1] as int
    }
}

pub(crate) proof fn lemma_tag_codes()
    ensures
        tag_code("Bool"@) == 9484268,
        tag_code("Byte"@) == 9485541,
        tag_code("Int32"@) == 11695922,
        tag_code("Int64"@) == 11695924,
        tag_code("UInt32"@) == 13984946,
        tag_code("UInt64"@) == 13984948,
        tag_code("Float"@) == 11646580,
        tag_code("Double"@) == 13711333,
        tag_code("String"@) == 13957735,
        tag_code("Vector"@) == 14004978,
        tag_code("Rotator"@) == 16037874,
        tag_code("Quat"@) == 9730804,
        tag_code("Transform"@) == 20265325,
        tag_code("Color"@) == 11597810,
        tag_code("ObjectReference"@) == 32764261,
        tag_code("ClassReference"@) == 30471781,
        tag_code("Array"@) == 11565433,
        tag_code("Map"@) == 7565552,
        tag_code("Set"@) == 7664372,
        tag_code("Name"@) == 9679077,
        tag_code("Text"@) == 9777908,
        tag_code("Custom"@) == 13695725,
        tag_code("None"@) == 9680869,
{
    reveal_strlit("Bool");
    reveal_strlit("Byte");
    reveal_strlit("Int32");
    reveal_strlit("Int64");
    reveal_strlit("UInt32");
    reveal_strlit("UInt64");
    reveal_strlit("Float");
    reveal_strlit("Double");
    reveal_strlit("String");
    reveal_strlit("Vector");
    reveal_strlit("Rotator");
    reveal_strlit("Quat");
    reveal_strlit("Transform");
    reveal_strlit("Color");
    reveal_strlit("ObjectReference");
    reveal_strlit("ClassReference");
    reveal_strlit("Array");
    reveal_strlit("Map");
    reveal_strlit("Set");
    reveal_strlit("Name");
    reveal_strlit("Text");
    reveal_strlit("Custom");
    reveal_strlit("None");
}

/// The values that come back the same from being written as a tagged
/// document and read again: all but container values (which come back as the
/// canonical text of what they hold) and values with non-finite floats.
pub open spec fn server_roundtrips(v: PropertyValue) -> bool {
    match v {
        PropertyValue::Float(f) => f32_bits_finite(f),
        PropertyValue::Double(d) => f64_bits_finite(d),
        PropertyValue::Vector(p) => f32_bits_finite(p.x) && f32_bits_finite(p.y) && f32_bits_finite(p.z),
        PropertyValue::Rotator(r) => f32_bits_finite(r.pitch) && f32_bits_finite(r.yaw) && f32_bits_finite(r.roll),
        PropertyValue::Quat(q) => f32_bits_finite(q.x) && f32_bits_finite(q.y) && f32_bits_finite(q.z) && f32_bits_finite(q.w),
        PropertyValue::Transform(t) =>
            f32_bits_finite(t.location.x) && f32_bits_finite(t.location.y) && f32_bits_finite(t.location.z)
            && f32_bits_finite(t.rotation.x) && f32_bits_finite(t.rotation.y) && f32_bits_finite(t.rotation.z)
            && f32_bits_finite(t.rotation.w)
            && f32_bits_finite(t.scale.x) && f32_bits_finite(t.scale.y) && f32_bits_finite(t.scale.z),
        _ => true,
    }
}

proof fn lemma_xyz_read(o: JsonOut, i: JsonValue, depth: nat, v: Vector3, prefix: Seq<char>, suffix: Seq<char>)
    requires
        xyz_payload(o, v),
        transports(o, i, depth),
        f32_bits_finite(v.x) && f32_bits_finite(v.y) && f32_bits_finite(v.z),
    ensures
        i is Object,
        read_xyz(i->Object_0@, prefix, suffix) == Ok::<Vector3, Seq<char>>(v),
{
    reveal_strlit("x");
    reveal_strlit("y");
    reveal_strlit("z");
    reveal_strlit("w");
    lemma_keys3("x"@, "y"@, "z"@, "w"@);
    lemma_plain_keys(o, seq!["x"@, "y"@, "z"@], seq![JsonOut::Single(v.x), JsonOut::Single(v.y), JsonOut::Single(v.z)]);
    lemma_member_transported(o, i, depth, 0);
    lemma_member_transported(o, i, depth, 1);
    lemma_member_transported(o, i, depth, 2);
}

proof fn lemma_xyzw_read(o: JsonOut, i: JsonValue, depth: nat, q: Quat, prefix: Seq<char>, suffix: Seq<char>)
    requires
        xyzw_payload(o, q),
        transports(o, i, depth),
        f32_bits_finite(q.x) && f32_bits_finite(q.y) && f32_bits_finite(q.z) && f32_bits_finite(q.w),
    ensures
        i is Object,
        read_xyzw(i->Object_0@, prefix, suffix) == Ok::<Quat, Seq<char>>(q),
{
    reveal_strlit("x");
    reveal_strlit("y");
    reveal_strlit("z");
    reveal_strlit("w");
    lemma_keys4("x"@, "y"@, "z"@, "w"@, "w"@);
    lemma_plain_keys(o, seq!["x"@, "y"@, "z"@, "w"@], seq![JsonOut::Single(q.x), JsonOut::Single(q.y), JsonOut::Single(q.z), JsonOut::Single(q.w)]);
    lemma_member_transported(o, i, depth, 0);
    lemma_member_transported(o, i, depth, 1);
    lemma_member_transported(o, i, depth, 2);
    lemma_member_transported(o, i, depth, 3);
}

/// The JSON text a container value carries, if it is one.
pub open spec fn container_text(v: PropertyValue) -> Option<String> {
    match v {
        PropertyValue::ArrayJson(s) | PropertyValue::MapJson(s) | PropertyValue::SetJson(s)
            | PropertyValue::CustomJson(s) => Some(s),
        _ => None,
    }
}

/// A value written as a tagged document and read back, from the JSON text the
/// document is written as, is the same value, for every value that
/// `server_roundtrips` admits. A container value comes back as the canonical
/// text of its payload (`value_text`), so it comes back unchanged when its
/// text is canonical.
pub proof fn law_server_roundtrip(v: PropertyValue, o: JsonOut, i: JsonValue, value_text: String)
    requires
        tagged_document(v, o),
        transports(o, i, 3),
        server_roundtrips(v),
        container_text(v) matches Some(t) ==> value_text@ == t@,
    ensures
        spec_server_deserialize(i, value_text) matches Ok(p) && same_value(p, v),
{
    reveal_strlit("type");
    reveal_strlit("value");
    lemma_differ("type"@, "value"@);
    lemma_tag_codes();
    let ofs = o->Object_0@;
    assert(distinct_keys(o));
    lemma_member_transported(o, i, 3, 0);
    lemma_member_transported(o, i, 3, 1);
    let fs = i->Object_0@;
    let payload = ofs[1].1;
    let x = field(fs, "value"@)->0;
    assert(transports(payload, x, 2));
    match v {
        PropertyValue::UInt64(u) => {
            law_parse_decimal(u);
        },
        PropertyValue::Int32(n) => {
            assert((n as i64) as i32 == n);
        },
        PropertyValue::Byte(b) => {
            assert((b as u64) as u8 == b);
        },
        PropertyValue::UInt32(u) => {
            assert((u as u64) as u32 == u);
        },
        PropertyValue::Vector(p) => {
            lemma_xyz_read(payload, x, 2, p, "Missing "@, " component"@);
        },
        PropertyValue::Quat(q) => {
            lemma_xyzw_read(payload, x, 2, q, "Missing "@, " component"@);
        },
        PropertyValue::Rotator(r) => {
            reveal_strlit("pitch");
            reveal_strlit("yaw");
            reveal_strlit("roll");
            reveal_strlit("w");
            lemma_keys3("pitch"@, "yaw"@, "roll"@, "w"@);
            lemma_plain_keys(payload, seq!["pitch"@, "yaw"@, "roll"@],
                seq![JsonOut::Single(r.pitch), JsonOut::Single(r.yaw), JsonOut::Single(r.roll)]);
            lemma_member_transported(payload, x, 2, 0);
            lemma_member_transported(payload, x, 2, 1);
            lemma_member_transported(payload, x, 2, 2);
        },
        PropertyValue::Color(c) => {
            reveal_strlit("r");
            reveal_strlit("g");
            reveal_strlit("b");
            reveal_strlit("a");
            lemma_keys4("r"@, "g"@, "b"@, "a"@, "a"@);
            lemma_plain_keys(payload, seq!["r"@, "g"@, "b"@, "a"@],
                seq![JsonOut::UInt(c.r as u64), JsonOut::UInt(c.g as u64), JsonOut::UInt(c.b as u64), JsonOut::UInt(c.a as u64)]);
            lemma_member_transported(payload, x, 2, 0);
            lemma_member_transported(payload, x, 2, 1);
            lemma_member_transported(payload, x, 2, 2);
            lemma_member_transported(payload, x, 2, 3);
        },
        PropertyValue::Transform(t) => {
            reveal_strlit("position");
            reveal_strlit("rotation");
            reveal_strlit("scale");
            reveal_strlit("w");
            let pfs = payload->Object_0@;
            let keys = seq!["position"@, "rotation"@, "scale"@];
            let vals = seq![pfs[0].1, pfs[1].1, pfs[2].1];
            lemma_keys3("position"@, "rotation"@, "scale"@, "w"@);
            assert(plain_object(payload, keys, vals)) by {
                assert forall|q: int| 0 <= q < keys.len() implies (#[trigger] pfs[q]).0@ == keys[q] && pfs[q].1 == vals[q] by {
                    if q == 0 {} else if q == 1 {} else {}
                }
            }
            lemma_plain_keys(payload, keys, vals);
            lemma_member_transported(payload, x, 2, 0);
            lemma_member_transported(payload, x, 2, 1);
            lemma_member_transported(payload, x, 2, 2);
            let xfs = x->Object_0@;
            lemma_xyz_read(pfs[0].1, field(xfs, "position"@)->0, 1, t.location, "Missing position."@, ""@);
            lemma_xyzw_read(pfs[1].1, field(xfs, "rotation"@)->0, 1, t.rotation, "Missing rotation."@, ""@);
            lemma_xyz_read(pfs[2].1, field(xfs, "scale"@)->0, 1, t.scale, "Missing scale."@, ""@);
        },
        _ => {},
    }
}

/// Serialize a map of property values: an object with a tagged document for
/// each property, in the map's key order.
pub fn serialize_property_map(properties: &crate::collections::AssocMap<String, PropertyValue>) -> (r: Result<JsonOut, String>)
    ensures
        r matches Ok(o) && (o matches JsonOut::Object(fs) && fs@.len() == properties.key_seq().len()
            && forall|i: int| 0 <= i < fs@.len() ==> (#[trigger] fs@[i]).0@ == properties.key_seq()[i]
                && tagged_document(properties@[properties.key_seq()[i]], fs@[i].1)),
{
    let n = properties.len();
    let mut fs: Vec<(String, JsonOut)> = Vec::new();
    let mut i: usize = 0;
    while i < n
        invariant
            n == properties.key_seq().len(),
            i <= n,
            fs@.len() == i,
            forall|k: int| 0 <= k < i ==> (#[trigger] fs@[k]).0@ == properties.key_seq()[k]
                && tagged_document(properties@[properties.key_seq()[k]], fs@[k].1),
        decreases n - i,
    {
        let (name, value) = properties.entry_at(i);
        let doc = match serialize_property_value(value) {
            Ok(d) => d,
            Err(e) => return Err(e),
        };
        fs.push((name.clone(), doc));
        i = i + 1;
    }
    Ok(JsonOut::Object(fs))
}

/// The values that members read as, by name (a later member replacing an
/// earlier one of the same name).
pub open spec fn decoded_map(members: Seq<(String, JsonValue, String)>) -> Map<Seq<char>, PropertyValue>
    decreases members.len(),
{
    if members.len() == 0 {
        Map::empty()
    } else {
        decoded_map(members.drop_last()).insert(members.last().0@,
            spec_server_deserialize(members.last().1, members.last().2)->Ok_0)
    }
}

/// Deserialize a map of property values from its members: each is a
/// property name, its tagged document, and the canonical JSON text of the
/// document's `value` member. The first member that does not read as a
/// value decides the error; a later member replaces an earlier one of the
/// same name.
pub fn deserialize_property_map(members: &Vec<(String, JsonValue, String)>)
    -> (r: Result<crate::collections::AssocMap<String, PropertyValue>, String>)
    ensures
        (forall|i: int| 0 <= i < members@.len() ==> (#[trigger] spec_server_deserialize(members@[i].1,
            members@[i].2)) is Ok) ==> r is Ok,
        r matches Ok(m) ==> m@ == decoded_map(members@),
        r matches Err(e) ==> exists|i: int| 0 <= i < members@.len() && (#[trigger] spec_server_deserialize(
            members@[i].1, members@[i].2)) == Err::<PropertyValue, Seq<char>>(e@)
            && forall|k: int| 0 <= k < i ==> spec_server_deserialize(members@[k].1, members@[k].2) is Ok,
{
    let mut out: crate::collections::AssocMap<String, PropertyValue> = crate::collections::AssocMap::new();
    let n = members.len();
    let mut i: usize = 0;
    while i < n
        invariant
            n == members@.len(),
            i <= n,
            forall|k: int| 0 <= k < i ==> (#[trigger] spec_server_deserialize(members@[k].1, members@[k].2)) is Ok,
            out@ == decoded_map(members@.subrange(0, i as int)),
        decreases n - i,
    {
        let v = match deserialize_property_value(&members[i].1, &members[i].2) {
            Ok(v) => v,
            Err(e) => {
                assert(spec_server_deserialize(members@[i as int].1, members@[i as int].2) == Err::<PropertyValue,
                    Seq<char>>(e@));
                return Err(e);
            },
        };
        out.insert(members[i].0.clone(), v);
        assert(members@.subrange(0, i + 1).drop_last() =~= members@.subrange(0, i as int));
        i = i + 1;
    }
    assert(members@.subrange(0, n as int) =~= members@);
    Ok(out)
}

} // verus!
