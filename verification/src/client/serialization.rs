//! Conversion between property values and JSON documents on the client.
//!
//! Values are written as plain JSON (numbers, strings, objects with
//! `x`/`y`/`z`... members, tagged objects for references and names) and read
//! back by structure.
use vstd::prelude::*;
use crate::json::{JsonValue, JsonNumber, NumberRepr, JsonOut, field, get_field, has_field, out_field, transports,
    f32_bits_finite, f64_bits_finite, lemma_out_field_at, lemma_out_field_absent};
use crate::shared::types::{Vector3, Rotator, Quat, Transform, Color};
use crate::shared::property::{PropertyValue, same_value};
use crate::text::{str_eq, owned};

verus! {

/// Largest magnitude of an `f32`, as the bit pattern of the equal `f64` value.
pub const F32_MAX_AS_F64_BITS: u64 = 0x47EF_FFFF_E000_0000;

/// Mask that clears the sign bit of an `f64` bit pattern.
pub const F64_MAGNITUDE_MASK: u64 = 0x7FFF_FFFF_FFFF_FFFF;

/// Whether the `f64` with bit pattern `bits` lies in `[f32::MIN, f32::MAX]`.
///
/// For IEEE-754 values that are not NaN, magnitudes are ordered as their bit
/// patterns without sign are; NaN patterns lie above every finite pattern.
pub open spec fn f64_bits_in_f32_range(bits: u64) -> bool {
    (bits & F64_MAGNITUDE_MASK) <= F32_MAX_AS_F64_BITS
}

/// The `f32` reading of member `key`, when it is a number.
pub open spec fn f32_member(fs: Seq<(String, JsonValue)>, key: Seq<char>) -> Option<u32> {
    match field(fs, key) {
        Some(JsonValue::Number(n)) => Some(n.as_f32_bits),
        _ => None,
    }
}

/// Member `key` as a byte (an integer taken modulo 256), when it is a non-negative integer.
pub open spec fn u8_member(fs: Seq<(String, JsonValue)>, key: Seq<char>) -> Option<u8> {
    match field(fs, key) {
        Some(JsonValue::Number(n)) => match n.spec_as_u64() {
            Some(u) => Some(u as u8),
            None => None,
        },
        _ => None,
    }
}

pub open spec fn vector_members(fs: Seq<(String, JsonValue)>) -> Option<Vector3> {
    match (f32_member(fs, "x"@), f32_member(fs, "y"@), f32_member(fs, "z"@)) {
        (Some(x), Some(y), Some(z)) => Some(Vector3 { x, y, z }),
        _ => None,
    }
}

pub open spec fn quat_members(fs: Seq<(String, JsonValue)>) -> Option<Quat> {
    match (f32_member(fs, "x"@), f32_member(fs, "y"@), f32_member(fs, "z"@), f32_member(fs, "w"@)) {
        (Some(x), Some(y), Some(z), Some(w)) => Some(Quat { x, y, z, w }),
        _ => None,
    }
}

pub open spec fn vector_of(v: Option<JsonValue>) -> Option<Vector3> {
    match v {
        Some(JsonValue::Object(m)) => vector_members(m@),
        _ => None,
    }
}

pub open spec fn quat_of(v: Option<JsonValue>) -> Option<Quat> {
    match v {
        Some(JsonValue::Object(m)) => quat_members(m@),
        _ => None,
    }
}

pub open spec fn has_member(fs: Seq<(String, JsonValue)>, key: Seq<char>) -> bool {
    field(fs, key) is Some
}

/// The value denoted by a tagged object (`{"type": tag, ...}`), for the four known tags;
/// `None` when the tag is known but its payload member is missing or malformed.
pub open spec fn tagged_value(fs: Seq<(String, JsonValue)>, tag: Seq<char>) -> Option<PropertyValue> {
    if tag == "ObjectReference"@ {
        match field(fs, "id"@) {
            Some(JsonValue::Number(n)) => match n.spec_as_u64() {
                Some(id) => Some(PropertyValue::ObjectReference(id)),
                None => None,
            },
            _ => None,
        }
    } else if tag == "ClassReference"@ {
        match field(fs, "name"@) {
            Some(JsonValue::String(s)) => Some(PropertyValue::ClassReference(s)),
            _ => None,
        }
    } else if tag == "Name"@ {
        match field(fs, "value"@) {
            Some(JsonValue::String(s)) => Some(PropertyValue::Name(s)),
            _ => None,
        }
    } else {
        match field(fs, "value"@) {
            Some(JsonValue::String(s)) => Some(PropertyValue::Text(s)),
            _ => None,
        }
    }
}

/// The string in member `type`, or the empty string when there is none.
pub open spec fn tag_of(fs: Seq<(String, JsonValue)>) -> Seq<char> {
    match field(fs, "type"@) {
        Some(JsonValue::String(t)) => t@,
        _ => Seq::empty(),
    }
}

pub open spec fn is_known_tag(tag: Seq<char>) -> bool {
    tag == "ObjectReference"@ || tag == "ClassReference"@ || tag == "Name"@ || tag == "Text"@
}

/// The value an object denotes, read by its members; `None` on a malformed member.
pub open spec fn object_value(fs: Seq<(String, JsonValue)>, canonical: String) -> Option<PropertyValue> {
    if is_known_tag(tag_of(fs)) {
        tagged_value(fs, tag_of(fs))
    } else if has_member(fs, "x"@) && has_member(fs, "y"@) && has_member(fs, "z"@) {
        if has_member(fs, "w"@) {
            match quat_members(fs) {
                Some(q) => Some(PropertyValue::Quat(q)),
                None => None,
            }
        } else {
            match vector_members(fs) {
                Some(v) => Some(PropertyValue::Vector(v)),
                None => None,
            }
        }
    } else if has_member(fs, "pitch"@) && has_member(fs, "yaw"@) && has_member(fs, "roll"@) {
        match (f32_member(fs, "pitch"@), f32_member(fs, "yaw"@), f32_member(fs, "roll"@)) {
            (Some(pitch), Some(yaw), Some(roll)) => Some(PropertyValue::Rotator(Rotator { pitch, yaw, roll })),
            _ => None,
        }
    } else if has_member(fs, "r"@) && has_member(fs, "g"@) && has_member(fs, "b"@) {
        match (u8_member(fs, "r"@), u8_member(fs, "g"@), u8_member(fs, "b"@)) {
            (Some(r), Some(g), Some(b)) => {
                let a = match u8_member(fs, "a"@) { Some(a) => a, None => 255u8 };
                Some(PropertyValue::Color(Color { r, g, b, a }))
            },
            _ => None,
        }
    } else if has_member(fs, "location"@) && has_member(fs, "rotation"@) && has_member(fs, "scale"@) {
        match (vector_of(field(fs, "location"@)), quat_of(field(fs, "rotation"@)), vector_of(field(fs, "scale"@))) {
            (Some(location), Some(rotation), Some(scale)) =>
                Some(PropertyValue::Transform(Transform { location, rotation, scale })),
            _ => None,
        }
    } else {
        Some(PropertyValue::CustomJson(canonical))
    }
}

/// The value a number denotes: the narrowest integer variant that holds it, or
/// `Float` when a floating number lies in `f32` range and `Double` otherwise.
pub open spec fn number_value(n: JsonNumber) -> PropertyValue {
    match n.repr {
        NumberRepr::NegInt(i) => if i >= i32::MIN as i64 { PropertyValue::Int32(i as i32) } else { PropertyValue::Int64(i) },
        NumberRepr::PosInt(u) => if u <= i32::MAX as u64 {
            PropertyValue::Int32(u as i32)
        } else if u <= i64::MAX as u64 {
            PropertyValue::Int64(u as i64)
        } else {
            PropertyValue::UInt64(u)
        },
        NumberRepr::Float(bits) => if f64_bits_in_f32_range(bits) {
            PropertyValue::Float(n.as_f32_bits)
        } else {
            PropertyValue::Double(bits)
        },
    }
}

/// The property value a JSON document denotes; `canonical` is the document's
/// canonical text, which container-like documents keep. `None` means the
/// document is malformed for the value it looks like.
pub open spec fn spec_deserialize(v: JsonValue, canonical: String) -> Option<PropertyValue> {
    match v {
        JsonValue::Object(m) => object_value(m@, canonical),
        JsonValue::Null => Some(PropertyValue::Null),
        JsonValue::Bool(b) => Some(PropertyValue::Bool(b)),
        JsonValue::Number(n) => Some(number_value(n)),
        JsonValue::String(s) => Some(PropertyValue::String(s)),
        JsonValue::Array(_) => Some(PropertyValue::ArrayJson(canonical)),
    }
}

/// The error for member `key` that is missing or not a number.
pub open spec fn missing_field_message(key: Seq<char>) -> Seq<char> {
    "Missing or invalid field '"@ + key + "'"@
}

/// The error for member `key` that does not read as a byte: a number that is
/// not a non-negative integer, or no number at all.
pub open spec fn u8_field_message(fs: Seq<(String, JsonValue)>, key: Seq<char>) -> Seq<char> {
    match field(fs, key) {
        Some(JsonValue::Number(_)) => "Invalid number for field '"@ + key + "'"@,
        _ => missing_field_message(key),
    }
}

/// The error for the first of members `x`, `y`, `z` that is not a number.
pub open spec fn xyz_message(fs: Seq<(String, JsonValue)>) -> Seq<char> {
    if f32_member(fs, "x"@) is None {
        missing_field_message("x"@)
    } else if f32_member(fs, "y"@) is None {
        missing_field_message("y"@)
    } else {
        missing_field_message("z"@)
    }
}

/// The error for the first of members `x`, `y`, `z`, `w` that is not a number.
pub open spec fn xyzw_message(fs: Seq<(String, JsonValue)>) -> Seq<char> {
    if f32_member(fs, "x"@) is None || f32_member(fs, "y"@) is None || f32_member(fs, "z"@) is None {
        xyz_message(fs)
    } else {
        missing_field_message("w"@)
    }
}

/// The error for the first of members `pitch`, `yaw`, `roll` that is not a number.
pub open spec fn rotator_message(fs: Seq<(String, JsonValue)>) -> Seq<char> {
    if f32_member(fs, "pitch"@) is None {
        missing_field_message("pitch"@)
    } else if f32_member(fs, "yaw"@) is None {
        missing_field_message("yaw"@)
    } else {
        missing_field_message("roll"@)
    }
}

/// The error for the first of members `r`, `g`, `b` that is not a byte.
pub open spec fn rgb_message(fs: Seq<(String, JsonValue)>) -> Seq<char> {
    if u8_member(fs, "r"@) is None {
        u8_field_message(fs, "r"@)
    } else if u8_member(fs, "g"@) is None {
        u8_field_message(fs, "g"@)
    } else {
        u8_field_message(fs, "b"@)
    }
}

/// The error for a document that does not read as a vector.
pub open spec fn vector_message(v: Option<JsonValue>) -> Seq<char> {
    match v {
        Some(JsonValue::Object(m)) => xyz_message(m@),
        _ => "Missing or invalid Vector3 structure"@,
    }
}

/// The error for a document that does not read as a quaternion.
pub open spec fn quat_message(v: Option<JsonValue>) -> Seq<char> {
    match v {
        Some(JsonValue::Object(m)) => xyzw_message(m@),
        _ => "Missing or invalid Quat structure"@,
    }
}

/// The error for an object that does not read as the value it looks like.
pub open spec fn object_message(fs: Seq<(String, JsonValue)>) -> Seq<char> {
    if is_known_tag(tag_of(fs)) {
        "Invalid "@ + tag_of(fs) + " format"@
    } else if has_member(fs, "x"@) && has_member(fs, "y"@) && has_member(fs, "z"@) {
        if has_member(fs, "w"@) { xyzw_message(fs) } else { xyz_message(fs) }
    } else if has_member(fs, "pitch"@) && has_member(fs, "yaw"@) && has_member(fs, "roll"@) {
        rotator_message(fs)
    } else if has_member(fs, "r"@) && has_member(fs, "g"@) && has_member(fs, "b"@) {
        rgb_message(fs)
    } else if vector_of(field(fs, "location"@)) is None {
        vector_message(field(fs, "location"@))
    } else if quat_of(field(fs, "rotation"@)) is None {
        quat_message(field(fs, "rotation"@))
    } else {
        vector_message(field(fs, "scale"@))
    }
}

/// The error for a document that does not read as a property value (only
/// objects can fail to).
pub open spec fn deserialize_message(v: JsonValue) -> Seq<char> {
    match v {
        JsonValue::Object(m) => object_message(m@),
        _ => Seq::empty(),
    }
}

fn parse_f32_field(fields: &Vec<(String, JsonValue)>, key: &str) -> (r: Result<u32, String>)
    ensures
        match r {
            Ok(b) => f32_member(fields@, key@) == Some(b),
            Err(e) => f32_member(fields@, key@) is None && e@ == missing_field_message(key@),
        },
{
    match get_field(fields, key) {
        Some(JsonValue::Number(n)) => Ok(n.as_f32_bits),
        _ => {
            let mut msg = owned("Missing or invalid field '");
            msg.append(key);
            msg.append("'");
            Err(msg)
        },
    }
}

fn parse_u8_field(fields: &Vec<(String, JsonValue)>, key: &str) -> (r: Result<u8, String>)
    ensures
        match r {
            Ok(b) => u8_member(fields@, key@) == Some(b),
            Err(e) => u8_member(fields@, key@) is None && e@ == u8_field_message(fields@, key@),
        },
{
    match get_field(fields, key) {
        Some(JsonValue::Number(n)) => match n.as_u64() {
            Some(u) => Ok(u as u8),
            None => {
                let mut msg = owned("Invalid number for field '");
                msg.append(key);
                msg.append("'");
                Err(msg)
            },
        },
        _ => {
            let mut msg = owned("Missing or invalid field '");
            msg.append(key);
            msg.append("'");
            Err(msg)
        },
    }
}

/// Reads members `x`, `y`, `z` of an object as a vector.
fn xyz_fields(map: &Vec<(String, JsonValue)>) -> (r: Result<Vector3, String>)
    ensures
        match r {
            Ok(v) => vector_members(map@) == Some(v),
            Err(e) => vector_members(map@) is None && e@ == xyz_message(map@),
        },
{
    let x = match parse_f32_field(map, "x") { Ok(v) => v, Err(e) => return Err(e) };
    let y = match parse_f32_field(map, "y") { Ok(v) => v, Err(e) => return Err(e) };
    let z = match parse_f32_field(map, "z") { Ok(v) => v, Err(e) => return Err(e) };
    Ok(Vector3 { x, y, z })
}

/// Reads members `x`, `y`, `z`, `w` of an object as a quaternion.
fn xyzw_fields(map: &Vec<(String, JsonValue)>) -> (r: Result<Quat, String>)
    ensures
        match r {
            Ok(q) => quat_members(map@) == Some(q),
            Err(e) => quat_members(map@) is None && e@ == xyzw_message(map@),
        },
{
    let x = match parse_f32_field(map, "x") { Ok(v) => v, Err(e) => return Err(e) };
    let y = match parse_f32_field(map, "y") { Ok(v) => v, Err(e) => return Err(e) };
    let z = match parse_f32_field(map, "z") { Ok(v) => v, Err(e) => return Err(e) };
    let w = match parse_f32_field(map, "w") { Ok(v) => v, Err(e) => return Err(e) };
    Ok(Quat { x, y, z, w })
}

fn parse_vector3(value: Option<&JsonValue>) -> (r: Result<Vector3, String>)
    ensures
        match r {
            Ok(v) => vector_of(match value { Some(x) => Some(*x), None => None }) == Some(v),
            Err(e) => vector_of(match value { Some(x) => Some(*x), None => None }) is None
                && e@ == vector_message(match value { Some(x) => Some(*x), None => None }),
        },
{
    match value {
        Some(JsonValue::Object(map)) => xyz_fields(map),
        _ => Err(owned("Missing or invalid Vector3 structure")),
    }
}

fn parse_quat(value: Option<&JsonValue>) -> (r: Result<Quat, String>)
    ensures
        match r {
            Ok(q) => quat_of(match value { Some(x) => Some(*x), None => None }) == Some(q),
            Err(e) => quat_of(match value { Some(x) => Some(*x), None => None }) is None
                && e@ == quat_message(match value { Some(x) => Some(*x), None => None }),
        },
{
    match value {
        Some(JsonValue::Object(map)) => xyzw_fields(map),
        _ => Err(owned("Missing or invalid Quat structure")),
    }
}

/// Reads a value from a tagged object with a known tag.
fn deserialize_tagged(fields: &Vec<(String, JsonValue)>, tag_name: &String) -> (r: Result<PropertyValue, String>)
    requires
        is_known_tag(tag_name@),
    ensures
        match r {
            Ok(p) => tagged_value(fields@, tag_name@) == Some(p),
            Err(e) => tagged_value(fields@, tag_name@) is None && e@ == "Invalid "@ + tag_name@ + " format"@,
        },
{
    proof {
        reveal_strlit("ObjectReference");
        reveal_strlit("ClassReference");
        reveal_strlit("Name");
        reveal_strlit("Text");
        reveal_strlit("Invalid ObjectReference format");
        reveal_strlit("Invalid ClassReference format");
        reveal_strlit("Invalid Name format");
        reveal_strlit("Invalid Text format");
        reveal_strlit("Invalid ");
        reveal_strlit(" format");
    }
    if str_eq(tag_name.as_str(), "ObjectReference") {
        if let Some(JsonValue::Number(id)) = get_field(fields, "id") {
            if let Some(id) = id.as_u64() {
                return Ok(PropertyValue::ObjectReference(id));
            }
        }
        assert("Invalid ObjectReference format"@ =~= "Invalid "@ + tag_name@ + " format"@);
        Err(owned("Invalid ObjectReference format"))
    } else if str_eq(tag_name.as_str(), "ClassReference") {
        if let Some(JsonValue::String(name)) = get_field(fields, "name") {
            return Ok(PropertyValue::ClassReference(name.clone()));
        }
        assert("Invalid ClassReference format"@ =~= "Invalid "@ + tag_name@ + " format"@);
        Err(owned("Invalid ClassReference format"))
    } else if str_eq(tag_name.as_str(), "Name") {
        if let Some(JsonValue::String(value)) = get_field(fields, "value") {
            return Ok(PropertyValue::Name(value.clone()));
        }
        assert("Invalid Name format"@ =~= "Invalid "@ + tag_name@ + " format"@);
        Err(owned("Invalid Name format"))
    } else {
        if let Some(JsonValue::String(value)) = get_field(fields, "value") {
            return Ok(PropertyValue::Text(value.clone()));
        }
        assert("Invalid Text format"@ =~= "Invalid "@ + tag_name@ + " format"@);
        Err(owned("Invalid Text format"))
    }
}

/// Reads a value from an object by its members.
fn deserialize_object(map: &Vec<(String, JsonValue)>, canonical: &String) -> (r: Result<PropertyValue, String>)
    ensures
        match r {
            Ok(p) => object_value(map@, *canonical) == Some(p),
            Err(e) => object_value(map@, *canonical) is None && e@ == object_message(map@),
        },
{
    let tag = get_field(map, "type");
    proof {
        reveal_strlit("ObjectReference");
        reveal_strlit("ClassReference");
        reveal_strlit("Name");
        reveal_strlit("Text");
    }
    match tag {
        Some(JsonValue::String(tag_name)) => {
            assert(tag_of(map@) == tag_name@);
            if str_eq(tag_name.as_str(), "ObjectReference") || str_eq(tag_name.as_str(), "ClassReference")
                || str_eq(tag_name.as_str(), "Name") || str_eq(tag_name.as_str(), "Text") {
                return deserialize_tagged(map, tag_name);
            }
        },
        _ => {
            assert(tag_of(map@) == Seq::<char>::empty());
        },
    }
    assert(!is_known_tag(tag_of(map@)));
    if has_field(map, "x") && has_field(map, "y") && has_field(map, "z") {
        if has_field(map, "w") {
            return match xyzw_fields(map) {
                Ok(q) => Ok(PropertyValue::Quat(q)),
                Err(e) => Err(e),
            };
        } else {
            return match xyz_fields(map) {
                Ok(v) => Ok(PropertyValue::Vector(v)),
                Err(e) => Err(e),
            };
        }
    }
    if has_field(map, "pitch") && has_field(map, "yaw") && has_field(map, "roll") {
        let pitch = match parse_f32_field(map, "pitch") { Ok(v) => v, Err(e) => return Err(e) };
        let yaw = match parse_f32_field(map, "yaw") { Ok(v) => v, Err(e) => return Err(e) };
        let roll = match parse_f32_field(map, "roll") { Ok(v) => v, Err(e) => return Err(e) };
        return Ok(PropertyValue::Rotator(Rotator { pitch, yaw, roll }));
    }
    if has_field(map, "r") && has_field(map, "g") && has_field(map, "b") {
        let r = match parse_u8_field(map, "r") { Ok(v) => v, Err(e) => return Err(e) };
        let g = match parse_u8_field(map, "g") { Ok(v) => v, Err(e) => return Err(e) };
        let b = match parse_u8_field(map, "b") { Ok(v) => v, Err(e) => return Err(e) };
        let a = match get_field(map, "a") {
            Some(JsonValue::Number(n)) => match n.as_u64() {
                Some(u) => u as u8,
                None => 255u8,
            },
            _ => 255u8,
        };
        return Ok(PropertyValue::Color(Color { r, g, b, a }));
    }
    if has_field(map, "location") && has_field(map, "rotation") && has_field(map, "scale") {
        let location = match parse_vector3(get_field(map, "location")) { Ok(v) => v, Err(e) => return Err(e) };
        let rotation = match parse_quat(get_field(map, "rotation")) { Ok(v) => v, Err(e) => return Err(e) };
        let scale = match parse_vector3(get_field(map, "scale")) { Ok(v) => v, Err(e) => return Err(e) };
        return Ok(PropertyValue::Transform(Transform { location, rotation, scale }));
    }
    Ok(PropertyValue::CustomJson(canonical.clone()))
}

/// Reads the property value a JSON number denotes.
fn deserialize_number(n: &JsonNumber) -> (r: PropertyValue)
    ensures
        r == number_value(*n),
{
    match n.repr {
        NumberRepr::NegInt(i) => if i >= i32::MIN as i64 { PropertyValue::Int32(i as i32) } else { PropertyValue::Int64(i) },
        NumberRepr::PosInt(u) => if u <= i32::MAX as u64 {
            PropertyValue::Int32(u as i32)
        } else if u <= i64::MAX as u64 {
            PropertyValue::Int64(u as i64)
        } else {
            PropertyValue::UInt64(u)
        },
        NumberRepr::Float(bits) => if (bits & F64_MAGNITUDE_MASK) <= F32_MAX_AS_F64_BITS {
            PropertyValue::Float(n.as_f32_bits)
        } else {
            PropertyValue::Double(bits)
        },
    }
}

/// Deserialize a property value from a parsed JSON document whose canonical text is `canonical`.
pub fn deserialize_property_value(json_value: &JsonValue, canonical: &String) -> (r: Result<PropertyValue, String>)
    ensures
        match r {
            Ok(p) => spec_deserialize(*json_value, *canonical) == Some(p),
            Err(e) => spec_deserialize(*json_value, *canonical) is None && e@ == deserialize_message(*json_value),
        },
{
    match json_value {
        JsonValue::Object(map) => deserialize_object(map, canonical),
        JsonValue::Null => Ok(PropertyValue::Null),
        JsonValue::Bool(b) => Ok(PropertyValue::Bool(*b)),
        JsonValue::Number(n) => Ok(deserialize_number(n)),
        JsonValue::String(s) => Ok(PropertyValue::String(s.clone())),
        JsonValue::Array(_) => Ok(PropertyValue::ArrayJson(canonical.clone())),
    }
}

/// `o` is an object whose members are, in order, `keys[i]` with value `vals[i]`.
pub open spec fn plain_object(o: JsonOut, keys: Seq<Seq<char>>, vals: Seq<JsonOut>) -> bool {
    match o {
        JsonOut::Object(fs) => {
            &&& fs@.len() == keys.len()
            &&& vals.len() == keys.len()
            &&& forall|i: int| 0 <= i < keys.len() ==> (#[trigger] fs@[i]).0@ == keys[i] && fs@[i].1 == vals[i]
        },
        _ => false,
    }
}

/// `o` is an object `{"type": tag, key: val}`.
pub open spec fn tagged_object(o: JsonOut, tag: Seq<char>, key: Seq<char>, val: JsonOut) -> bool {
    match o {
        JsonOut::Object(fs) => {
            &&& fs@.len() == 2
            &&& fs@[0].0@ == "type"@
            &&& (fs@[0].1 matches JsonOut::String(t) && t@ == tag)
            &&& fs@[1].0@ == key
            &&& fs@[1].1 == val
        },
        _ => false,
    }
}

/// `o` embeds the JSON text `text` under the label `label`.
pub open spec fn embedded(o: JsonOut, label: Seq<char>, text: String) -> bool {
    o matches JsonOut::Embedded { label: l, text: t } && l@ == label && t == text
}

pub open spec fn xyz_keys() -> Seq<Seq<char>> {
    seq!["x"@, "y"@, "z"@]
}

pub open spec fn xyzw_keys() -> Seq<Seq<char>> {
    seq!["x"@, "y"@, "z"@, "w"@]
}

pub open spec fn vector_object(o: JsonOut, v: Vector3) -> bool {
    plain_object(o, xyz_keys(), seq![JsonOut::Single(v.x), JsonOut::Single(v.y), JsonOut::Single(v.z)])
}

pub open spec fn quat_object(o: JsonOut, q: Quat) -> bool {
    plain_object(o, xyzw_keys(), seq![JsonOut::Single(q.x), JsonOut::Single(q.y), JsonOut::Single(q.z), JsonOut::Single(q.w)])
}

/// The JSON document written for a property value.
pub open spec fn spec_serialized(v: PropertyValue, o: JsonOut) -> bool {
    match v {
        PropertyValue::Bool(b) => o == JsonOut::Bool(b),
        PropertyValue::Byte(b) => o == JsonOut::UInt(b as u64),
        PropertyValue::Int32(i) => o == JsonOut::Int(i as i64),
        PropertyValue::Int64(i) => o == JsonOut::Int(i),
        PropertyValue::UInt32(u) => o == JsonOut::UInt(u as u64),
        PropertyValue::UInt64(u) => o == JsonOut::UInt(u),
        PropertyValue::Float(f) => o == JsonOut::Single(f),
        PropertyValue::Double(d) => o == JsonOut::Double(d),
        PropertyValue::String(s) => o == JsonOut::String(s),
        PropertyValue::Vector(v) => vector_object(o, v),
        PropertyValue::Rotator(r) => plain_object(o, seq!["pitch"@, "yaw"@, "roll"@],
            seq![JsonOut::Single(r.pitch), JsonOut::Single(r.yaw), JsonOut::Single(r.roll)]),
        PropertyValue::Quat(q) => quat_object(o, q),
        PropertyValue::Transform(t) => match o {
            JsonOut::Object(fs) => {
                &&& fs@.len() == 3
                &&& fs@[0].0@ == "location"@ && vector_object(fs@[0].1, t.location)
                &&& fs@[1].0@ == "rotation"@ && quat_object(fs@[1].1, t.rotation)
                &&& fs@[2].0@ == "scale"@ && vector_object(fs@[2].1, t.scale)
            },
            _ => false,
        },
        PropertyValue::Color(c) => plain_object(o, seq!["r"@, "g"@, "b"@, "a"@],
            seq![JsonOut::UInt(c.r as u64), JsonOut::UInt(c.g as u64), JsonOut::UInt(c.b as u64), JsonOut::UInt(c.a as u64)]),
        PropertyValue::ObjectReference(id) => tagged_object(o, "ObjectReference"@, "id"@, JsonOut::UInt(id)),
        PropertyValue::ClassReference(name) => tagged_object(o, "ClassReference"@, "name"@, JsonOut::String(name)),
        PropertyValue::ArrayJson(t) => embedded(o, "ArrayJson"@, t),
        PropertyValue::MapJson(t) => embedded(o, "MapJson"@, t),
        PropertyValue::SetJson(t) => embedded(o, "SetJson"@, t),
        PropertyValue::Name(n) => tagged_object(o, "Name"@, "value"@, JsonOut::String(n)),
        PropertyValue::Text(t) => tagged_object(o, "Text"@, "value"@, JsonOut::String(t)),
        PropertyValue::CustomJson(t) => embedded(o, "CustomJson"@, t),
        PropertyValue::Null => o == JsonOut::Null,
    }
}

/// Whole numbers are written as the JSON numbers they are: an unsigned value
/// (`Byte`, `UInt32`, `UInt64`) as a non-negative integer and a signed one
/// (`Int32`, `Int64`) as an integer, each equal to the value.
pub proof fn law_whole_numbers_written_exactly(v: PropertyValue, o: JsonOut)
    requires
        spec_serialized(v, o),
    ensures
        v matches PropertyValue::Byte(b) ==> (o matches JsonOut::UInt(x) && x as int == b as int),
        v matches PropertyValue::UInt32(u) ==> (o matches JsonOut::UInt(x) && x as int == u as int),
        v matches PropertyValue::UInt64(u) ==> (o matches JsonOut::UInt(x) && x as int == u as int),
        v matches PropertyValue::Int32(i) ==> (o matches JsonOut::Int(x) && x as int == i as int),
        v matches PropertyValue::Int64(i) ==> (o matches JsonOut::Int(x) && x as int == i as int),
{
}

fn push_member(fs: &mut Vec<(String, JsonOut)>, key: &str, v: JsonOut)
    ensures
        final(fs)@.len() == old(fs)@.len() + 1,
        forall|i: int| 0 <= i < old(fs)@.len() ==> final(fs)@[i] == old(fs)@[i],
        final(fs)@[old(fs)@.len() as int].0@ == key@,
        final(fs)@[old(fs)@.len() as int].1 == v,
{
    fs.push((owned(key), v));
}

fn float_object(keys: &[&str], bits: &[u32]) -> (o: JsonOut)
    requires
        keys@.len() == bits@.len(),
    ensures
        plain_object(o, keys@.map_values(|k: &str| k@), bits@.map_values(|b: u32| JsonOut::Single(b))),
{
    let mut fs: Vec<(String, JsonOut)> = Vec::new();
    let n = keys.len();
    let mut i: usize = 0;
    while i < n
        invariant
            n == keys@.len(),
            n == bits@.len(),
            i <= n,
            fs@.len() == i,
            forall|j: int| 0 <= j < i ==> (#[trigger] fs@[j]).0@ == keys@[j]@ && fs@[j].1 == JsonOut::Single(bits@[j]),
        decreases n - i,
    {
        push_member(&mut fs, keys[i], JsonOut::Single(bits[i]));
        i = i + 1;
    }
    JsonOut::Object(fs)
}

fn vector_out(v: Vector3) -> (o: JsonOut)
    ensures
        vector_object(o, v),
{
    let o = float_object(&["x", "y", "z"], &[v.x, v.y, v.z]);
    proof {
        let ks = seq!["x", "y", "z"].map_values(|k: &str| k@);
        assert(ks =~= xyz_keys());
        assert(seq![v.x, v.y, v.z].map_values(|b: u32| JsonOut::Single(b)) =~= seq![JsonOut::Single(v.x), JsonOut::Single(v.y), JsonOut::Single(v.z)]);
    }
    o
}

fn quat_out(q: Quat) -> (o: JsonOut)
    ensures
        quat_object(o, q),
{
    let o = float_object(&["x", "y", "z", "w"], &[q.x, q.y, q.z, q.w]);
    proof {
        assert(seq!["x", "y", "z", "w"].map_values(|k: &str| k@) =~= xyzw_keys());
        assert(seq![q.x, q.y, q.z, q.w].map_values(|b: u32| JsonOut::Single(b)) =~= seq![JsonOut::Single(q.x), JsonOut::Single(q.y), JsonOut::Single(q.z), JsonOut::Single(q.w)]);
    }
    o
}

fn tagged_out(tag: &str, key: &str, val: JsonOut) -> (o: JsonOut)
    ensures
        tagged_object(o, tag@, key@, val),
{
    let mut fs: Vec<(String, JsonOut)> = Vec::new();
    push_member(&mut fs, "type", JsonOut::String(owned(tag)));
    push_member(&mut fs, key, val);
    JsonOut::Object(fs)
}

fn embedded_out(label: &str, text: &String) -> (o: JsonOut)
    ensures
        embedded(o, label@, *text),
{
    JsonOut::Embedded { label: owned(label), text: text.clone() }
}

/// Serialize a property value to the JSON document that represents it.
pub fn serialize_property_value(value: &PropertyValue) -> (o: JsonOut)
    ensures
        spec_serialized(*value, o),
{
    match value {
        PropertyValue::Bool(b) => JsonOut::Bool(*b),
        PropertyValue::Byte(b) => JsonOut::UInt(*b as u64),
        PropertyValue::Int32(i) => JsonOut::Int(*i as i64),
        PropertyValue::Int64(i) => JsonOut::Int(*i),
        PropertyValue::UInt32(u) => JsonOut::UInt(*u as u64),
        PropertyValue::UInt64(u) => JsonOut::UInt(*u),
        PropertyValue::Float(f) => JsonOut::Single(*f),
        PropertyValue::Double(d) => JsonOut::Double(*d),
        PropertyValue::String(s) => JsonOut::String(s.clone()),
        PropertyValue::Vector(v) => vector_out(*v),
        PropertyValue::Rotator(r) => {
            let o = float_object(&["pitch", "yaw", "roll"], &[r.pitch, r.yaw, r.roll]);
            proof {
                assert(seq!["pitch", "yaw", "roll"].map_values(|k: &str| k@) =~= seq!["pitch"@, "yaw"@, "roll"@]);
                assert(seq![r.pitch, r.yaw, r.roll].map_values(|b: u32| JsonOut::Single(b)) =~= seq![JsonOut::Single(r.pitch), JsonOut::Single(r.yaw), JsonOut::Single(r.roll)]);
            }
            o
        },
        PropertyValue::Quat(q) => quat_out(*q),
        PropertyValue::Transform(t) => {
            let mut fs: Vec<(String, JsonOut)> = Vec::new();
            push_member(&mut fs, "location", vector_out(t.location));
            push_member(&mut fs, "rotation", quat_out(t.rotation));
            push_member(&mut fs, "scale", vector_out(t.scale));
            JsonOut::Object(fs)
        },
        PropertyValue::Color(c) => {
            let mut fs: Vec<(String, JsonOut)> = Vec::new();
            push_member(&mut fs, "r", JsonOut::UInt(c.r as u64));
            push_member(&mut fs, "g", JsonOut::UInt(c.g as u64));
            push_member(&mut fs, "b", JsonOut::UInt(c.b as u64));
            push_member(&mut fs, "a", JsonOut::UInt(c.a as u64));
            let o = JsonOut::Object(fs);
            proof {
                let vals = seq![JsonOut::UInt(c.r as u64), JsonOut::UInt(c.g as u64), JsonOut::UInt(c.b as u64), JsonOut::UInt(c.a as u64)];
                let keys = seq!["r"@, "g"@, "b"@, "a"@];
                assert forall|i: int| 0 <= i < keys.len() implies (#[trigger] fs@[i]).0@ == keys[i] && fs@[i].1 == vals[i] by {}
            }
            o
        },
        PropertyValue::ObjectReference(id) => tagged_out("ObjectReference", "id", JsonOut::UInt(*id)),
        PropertyValue::ClassReference(name) => tagged_out("ClassReference", "name", JsonOut::String(name.clone())),
        PropertyValue::ArrayJson(t) => embedded_out("ArrayJson", t),
        PropertyValue::MapJson(t) => embedded_out("MapJson", t),
        PropertyValue::SetJson(t) => embedded_out("SetJson", t),
        PropertyValue::Name(n) => tagged_out("Name", "value", JsonOut::String(n.clone())),
        PropertyValue::Text(t) => tagged_out("Text", "value", JsonOut::String(t.clone())),
        PropertyValue::CustomJson(t) => embedded_out("CustomJson", t),
        PropertyValue::Null => JsonOut::Null,
    }
}

/// The values that come back unchanged from being written and read again.
///
/// Others change shape on the way: a `Byte`, `UInt32` or small `Int64`/`UInt64`
/// reads back as `Int32`, a `Double` within `f32` range reads back as `Float`,
/// non-finite floats read back as `null`, and container values read back as
/// whatever their JSON text denotes.
pub open spec fn client_roundtrips(v: PropertyValue) -> bool {
    match v {
        PropertyValue::Bool(_) => true,
        PropertyValue::Int32(_) => true,
        PropertyValue::Int64(i) => i < i32::MIN || i > i32::MAX,
        PropertyValue::UInt64(u) => u > i64::MAX,
        PropertyValue::Float(f) => f32_bits_finite(f),
        PropertyValue::Double(d) => f64_bits_finite(d) && !f64_bits_in_f32_range(d),
        PropertyValue::String(_) => true,
        PropertyValue::Vector(v) => f32_bits_finite(v.x) && f32_bits_finite(v.y) && f32_bits_finite(v.z),
        PropertyValue::Rotator(r) => f32_bits_finite(r.pitch) && f32_bits_finite(r.yaw) && f32_bits_finite(r.roll),
        PropertyValue::Quat(q) => f32_bits_finite(q.x) && f32_bits_finite(q.y) && f32_bits_finite(q.z) && f32_bits_finite(q.w),
        PropertyValue::Transform(t) =>
            f32_bits_finite(t.location.x) && f32_bits_finite(t.location.y) && f32_bits_finite(t.location.z)
            && f32_bits_finite(t.rotation.x) && f32_bits_finite(t.rotation.y) && f32_bits_finite(t.rotation.z)
            && f32_bits_finite(t.rotation.w)
            && f32_bits_finite(t.scale.x) && f32_bits_finite(t.scale.y) && f32_bits_finite(t.scale.z),
        PropertyValue::Color(_) => true,
        PropertyValue::ObjectReference(_) => true,
        PropertyValue::ClassReference(_) => true,
        PropertyValue::Name(_) => true,
        PropertyValue::Text(_) => true,
        PropertyValue::Null => true,
        _ => false,
    }
}

/// Keys of the members of a document to be rendered are distinct.
pub open spec fn distinct_keys(o: JsonOut) -> bool {
    match o {
        JsonOut::Object(fs) => forall|a: int, b: int| 0 <= a < b < fs@.len() ==> fs@[a].0@ != fs@[b].0@,
        _ => true,
    }
}

/// No two keys of `keys` are equal.
pub open spec fn keys_distinct(keys: Seq<Seq<char>>) -> bool {
    forall|a: int, b: int| 0 <= a < b < keys.len() ==> keys[a] != keys[b]
}

/// No key of `keys` is `k`.
pub open spec fn keys_lack(keys: Seq<Seq<char>>, k: Seq<char>) -> bool {
    forall|a: int| 0 <= a < keys.len() ==> keys[a] != k
}

/// Two keys differ in length or in their first character.
pub open spec fn differ(a: Seq<char>, b: Seq<char>) -> bool {
    a.len() != b.len() || (a.len() > 0 && a[0] != b[0])
}

pub proof fn lemma_differ(a: Seq<char>, b: Seq<char>)
    requires
        differ(a, b),
    ensures
        a != b,
{
    if a.len() == b.len() {
        assert(a[0] != b[0]);
    }
}

pub proof fn lemma_keys3(a: Seq<char>, b: Seq<char>, c: Seq<char>, k: Seq<char>)
    ensures
        (differ(a, b) && differ(a, c) && differ(b, c)) ==> keys_distinct(seq![a, b, c]),
        (differ(a, k) && differ(b, k) && differ(c, k)) ==> keys_lack(seq![a, b, c], k),
{
    let s = seq![a, b, c];
    assert(s[0] == a && s[1] == b && s[2] == c);
    if differ(a, b) && differ(a, c) && differ(b, c) {
        lemma_differ(a, b);
        lemma_differ(a, c);
        lemma_differ(b, c);
        assert forall|x: int, y: int| 0 <= x < y < s.len() implies s[x] != s[y] by {
            if x == 0 && y == 1 {} else if x == 0 && y == 2 {} else {}
        }
    }
    if differ(a, k) && differ(b, k) && differ(c, k) {
        lemma_differ(a, k);
        lemma_differ(b, k);
        lemma_differ(c, k);
        assert forall|x: int| 0 <= x < s.len() implies s[x] != k by {
            if x == 0 {} else if x == 1 {} else {}
        }
    }
}

pub proof fn lemma_keys4(a: Seq<char>, b: Seq<char>, c: Seq<char>, d: Seq<char>, k: Seq<char>)
    ensures
        (differ(a, b) && differ(a, c) && differ(a, d) && differ(b, c) && differ(b, d) && differ(c, d))
            ==> keys_distinct(seq![a, b, c, d]),
        (differ(a, k) && differ(b, k) && differ(c, k) && differ(d, k)) ==> keys_lack(seq![a, b, c, d], k),
{
    let s = seq![a, b, c, d];
    assert(s[0] == a && s[1] == b && s[2] == c && s[3] == d);
    if differ(a, b) && differ(a, c) && differ(a, d) && differ(b, c) && differ(b, d) && differ(c, d) {
        lemma_differ(a, b);
        lemma_differ(a, c);
        lemma_differ(a, d);
        lemma_differ(b, c);
        lemma_differ(b, d);
        lemma_differ(c, d);
        assert forall|x: int, y: int| 0 <= x < y < s.len() implies s[x] != s[y] by {
            if x == 0 && y == 1 {} else if x == 0 && y == 2 {} else if x == 0 && y == 3 {}
            else if x == 1 && y == 2 {} else if x == 1 && y == 3 {} else {}
        }
    }
    if differ(a, k) && differ(b, k) && differ(c, k) && differ(d, k) {
        lemma_differ(a, k);
        lemma_differ(b, k);
        lemma_differ(c, k);
        lemma_differ(d, k);
        assert forall|x: int| 0 <= x < s.len() implies s[x] != k by {
            if x == 0 {} else if x == 1 {} else if x == 2 {} else {}
        }
    }
}

pub proof fn lemma_plain_keys(o: JsonOut, keys: Seq<Seq<char>>, vals: Seq<JsonOut>)
    requires
        plain_object(o, keys, vals),
        keys_distinct(keys),
    ensures
        distinct_keys(o),
        o is Object,
        o->Object_0@.len() == keys.len(),
        forall|a: int| 0 <= a < keys.len() ==> o->Object_0@[a].0@ == keys[a] && o->Object_0@[a].1 == vals[a],
{
    let fs = o->Object_0@;
    assert forall|a: int| 0 <= a < keys.len() implies fs[a].0@ == keys[a] && fs[a].1 == vals[a] by {
        assert(fs[a] == fs[a]);
    }
}

pub proof fn lemma_member_transported(o: JsonOut, i: JsonValue, depth: nat, j: int)
    requires
        transports(o, i, depth),
        o is Object,
        distinct_keys(o),
        0 <= j < o->Object_0@.len(),
    ensures
        i is Object,
        field(i->Object_0@, o->Object_0@[j].0@) is Some,
        depth > 0,
        transports(o->Object_0@[j].1, field(i->Object_0@, o->Object_0@[j].0@)->0, (depth - 1) as nat),
{
    let ofs = o->Object_0@;
    lemma_out_field_at(ofs, j);
    let k = ofs[j].0@;
    assert(out_field(ofs, k) is Some);
}

pub proof fn lemma_member_absent(o: JsonOut, i: JsonValue, depth: nat, keys: Seq<Seq<char>>, vals: Seq<JsonOut>, k: Seq<char>)
    requires
        transports(o, i, depth),
        plain_object(o, keys, vals),
        keys_lack(keys, k),
    ensures
        i is Object,
        field(i->Object_0@, k) is None,
{
    let fs = o->Object_0@;
    assert forall|a: int| 0 <= a < fs.len() implies fs[a].0@ != k by {
        assert(fs[a].0@ == keys[a]);
    }
    lemma_out_field_absent(fs, k);
}

/// Writing a value and reading back what the JSON text gives yields the same
/// value, for every value that `client_roundtrips` admits.
pub proof fn law_client_roundtrip(v: PropertyValue, o: JsonOut, i: JsonValue, canonical: String)
    requires
        spec_serialized(v, o),
        transports(o, i, 2),
        client_roundtrips(v),
    ensures
        spec_deserialize(i, canonical) matches Some(p) && same_value(p, v),
{
    reveal_strlit("x");
    reveal_strlit("y");
    reveal_strlit("z");
    reveal_strlit("w");
    reveal_strlit("type");
    reveal_strlit("pitch");
    reveal_strlit("yaw");
    reveal_strlit("roll");
    reveal_strlit("r");
    reveal_strlit("g");
    reveal_strlit("b");
    reveal_strlit("a");
    reveal_strlit("location");
    reveal_strlit("rotation");
    reveal_strlit("scale");
    reveal_strlit("id");
    reveal_strlit("name");
    reveal_strlit("value");
    reveal_strlit("ObjectReference");
    reveal_strlit("ClassReference");
    reveal_strlit("Name");
    reveal_strlit("Text");
    let ty = "type"@;
    match v {
        PropertyValue::Vector(vec) => {
            let vals = seq![JsonOut::Single(vec.x), JsonOut::Single(vec.y), JsonOut::Single(vec.z)];
            lemma_vector_roundtrip(o, i, 2, vec);
            lemma_keys3("x"@, "y"@, "z"@, ty);
            lemma_member_absent(o, i, 2, xyz_keys(), vals, ty);
            lemma_keys3("x"@, "y"@, "z"@, "w"@);
            lemma_member_absent(o, i, 2, xyz_keys(), vals, "w"@);
            let fs = i->Object_0@;
            assert(tag_of(fs) == Seq::<char>::empty());
            assert(!is_known_tag(tag_of(fs)));
            assert(!has_member(fs, "w"@));
            assert(object_value(fs, canonical) == Some(PropertyValue::Vector(vec)));
            assert(spec_deserialize(i, canonical) == Some(PropertyValue::Vector(vec)));

        },
        PropertyValue::Quat(q) => {
            let vals = seq![JsonOut::Single(q.x), JsonOut::Single(q.y), JsonOut::Single(q.z), JsonOut::Single(q.w)];
            lemma_quat_roundtrip(o, i, 2, q);
            lemma_keys4("x"@, "y"@, "z"@, "w"@, ty);
            lemma_member_absent(o, i, 2, xyzw_keys(), vals, ty);
            assert(tag_of(i->Object_0@) == Seq::<char>::empty());
        },
        PropertyValue::Rotator(r) => {
            let keys = seq!["pitch"@, "yaw"@, "roll"@];
            let vals = seq![JsonOut::Single(r.pitch), JsonOut::Single(r.yaw), JsonOut::Single(r.roll)];
            lemma_keys3("pitch"@, "yaw"@, "roll"@, ty);
            lemma_plain_keys(o, keys, vals);
            lemma_member_transported(o, i, 2, 0);
            lemma_member_transported(o, i, 2, 1);
            lemma_member_transported(o, i, 2, 2);
            lemma_member_absent(o, i, 2, keys, vals, ty);
            lemma_keys3("pitch"@, "yaw"@, "roll"@, "x"@);
            lemma_member_absent(o, i, 2, keys, vals, "x"@);
            assert(tag_of(i->Object_0@) == Seq::<char>::empty());
        },
        PropertyValue::Color(c) => {
            let keys = seq!["r"@, "g"@, "b"@, "a"@];
            let vals = seq![JsonOut::UInt(c.r as u64), JsonOut::UInt(c.g as u64), JsonOut::UInt(c.b as u64), JsonOut::UInt(c.a as u64)];
            lemma_keys4("r"@, "g"@, "b"@, "a"@, ty);
            lemma_plain_keys(o, keys, vals);
            lemma_member_transported(o, i, 2, 0);
            lemma_member_transported(o, i, 2, 1);
            lemma_member_transported(o, i, 2, 2);
            lemma_member_transported(o, i, 2, 3);
            lemma_member_absent(o, i, 2, keys, vals, ty);
            lemma_keys4("r"@, "g"@, "b"@, "a"@, "x"@);
            lemma_member_absent(o, i, 2, keys, vals, "x"@);
            lemma_keys4("r"@, "g"@, "b"@, "a"@, "pitch"@);
            lemma_member_absent(o, i, 2, keys, vals, "pitch"@);
            assert(tag_of(i->Object_0@) == Seq::<char>::empty());
        },
        PropertyValue::Transform(t) => {
            let ofs = o->Object_0@;
            let keys = seq!["location"@, "rotation"@, "scale"@];
            let vals = seq![ofs[0].1, ofs[1].1, ofs[2].1];
            lemma_keys3("location"@, "rotation"@, "scale"@, ty);
            assert(plain_object(o, keys, vals)) by {
                assert forall|x: int| 0 <= x < keys.len() implies (#[trigger] ofs[x]).0@ == keys[x] && ofs[x].1 == vals[x] by {
                    if x == 0 {} else if x == 1 {} else {}
                }
            }
            lemma_plain_keys(o, keys, vals);
            lemma_member_transported(o, i, 2, 0);
            lemma_member_transported(o, i, 2, 1);
            lemma_member_transported(o, i, 2, 2);
            let fs = i->Object_0@;
            lemma_vector_roundtrip(ofs[0].1, field(fs, "location"@)->0, 1, t.location);
            lemma_quat_roundtrip(ofs[1].1, field(fs, "rotation"@)->0, 1, t.rotation);
            lemma_vector_roundtrip(ofs[2].1, field(fs, "scale"@)->0, 1, t.scale);
            lemma_member_absent(o, i, 2, keys, vals, ty);
            lemma_keys3("location"@, "rotation"@, "scale"@, "x"@);
            lemma_member_absent(o, i, 2, keys, vals, "x"@);
            lemma_keys3("location"@, "rotation"@, "scale"@, "pitch"@);
            lemma_member_absent(o, i, 2, keys, vals, "pitch"@);
            lemma_keys3("location"@, "rotation"@, "scale"@, "r"@);
            lemma_member_absent(o, i, 2, keys, vals, "r"@);
            assert(tag_of(fs) == Seq::<char>::empty());
        },
        PropertyValue::ObjectReference(_) => {
            lemma_differ(ty, "id"@);
            lemma_differ("ObjectReference"@, "ClassReference"@);
            lemma_differ("ObjectReference"@, "Name"@);
            lemma_differ("ObjectReference"@, "Text"@);
            lemma_tagged_roundtrip(o, i, "ObjectReference"@, "id"@);
        },
        PropertyValue::ClassReference(_) => {
            lemma_differ(ty, "name"@);
            lemma_differ("ClassReference"@, "ObjectReference"@);
            lemma_differ("ClassReference"@, "Name"@);
            lemma_differ("ClassReference"@, "Text"@);
            lemma_tagged_roundtrip(o, i, "ClassReference"@, "name"@);
        },
        PropertyValue::Name(_) => {
            lemma_differ(ty, "value"@);
            lemma_differ("Name"@, "ObjectReference"@);
            lemma_differ("Name"@, "ClassReference"@);
            lemma_differ("Name"@, "Text"@);
            lemma_tagged_roundtrip(o, i, "Name"@, "value"@);
        },
        PropertyValue::Text(_) => {
            lemma_differ(ty, "value"@);
            lemma_differ("Text"@, "ObjectReference"@);
            lemma_differ("Text"@, "ClassReference"@);
            lemma_differ("Text"@, "Name"@);
            lemma_tagged_roundtrip(o, i, "Text"@, "value"@);
        },
        _ => {},
    }
}

proof fn lemma_tagged_roundtrip(o: JsonOut, i: JsonValue, tag: Seq<char>, key: Seq<char>)
    requires
        tagged_object(o, tag, key, o->Object_0@[1].1),
        transports(o, i, 2),
        "type"@ != key,
    ensures
        i is Object,
        field(i->Object_0@, "type"@) matches Some(JsonValue::String(t)) && t@ == tag,
        field(i->Object_0@, key) is Some,
        transports(o->Object_0@[1].1, field(i->Object_0@, key)->0, 1),
{
    let ofs = o->Object_0@;
    assert(distinct_keys(o));
    lemma_member_transported(o, i, 2, 0);
    lemma_member_transported(o, i, 2, 1);
}

proof fn lemma_vector_roundtrip(o: JsonOut, i: JsonValue, depth: nat, v: Vector3)
    requires
        vector_object(o, v),
        transports(o, i, depth),
        f32_bits_finite(v.x) && f32_bits_finite(v.y) && f32_bits_finite(v.z),
    ensures
        i is Object,
        vector_members(i->Object_0@) == Some(v),
        has_member(i->Object_0@, "x"@) && has_member(i->Object_0@, "y"@) && has_member(i->Object_0@, "z"@),
{
    reveal_strlit("x");
    reveal_strlit("y");
    reveal_strlit("z");
    lemma_keys3("x"@, "y"@, "z"@, "w"@);
    lemma_plain_keys(o, xyz_keys(), seq![JsonOut::Single(v.x), JsonOut::Single(v.y), JsonOut::Single(v.z)]);
    lemma_member_transported(o, i, depth, 0);
    lemma_member_transported(o, i, depth, 1);
    lemma_member_transported(o, i, depth, 2);
}

proof fn lemma_quat_roundtrip(o: JsonOut, i: JsonValue, depth: nat, q: Quat)
    requires
        quat_object(o, q),
        transports(o, i, depth),
        f32_bits_finite(q.x) && f32_bits_finite(q.y) && f32_bits_finite(q.z) && f32_bits_finite(q.w),
    ensures
        i is Object,
        quat_members(i->Object_0@) == Some(q),
        has_member(i->Object_0@, "x"@) && has_member(i->Object_0@, "y"@) && has_member(i->Object_0@, "z"@) && has_member(i->Object_0@, "w"@),
{
    reveal_strlit("x");
    reveal_strlit("y");
    reveal_strlit("z");
    reveal_strlit("w");
    lemma_keys4("x"@, "y"@, "z"@, "w"@, "w"@);
    lemma_plain_keys(o, xyzw_keys(), seq![JsonOut::Single(q.x), JsonOut::Single(q.y), JsonOut::Single(q.z), JsonOut::Single(q.w)]);
    lemma_member_transported(o, i, depth, 0);
    lemma_member_transported(o, i, depth, 1);
    lemma_member_transported(o, i, depth, 2);
    lemma_member_transported(o, i, depth, 3);
}

} // verus!
