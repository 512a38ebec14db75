use stdb_unreal::client::serialization::{
    deserialize_property_value as client_deserialize, serialize_property_value as client_serialize,
};
use stdb_unreal::collections::AssocMap;
use stdb_unreal::server::conversion::{parse_color, value_form, ValueForm};
use stdb_unreal::json::{JsonNumber, JsonOut, JsonValue, NumberRepr};
use stdb_unreal::server::serialization::{
    deserialize_property_map, deserialize_property_value as server_deserialize, serialize_property_map,
    serialize_property_value as server_serialize,
};
use stdb_unreal::shared::property::PropertyValue;
use stdb_unreal::shared::types::{Color, Quat, Transform, Vector3};

fn uint(u: u64) -> JsonValue {
    JsonValue::Number(JsonNumber { repr: NumberRepr::PosInt(u), as_f64_bits: (u as f64).to_bits(), as_f32_bits: (u as f32).to_bits() })
}

fn signed(i: i64) -> JsonValue {
    if i >= 0 {
        return uint(i as u64);
    }
    JsonValue::Number(JsonNumber { repr: NumberRepr::NegInt(i), as_f64_bits: (i as f64).to_bits(), as_f32_bits: (i as f32).to_bits() })
}

fn float(x: f64) -> JsonValue {
    JsonValue::Number(JsonNumber { repr: NumberRepr::Float(x.to_bits()), as_f64_bits: x.to_bits(), as_f32_bits: (x as f32).to_bits() })
}

fn obj(members: Vec<(&str, JsonValue)>) -> JsonValue {
    JsonValue::Object(members.into_iter().map(|(k, v)| (k.to_string(), v)).collect())
}

fn s(t: &str) -> JsonValue {
    JsonValue::String(t.to_string())
}

fn tagged(t: &str, v: JsonValue) -> JsonValue {
    obj(vec![("type", s(t)), ("value", v)])
}

fn members(o: &JsonOut) -> Vec<(String, &JsonOut)> {
    match o {
        JsonOut::Object(fs) => fs.iter().map(|(k, v)| (k.clone(), v)).collect(),
        _ => Vec::new(),
    }
}

fn no_text() -> String {
    String::new()
}

#[test]
fn server_tags_each_value() {
    let doc = server_serialize(&PropertyValue::Int32(-4)).unwrap();
    let m = members(&doc);
    assert_eq!(m.len(), 2);
    assert_eq!(m[0].0, "type");
    assert!(matches!(m[0].1, JsonOut::String(t) if t == "Int32"));
    assert_eq!(m[1].0, "value");
    assert!(matches!(m[1].1, JsonOut::Int(-4)));
    // Large unsigned values are written as decimal text.
    let big = server_serialize(&PropertyValue::UInt64(u64::MAX)).unwrap();
    assert!(matches!(members(&big)[1].1, JsonOut::String(t) if t == "18446744073709551615"));
    // Non-finite floats are written as 0.
    let nan = server_serialize(&PropertyValue::Float(f32::NAN.to_bits())).unwrap();
    assert!(matches!(members(&nan)[1].1, JsonOut::UInt(0)));
    let null = server_serialize(&PropertyValue::Null).unwrap();
    assert!(matches!(members(&null)[0].1, JsonOut::String(t) if t == "None"));
    let arr = server_serialize(&PropertyValue::ArrayJson("[1,2]".to_string())).unwrap();
    assert!(matches!(members(&arr)[1].1, JsonOut::Embedded { label, text } if label == "array" && text == "[1,2]"));
}

#[test]
fn server_transform_payload() {
    let t = Transform::new(Vector3::new(1, 2, 3), Quat::new(4, 5, 6, 7), Vector3::new(8, 9, 10));
    let doc = server_serialize(&PropertyValue::Transform(t)).unwrap();
    let payload = members(&doc)[1].1;
    let parts = members(payload);
    let names: Vec<String> = parts.iter().map(|(k, _)| k.clone()).collect();
    assert_eq!(names, vec!["position", "rotation", "scale"]);
    assert!(matches!(members(parts[1].1)[3].1, JsonOut::Single(7)));
}

#[test]
fn server_reads_tagged_documents() {
    assert!(matches!(server_deserialize(&tagged("Bool", JsonValue::Bool(true)), &no_text()), Ok(PropertyValue::Bool(true))));
    assert!(matches!(server_deserialize(&tagged("Byte", uint(300)), &no_text()), Ok(PropertyValue::Byte(44))));
    assert!(matches!(server_deserialize(&tagged("Int32", signed(-7)), &no_text()), Ok(PropertyValue::Int32(-7))));
    assert!(matches!(server_deserialize(&tagged("UInt64", s("123")), &no_text()), Ok(PropertyValue::UInt64(123))));
    assert!(matches!(server_deserialize(&tagged("UInt64", uint(9)), &no_text()), Ok(PropertyValue::UInt64(9))));
    assert_eq!(
        server_deserialize(&tagged("UInt64", s("12x")), &no_text()).unwrap_err(),
        "Failed to parse u64: invalid digit found in string"
    );
    assert_eq!(
        server_deserialize(&tagged("UInt64", JsonValue::Bool(true)), &no_text()).unwrap_err(),
        "Expected numeric or string value for UInt64"
    );
    assert!(matches!(server_deserialize(&tagged("Float", float(1.5)), &no_text()), Ok(PropertyValue::Float(b)) if b == 1.5f32.to_bits()));
    assert_eq!(server_deserialize(&tagged("Float", s("x")), &no_text()).unwrap_err(), "Expected floating point value");
    let color = obj(vec![("r", uint(1)), ("g", uint(2)), ("b", uint(3)), ("a", uint(4))]);
    assert!(matches!(server_deserialize(&tagged("Color", color), &no_text()),
        Ok(PropertyValue::Color(c)) if c == Color::new(1, 2, 3, 4)));
    let partial = obj(vec![("r", uint(1)), ("g", uint(2)), ("b", uint(3))]);
    assert_eq!(server_deserialize(&tagged("Color", partial), &no_text()).unwrap_err(), "Missing a component");
    assert_eq!(
        server_deserialize(&tagged("Vector", obj(vec![("x", float(1.0)), ("y", float(2.0))])), &no_text()).unwrap_err(),
        "Missing z component"
    );
    let text = "[1, 2]".to_string();
    assert!(matches!(server_deserialize(&tagged("Array", JsonValue::Null), &text), Ok(PropertyValue::ArrayJson(t)) if t == text));
    assert!(matches!(server_deserialize(&tagged("None", JsonValue::Null), &no_text()), Ok(PropertyValue::Null)));
    assert_eq!(server_deserialize(&tagged("Blob", JsonValue::Null), &no_text()).unwrap_err(), "Unknown property type: Blob");
}

#[test]
fn server_rejects_malformed_documents() {
    assert_eq!(
        server_deserialize(&JsonValue::Bool(true), &no_text()).unwrap_err(),
        "Failed to deserialize property value: invalid type, expected a tagged property value"
    );
    assert_eq!(
        server_deserialize(&obj(vec![("value", uint(1))]), &no_text()).unwrap_err(),
        "Failed to deserialize property value: missing field `type`"
    );
    assert_eq!(
        server_deserialize(&obj(vec![("type", s("Int32"))]), &no_text()).unwrap_err(),
        "Failed to deserialize property value: missing field `value`"
    );
    assert_eq!(
        server_deserialize(&obj(vec![("type", uint(3)), ("value", uint(1))]), &no_text()).unwrap_err(),
        "Failed to deserialize property value: invalid type for field `type`, expected a string"
    );
}

#[test]
fn server_property_maps() {
    let mut props = AssocMap::new();
    props.insert("Health".to_string(), PropertyValue::Int32(10));
    props.insert("Name".to_string(), PropertyValue::String("Bob".to_string()));
    let doc = serialize_property_map(&props).unwrap();
    let names: Vec<String> = members(&doc).iter().map(|(k, _)| k.clone()).collect();
    assert_eq!(names, vec!["Health", "Name"]);
    let read = deserialize_property_map(&vec![
        ("Health".to_string(), tagged("Int32", uint(10)), "10".to_string()),
        ("Name".to_string(), tagged("String", s("Bob")), "\"Bob\"".to_string()),
    ])
    .unwrap();
    assert_eq!(read.len(), 2);
    assert!(matches!(read.get(&"Health".to_string()), Some(PropertyValue::Int32(10))));
    let bad = deserialize_property_map(&vec![
        ("Health".to_string(), tagged("Int32", uint(10)), "10".to_string()),
        ("Name".to_string(), tagged("String", uint(1)), "1".to_string()),
    ]);
    assert_eq!(bad.err(), Some("Expected string value".to_string()));
}

#[test]
fn client_reads_documents_by_shape() {
    assert!(matches!(client_deserialize(&uint(5), &no_text()), Ok(PropertyValue::Int32(5))));
    assert!(matches!(client_deserialize(&uint(3_000_000_000), &no_text()), Ok(PropertyValue::Int64(3_000_000_000))));
    assert!(matches!(client_deserialize(&uint(u64::MAX), &no_text()), Ok(PropertyValue::UInt64(u64::MAX))));
    assert!(matches!(client_deserialize(&signed(-5_000_000_000), &no_text()), Ok(PropertyValue::Int64(-5_000_000_000))));
    assert!(matches!(client_deserialize(&float(0.5), &no_text()), Ok(PropertyValue::Float(b)) if b == 0.5f32.to_bits()));
    assert!(matches!(client_deserialize(&float(1e300), &no_text()), Ok(PropertyValue::Double(b)) if b == 1e300f64.to_bits()));
    assert!(matches!(client_deserialize(&JsonValue::Null, &no_text()), Ok(PropertyValue::Null)));
    let v = obj(vec![("x", float(1.0)), ("y", float(2.0)), ("z", float(3.0))]);
    assert!(matches!(client_deserialize(&v, &no_text()),
        Ok(PropertyValue::Vector(p)) if p == Vector3::new(1.0f32.to_bits(), 2.0f32.to_bits(), 3.0f32.to_bits())));
    let c = obj(vec![("r", uint(1)), ("g", uint(2)), ("b", uint(3))]);
    assert!(matches!(client_deserialize(&c, &no_text()), Ok(PropertyValue::Color(col)) if col == Color::new(1, 2, 3, 255)));
    let r = obj(vec![("type", s("ObjectReference")), ("id", uint(77))]);
    assert!(matches!(client_deserialize(&r, &no_text()), Ok(PropertyValue::ObjectReference(77))));
    let other = obj(vec![("hello", uint(1))]);
    let canon = "{\"hello\":1}".to_string();
    assert!(matches!(client_deserialize(&other, &canon), Ok(PropertyValue::CustomJson(t)) if t == canon));
    let arr = JsonValue::Array(vec![uint(1)]);
    assert!(matches!(client_deserialize(&arr, &"[1]".to_string()), Ok(PropertyValue::ArrayJson(t)) if t == "[1]"));
    let bad_vector = obj(vec![("x", float(1.0)), ("y", s("two")), ("z", float(3.0))]);
    assert!(client_deserialize(&bad_vector, &no_text()).is_err());
}

#[test]
fn client_writes_documents() {
    assert!(matches!(client_serialize(&PropertyValue::UInt64(9)), JsonOut::UInt(9)));
    let r = client_serialize(&PropertyValue::ObjectReference(5));
    let m = members(&r);
    assert!(matches!(m[0].1, JsonOut::String(t) if t == "ObjectReference"));
    assert_eq!(m[1].0, "id");
    assert!(matches!(m[1].1, JsonOut::UInt(5)));
    let t = client_serialize(&PropertyValue::Transform(Transform::identity()));
    let names: Vec<String> = members(&t).iter().map(|(k, _)| k.clone()).collect();
    assert_eq!(names, vec!["location", "rotation", "scale"]);
    assert!(matches!(client_serialize(&PropertyValue::MapJson("{}".to_string())),
        JsonOut::Embedded { label, text } if label == "MapJson" && text == "{}"));
}

#[test]
fn colors_read_from_text() {
    assert!(matches!(parse_color("(R=255,G=128,B=64,A=10)"), PropertyValue::Color(c) if c == Color::new(255, 128, 64, 10)));
    // Alpha defaults to opaque; spaces around a piece and before `=` are dropped,
    // but a space after `=` makes the value unreadable.
    assert!(matches!(parse_color("( R = 1, G=2 ,B=3)"), PropertyValue::Color(c) if c == Color::new(0, 2, 3, 255)));
    // A value out of range or unreadable leaves the channel unset; a later piece wins.
    assert!(matches!(parse_color("(R=256,G=x,B=5,B=6)"), PropertyValue::Color(c) if c == Color::new(0, 0, 6, 255)));
    assert!(matches!(parse_color("(R=+7,Q=1,G)"), PropertyValue::Color(c) if c == Color::new(7, 0, 0, 255)));
    assert!(matches!(parse_color("()"), PropertyValue::Color(c) if c == Color::new(0, 0, 0, 255)));
}

#[test]
fn client_read_errors_name_the_member() {
    let e = |v: JsonValue| client_deserialize(&v, &no_text()).unwrap_err();
    assert_eq!(e(obj(vec![("type", s("ObjectReference")), ("id", s("x"))])), "Invalid ObjectReference format");
    assert_eq!(e(obj(vec![("type", s("Text"))])), "Invalid Text format");
    assert_eq!(e(obj(vec![("x", float(1.0)), ("y", JsonValue::Null), ("z", float(1.0))])), "Missing or invalid field 'y'");
    assert_eq!(
        e(obj(vec![("x", float(1.0)), ("y", float(1.0)), ("z", float(1.0)), ("w", s("1"))])),
        "Missing or invalid field 'w'"
    );
    assert_eq!(e(obj(vec![("pitch", float(1.0)), ("yaw", float(1.0)), ("roll", s("r"))])), "Missing or invalid field 'roll'");
    assert_eq!(e(obj(vec![("r", signed(-1)), ("g", uint(1)), ("b", uint(1))])), "Invalid number for field 'r'");
    assert_eq!(e(obj(vec![("r", uint(1)), ("g", s("1")), ("b", uint(1))])), "Missing or invalid field 'g'");
    let good_vec = obj(vec![("x", float(1.0)), ("y", float(1.0)), ("z", float(1.0))]);
    assert_eq!(
        e(obj(vec![("location", uint(1)), ("rotation", uint(1)), ("scale", uint(1))])),
        "Missing or invalid Vector3 structure"
    );
    assert_eq!(
        e(obj(vec![("location", good_vec), ("rotation", uint(1)), ("scale", uint(1))])),
        "Missing or invalid Quat structure"
    );
}

/// What reading back the JSON text of a written document gives.
fn carry(o: &JsonOut) -> JsonValue {
    match o {
        JsonOut::Null => JsonValue::Null,
        JsonOut::Bool(b) => JsonValue::Bool(*b),
        JsonOut::UInt(u) => uint(*u),
        JsonOut::Int(i) => signed(*i),
        JsonOut::Single(b) => {
            let x = f32::from_bits(*b);
            if x.is_finite() { float(x as f64) } else { JsonValue::Null }
        },
        JsonOut::Double(b) => {
            let x = f64::from_bits(*b);
            if x.is_finite() { float(x) } else { JsonValue::Null }
        },
        JsonOut::String(t) => JsonValue::String(t.clone()),
        JsonOut::Array(xs) => JsonValue::Array(xs.iter().map(carry).collect()),
        JsonOut::Object(fs) => JsonValue::Object(fs.iter().map(|(k, v)| (k.clone(), carry(v))).collect()),
        JsonOut::Embedded { .. } => JsonValue::Null,
    }
}

fn value_member(o: &JsonOut) -> String {
    match o {
        JsonOut::Object(fs) => match &fs[1].1 {
            JsonOut::String(t) => format!("\"{}\"", t),
            _ => String::new(),
        },
        _ => String::new(),
    }
}

#[test]
fn written_values_read_back() {
    let t = Transform::new(
        Vector3::new(1.5f32.to_bits(), (-2.0f32).to_bits(), 0.25f32.to_bits()),
        Quat::new(0, 0, 0, 1.0f32.to_bits()),
        Vector3::new(1.0f32.to_bits(), 1.0f32.to_bits(), 1.0f32.to_bits()),
    );
    let values = vec![
        PropertyValue::Bool(true),
        PropertyValue::Int32(-12),
        PropertyValue::UInt64(u64::MAX),
        PropertyValue::Float(3.5f32.to_bits()),
        PropertyValue::String("hi".to_string()),
        PropertyValue::Transform(t),
        PropertyValue::Color(Color::new(1, 2, 3, 4)),
        PropertyValue::ObjectReference(99),
        PropertyValue::Name("N".to_string()),
        PropertyValue::Null,
    ];
    for v in &values {
        let back = client_deserialize(&carry(&client_serialize(v)), &no_text()).unwrap();
        assert_eq!(format!("{:?}", back), format!("{:?}", v));
        let doc = server_serialize(v).unwrap();
        let back = server_deserialize(&carry(&doc), &value_member(&doc)).unwrap();
        assert_eq!(format!("{:?}", back), format!("{:?}", v));
    }
    // A byte is written as a plain number and reads back as the narrowest integer.
    let back = client_deserialize(&carry(&client_serialize(&PropertyValue::Byte(5))), &no_text()).unwrap();
    assert!(matches!(back, PropertyValue::Int32(5)));
}

#[test]
fn value_forms_from_text() {
    assert_eq!(value_form("", None, false), ValueForm::Null);
    assert_eq!(value_form("true", None, false), ValueForm::Bool(true));
    assert_eq!(value_form("false", None, false), ValueForm::Bool(false));
    assert_eq!(value_form("-42", Some(-42), true), ValueForm::Int32(-42));
    assert_eq!(value_form("2.5", None, true), ValueForm::Float);
    assert_eq!(value_form("(X=1,Y=2,Z=3)", None, false), ValueForm::Vector);
    assert_eq!(value_form("(Pitch=1,Yaw=2,Roll=3)", None, false), ValueForm::Rotator);
    assert_eq!(value_form("(R=1,G=2,B=3,A=4)", None, false), ValueForm::Color);
    assert_eq!(value_form("X=1,Y=2,Z=3", None, false), ValueForm::Text);
    assert_eq!(value_form("(X=1,Y=2)", None, false), ValueForm::Text);
    assert_eq!(value_form("hello", None, false), ValueForm::Text);
}
