//! Property types, values and definitions shared by client and server.
use vstd::prelude::*;
use crate::shared::types::{Vector3, Rotator, Quat, Transform, Color, ObjectId};
use crate::collections::Duplicate;

verus! {

/// The different types of properties that can be stored in a UObject.
#[derive(Debug, Clone, Copy, PartialEq, Eq, Structural)]
pub enum PropertyType {
    Bool,
    Byte,
    Int32,
    Int64,
    UInt32,
    UInt64,
    Float,
    Double,
    String,
    Vector,
    Rotator,
    Quat,
    Transform,
    Color,
    ObjectReference,
    ClassReference,
    Array,
    /// A `TMap<K, V>` (the name `Map` is reserved by the verifier's prelude).
    TMap,
    /// A `TSet<T>` (the name `Set` is reserved by the verifier's prelude).
    TSet,
    Name,
    Text,
    Custom,
}

/// The value of a property.
///
/// `Float` carries an `f32` bit pattern and `Double` an `f64` bit pattern.
/// Container values are kept as JSON text.
#[derive(Debug)]
pub enum PropertyValue {
    Bool(bool),
    Byte(u8),
    Int32(i32),
    Int64(i64),
    UInt32(u32),
    UInt64(u64),
    Float(u32),
    Double(u64),
    String(String),
    Vector(Vector3),
    Rotator(Rotator),
    Quat(Quat),
    Transform(Transform),
    Color(Color),
    ObjectReference(ObjectId),
    ClassReference(String),
    ArrayJson(String),
    MapJson(String),
    SetJson(String),
    Name(String),
    Text(String),
    CustomJson(String),
    /// The null value (the name `None` is reserved by the verifier's prelude).
    Null,
}

impl Clone for PropertyValue {
    fn clone(&self) -> (r: Self)
        ensures
            r == *self,
    {
        match self {
            PropertyValue::Bool(b) => PropertyValue::Bool(*b),
            PropertyValue::Byte(b) => PropertyValue::Byte(*b),
            PropertyValue::Int32(i) => PropertyValue::Int32(*i),
            PropertyValue::Int64(i) => PropertyValue::Int64(*i),
            PropertyValue::UInt32(u) => PropertyValue::UInt32(*u),
            PropertyValue::UInt64(u) => PropertyValue::UInt64(*u),
            PropertyValue::Float(f) => PropertyValue::Float(*f),
            PropertyValue::Double(d) => PropertyValue::Double(*d),
            PropertyValue::String(s) => PropertyValue::String(s.clone()),
            PropertyValue::Vector(v) => PropertyValue::Vector(*v),
            PropertyValue::Rotator(r) => PropertyValue::Rotator(*r),
            PropertyValue::Quat(q) => PropertyValue::Quat(*q),
            PropertyValue::Transform(t) => PropertyValue::Transform(*t),
            PropertyValue::Color(c) => PropertyValue::Color(*c),
            PropertyValue::ObjectReference(id) => PropertyValue::ObjectReference(*id),
            PropertyValue::ClassReference(s) => PropertyValue::ClassReference(s.clone()),
            PropertyValue::ArrayJson(s) => PropertyValue::ArrayJson(s.clone()),
            PropertyValue::MapJson(s) => PropertyValue::MapJson(s.clone()),
            PropertyValue::SetJson(s) => PropertyValue::SetJson(s.clone()),
            PropertyValue::Name(s) => PropertyValue::Name(s.clone()),
            PropertyValue::Text(s) => PropertyValue::Text(s.clone()),
            PropertyValue::CustomJson(s) => PropertyValue::CustomJson(s.clone()),
            PropertyValue::Null => PropertyValue::Null,
        }
    }
}

impl Duplicate for PropertyValue {
    fn duplicate(&self) -> (r: Self) {
        self.clone()
    }
}

impl PropertyValue {
    /// The property type that a value belongs to; `Null` counts as `Bool`.
    pub open spec fn spec_type(self) -> PropertyType {
        match self {
            PropertyValue::Bool(_) => PropertyType::Bool,
            PropertyValue::Byte(_) => PropertyType::Byte,
            PropertyValue::Int32(_) => PropertyType::Int32,
            PropertyValue::Int64(_) => PropertyType::Int64,
            PropertyValue::UInt32(_) => PropertyType::UInt32,
            PropertyValue::UInt64(_) => PropertyType::UInt64,
            PropertyValue::Float(_) => PropertyType::Float,
            PropertyValue::Double(_) => PropertyType::Double,
            PropertyValue::String(_) => PropertyType::String,
            PropertyValue::Vector(_) => PropertyType::Vector,
            PropertyValue::Rotator(_) => PropertyType::Rotator,
            PropertyValue::Quat(_) => PropertyType::Quat,
            PropertyValue::Transform(_) => PropertyType::Transform,
            PropertyValue::Color(_) => PropertyType::Color,
            PropertyValue::ObjectReference(_) => PropertyType::ObjectReference,
            PropertyValue::ClassReference(_) => PropertyType::ClassReference,
            PropertyValue::ArrayJson(_) => PropertyType::Array,
            PropertyValue::MapJson(_) => PropertyType::TMap,
            PropertyValue::SetJson(_) => PropertyType::TSet,
            PropertyValue::Name(_) => PropertyType::Name,
            PropertyValue::Text(_) => PropertyType::Text,
            PropertyValue::CustomJson(_) => PropertyType::Custom,
            PropertyValue::Null => PropertyType::Bool,
        }
    }

    /// Get the type of this property value.
    pub fn get_type(&self) -> (t: PropertyType)
        ensures
            t == self.spec_type(),
    {
        match self {
            PropertyValue::Bool(_) => PropertyType::Bool,
            PropertyValue::Byte(_) => PropertyType::Byte,
            PropertyValue::Int32(_) => PropertyType::Int32,
            PropertyValue::Int64(_) => PropertyType::Int64,
            PropertyValue::UInt32(_) => PropertyType::UInt32,
            PropertyValue::UInt64(_) => PropertyType::UInt64,
            PropertyValue::Float(_) => PropertyType::Float,
            PropertyValue::Double(_) => PropertyType::Double,
            PropertyValue::String(_) => PropertyType::String,
            PropertyValue::Vector(_) => PropertyType::Vector,
            PropertyValue::Rotator(_) => PropertyType::Rotator,
            PropertyValue::Quat(_) => PropertyType::Quat,
            PropertyValue::Transform(_) => PropertyType::Transform,
            PropertyValue::Color(_) => PropertyType::Color,
            PropertyValue::ObjectReference(_) => PropertyType::ObjectReference,
            PropertyValue::ClassReference(_) => PropertyType::ClassReference,
            PropertyValue::ArrayJson(_) => PropertyType::Array,
            PropertyValue::MapJson(_) => PropertyType::TMap,
            PropertyValue::SetJson(_) => PropertyType::TSet,
            PropertyValue::Name(_) => PropertyType::Name,
            PropertyValue::Text(_) => PropertyType::Text,
            PropertyValue::CustomJson(_) => PropertyType::Custom,
            PropertyValue::Null => PropertyType::Bool,
        }
    }
}

/// Replication settings of a property.
#[derive(Debug, Clone, Copy, PartialEq, Eq, Structural)]
pub enum ReplicationCondition {
    /// Always replicate this property.
    Always,
    /// Only replicate when the value changes.
    OnChange,
    /// Only replicate when initial.
    Initial,
    /// Only replicate to the owner client.
    OwnerOnly,
    /// Only replicate to the server.
    ServerOnly,
    /// Custom condition.
    Custom,
}

/// A property definition with constraints.
#[derive(Debug)]
pub struct PropertyDefinition {
    pub name: String,
    pub property_type: PropertyType,
    pub replicated: bool,
    pub replication_condition: ReplicationCondition,
    pub readonly: bool,
    pub flags: u32,
}

impl Clone for PropertyDefinition {
    fn clone(&self) -> (r: Self)
        ensures
            r == *self,
    {
        PropertyDefinition {
            name: self.name.clone(),
            property_type: self.property_type,
            replicated: self.replicated,
            replication_condition: self.replication_condition,
            readonly: self.readonly,
            flags: self.flags,
        }
    }
}

/// What a property definition says, with its name as a character sequence.
pub struct DefinitionView {
    pub name: Seq<char>,
    pub property_type: PropertyType,
    pub replicated: bool,
    pub replication_condition: ReplicationCondition,
    pub readonly: bool,
    pub flags: u32,
}

impl View for PropertyDefinition {
    type V = DefinitionView;

    open spec fn view(&self) -> DefinitionView {
        DefinitionView {
            name: self.name@,
            property_type: self.property_type,
            replicated: self.replicated,
            replication_condition: self.replication_condition,
            readonly: self.readonly,
            flags: self.flags,
        }
    }
}

impl Default for PropertyDefinition {
    fn default() -> (d: Self)
        ensures
            d.name@ == Seq::<char>::empty(),
            d.property_type == PropertyType::Bool,
            !d.replicated,
            d.replication_condition == ReplicationCondition::OnChange,
            !d.readonly,
            d.flags == 0,
    {
        PropertyDefinition {
            name: String::new(),
            property_type: PropertyType::Bool,
            replicated: false,
            replication_condition: ReplicationCondition::OnChange,
            readonly: false,
            flags: 0,
        }
    }
}

/// Two property values are the same value: same variant and payload, strings compared by content.
pub open spec fn same_value(a: PropertyValue, b: PropertyValue) -> bool {
    match a {
        PropertyValue::String(x) => b matches PropertyValue::String(y) && x@ == y@,
        PropertyValue::ClassReference(x) => b matches PropertyValue::ClassReference(y) && x@ == y@,
        PropertyValue::ArrayJson(x) => b matches PropertyValue::ArrayJson(y) && x@ == y@,
        PropertyValue::MapJson(x) => b matches PropertyValue::MapJson(y) && x@ == y@,
        PropertyValue::SetJson(x) => b matches PropertyValue::SetJson(y) && x@ == y@,
        PropertyValue::Name(x) => b matches PropertyValue::Name(y) && x@ == y@,
        PropertyValue::Text(x) => b matches PropertyValue::Text(y) && x@ == y@,
        PropertyValue::CustomJson(x) => b matches PropertyValue::CustomJson(y) && x@ == y@,
        _ => a == b,
    }
}

} // verus!
