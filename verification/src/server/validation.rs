//! Property constraints and schemas, and the checks of a value against them.
//!
//! Whole-number values are compared with whole-number bounds here. A
//! comparison that involves a floating-point value or bound is made by the
//! caller, who hands in whether the value lies below its minimum or above
//! its maximum.
use vstd::prelude::*;
use crate::collections::AssocMap;
use crate::shared::property::{PropertyType, PropertyValue};
use crate::text::{owned, signed_decimal, format_i32};
use crate::client::property::{name_of_type, property_type_name};

verus! {

/// The constraints on a property.
#[derive(Debug)]
pub struct PropertyConstraint {
    pub property_type: PropertyType,
    /// Minimum value, for numeric types.
    pub min_value: Option<PropertyValue>,
    /// Maximum value, for numeric types.
    pub max_value: Option<PropertyValue>,
    /// The values a string may take.
    pub allowed_values: Option<Vec<String>>,
    /// Whether the property may not be null.
    pub required: bool,
    /// Name of a custom validator (run by clients).
    pub custom_validator: Option<String>,
}

/// Why a value does not meet its constraints.
#[derive(Debug, Clone, Copy, PartialEq, Eq, Structural)]
pub enum ValidationError {
    /// The class has no schema.
    NoSchema,
    /// The class's schema does not define the property.
    UndefinedProperty,
    /// The property is required but the value is null.
    Required,
    /// The value has another type than the property.
    TypeMismatch { expected: PropertyType, got: PropertyType },
    /// A numeric value lies below the minimum.
    BelowMinimum,
    /// A numeric value lies above the maximum.
    AboveMaximum,
    /// A string is not among the allowed values.
    NotAllowed,
}

/// The texts of a list of strings.
pub open spec fn texts(v: Seq<String>) -> Seq<Seq<char>> {
    v.map_values(|s: String| s@)
}

/// Whether a numeric value lies below the minimum `min`. An `Int32` value is
/// compared here with an `Int32` minimum (a bound that is not a number
/// bounds nothing, as the lowest `f64` does); a comparison with a float, on
/// either side, is `below_min`, made by the caller.
pub open spec fn lies_below(v: PropertyValue, min: Option<PropertyValue>, below_min: bool) -> bool {
    match v {
        PropertyValue::Int32(x) => match min {
            Some(PropertyValue::Int32(m)) => x < m,
            Some(PropertyValue::Float(_)) | Some(PropertyValue::Double(_)) => below_min,
            _ => false,
        },
        PropertyValue::Float(_) | PropertyValue::Double(_) => below_min,
        _ => false,
    }
}

/// Whether a numeric value lies above the maximum `max` (see `lies_below`).
pub open spec fn lies_above(v: PropertyValue, max: Option<PropertyValue>, above_max: bool) -> bool {
    match v {
        PropertyValue::Int32(x) => match max {
            Some(PropertyValue::Int32(m)) => x > m,
            Some(PropertyValue::Float(_)) | Some(PropertyValue::Double(_)) => above_max,
            _ => false,
        },
        PropertyValue::Float(_) | PropertyValue::Double(_) => above_max,
        _ => false,
    }
}

/// The outcome of checking a value against a constraint: nulls against
/// `required`, then the type, then numeric bounds (both inclusive; see
/// `lies_below` for what `below_min` and `above_max` decide), then the
/// allowed strings.
pub open spec fn spec_validate_property(v: PropertyValue, c: PropertyConstraint, below_min: bool, above_max: bool)
    -> Result<(), ValidationError> {
    if v is Null && c.required {
        Err(ValidationError::Required)
    } else if v.spec_type() != c.property_type && !(v is Null) {
        Err(ValidationError::TypeMismatch { expected: c.property_type, got: v.spec_type() })
    } else if lies_below(v, c.min_value, below_min) {
        Err(ValidationError::BelowMinimum)
    } else if lies_above(v, c.max_value, above_max) {
        Err(ValidationError::AboveMaximum)
    } else {
        match v {
            PropertyValue::String(s) => match c.allowed_values {
                Some(a) => if texts(a@).contains(s@) { Ok(()) } else { Err(ValidationError::NotAllowed) },
                None => Ok(()),
            },
            _ => Ok(()),
        }
    }
}

/// A string of the constraint's type is checked against the allowed values
/// alone: whatever `required` says and whatever the caller hands in for
/// bounds, it passes exactly when there is no list of allowed values or the
/// list holds it, and otherwise fails as not allowed.
pub proof fn law_allowed_strings(s: String, c: PropertyConstraint, below_min: bool, above_max: bool)
    requires
        c.property_type == PropertyType::String,
    ensures
        ({
            let listed = match c.allowed_values {
                None => true,
                Some(a) => exists|k: int| 0 <= k < a@.len() && (#[trigger] a@[k])@ == s@,
            };
            &&& (spec_validate_property(PropertyValue::String(s), c, below_min, above_max) is Ok <==> listed)
            &&& (!listed ==> spec_validate_property(PropertyValue::String(s), c, below_min, above_max)
                == Err::<(), ValidationError>(ValidationError::NotAllowed))
        }),
{
    match c.allowed_values {
        None => {},
        Some(a) => {
            if texts(a@).contains(s@) {
                let k = choose|k: int| 0 <= k < texts(a@).len() && texts(a@)[k] == s@;
                assert(a@[k]@ == s@);
            }
            if exists|k: int| 0 <= k < a@.len() && (#[trigger] a@[k])@ == s@ {
                let k = choose|k: int| 0 <= k < a@.len() && (#[trigger] a@[k])@ == s@;
                assert(texts(a@)[k] == s@);
            }
        },
    }
}

/// The other checks, each over all inputs: a null value fails exactly when
/// it is required, whatever the bounds; a value of another type than the
/// property's fails as a type mismatch naming both types.
pub proof fn law_validation_checks(v: PropertyValue, c: PropertyConstraint, below_min: bool, above_max: bool)
    ensures
        v is Null ==> (spec_validate_property(v, c, below_min, above_max) == if c.required {
            Err::<(), ValidationError>(ValidationError::Required) } else { Ok(()) }),
        !(v is Null) && v.spec_type() != c.property_type ==> spec_validate_property(v, c, below_min, above_max)
            == Err::<(), ValidationError>(ValidationError::TypeMismatch { expected: c.property_type, got: v.spec_type() }),
{
}

/// A whole number checked against whole-number bounds: within them (both
/// inclusive) it passes, below the minimum it fails as below it, and above
/// the maximum (and not below the minimum) as above it, whatever the caller
/// hands in for float comparisons.
pub proof fn law_whole_number_bounds(x: i32, lo: i32, hi: i32, c: PropertyConstraint, below_min: bool, above_max: bool)
    requires
        c.property_type == PropertyType::Int32,
        c.min_value == Some(PropertyValue::Int32(lo)),
        c.max_value == Some(PropertyValue::Int32(hi)),
    ensures
        spec_validate_property(PropertyValue::Int32(x), c, below_min, above_max) == if x < lo {
            Err::<(), ValidationError>(ValidationError::BelowMinimum)
        } else if x > hi {
            Err::<(), ValidationError>(ValidationError::AboveMaximum)
        } else {
            Ok(())
        },
{
}

fn below(v: &PropertyValue, min: &Option<PropertyValue>, below_min: bool) -> (r: bool)
    ensures
        r == lies_below(*v, *min, below_min),
{
    match v {
        PropertyValue::Int32(x) => match min {
            Some(PropertyValue::Int32(m)) => *x < *m,
            Some(PropertyValue::Float(_)) | Some(PropertyValue::Double(_)) => below_min,
            _ => false,
        },
        PropertyValue::Float(_) | PropertyValue::Double(_) => below_min,
        _ => false,
    }
}

fn above(v: &PropertyValue, max: &Option<PropertyValue>, above_max: bool) -> (r: bool)
    ensures
        r == lies_above(*v, *max, above_max),
{
    match v {
        PropertyValue::Int32(x) => match max {
            Some(PropertyValue::Int32(m)) => *x > *m,
            Some(PropertyValue::Float(_)) | Some(PropertyValue::Double(_)) => above_max,
            _ => false,
        },
        PropertyValue::Float(_) | PropertyValue::Double(_) => above_max,
        _ => false,
    }
}

fn contains_text(v: &Vec<String>, s: &String) -> (r: bool)
    ensures
        r == texts(v@).contains(s@),
{
    let n = v.len();
    let mut i: usize = 0;
    while i < n
        invariant
            n == v@.len(),
            i <= n,
            forall|k: int| 0 <= k < i ==> (#[trigger] v@[k])@ != s@,
        decreases n - i,
    {
        if v[i] == *s {
            assert(texts(v@)[i as int] == s@);
            return true;
        }
        i = i + 1;
    }
    proof {
        assert forall|k: int| 0 <= k < texts(v@).len() implies (#[trigger] texts(v@)[k]) != s@ by {
            assert(texts(v@)[k] == v@[k]@);
        }
    }
    false
}

/// The message of a failed check, where writing it needs no floating-point
/// number: a bound check of an `Int32` value against an `Int32` bound, and
/// the checks that name no number. `None` for a bound check that involves a
/// float and for a string that is not allowed (whose message lists the
/// allowed values as Rust's `Debug` writes them).
pub open spec fn spec_validation_message(e: ValidationError, v: PropertyValue, c: PropertyConstraint)
    -> Option<Seq<char>> {
    match e {
        ValidationError::Required => Some("Property is required but value is null"@),
        ValidationError::TypeMismatch { expected, got } => Some(
            "Type mismatch: expected "@ + name_of_type(expected) + ", got "@ + name_of_type(got)),
        ValidationError::BelowMinimum => match (v, c.min_value) {
            (PropertyValue::Int32(x), Some(PropertyValue::Int32(m))) => Some(
                "Value "@ + signed_decimal(x as int) + " is less than minimum "@ + signed_decimal(m as int)),
            _ => None,
        },
        ValidationError::AboveMaximum => match (v, c.max_value) {
            (PropertyValue::Int32(x), Some(PropertyValue::Int32(m))) => Some(
                "Value "@ + signed_decimal(x as int) + " is greater than maximum "@ + signed_decimal(m as int)),
            _ => None,
        },
        ValidationError::NotAllowed => None,
        ValidationError::NoSchema => Some("No schema defined for class"@),
        ValidationError::UndefinedProperty => Some("Property not defined for class"@),
    }
}

fn bound_text(x: i32, middle: &str, m: i32) -> (r: String)
    ensures
        r@ == "Value "@ + signed_decimal(x as int) + middle@ + signed_decimal(m as int),
{
    let mut s = owned("Value ");
    let xs = format_i32(x);
    s.append(xs.as_str());
    s.append(middle);
    let ms = format_i32(m);
    s.append(ms.as_str());
    s
}

/// The message of a failed check (see `spec_validation_message`).
pub fn validation_message(e: &ValidationError, value: &PropertyValue, constraint: &PropertyConstraint)
    -> (r: Option<String>)
    ensures
        match r {
            Some(s) => spec_validation_message(*e, *value, *constraint) == Some(s@),
            None => spec_validation_message(*e, *value, *constraint) is None,
        },
{
    match e {
        ValidationError::Required => Some(owned("Property is required but value is null")),
        ValidationError::TypeMismatch { expected, got } => {
            let mut s = owned("Type mismatch: expected ");
            s.append(property_type_name(*expected));
            s.append(", got ");
            s.append(property_type_name(*got));
            Some(s)
        },
        ValidationError::BelowMinimum => match (value, &constraint.min_value) {
            (PropertyValue::Int32(x), Some(PropertyValue::Int32(m))) => Some(bound_text(*x, " is less than minimum ", *m)),
            _ => None,
        },
        ValidationError::AboveMaximum => match (value, &constraint.max_value) {
            (PropertyValue::Int32(x), Some(PropertyValue::Int32(m))) => Some(bound_text(*x, " is greater than maximum ", *m)),
            _ => None,
        },
        ValidationError::NotAllowed => None,
        ValidationError::NoSchema => Some(owned("No schema defined for class")),
        ValidationError::UndefinedProperty => Some(owned("Property not defined for class")),
    }
}

/// Validate a property value against its constraint.
pub fn validate_property(value: &PropertyValue, constraint: &PropertyConstraint, below_min: bool, above_max: bool)
    -> (r: Result<(), ValidationError>)
    ensures
        r == spec_validate_property(*value, *constraint, below_min, above_max),
{
    let is_null = match value {
        PropertyValue::Null => true,
        _ => false,
    };
    if is_null && constraint.required {
        return Err(ValidationError::Required);
    }
    let t = value.get_type();
    if t != constraint.property_type && !is_null {
        return Err(ValidationError::TypeMismatch { expected: constraint.property_type, got: t });
    }
    if below(value, &constraint.min_value, below_min) {
        return Err(ValidationError::BelowMinimum);
    }
    if above(value, &constraint.max_value, above_max) {
        return Err(ValidationError::AboveMaximum);
    }
    match value {
        PropertyValue::String(s) => match &constraint.allowed_values {
            Some(a) => if contains_text(a, s) {
                Ok(())
            } else {
                Err(ValidationError::NotAllowed)
            },
            None => Ok(()),
        },
        _ => Ok(()),
    }
}

/// The property schema of a class.
pub struct ClassPropertySchema {
    pub class_name: String,
    pub parent_class: Option<String>,
    /// The constraints of the class's properties, by name.
    pub properties: AssocMap<String, PropertyConstraint>,
}

impl ClassPropertySchema {
    /// A schema without properties.
    pub fn new(class_name: &str, parent_class: Option<&str>) -> (s: Self)
        ensures
            s.class_name@ == class_name@,
            match parent_class {
                Some(p) => s.parent_class matches Some(q) && q@ == p@,
                None => s.parent_class is None,
            },
            s.properties@ == Map::<Seq<char>, PropertyConstraint>::empty(),
    {
        ClassPropertySchema {
            class_name: owned(class_name),
            parent_class: match parent_class {
                Some(p) => Some(owned(p)),
                None => None,
            },
            properties: AssocMap::new(),
        }
    }

    /// Add (or replace) the constraint of a property.
    pub fn add_property(&mut self, name: &str, constraint: PropertyConstraint)
        ensures
            final(self).properties@ == old(self).properties@.insert(name@, constraint),
            final(self).class_name == old(self).class_name,
            final(self).parent_class == old(self).parent_class,
    {
        self.properties.insert(owned(name), constraint);
    }

    /// The constraint of a property, if the schema defines it.
    pub fn get_property_constraint(&self, name: &str) -> (r: Option<&PropertyConstraint>)
        ensures
            match r {
                Some(c) => self.properties@.contains_key(name@) && *c == self.properties@[name@],
                None => !self.properties@.contains_key(name@),
            },
    {
        let key = owned(name);
        self.properties.get(&key)
    }
}

/// The schemas of the classes, by class name.
pub struct PropertySchemaRegistry {
    pub class_schemas: AssocMap<String, ClassPropertySchema>,
}

impl PropertySchemaRegistry {
    /// An empty registry.
    pub fn new() -> (r: Self)
        ensures
            r.class_schemas@ == Map::<Seq<char>, ClassPropertySchema>::empty(),
    {
        PropertySchemaRegistry { class_schemas: AssocMap::new() }
    }

    /// Register (or replace) the schema of a class.
    pub fn register_class_schema(&mut self, class_name: &str, schema: ClassPropertySchema)
        ensures
            final(self).class_schemas@ == old(self).class_schemas@.insert(class_name@, schema),
    {
        self.class_schemas.insert(owned(class_name), schema);
    }

    /// The schema of a class, if registered.
    pub fn get_class_schema(&self, class_name: &str) -> (r: Option<&ClassPropertySchema>)
        ensures
            match r {
                Some(s) => self.class_schemas@.contains_key(class_name@) && *s == self.class_schemas@[class_name@],
                None => !self.class_schemas@.contains_key(class_name@),
            },
    {
        let key = owned(class_name);
        self.class_schemas.get(&key)
    }

    /// The constraint of a property of a class: an error when the class has
    /// no schema, or its schema does not define the property.
    pub fn constraint_for(&self, class_name: &str, property_name: &str) -> (r: Result<&PropertyConstraint, ValidationError>)
        ensures
            match r {
                Ok(c) => self.class_schemas@.contains_key(class_name@)
                    && self.class_schemas@[class_name@].properties@.contains_key(property_name@)
                    && *c == self.class_schemas@[class_name@].properties@[property_name@],
                Err(e) => if !self.class_schemas@.contains_key(class_name@) {
                    e == ValidationError::NoSchema
                } else {
                    e == ValidationError::UndefinedProperty
                        && !self.class_schemas@[class_name@].properties@.contains_key(property_name@)
                },
            },
    {
        let schema = match self.get_class_schema(class_name) {
            Some(s) => s,
            None => return Err(ValidationError::NoSchema),
        };
        match schema.get_property_constraint(property_name) {
            Some(c) => Ok(c),
            None => Err(ValidationError::UndefinedProperty),
        }
    }

    /// Validate a property value for a property of a class.
    pub fn validate_property(&self, class_name: &str, property_name: &str, value: &PropertyValue, below_min: bool,
        above_max: bool) -> (r: Result<(), ValidationError>)
        ensures
            if !self.class_schemas@.contains_key(class_name@) {
                r == Err::<(), ValidationError>(ValidationError::NoSchema)
            } else if !self.class_schemas@[class_name@].properties@.contains_key(property_name@) {
                r == Err::<(), ValidationError>(ValidationError::UndefinedProperty)
            } else {
                r == spec_validate_property(*value, self.class_schemas@[class_name@].properties@[property_name@],
                    below_min, above_max)
            },
    {
        match self.constraint_for(class_name, property_name) {
            Ok(c) => validate_property(value, c, below_min, above_max),
            Err(e) => Err(e),
        }
    }
}

} // verus!
