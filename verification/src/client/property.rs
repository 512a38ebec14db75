//! Client-side property definitions (class name to property name to definition)
//! and the staging cache of property values that are not yet attached to an object.
use vstd::prelude::*;
use crate::collections::AssocMap;
use crate::json::{JsonValue, JsonOut, field, get_field};
use crate::shared::types::ObjectId;
use crate::shared::property::{PropertyType, PropertyValue, PropertyDefinition, DefinitionView, ReplicationCondition};
use crate::text::{owned, str_eq};
use crate::client::net::{NetClient, TableHandlerKind, register_table_handler, handler_views};
use crate::client::serialization::{deserialize_property_value, serialize_property_value, spec_deserialize, spec_serialized,
    deserialize_message};

verus! {

/// The canonical name of a property type.
pub open spec fn name_of_type(t: PropertyType) -> Seq<char> {
    match t {
        PropertyType::Bool => "Bool"@,
        PropertyType::Byte => "Byte"@,
        PropertyType::Int32 => "Int32"@,
        PropertyType::Int64 => "Int64"@,
        PropertyType::UInt32 => "UInt32"@,
        PropertyType::UInt64 => "UInt64"@,
        PropertyType::Float => "Float"@,
        PropertyType::Double => "Double"@,
        PropertyType::String => "String"@,
        PropertyType::Vector => "Vector"@,
        PropertyType::Rotator => "Rotator"@,
        PropertyType::Quat => "Quat"@,
        PropertyType::Transform => "Transform"@,
        PropertyType::Color => "Color"@,
        PropertyType::ObjectReference => "ObjectReference"@,
        PropertyType::ClassReference => "ClassReference"@,
        PropertyType::Array => "Array"@,
        PropertyType::TMap => "Map"@,
        PropertyType::TSet => "Set"@,
        PropertyType::Name => "Name"@,
        PropertyType::Text => "Text"@,
        PropertyType::Custom => "Custom"@,
    }
}

/// The property type a name denotes, if it is one of the canonical names.
pub open spec fn type_from_name(s: Seq<char>) -> Option<PropertyType> {
    if s == "Bool"@ { Some(PropertyType::Bool) }
    else if s == "Byte"@ { Some(PropertyType::Byte) }
    else if s == "Int32"@ { Some(PropertyType::Int32) }
    else if s == "Int64"@ { Some(PropertyType::Int64) }
    else if s == "UInt32"@ { Some(PropertyType::UInt32) }
    else if s == "UInt64"@ { Some(PropertyType::UInt64) }
    else if s == "Float"@ { Some(PropertyType::Float) }
    else if s == "Double"@ { Some(PropertyType::Double) }
    else if s == "String"@ { Some(PropertyType::String) }
    else if s == "Vector"@ { Some(PropertyType::Vector) }
    else if s == "Rotator"@ { Some(PropertyType::Rotator) }
    else if s == "Quat"@ { Some(PropertyType::Quat) }
    else if s == "Transform"@ { Some(PropertyType::Transform) }
    else if s == "Color"@ { Some(PropertyType::Color) }
    else if s == "ObjectReference"@ { Some(PropertyType::ObjectReference) }
    else if s == "ClassReference"@ { Some(PropertyType::ClassReference) }
    else if s == "Array"@ { Some(PropertyType::Array) }
    else if s == "Map"@ { Some(PropertyType::TMap) }
    else if s == "Set"@ { Some(PropertyType::TSet) }
    else if s == "Name"@ { Some(PropertyType::Name) }
    else if s == "Text"@ { Some(PropertyType::Text) }
    else if s == "Custom"@ { Some(PropertyType::Custom) }
    else { None }
}

/// The canonical name of a property type.
pub fn property_type_name(t: PropertyType) -> (r: &'static str)
    ensures
        r@ == name_of_type(t),
{
    match t {
        PropertyType::Bool => "Bool",
        PropertyType::Byte => "Byte",
        PropertyType::Int32 => "Int32",
        PropertyType::Int64 => "Int64",
        PropertyType::UInt32 => "UInt32",
        PropertyType::UInt64 => "UInt64",
        PropertyType::Float => "Float",
        PropertyType::Double => "Double",
        PropertyType::String => "String",
        PropertyType::Vector => "Vector",
        PropertyType::Rotator => "Rotator",
        PropertyType::Quat => "Quat",
        PropertyType::Transform => "Transform",
        PropertyType::Color => "Color",
        PropertyType::ObjectReference => "ObjectReference",
        PropertyType::ClassReference => "ClassReference",
        PropertyType::Array => "Array",
        PropertyType::TMap => "Map",
        PropertyType::TSet => "Set",
        PropertyType::Name => "Name",
        PropertyType::Text => "Text",
        PropertyType::Custom => "Custom",
    }
}

/// The property type named by `s`, if `s` is one of the canonical names.
pub fn property_type_from_name(s: &str) -> (r: Option<PropertyType>)
    ensures
        r == type_from_name(s@),
{
    if str_eq(s, "Bool") { Some(PropertyType::Bool) }
    else if str_eq(s, "Byte") { Some(PropertyType::Byte) }
    else if str_eq(s, "Int32") { Some(PropertyType::Int32) }
    else if str_eq(s, "Int64") { Some(PropertyType::Int64) }
    else if str_eq(s, "UInt32") { Some(PropertyType::UInt32) }
    else if str_eq(s, "UInt64") { Some(PropertyType::UInt64) }
    else if str_eq(s, "Float") { Some(PropertyType::Float) }
    else if str_eq(s, "Double") { Some(PropertyType::Double) }
    else if str_eq(s, "String") { Some(PropertyType::String) }
    else if str_eq(s, "Vector") { Some(PropertyType::Vector) }
    else if str_eq(s, "Rotator") { Some(PropertyType::Rotator) }
    else if str_eq(s, "Quat") { Some(PropertyType::Quat) }
    else if str_eq(s, "Transform") { Some(PropertyType::Transform) }
    else if str_eq(s, "Color") { Some(PropertyType::Color) }
    else if str_eq(s, "ObjectReference") { Some(PropertyType::ObjectReference) }
    else if str_eq(s, "ClassReference") { Some(PropertyType::ClassReference) }
    else if str_eq(s, "Array") { Some(PropertyType::Array) }
    else if str_eq(s, "Map") { Some(PropertyType::TMap) }
    else if str_eq(s, "Set") { Some(PropertyType::TSet) }
    else if str_eq(s, "Name") { Some(PropertyType::Name) }
    else if str_eq(s, "Text") { Some(PropertyType::Text) }
    else if str_eq(s, "Custom") { Some(PropertyType::Custom) }
    else { None }
}

/// The name under which a replication condition is written.
pub open spec fn condition_name(c: ReplicationCondition) -> Seq<char> {
    match c {
        ReplicationCondition::Always => "Always"@,
        ReplicationCondition::OnChange => "OnChange"@,
        ReplicationCondition::Initial => "Initial"@,
        ReplicationCondition::OwnerOnly => "OwnerOnly"@,
        ReplicationCondition::ServerOnly => "ServerOnly"@,
        ReplicationCondition::Custom => "Custom"@,
    }
}

/// The name under which a replication condition is written.
pub fn replication_condition_name(c: ReplicationCondition) -> (r: &'static str)
    ensures
        r@ == condition_name(c),
{
    match c {
        ReplicationCondition::Always => "Always",
        ReplicationCondition::OnChange => "OnChange",
        ReplicationCondition::Initial => "Initial",
        ReplicationCondition::OwnerOnly => "OwnerOnly",
        ReplicationCondition::ServerOnly => "ServerOnly",
        ReplicationCondition::Custom => "Custom",
    }
}

/// The replication condition a received definition may name.
pub open spec fn condition_from_name(s: Seq<char>) -> Option<ReplicationCondition> {
    if s == "Initial"@ {
        Some(ReplicationCondition::Initial)
    } else if s == "OnChange"@ {
        Some(ReplicationCondition::OnChange)
    } else if s == "Always"@ {
        Some(ReplicationCondition::Always)
    } else {
        None
    }
}

/// Parse a property type from its name; unknown names are an error.
pub fn parse_property_type(type_str: &str) -> (r: Result<PropertyType, String>)
    ensures
        match r {
            Ok(t) => type_from_name(type_str@) == Some(t),
            Err(e) => type_from_name(type_str@) is None && e@ == "Unknown property type: "@ + type_str@,
        },
{
    match property_type_from_name(type_str) {
        Some(t) => Ok(t),
        None => {
            let mut msg = owned("Unknown property type: ");
            msg.append(type_str);
            Err(msg)
        },
    }
}

/// Parse a replication condition from its name; unknown names are an error.
pub fn parse_replication_condition(condition_str: &str) -> (r: Result<ReplicationCondition, String>)
    ensures
        match r {
            Ok(c) => condition_from_name(condition_str@) == Some(c),
            Err(e) => condition_from_name(condition_str@) is None
                && e@ == "Unknown replication condition: "@ + condition_str@,
        },
{
    if str_eq(condition_str, "Initial") {
        Ok(ReplicationCondition::Initial)
    } else if str_eq(condition_str, "OnChange") {
        Ok(ReplicationCondition::OnChange)
    } else if str_eq(condition_str, "Always") {
        Ok(ReplicationCondition::Always)
    } else {
        let mut msg = owned("Unknown replication condition: ");
        msg.append(condition_str);
        Err(msg)
    }
}

/// The definitions of one class, by property name.
pub type ClassDefinitions = Map<Seq<char>, DefinitionView>;

/// Property definitions, by class name and then property name.
pub struct PropertyDefinitions {
    classes: AssocMap<String, AssocMap<String, PropertyDefinition>>,
}

/// The definitions held by one class map.
pub open spec fn class_view(m: AssocMap<String, PropertyDefinition>) -> ClassDefinitions {
    m@.map_values(|d: PropertyDefinition| d@)
}

impl View for PropertyDefinitions {
    type V = Map<Seq<char>, ClassDefinitions>;

    closed spec fn view(&self) -> Map<Seq<char>, ClassDefinitions> {
        self.classes@.map_values(|m: AssocMap<String, PropertyDefinition>| class_view(m))
    }
}

/// The definitions of class `c`, or none when the class is unknown.
pub open spec fn class_props(m: Map<Seq<char>, ClassDefinitions>, c: Seq<char>) -> ClassDefinitions {
    if m.contains_key(c) { m[c] } else { Map::empty() }
}

/// The definition that a registration creates.
pub open spec fn new_definition(
    name: Seq<char>,
    property_type: PropertyType,
    replicated: bool,
    replication_condition: ReplicationCondition,
    readonly: bool,
    flags: u32,
) -> DefinitionView {
    DefinitionView { name, property_type, replicated, replication_condition, readonly, flags }
}

/// The number of definitions of the classes listed in `order`.
pub open spec fn definitions_in(order: Seq<Seq<char>>, m: Map<Seq<char>, ClassDefinitions>) -> nat
    decreases order.len(),
{
    if order.len() == 0 {
        0
    } else {
        definitions_in(order.drop_last(), m) + class_props(m, order.last()).len()
    }
}

/// The definition of property `p` of class `c`, if any.
pub open spec fn lookup(m: Map<Seq<char>, ClassDefinitions>, c: Seq<char>, p: Seq<char>) -> Option<DefinitionView> {
    if class_props(m, c).contains_key(p) { Some(class_props(m, c)[p]) } else { None }
}

/// The definitions after adding `d` as property `p` of class `c`, unless the class has such a property.
pub open spec fn with_new_definition(m: Map<Seq<char>, ClassDefinitions>, c: Seq<char>, p: Seq<char>, d: DefinitionView) -> Map<Seq<char>, ClassDefinitions> {
    if class_props(m, c).contains_key(p) { m } else { m.insert(c, class_props(m, c).insert(p, d)) }
}

/// The definitions after a registration of property `p` of class `c`.
pub open spec fn registered(m: Map<Seq<char>, ClassDefinitions>, c: Seq<char>, p: Seq<char>, t: PropertyType, replicated: bool) -> Map<Seq<char>, ClassDefinitions> {
    with_new_definition(m, c, p, new_definition(p, t, replicated, ReplicationCondition::OnChange, false, 0))
}

/// The definitions after property `p` of class `c` is unregistered.
pub open spec fn unregistered(m: Map<Seq<char>, ClassDefinitions>, c: Seq<char>, p: Seq<char>) -> Map<Seq<char>, ClassDefinitions> {
    if class_props(m, c).contains_key(p) { m.insert(c, m[c].remove(p)) } else { m }
}

impl PropertyDefinitions {
    pub fn new() -> (r: Self)
        ensures
            r@ == Map::<Seq<char>, ClassDefinitions>::empty(),
    {
        let r = PropertyDefinitions { classes: AssocMap::new() };
        assert(r@ =~= Map::<Seq<char>, ClassDefinitions>::empty());
        r
    }

    /// The classes, in the order in which they are listed.
    pub closed spec fn class_order(self) -> Seq<Seq<char>> {
        self.classes.key_seq()
    }

    /// The number of definitions over all classes.
    pub open spec fn definition_count(self) -> nat {
        definitions_in(self.class_order(), self@)
    }

    /// The listed classes are exactly the known classes.
    pub proof fn lemma_class_order(self)
        ensures
            self.class_order().to_set() == self@.dom(),
    {
        self.classes.lemma_dom();
        assert(self@.dom() =~= self.classes@.dom());
    }

    /// Removes and returns the definitions of a class (empty when unknown).
    fn take_class(&mut self, class_name: &String) -> (r: AssocMap<String, PropertyDefinition>)
        ensures
            class_view(r) == class_props(old(self)@, class_name@),
            final(self)@ == old(self)@.remove(class_name@),
    {
        let r = match self.classes.remove(class_name) {
            Some(m) => m,
            None => AssocMap::new(),
        };
        assert(self@ =~= old(self)@.remove(class_name@));
        assert(class_view(r) =~= class_props(old(self)@, class_name@));
        r
    }

    /// Stores the definitions of a class.
    fn put_class(&mut self, class_name: String, m: AssocMap<String, PropertyDefinition>)
        ensures
            final(self)@ == old(self)@.insert(class_name@, class_view(m)),
    {
        let ghost k = class_name@;
        self.classes.insert(class_name, m);
        assert(self@ =~= old(self)@.insert(k, class_view(m)));
    }
}

fn make_definition(
    name: &str,
    property_type: PropertyType,
    replicated: bool,
    replication_condition: ReplicationCondition,
    readonly: bool,
    flags: u32,
) -> (d: PropertyDefinition)
    ensures
        d@ == new_definition(name@, property_type, replicated, replication_condition, readonly, flags),
{
    PropertyDefinition { name: owned(name), property_type, replicated, replication_condition, readonly, flags }
}

/// Adds a definition unless the class already has a property of that name;
/// returns whether it was added.
fn insert_new_definition(defs: &mut PropertyDefinitions, class_name: &str, property_name: &str, def: PropertyDefinition) -> (r: bool)
    ensures
        r == !class_props(old(defs)@, class_name@).contains_key(property_name@),
        final(defs)@ == with_new_definition(old(defs)@, class_name@, property_name@, def@),
{
    let key = owned(class_name);
    let mut inner = defs.take_class(&key);
    let pkey = owned(property_name);
    if inner.contains_key(&pkey) {
        assert(class_props(old(defs)@, class_name@).contains_key(property_name@));
        assert(old(defs)@.contains_key(class_name@));
        defs.put_class(key, inner);
        assert(defs@ =~= old(defs)@);
        return false;
    }
    let ghost before = class_view(inner);
    inner.insert(pkey, def);
    assert(class_view(inner) =~= before.insert(property_name@, def@));
    defs.put_class(key, inner);
    assert(defs@ =~= old(defs)@.insert(class_name@, class_props(old(defs)@, class_name@).insert(property_name@, def@)));
    true
}

/// Register a property definition; returns false if the class already has
/// a property of that name.
pub fn register_property_definition(
    defs: &mut PropertyDefinitions,
    class_name: &str,
    property_name: &str,
    property_type: PropertyType,
    replicated: bool,
) -> (r: bool)
    ensures
        r == !class_props(old(defs)@, class_name@).contains_key(property_name@),
        final(defs)@ == registered(old(defs)@, class_name@, property_name@, property_type, replicated),
{
    let def = make_definition(property_name, property_type, replicated, ReplicationCondition::OnChange, false, 0);
    insert_new_definition(defs, class_name, property_name, def)
}

/// Get a property definition.
pub fn get_property_definition(defs: &PropertyDefinitions, class_name: &str, property_name: &str) -> (r: Option<PropertyDefinition>)
    ensures
        match r {
            Some(d) => lookup(defs@, class_name@, property_name@) == Some(d@),
            None => lookup(defs@, class_name@, property_name@) is None,
        },
{
    let key = owned(class_name);
    match defs.classes.get(&key) {
        Some(inner) => {
            let pkey = owned(property_name);
            match inner.get(&pkey) {
                Some(d) => Some(d.clone()),
                None => None,
            }
        },
        None => None,
    }
}

/// Add a property to a class definition, naming its type; returns false for an
/// unknown type name or a property the class already has.
pub fn add_property(
    defs: &mut PropertyDefinitions,
    class_name: &str,
    property_name: &str,
    type_str: &str,
    replicated: bool,
    replication_condition: ReplicationCondition,
    readonly: bool,
    flags: u32,
) -> (r: bool)
    ensures
        r == (type_from_name(type_str@) is Some && !class_props(old(defs)@, class_name@).contains_key(property_name@)),
        type_from_name(type_str@) is None ==> final(defs)@ == old(defs)@,
        type_from_name(type_str@) is Some ==> final(defs)@ == with_new_definition(old(defs)@, class_name@, property_name@,
            new_definition(property_name@, type_from_name(type_str@)->0, replicated, replication_condition, readonly, flags)),
{
    let property_type = match property_type_from_name(type_str) {
        Some(t) => t,
        None => return false,
    };
    let def = make_definition(property_name, property_type, replicated, replication_condition, readonly, flags);
    insert_new_definition(defs, class_name, property_name, def)
}

/// Unregister a property definition; returns whether it was there.
pub fn unregister_property_definition(defs: &mut PropertyDefinitions, class_name: &str, property_name: &str) -> (r: bool)
    ensures
        r == class_props(old(defs)@, class_name@).contains_key(property_name@),
        final(defs)@ == unregistered(old(defs)@, class_name@, property_name@),
{
    let key = owned(class_name);
    if !defs.classes.contains_key(&key) {
        return false;
    }
    let mut inner = defs.take_class(&key);
    let pkey = owned(property_name);
    let ghost before = class_view(inner);
    let removed = inner.remove(&pkey);
    assert(class_view(inner) =~= before.remove(property_name@));
    defs.put_class(key, inner);
    let r = removed.is_some();
    if !r {
        assert(before.remove(property_name@) =~= before);
        assert(defs@ =~= old(defs)@);
    }
    r
}

/// Get all registered class names.
pub fn get_registered_class_names(defs: &PropertyDefinitions) -> (r: Vec<String>)
    ensures
        r@.map_values(|s: String| s@) == defs.class_order(),
        defs.class_order().no_duplicates(),
        defs.class_order().to_set() == defs@.dom(),
{
    proof {
        defs.lemma_class_order();
    }
    defs.classes.keys()
}

/// Get all property names for a given class (none for an unknown class).
pub fn get_property_names_for_class(defs: &PropertyDefinitions, class_name: &str) -> (r: Vec<String>)
    ensures
        r@.map_values(|s: String| s@).no_duplicates(),
        r@.map_values(|s: String| s@).to_set() == class_props(defs@, class_name@).dom(),
{
    let key = owned(class_name);
    match defs.classes.get(&key) {
        Some(inner) => {
            let names = inner.keys();
            proof {
                inner.lemma_dom();
                assert(class_props(defs@, class_name@).dom() =~= inner@.dom());
            }
            names
        },
        None => {
            let names: Vec<String> = Vec::new();
            proof {
                assert(names@.map_values(|s: String| s@) =~= Seq::<Seq<char>>::empty());
                assert(class_props(defs@, class_name@).dom() =~= Set::<Seq<char>>::empty());
            }
            names
        },
    }
}

/// A JSON array of the strings `names`, in order.
pub open spec fn string_array(o: JsonOut, names: Seq<Seq<char>>) -> bool {
    o matches JsonOut::Array(xs) && xs@.len() == names.len()
        && forall|i: int| 0 <= i < names.len() ==> (#[trigger] xs@[i] matches JsonOut::String(t) && t@ == names[i])
}

fn strings_json(names: &Vec<String>) -> (o: JsonOut)
    ensures
        string_array(o, names@.map_values(|s: String| s@)),
{
    let mut xs: Vec<JsonOut> = Vec::new();
    let n = names.len();
    let mut i: usize = 0;
    while i < n
        invariant
            n == names@.len(),
            i <= n,
            xs@.len() == i,
            forall|k: int| 0 <= k < i ==> (#[trigger] xs@[k] matches JsonOut::String(t) && t@ == names@[k]@),
        decreases n - i,
    {
        xs.push(JsonOut::String(names[i].clone()));
        i = i + 1;
    }
    JsonOut::Array(xs)
}

/// The property names of a class as a JSON array (each once, in no stated order).
pub fn get_property_names_for_class_as_json(defs: &PropertyDefinitions, class_name: &str) -> (o: JsonOut)
    ensures
        exists|names: Seq<Seq<char>>| string_array(o, names) && names.no_duplicates()
            && #[trigger] names.to_set() == class_props(defs@, class_name@).dom(),
{
    let names = get_property_names_for_class(defs, class_name);
    strings_json(&names)
}

/// The registered class names as a JSON array, in class order.
pub fn get_registered_class_names_as_json(defs: &PropertyDefinitions) -> (o: JsonOut)
    ensures
        string_array(o, defs.class_order()),
        defs.class_order().to_set() == defs@.dom(),
{
    let names = get_registered_class_names(defs);
    strings_json(&names)
}

/// Check if property definitions are loaded for a class.
pub fn has_property_definitions_for_class(defs: &PropertyDefinitions, class_name: &str) -> (r: bool)
    ensures
        r == (class_props(defs@, class_name@).len() > 0),
{
    let key = owned(class_name);
    match defs.classes.get(&key) {
        Some(inner) => {
            let n = inner.len();
            proof {
                assert(class_props(defs@, class_name@).dom() =~= inner@.dom());
            }
            n > 0
        },
        None => {
            proof {
                assert(class_props(defs@, class_name@).dom() =~= Set::<Seq<char>>::empty());
            }
            false
        },
    }
}

/// The number of definitions over classes is at least that over any prefix of them.
proof fn lemma_definitions_prefix(order: Seq<Seq<char>>, m: Map<Seq<char>, ClassDefinitions>, i: int)
    requires
        0 <= i <= order.len(),
    ensures
        definitions_in(order.take(i), m) <= definitions_in(order, m),
    decreases order.len(),
{
    if i < order.len() {
        assert(order.drop_last().take(i) =~= order.take(i));
        lemma_definitions_prefix(order.drop_last(), m, i);
    } else {
        assert(order.take(i) =~= order);
    }
}

/// The total length of a list of lists.
pub open spec fn total_len(lists: Seq<Seq<Seq<char>>>) -> nat
    decreases lists.len(),
{
    if lists.len() == 0 {
        0
    } else {
        total_len(lists.drop_last()) + lists.last().len()
    }
}

proof fn lemma_counts(order: Seq<Seq<char>>, m: Map<Seq<char>, ClassDefinitions>, names: Seq<Seq<Seq<char>>>)
    requires
        names.len() == order.len(),
        forall|i: int| 0 <= i < names.len() ==> (#[trigger] names[i]).no_duplicates()
            && names[i].to_set() == class_props(m, order[i]).dom(),
    ensures
        definitions_in(order, m) == total_len(names),
    decreases order.len(),
{
    if order.len() > 0 {
        let k = order.len() - 1;
        assert forall|i: int| 0 <= i < names.drop_last().len() implies (#[trigger] names.drop_last()[i]).no_duplicates()
            && names.drop_last()[i].to_set() == class_props(m, order.drop_last()[i]).dom() by {
            assert(names.drop_last()[i] == names[i]);
        }
        lemma_counts(order.drop_last(), m, names.drop_last());
        assert(names[k].no_duplicates());
        names.last().unique_seq_to_set();
    }
}

/// The number of property definitions is the sum, over the registered
/// classes, of the number of property names listed for each. `names` holds,
/// for each class in the order `get_registered_class_names` lists them, what
/// `get_property_names_for_class` promises of its list: no name twice, and
/// exactly the class's defined properties.
pub proof fn law_definition_count(defs: PropertyDefinitions, names: Seq<Seq<Seq<char>>>)
    requires
        names.len() == defs.class_order().len(),
        forall|i: int| 0 <= i < names.len() ==> (#[trigger] names[i]).no_duplicates()
            && names[i].to_set() == class_props(defs@, defs.class_order()[i]).dom(),
    ensures
        defs.definition_count() == total_len(names),
{
    lemma_counts(defs.class_order(), defs@, names);
}

/// The staging cache after a run of writes, each an object, a property name
/// and a value, in order.
pub open spec fn cache_writes(m: Map<ObjectId, Map<Seq<char>, PropertyValue>>,
    ws: Seq<(ObjectId, Seq<char>, PropertyValue)>) -> Map<ObjectId, Map<Seq<char>, PropertyValue>>
    decreases ws.len(),
{
    if ws.len() == 0 {
        m
    } else {
        let w = ws.last();
        cached(cache_writes(m, ws.drop_last()), w.0, w.1, w.2)
    }
}

/// The last value written for each property of object `id` in a run of writes.
pub open spec fn last_written(ws: Seq<(ObjectId, Seq<char>, PropertyValue)>, id: ObjectId) -> Map<Seq<char>, PropertyValue>
    decreases ws.len(),
{
    if ws.len() == 0 {
        Map::empty()
    } else {
        let w = ws.last();
        if w.0 == id {
            last_written(ws.drop_last(), id).insert(w.1, w.2)
        } else {
            last_written(ws.drop_last(), id)
        }
    }
}

proof fn lemma_cache_writes(m: Map<ObjectId, Map<Seq<char>, PropertyValue>>,
    ws: Seq<(ObjectId, Seq<char>, PropertyValue)>, id: ObjectId)
    requires
        !m.contains_key(id),
    ensures
        cached_props(cache_writes(m, ws), id) == last_written(ws, id),
    decreases ws.len(),
{
    if ws.len() == 0 {
        assert(cached_props(m, id) =~= Map::empty());
    } else {
        lemma_cache_writes(m, ws.drop_last(), id);
        let w = ws.last();
        let before = cache_writes(m, ws.drop_last());
        if w.0 == id {
            assert(cached_props(cached(before, w.0, w.1, w.2), id) =~= cached_props(before, id).insert(w.1, w.2));
        } else {
            assert(cached_props(cached(before, w.0, w.1, w.2), id) =~= cached_props(before, id));
        }
    }
}

/// What is staged for an object since its last transfer (or since it had
/// nothing staged) is what the next transfer hands over: each property with
/// the last value written for it, whatever was written for other objects in
/// between. After the transfer nothing is staged for the object: a lookup
/// finds nothing, and a second transfer hands over nothing.
pub proof fn law_staged_values_transfer(m: Map<ObjectId, Map<Seq<char>, PropertyValue>>,
    ws: Seq<(ObjectId, Seq<char>, PropertyValue)>, id: ObjectId)
    requires
        !m.contains_key(id),
    ensures
        cached_props(cache_writes(m, ws), id) == last_written(ws, id),
        forall|name: Seq<char>| cache_lookup(#[trigger] cache_writes(m, ws).remove(id), id, name) is None,
        cached_props(cache_writes(m, ws).remove(id), id) == Map::<Seq<char>, PropertyValue>::empty(),
{
    lemma_cache_writes(m, ws, id);
}

/// Get the number of registered property definitions.
pub fn get_property_definition_count(defs: &PropertyDefinitions) -> (r: usize)
    requires
        defs.definition_count() <= usize::MAX,
    ensures
        r == defs.definition_count(),
{
    let n = defs.classes.len();
    let ghost order = defs.class_order();
    let mut count: usize = 0;
    let mut i: usize = 0;
    while i < n
        invariant
            n == order.len(),
            order == defs.class_order(),
            i <= n,
            count == definitions_in(order.take(i as int), defs@),
            defs.definition_count() <= usize::MAX,
        decreases n - i,
    {
        let (k, inner) = defs.classes.entry_at(i);
        proof {
            assert(order.take(i as int + 1).drop_last() =~= order.take(i as int));
            assert(order.take(i as int + 1).last() == k@);
            assert(defs@.contains_key(k@));
            assert(class_props(defs@, k@).dom() =~= inner@.dom());
            lemma_definitions_prefix(order, defs@, i as int + 1);
        }
        count = count + inner.len();
        i = i + 1;
    }
    proof {
        assert(order.take(n as int) =~= order);
    }
    count
}

/// Property values by object, then by property name, waiting to be attached to their objects.
pub struct PropertyCache {
    objects: AssocMap<u64, AssocMap<String, PropertyValue>>,
}

impl View for PropertyCache {
    type V = Map<ObjectId, Map<Seq<char>, PropertyValue>>;

    closed spec fn view(&self) -> Map<ObjectId, Map<Seq<char>, PropertyValue>> {
        self.objects@.map_values(|m: AssocMap<String, PropertyValue>| m@)
    }
}

/// The cached values of object `id` (none when it has no entry).
pub open spec fn cached_props(m: Map<ObjectId, Map<Seq<char>, PropertyValue>>, id: ObjectId) -> Map<Seq<char>, PropertyValue> {
    if m.contains_key(id) { m[id] } else { Map::empty() }
}

/// The cached value of property `name` of object `id`, if any.
pub open spec fn cache_lookup(m: Map<ObjectId, Map<Seq<char>, PropertyValue>>, id: ObjectId, name: Seq<char>) -> Option<PropertyValue> {
    if cached_props(m, id).contains_key(name) { Some(cached_props(m, id)[name]) } else { None }
}

/// The cache after `v` is cached as property `name` of object `id`.
pub open spec fn cached(m: Map<ObjectId, Map<Seq<char>, PropertyValue>>, id: ObjectId, name: Seq<char>, v: PropertyValue) -> Map<ObjectId, Map<Seq<char>, PropertyValue>> {
    m.insert(id, cached_props(m, id).insert(name, v))
}

/// The cache after the entry of `temp` moves to `server`.
pub open spec fn remapped(m: Map<ObjectId, Map<Seq<char>, PropertyValue>>, temp: ObjectId, server: ObjectId) -> Map<ObjectId, Map<Seq<char>, PropertyValue>> {
    if m.contains_key(temp) { m.remove(temp).insert(server, m[temp]) } else { m }
}

impl PropertyCache {
    pub fn new() -> (r: Self)
        ensures
            r@ == Map::<ObjectId, Map<Seq<char>, PropertyValue>>::empty(),
    {
        let r = PropertyCache { objects: AssocMap::new() };
        assert(r@ =~= Map::<ObjectId, Map<Seq<char>, PropertyValue>>::empty());
        r
    }
}

/// Temporarily cache a property value before it is associated with an object.
pub fn cache_property_value(cache: &mut PropertyCache, object_id: ObjectId, property_name: &str, value: PropertyValue)
    ensures
        final(cache)@ == cached(old(cache)@, object_id, property_name@, value),
{
    let mut props = match cache.objects.remove(&object_id) {
        Some(m) => m,
        None => AssocMap::new(),
    };
    let ghost before = props@;
    assert(before =~= cached_props(old(cache)@, object_id));
    props.insert(owned(property_name), value);
    cache.objects.insert(object_id, props);
    assert(cache@ =~= old(cache)@.insert(object_id, cached_props(old(cache)@, object_id).insert(property_name@, value)));
}

/// Get a cached property value from the staging cache.
pub fn get_cached_property_value(cache: &PropertyCache, object_id: ObjectId, property_name: &str) -> (r: Option<PropertyValue>)
    ensures
        r == cache_lookup(cache@, object_id, property_name@),
{
    match cache.objects.get(&object_id) {
        Some(props) => match props.get(&owned(property_name)) {
            Some(v) => Some(v.clone()),
            None => None,
        },
        None => None,
    }
}

/// Move all cached properties of an object out of the cache (none when it has no entry).
pub fn transfer_cached_properties_to_object(cache: &mut PropertyCache, object_id: ObjectId) -> (r: AssocMap<String, PropertyValue>)
    ensures
        r@ == cached_props(old(cache)@, object_id),
        final(cache)@ == old(cache)@.remove(object_id),
{
    let r = match cache.objects.remove(&object_id) {
        Some(m) => m,
        None => AssocMap::new(),
    };
    assert(cache@ =~= old(cache)@.remove(object_id));
    assert(r@ =~= cached_props(old(cache)@, object_id));
    r
}

/// Clear the property cache of an object.
pub fn clear_property_cache(cache: &mut PropertyCache, object_id: ObjectId)
    ensures
        final(cache)@ == old(cache)@.remove(object_id),
{
    let _ = cache.objects.remove(&object_id);
    assert(cache@ =~= old(cache)@.remove(object_id));
}

/// Clear the property cache of an object (the same as `clear_property_cache`).
pub fn clear_object_properties(cache: &mut PropertyCache, object_id: ObjectId)
    ensures
        final(cache)@ == old(cache)@.remove(object_id),
{
    clear_property_cache(cache, object_id);
}

/// Move the cached properties of a temporary ID to a server-assigned ID,
/// replacing what the server ID had; nothing happens when the temporary ID has none.
pub fn remap_property_cache(cache: &mut PropertyCache, temp_id: ObjectId, server_id: ObjectId)
    ensures
        final(cache)@ == remapped(old(cache)@, temp_id, server_id),
{
    if let Some(props) = cache.objects.remove(&temp_id) {
        let ghost v = props@;
        cache.objects.insert(server_id, props);
        assert(cache@ =~= old(cache)@.remove(temp_id).insert(server_id, old(cache)@[temp_id]));
    } else {
        assert(cache@ =~= old(cache)@);
    }
}

/// A registration never replaces a definition: afterwards the property has
/// its earlier definition if it had one, and the registered one otherwise.
pub proof fn law_register_then_lookup(m: Map<Seq<char>, ClassDefinitions>, c: Seq<char>, p: Seq<char>, t: PropertyType, replicated: bool)
    ensures
        lookup(registered(m, c, p, t, replicated), c, p) == (match lookup(m, c, p) {
            Some(d) => Some(d),
            None => Some(new_definition(p, t, replicated, ReplicationCondition::OnChange, false, 0)),
        }),
{
}

/// A registration changes no other property's definition.
pub proof fn law_register_keeps_others(m: Map<Seq<char>, ClassDefinitions>, c: Seq<char>, p: Seq<char>, t: PropertyType, replicated: bool, c2: Seq<char>, p2: Seq<char>)
    requires
        c2 != c || p2 != p,
    ensures
        lookup(registered(m, c, p, t, replicated), c2, p2) == lookup(m, c2, p2),
{
}

/// After unregistering a property it has no definition, and every other property keeps its own.
pub proof fn law_unregister_then_lookup(m: Map<Seq<char>, ClassDefinitions>, c: Seq<char>, p: Seq<char>, c2: Seq<char>, p2: Seq<char>)
    ensures
        lookup(unregistered(m, c, p), c, p) is None,
        (c2 != c || p2 != p) ==> lookup(unregistered(m, c, p), c2, p2) == lookup(m, c2, p2),
{
}

/// Unregistering a property that was just registered where it was absent
/// gives every property its definition from before.
pub proof fn law_unregister_undoes_register(m: Map<Seq<char>, ClassDefinitions>, c: Seq<char>, p: Seq<char>, t: PropertyType, replicated: bool, c2: Seq<char>, p2: Seq<char>)
    requires
        lookup(m, c, p) is None,
    ensures
        lookup(unregistered(registered(m, c, p, t, replicated), c, p), c2, p2) == lookup(m, c2, p2),
{
    let r = registered(m, c, p, t, replicated);
    assert(class_props(r, c).contains_key(p));
    if c2 == c && p2 != p {
        assert(class_props(unregistered(r, c, p), c2) =~= class_props(m, c2).remove(p).insert(p, class_props(r, c)[p]).remove(p));
    }
}

/// What is cached is what is read back, and caching changes no other entry.
pub proof fn law_cache_then_get(m: Map<ObjectId, Map<Seq<char>, PropertyValue>>, id: ObjectId, name: Seq<char>, v: PropertyValue, id2: ObjectId, name2: Seq<char>)
    ensures
        cache_lookup(cached(m, id, name, v), id, name) == Some(v),
        (id2 != id || name2 != name) ==> cache_lookup(cached(m, id, name, v), id2, name2) == cache_lookup(m, id2, name2),
{
}

/// After a remap the server ID holds what the temporary ID held, and the
/// temporary ID holds nothing (for distinct IDs with an entry to move).
pub proof fn law_remap_moves_values(m: Map<ObjectId, Map<Seq<char>, PropertyValue>>, temp: ObjectId, server: ObjectId, name: Seq<char>)
    requires
        m.contains_key(temp),
        temp != server,
    ensures
        cache_lookup(remapped(m, temp, server), server, name) == cache_lookup(m, temp, name),
        cache_lookup(remapped(m, temp, server), temp, name) is None,
{
}

/// What a row operation of a table update does.
#[derive(Debug, Clone, Copy, PartialEq, Eq, Structural)]
pub enum TableOp {
    Insert,
    Update,
    Delete,
}

/// A row of a table, as named members.
pub struct TableRow {
    pub row: Option<Vec<(String, JsonValue)>>,
}

/// One operation of a table update, with the row it concerns.
pub struct TableRowOperation {
    pub operation: TableOp,
    pub row: Option<Vec<(String, JsonValue)>>,
}

/// The operations received for one table.
pub struct TableUpdate {
    pub table_name: String,
    pub table_row_operations: Vec<TableRowOperation>,
}

/// The text of member `k`, when it is a string.
pub open spec fn string_member(fs: Seq<(String, JsonValue)>, k: Seq<char>) -> Option<Seq<char>> {
    match field(fs, k) {
        Some(JsonValue::String(s)) => Some(s@),
        _ => None,
    }
}

/// Member `k` when it is a boolean, and `false` otherwise.
pub open spec fn flag_member(fs: Seq<(String, JsonValue)>, k: Seq<char>) -> bool {
    match field(fs, k) {
        Some(JsonValue::Bool(b)) => b,
        _ => false,
    }
}

/// Member `flags` taken modulo 2^32 when it is a non-negative integer, and 0 otherwise.
pub open spec fn flags_member(fs: Seq<(String, JsonValue)>) -> u32 {
    match field(fs, "flags"@) {
        Some(JsonValue::Number(n)) => match n.spec_as_u64() {
            Some(u) => #[verifier::truncate] (u as u32),
            None => 0,
        },
        _ => 0,
    }
}

/// The definitions after an inserted definition row, or the error it causes.
pub open spec fn inserted_row(m: Map<Seq<char>, ClassDefinitions>, fs: Seq<(String, JsonValue)>) -> Result<Map<Seq<char>, ClassDefinitions>, Seq<char>> {
    match string_member(fs, "property_name"@) {
        None => Err("Missing property_name in property definition"@),
        Some(p) => match string_member(fs, "class_name"@) {
            None => Err("Missing class_name in property definition"@),
            Some(c) => match string_member(fs, "property_type"@) {
                None => Err("Missing property_type in property definition"@),
                Some(ts) => match type_from_name(ts) {
                    None => Err("Unknown property type: "@ + ts),
                    Some(t) => {
                        let cs = match string_member(fs, "replication_condition"@) {
                            Some(x) => x,
                            None => "OnChange"@,
                        };
                        match condition_from_name(cs) {
                            None => Err("Unknown replication condition: "@ + cs),
                            Some(cond) => Ok(m.insert(c, class_props(m, c).insert(p, new_definition(
                                p, t, flag_member(fs, "replicated"@), cond, flag_member(fs, "readonly"@), flags_member(fs))))),
                        }
                    },
                },
            },
        },
    }
}

/// The definitions after a deleted definition row, or the error it causes.
pub open spec fn deleted_row(m: Map<Seq<char>, ClassDefinitions>, fs: Seq<(String, JsonValue)>) -> Result<Map<Seq<char>, ClassDefinitions>, Seq<char>> {
    match string_member(fs, "property_name"@) {
        None => Err("Missing property_name in property definition delete"@),
        Some(p) => match string_member(fs, "class_name"@) {
            None => Err("Missing class_name in property definition delete"@),
            Some(c) => Ok(if m.contains_key(c) { m.insert(c, m[c].remove(p)) } else { m }),
        },
    }
}

/// A row operation: what it does and the members of its row, if it has one.
pub type RowOp = (TableOp, Option<Seq<(String, JsonValue)>>);

impl View for TableRowOperation {
    type V = RowOp;

    open spec fn view(&self) -> RowOp {
        (self.operation, match self.row {
            Some(r) => Some(r@),
            None => None,
        })
    }
}

/// The row operations of a table update.
pub open spec fn row_ops(ops: Seq<TableRowOperation>) -> Seq<RowOp> {
    ops.map_values(|o: TableRowOperation| o@)
}

/// The definitions after one row operation of a definition table update, or
/// the error it causes; an update or a row without data changes nothing.
pub open spec fn row_step(m: Map<Seq<char>, ClassDefinitions>, op: RowOp) -> Result<Map<Seq<char>, ClassDefinitions>, Seq<char>> {
    match op.1 {
        None => Ok(m),
        Some(row) => match op.0 {
            TableOp::Insert => inserted_row(m, row),
            TableOp::Delete => deleted_row(m, row),
            TableOp::Update => Ok(m),
        },
    }
}

/// The definitions after the row operations of a definition table update are
/// applied in order, and the error of the first one that fails, if any (the
/// operations after it are not applied; those before it stay applied).
pub open spec fn definition_update(m: Map<Seq<char>, ClassDefinitions>, ops: Seq<RowOp>)
    -> (Map<Seq<char>, ClassDefinitions>, Option<Seq<char>>)
    decreases ops.len(),
{
    if ops.len() == 0 {
        (m, None)
    } else {
        let (m1, e) = definition_update(m, ops.drop_last());
        if e is Some {
            (m1, e)
        } else {
            match row_step(m1, ops.last()) {
                Ok(m2) => (m2, None),
                Err(x) => (m1, Some(x)),
            }
        }
    }
}

/// Once a prefix of the operations has failed, all of them fail the same way.
proof fn lemma_update_error_sticks(m: Map<Seq<char>, ClassDefinitions>, ops: Seq<RowOp>, k: int)
    requires
        0 <= k <= ops.len(),
        definition_update(m, ops.take(k)).1 is Some,
    ensures
        definition_update(m, ops) == definition_update(m, ops.take(k)),
    decreases ops.len() - k,
{
    if k < ops.len() {
        assert(ops.take(k + 1).drop_last() =~= ops.take(k));
        lemma_update_error_sticks(m, ops, k + 1);
    } else {
        assert(ops.take(k) =~= ops);
    }
}

fn string_field<'a>(fs: &'a Vec<(String, JsonValue)>, key: &str) -> (r: Option<&'a String>)
    ensures
        match r {
            Some(s) => string_member(fs@, key@) == Some(s@),
            None => string_member(fs@, key@) is None,
        },
{
    match get_field(fs, key) {
        Some(JsonValue::String(s)) => Some(s),
        _ => None,
    }
}

fn flag_field(fs: &Vec<(String, JsonValue)>, key: &str) -> (r: bool)
    ensures
        r == flag_member(fs@, key@),
{
    match get_field(fs, key) {
        Some(JsonValue::Bool(b)) => *b,
        _ => false,
    }
}

fn apply_inserted_row(defs: &mut PropertyDefinitions, fs: &Vec<(String, JsonValue)>) -> (r: Result<(), String>)
    ensures
        match inserted_row(old(defs)@, fs@) {
            Ok(m) => r is Ok && final(defs)@ == m,
            Err(e) => r matches Err(x) && x@ == e && final(defs)@ == old(defs)@,
        },
{
    let property_name = match string_field(fs, "property_name") {
        Some(s) => s,
        None => return Err(owned("Missing property_name in property definition")),
    };
    let property_class = match string_field(fs, "class_name") {
        Some(s) => s,
        None => return Err(owned("Missing class_name in property definition")),
    };
    let property_type_str = match string_field(fs, "property_type") {
        Some(s) => s,
        None => return Err(owned("Missing property_type in property definition")),
    };
    let property_type = parse_property_type(property_type_str.as_str())?;
    let replicated = flag_field(fs, "replicated");
    let replication_condition = match string_field(fs, "replication_condition") {
        Some(s) => parse_replication_condition(s.as_str())?,
        None => {
            proof {
                reveal_strlit("OnChange");
                reveal_strlit("Initial");
                assert("OnChange"@.len() != "Initial"@.len());
                assert(condition_from_name("OnChange"@) == Some(ReplicationCondition::OnChange));
            }
            ReplicationCondition::OnChange
        },
    };
    let readonly = flag_field(fs, "readonly");
    let flags: u32 = match get_field(fs, "flags") {
        Some(JsonValue::Number(n)) => match n.as_u64() {
            Some(u) => #[verifier::truncate] (u as u32),
            None => 0,
        },
        _ => 0,
    };
    assert(flags == flags_member(fs@));
    let def = make_definition(property_name.as_str(), property_type, replicated, replication_condition, readonly, flags);
    let key = property_class.clone();
    let mut inner = defs.take_class(&key);
    let ghost before = class_view(inner);
    inner.insert(property_name.clone(), def);
    assert(class_view(inner) =~= before.insert(property_name@, def@));
    defs.put_class(key, inner);
    assert(defs@ =~= old(defs)@.insert(property_class@, class_props(old(defs)@, property_class@).insert(property_name@, def@)));
    Ok(())
}

fn apply_deleted_row(defs: &mut PropertyDefinitions, fs: &Vec<(String, JsonValue)>) -> (r: Result<(), String>)
    ensures
        match deleted_row(old(defs)@, fs@) {
            Ok(m) => r is Ok && final(defs)@ == m,
            Err(e) => r matches Err(x) && x@ == e && final(defs)@ == old(defs)@,
        },
{
    let property_name = match string_field(fs, "property_name") {
        Some(s) => s,
        None => return Err(owned("Missing property_name in property definition delete")),
    };
    let property_class = match string_field(fs, "class_name") {
        Some(s) => s,
        None => return Err(owned("Missing class_name in property definition delete")),
    };
    if defs.classes.contains_key(property_class) {
        let mut inner = defs.take_class(property_class);
        let ghost before = class_view(inner);
        let _ = inner.remove(property_name);
        assert(class_view(inner) =~= before.remove(property_name@));
        defs.put_class(property_class.clone(), inner);
    }
    Ok(())
}

fn apply_row_op(defs: &mut PropertyDefinitions, op: &TableRowOperation) -> (r: Result<(), String>)
    ensures
        match row_step(old(defs)@, op@) {
            Ok(m) => r is Ok && final(defs)@ == m,
            Err(e) => r matches Err(x) && x@ == e && final(defs)@ == old(defs)@,
        },
{
    match &op.row {
        None => Ok(()),
        Some(row) => match op.operation {
            TableOp::Insert => apply_inserted_row(defs, row),
            TableOp::Delete => apply_deleted_row(defs, row),
            TableOp::Update => Ok(()),
        },
    }
}

/// Handle property definition updates from the server: every row operation
/// is applied in order, up to the first that fails.
pub fn handle_property_definition_update(defs: &mut PropertyDefinitions, update: &TableUpdate) -> (r: Result<(), String>)
    ensures
        ({
            let (m, e) = definition_update(old(defs)@, row_ops(update.table_row_operations@));
            &&& final(defs)@ == m
            &&& match e {
                None => r is Ok,
                Some(msg) => r matches Err(x) && x@ == msg,
            }
        }),
{
    let ghost ops = row_ops(update.table_row_operations@);
    let n = update.table_row_operations.len();
    let mut i: usize = 0;
    assert(ops.take(0) =~= Seq::<RowOp>::empty());
    while i < n
        invariant
            n == ops.len(),
            ops == row_ops(update.table_row_operations@),
            i <= n,
            definition_update(old(defs)@, ops.take(i as int)) == (defs@, None::<Seq<char>>),
        decreases n - i,
    {
        let op = &update.table_row_operations[i];
        proof {
            assert(ops.take(i + 1).drop_last() =~= ops.take(i as int));
            assert(ops.take(i + 1).last() == op@);
        }
        let ghost before = defs@;
        match apply_row_op(defs, op) {
            Ok(()) => {},
            Err(e) => {
                proof {
                    assert(definition_update(old(defs)@, ops.take(i + 1)) == (before, Some(e@)));
                    lemma_update_error_sticks(old(defs)@, ops, i + 1);
                }
                return Err(e);
            },
        }
        i = i + 1;
    }
    assert(ops.take(n as int) =~= ops);
    Ok(())
}

/// Initialize the property system: updates of the `PropertyDefinition` table
/// are applied to the property definitions.
pub fn init(client: &mut NetClient)
    ensures
        handler_views(final(client).handlers@) == handler_views(old(client).handlers@).push(
            ("PropertyDefinition"@, TableHandlerKind::PropertyDefinitions)),
        final(client).state == old(client).state,
        final(client).client_id == old(client).client_id,
        final(client).subscribed@ == old(client).subscribed@,
{
    register_table_handler(client, "PropertyDefinition", TableHandlerKind::PropertyDefinitions);
}

/// Cache a property value given as a parsed JSON document with canonical text `canonical`.
pub fn cache_property_value_from_json(
    cache: &mut PropertyCache,
    object_id: ObjectId,
    property_name: &str,
    json_value: &JsonValue,
    canonical: &String,
) -> (r: Result<(), String>)
    ensures
        match spec_deserialize(*json_value, *canonical) {
            Some(v) => r is Ok && final(cache)@ == cached(old(cache)@, object_id, property_name@, v),
            None => (r matches Err(e) && e@ == deserialize_message(*json_value)) && final(cache)@ == old(cache)@,
        },
{
    let value = match deserialize_property_value(json_value, canonical) {
        Ok(v) => v,
        Err(e) => return Err(e),
    };
    cache_property_value(cache, object_id, property_name, value);
    Ok(())
}

/// Get a cached property value as the JSON document that represents it.
pub fn get_cached_property_value_as_json(cache: &PropertyCache, object_id: ObjectId, property_name: &str) -> (r: Option<JsonOut>)
    ensures
        match cache_lookup(cache@, object_id, property_name@) {
            Some(v) => r matches Some(o) && spec_serialized(v, o),
            None => r is None,
        },
{
    match get_cached_property_value(cache, object_id, property_name) {
        Some(v) => Some(serialize_property_value(&v)),
        None => None,
    }
}

/// The JSON form of a definition:
/// `{"flags", "readonly", "replicated", "replication_condition", "type"}`.
pub open spec fn definition_json(o: JsonOut, d: DefinitionView) -> bool {
    match o {
        JsonOut::Object(fs) => {
            &&& fs@.len() == 5
            &&& fs@[0].0@ == "flags"@ && fs@[0].1 == JsonOut::UInt(d.flags as u64)
            &&& fs@[1].0@ == "readonly"@ && fs@[1].1 == JsonOut::Bool(d.readonly)
            &&& fs@[2].0@ == "replicated"@ && fs@[2].1 == JsonOut::Bool(d.replicated)
            &&& fs@[3].0@ == "replication_condition"@
                && (fs@[3].1 matches JsonOut::String(t) && t@ == condition_name(d.replication_condition))
            &&& fs@[4].0@ == "type"@ && (fs@[4].1 matches JsonOut::String(t) && t@ == name_of_type(d.property_type))
        },
        _ => false,
    }
}

/// The JSON form of the definitions of a class: one member per property, named by it.
pub open spec fn class_json(o: JsonOut, props: ClassDefinitions) -> bool {
    match o {
        JsonOut::Object(fs) => {
            &&& fs@.len() == props.len()
            &&& forall|a: int, b: int| 0 <= a < b < fs@.len() ==> fs@[a].0@ != fs@[b].0@
            &&& forall|j: int| 0 <= j < fs@.len() ==> props.contains_key((#[trigger] fs@[j]).0@)
                && definition_json(fs@[j].1, props[fs@[j].0@])
            &&& forall|k: Seq<char>| #[trigger] props.contains_key(k) ==> exists|j: int| 0 <= j < fs@.len() && fs@[j].0@ == k
        },
        _ => false,
    }
}

fn export_definition(d: &PropertyDefinition) -> (o: JsonOut)
    ensures
        definition_json(o, d@),
{
    let mut fs: Vec<(String, JsonOut)> = Vec::new();
    fs.push((owned("flags"), JsonOut::UInt(d.flags as u64)));
    fs.push((owned("readonly"), JsonOut::Bool(d.readonly)));
    fs.push((owned("replicated"), JsonOut::Bool(d.replicated)));
    fs.push((owned("replication_condition"), JsonOut::String(owned(replication_condition_name(d.replication_condition)))));
    fs.push((owned("type"), JsonOut::String(owned(property_type_name(d.property_type)))));
    JsonOut::Object(fs)
}

fn export_class(m: &AssocMap<String, PropertyDefinition>) -> (o: JsonOut)
    ensures
        class_json(o, class_view(*m)),
{
    let n = m.len();
    let ghost ks = m.key_seq();
    let mut fs: Vec<(String, JsonOut)> = Vec::new();
    let mut i: usize = 0;
    while i < n
        invariant
            n == ks.len(),
            ks == m.key_seq(),
            ks.no_duplicates(),
            i <= n,
            fs@.len() == i,
            forall|j: int| 0 <= j < i ==> (#[trigger] fs@[j]).0@ == ks[j],
            forall|j: int| 0 <= j < i ==> m@.contains_key((#[trigger] fs@[j]).0@)
                && definition_json(fs@[j].1, m@[fs@[j].0@]@),
        decreases n - i,
    {
        let (k, d) = m.entry_at(i);
        fs.push((k.clone(), export_definition(d)));
        i = i + 1;
    }
    proof {
        m.lemma_dom();
        ks.unique_seq_to_set();
        assert(class_view(*m).dom() =~= ks.to_set());
        assert forall|k: Seq<char>| #[trigger] class_view(*m).contains_key(k) implies
            exists|j: int| 0 <= j < fs@.len() && fs@[j].0@ == k by {
            assert(ks.to_set().contains(k));
            let j = choose|j: int| 0 <= j < ks.len() && ks[j] == k;
            assert(fs@[j].0@ == k);
        }
    }
    JsonOut::Object(fs)
}

/// The JSON form of all definitions: one member per class, in class order.
pub open spec fn definitions_json(o: JsonOut, order: Seq<Seq<char>>, m: Map<Seq<char>, ClassDefinitions>) -> bool {
    match o {
        JsonOut::Object(fs) => {
            &&& fs@.len() == order.len()
            &&& forall|i: int| 0 <= i < order.len() ==> (#[trigger] fs@[i]).0@ == order[i] && class_json(fs@[i].1, m[order[i]])
        },
        _ => false,
    }
}

/// Export the property definitions as a JSON document.
pub fn export_property_definitions_as_json(defs: &PropertyDefinitions) -> (o: JsonOut)
    ensures
        definitions_json(o, defs.class_order(), defs@),
        defs.class_order().to_set() == defs@.dom(),
        defs.class_order().no_duplicates(),
{
    proof {
        defs.lemma_class_order();
        use_type_invariant(&defs.classes);
        defs.classes.lemma_keys_distinct();
    }
    let n = defs.classes.len();
    let ghost order = defs.class_order();
    let mut fs: Vec<(String, JsonOut)> = Vec::new();
    let mut i: usize = 0;
    while i < n
        invariant
            n == order.len(),
            order == defs.class_order(),
            i <= n,
            fs@.len() == i,
            forall|j: int| 0 <= j < i ==> (#[trigger] fs@[j]).0@ == order[j] && class_json(fs@[j].1, defs@[order[j]]),
        decreases n - i,
    {
        let (k, m) = defs.classes.entry_at(i);
        fs.push((k.clone(), export_class(m)));
        i = i + 1;
    }
    JsonOut::Object(fs)
}

/// The definitions, the number of properties counted and the error, if any,
/// after importing the properties `props` of class `c` in order: an object
/// member with a string `type` is registered (and counted) under its name, an
/// unknown type name stops the import with an error, other members are skipped.
pub open spec fn import_props(
    m: Map<Seq<char>, ClassDefinitions>,
    c: Seq<char>,
    props: Seq<(String, JsonValue)>,
) -> (Map<Seq<char>, ClassDefinitions>, nat, Option<Seq<char>>)
    decreases props.len(),
{
    if props.len() == 0 {
        (m, 0, None)
    } else {
        let (m1, k, e) = import_props(m, c, props.drop_last());
        if e is Some {
            (m1, k, e)
        } else {
            match props.last().1 {
                JsonValue::Object(f) => match string_member(f@, "type"@) {
                    None => (m1, k, None),
                    Some(ts) => match type_from_name(ts) {
                        None => (m1, k, Some("Unknown property type: "@ + ts)),
                        Some(t) => (registered(m1, c, props.last().0@, t, flag_member(f@, "replicated"@)), k + 1, None),
                    },
                },
                _ => (m1, k, None),
            }
        }
    }
}

/// The definitions, the count and the error, if any, after importing the
/// classes `classes` in order (members that are not objects are skipped).
pub open spec fn import_classes(
    m: Map<Seq<char>, ClassDefinitions>,
    classes: Seq<(String, JsonValue)>,
) -> (Map<Seq<char>, ClassDefinitions>, nat, Option<Seq<char>>)
    decreases classes.len(),
{
    if classes.len() == 0 {
        (m, 0, None)
    } else {
        let (m1, k, e) = import_classes(m, classes.drop_last());
        if e is Some {
            (m1, k, e)
        } else {
            match classes.last().1 {
                JsonValue::Object(ps) => {
                    let (m2, k2, e2) = import_props(m1, classes.last().0@, ps@);
                    (m2, k + k2, e2)
                },
                _ => (m1, k, None),
            }
        }
    }
}

/// The number of members of the class objects among `classes`.
pub open spec fn member_total(classes: Seq<(String, JsonValue)>) -> nat
    decreases classes.len(),
{
    if classes.len() == 0 {
        0
    } else {
        member_total(classes.drop_last()) + match classes.last().1 {
            JsonValue::Object(ps) => ps@.len(),
            _ => 0,
        }
    }
}

proof fn lemma_import_props_count(m: Map<Seq<char>, ClassDefinitions>, c: Seq<char>, props: Seq<(String, JsonValue)>)
    ensures
        import_props(m, c, props).1 <= props.len(),
    decreases props.len(),
{
    if props.len() > 0 {
        lemma_import_props_count(m, c, props.drop_last());
    }
}

proof fn lemma_import_classes_count(m: Map<Seq<char>, ClassDefinitions>, classes: Seq<(String, JsonValue)>)
    ensures
        import_classes(m, classes).1 <= member_total(classes),
    decreases classes.len(),
{
    if classes.len() > 0 {
        lemma_import_classes_count(m, classes.drop_last());
        let (m1, k, e) = import_classes(m, classes.drop_last());
        if let JsonValue::Object(ps) = classes.last().1 {
            lemma_import_props_count(m1, classes.last().0@, ps@);
        }
    }
}

proof fn lemma_member_total_prefix(classes: Seq<(String, JsonValue)>, i: int)
    requires
        0 <= i <= classes.len(),
    ensures
        member_total(classes.take(i)) <= member_total(classes),
    decreases classes.len(),
{
    if i < classes.len() {
        assert(classes.drop_last().take(i) =~= classes.take(i));
        lemma_member_total_prefix(classes.drop_last(), i);
    } else {
        assert(classes.take(i) =~= classes);
    }
}

fn import_class(defs: &mut PropertyDefinitions, class_name: &String, props: &Vec<(String, JsonValue)>, count: usize) -> (r: (usize, Option<String>))
    requires
        count + props@.len() <= usize::MAX,
    ensures
        ({
            let (m, k, e) = import_props(old(defs)@, class_name@, props@);
            &&& final(defs)@ == m
            &&& r.0 == count + k
            &&& match e {
                Some(msg) => r.1 matches Some(x) && x@ == msg,
                None => r.1 is None,
            }
        }),
{
    let n = props.len();
    let mut k: usize = 0;
    let mut j: usize = 0;
    while j < n
        invariant
            n == props@.len(),
            j <= n,
            k <= j,
            count + n <= usize::MAX,
            ({
                let (m, kk, e) = import_props(old(defs)@, class_name@, props@.take(j as int));
                &&& defs@ == m
                &&& k == kk
                &&& e is None
            }),
        decreases n - j,
    {
        proof {
            assert(props@.take(j + 1).drop_last() =~= props@.take(j as int));
            lemma_import_props_count(old(defs)@, class_name@, props@.take(j as int));
        }
        let (prop_name, prop_def) = (&props[j].0, &props[j].1);
        if let JsonValue::Object(f) = prop_def {
            if let Some(ts) = string_field(f, "type") {
                match parse_property_type(ts.as_str()) {
                    Ok(t) => {
                        let replicated = flag_field(f, "replicated");
                        let _ = register_property_definition(defs, class_name.as_str(), prop_name.as_str(), t, replicated);
                        k = k + 1;
                    },
                    Err(e) => {
                        proof {
                            assert(props@.take(j + 1) =~= props@.take(j as int).push(props@[j as int]));
                            lemma_import_prefix_error(old(defs)@, class_name@, props@, j as int + 1);
                        }
                        return (count + k, Some(e));
                    },
                }
            }
        }
        j = j + 1;
    }
    assert(props@.take(n as int) =~= props@);
    (count + k, None)
}

/// Once importing a prefix of the properties has failed, importing all of them fails the same way.
proof fn lemma_import_prefix_error(m: Map<Seq<char>, ClassDefinitions>, c: Seq<char>, props: Seq<(String, JsonValue)>, i: int)
    requires
        0 <= i <= props.len(),
        import_props(m, c, props.take(i)).2 is Some,
    ensures
        import_props(m, c, props) == import_props(m, c, props.take(i)),
    decreases props.len() - i,
{
    if i < props.len() {
        assert(props.take(i + 1).drop_last() =~= props.take(i));
        lemma_import_prefix_error(m, c, props, i + 1);
    } else {
        assert(props.take(i) =~= props);
    }
}

/// Once importing a prefix of the classes has failed, importing all of them fails the same way.
proof fn lemma_import_classes_prefix_error(m: Map<Seq<char>, ClassDefinitions>, classes: Seq<(String, JsonValue)>, i: int)
    requires
        0 <= i <= classes.len(),
        import_classes(m, classes.take(i)).2 is Some,
    ensures
        import_classes(m, classes) == import_classes(m, classes.take(i)),
    decreases classes.len() - i,
{
    if i < classes.len() {
        assert(classes.take(i + 1).drop_last() =~= classes.take(i));
        lemma_import_classes_prefix_error(m, classes, i + 1);
    } else {
        assert(classes.take(i) =~= classes);
    }
}

/// Import property definitions from a parsed JSON document. Returns the number
/// of properties read, or the error that stopped the import (the definitions
/// registered before it stay).
pub fn import_property_definitions_from_json(defs: &mut PropertyDefinitions, doc: &JsonValue) -> (r: Result<usize, String>)
    requires
        member_total(match *doc { JsonValue::Object(cs) => cs@, _ => Seq::empty() }) <= usize::MAX,
    ensures
        match *doc {
            JsonValue::Object(cs) => {
                let (m, k, e) = import_classes(old(defs)@, cs@);
                &&& final(defs)@ == m
                &&& match e {
                    Some(msg) => r matches Err(x) && x@ == msg,
                    None => r == Ok::<usize, String>(k as usize),
                }
            },
            _ => (r matches Err(x) && x@ == "Property definitions must be a JSON object"@) && final(defs)@ == old(defs)@,
        },
{
    let classes = match doc {
        JsonValue::Object(cs) => cs,
        _ => return Err(owned("Property definitions must be a JSON object")),
    };
    let n = classes.len();
    let mut count: usize = 0;
    let mut i: usize = 0;
    while i < n
        invariant
            n == classes@.len(),
            i <= n,
            member_total(classes@) <= usize::MAX,
            match *doc {
                JsonValue::Object(cs) => cs@ == classes@,
                _ => false,
            },
            ({
                let (m, k, e) = import_classes(old(defs)@, classes@.take(i as int));
                &&& defs@ == m
                &&& count == k
                &&& e is None
            }),
        decreases n - i,
    {
        proof {
            assert(classes@.take(i + 1).drop_last() =~= classes@.take(i as int));
            assert(classes@.take(i + 1).last() == classes@[i as int]);
            lemma_import_classes_count(old(defs)@, classes@.take(i as int + 1));
            lemma_member_total_prefix(classes@, i as int + 1);
            lemma_import_classes_count(old(defs)@, classes@.take(i as int));
            lemma_member_total_prefix(classes@, i as int);
        }
        if let JsonValue::Object(props) = &classes[i].1 {
            proof {
                assert(member_total(classes@.take(i + 1)) == member_total(classes@.take(i as int)) + props@.len());
            }
            let ghost d0 = defs@;
            let (c2, err) = import_class(defs, &classes[i].0, props, count);
            match err {
                Some(e) => {
                    proof {
                        let (m1, k1, e1) = import_classes(old(defs)@, classes@.take(i as int));
                        assert(m1 == d0);
                        let (m2, k2, e2) = import_props(d0, classes@[i as int].0@, props@);
                        assert(e2 == Some(e@));
                        assert(import_classes(old(defs)@, classes@.take(i + 1)) == (m2, k1 + k2, e2));
                        lemma_import_classes_prefix_error(old(defs)@, classes@, i as int + 1);
                    }
                    return Err(e);
                },
                None => {
                    count = c2;
                },
            }
        }
        i = i + 1;
    }
    assert(classes@.take(n as int) =~= classes@);
    Ok(count)
}

/// A definition written as JSON: its fields in declaration order, the type
/// and condition by their names.
pub open spec fn definition_document(o: JsonOut, d: DefinitionView) -> bool {
    match o {
        JsonOut::Object(fs) => {
            &&& fs@.len() == 6
            &&& fs@[0].0@ == "name"@ && (fs@[0].1 matches JsonOut::String(t) && t@ == d.name)
            &&& fs@[1].0@ == "property_type"@ && (fs@[1].1 matches JsonOut::String(t) && t@ == name_of_type(d.property_type))
            &&& fs@[2].0@ == "replicated"@ && fs@[2].1 == JsonOut::Bool(d.replicated)
            &&& fs@[3].0@ == "replication_condition"@ && (fs@[3].1 matches JsonOut::String(t)
                && t@ == condition_name(d.replication_condition))
            &&& fs@[4].0@ == "readonly"@ && fs@[4].1 == JsonOut::Bool(d.readonly)
            &&& fs@[5].0@ == "flags"@ && fs@[5].1 == JsonOut::UInt(d.flags as u64)
        },
        _ => false,
    }
}

/// A property definition as a JSON document; an empty object when there is none.
pub fn get_property_definition_as_json(defs: &PropertyDefinitions, class_name: &str, property_name: &str) -> (o: JsonOut)
    ensures
        match lookup(defs@, class_name@, property_name@) {
            Some(d) => definition_document(o, d),
            None => o matches JsonOut::Object(fs) && fs@.len() == 0,
        },
{
    match get_property_definition(defs, class_name, property_name) {
        Some(d) => {
            let mut fs: Vec<(String, JsonOut)> = Vec::new();
            fs.push((owned("name"), JsonOut::String(d.name.clone())));
            fs.push((owned("property_type"), JsonOut::String(owned(property_type_name(d.property_type)))));
            fs.push((owned("replicated"), JsonOut::Bool(d.replicated)));
            fs.push((owned("replication_condition"), JsonOut::String(owned(replication_condition_name(
                d.replication_condition)))));
            fs.push((owned("readonly"), JsonOut::Bool(d.readonly)));
            fs.push((owned("flags"), JsonOut::UInt(d.flags as u64)));
            JsonOut::Object(fs)
        },
        None => JsonOut::Object(Vec::new()),
    }
}

/// Whether no two members share a key.
pub open spec fn unique_keys(fs: Seq<(String, JsonValue)>) -> bool {
    forall|a: int, b: int| 0 <= a < b < fs.len() ==> (#[trigger] fs[a]).0@ != (#[trigger] fs[b]).0@
}

/// Whether some member has key `k`.
pub open spec fn has_key(fs: Seq<(String, JsonValue)>, k: Seq<char>) -> bool {
    exists|j: int| 0 <= j < fs.len() && (#[trigger] fs[j]).0@ == k
}

/// The definition a client keeps of an imported one: its type and whether
/// it replicates; the rest takes the defaults of a registration.
pub open spec fn imported(p: Seq<char>, d: DefinitionView) -> DefinitionView {
    new_definition(p, d.property_type, d.replicated, ReplicationCondition::OnChange, false, 0)
}

/// Each member describes a definition of `props`: an object with the type's
/// name under `type` and the replication flag under `replicated`.
pub open spec fn members_describe(ps: Seq<(String, JsonValue)>, props: ClassDefinitions) -> bool {
    &&& unique_keys(ps)
    &&& forall|j: int| 0 <= j < ps.len() ==> props.contains_key((#[trigger] ps[j]).0@)
        && (ps[j].1 matches JsonValue::Object(f)
            && string_member(f@, "type"@) == Some(name_of_type(props[ps[j].0@].property_type))
            && flag_member(f@, "replicated"@) == props[ps[j].0@].replicated)
}

/// The members describe exactly the definitions `props`, one member each.
pub open spec fn describes_props(ps: Seq<(String, JsonValue)>, props: ClassDefinitions) -> bool {
    &&& members_describe(ps, props)
    &&& forall|k: Seq<char>| props.contains_key(k) ==> #[trigger] has_key(ps, k)
}

/// Each member describes the definitions of a class of `m`.
pub open spec fn members_describe_classes(cs: Seq<(String, JsonValue)>, m: Map<Seq<char>, ClassDefinitions>) -> bool {
    &&& unique_keys(cs)
    &&& forall|j: int| 0 <= j < cs.len() ==> m.contains_key((#[trigger] cs[j]).0@)
        && (cs[j].1 matches JsonValue::Object(ps) && describes_props(ps@, m[cs[j].0@]))
}

/// A document describes the definitions `m` as an export writes them: one
/// member per class, each describing exactly the class's definitions.
pub open spec fn describes_definitions(cs: Seq<(String, JsonValue)>, m: Map<Seq<char>, ClassDefinitions>) -> bool {
    &&& members_describe_classes(cs, m)
    &&& forall|c: Seq<char>| m.contains_key(c) ==> #[trigger] has_key(cs, c)
}

proof fn lemma_import_described_props(m1: Map<Seq<char>, ClassDefinitions>, c: Seq<char>, ps: Seq<(String, JsonValue)>,
    props: ClassDefinitions)
    requires
        members_describe(ps, props),
        forall|j: int| 0 <= j < ps.len() ==> lookup(m1, c, (#[trigger] ps[j]).0@) is None,
    ensures
        import_props(m1, c, ps).1 == ps.len(),
        import_props(m1, c, ps).2 is None,
        forall|c2: Seq<char>, p: Seq<char>| #[trigger] lookup(import_props(m1, c, ps).0, c2, p)
            == (if c2 == c && has_key(ps, p) { Some(imported(p, props[p])) } else { lookup(m1, c2, p) }),
    decreases ps.len(),
{
    if ps.len() > 0 {
        let front = ps.drop_last();
        assert forall|j: int| 0 <= j < front.len() implies lookup(m1, c, (#[trigger] front[j]).0@) is None by {
            assert(front[j] == ps[j]);
        }
        assert(members_describe(front, props)) by {
            assert forall|a: int, b: int| 0 <= a < b < front.len() implies (#[trigger] front[a]).0@ != (#[trigger] front[b]).0@ by {
                assert(front[a] == ps[a] && front[b] == ps[b]);
            }
            assert forall|j: int| 0 <= j < front.len() implies props.contains_key((#[trigger] front[j]).0@)
                && (front[j].1 matches JsonValue::Object(f)
                    && string_member(f@, "type"@) == Some(name_of_type(props[front[j].0@].property_type))
                    && flag_member(f@, "replicated"@) == props[front[j].0@].replicated) by {
                assert(front[j] == ps[j]);
            }
        }
        lemma_import_described_props(m1, c, front, props);
        let (ma, ka, ea) = import_props(m1, c, front);
        let last = ps[ps.len() - 1];
        let pk = last.0@;
        let d = props[pk];
        let f = last.1->Object_0;
        crate::server::property::lemma_type_names_read_back(d.property_type);
        assert(!has_key(front, pk)) by {
            if has_key(front, pk) {
                let j = choose|j: int| 0 <= j < front.len() && (#[trigger] front[j]).0@ == pk;
                assert(front[j] == ps[j]);
            }
        }
        assert(lookup(ma, c, pk) is None);
        let nd = imported(pk, d);
        let m2 = import_props(m1, c, ps).0;
        assert(m2 == ma.insert(c, class_props(ma, c).insert(pk, nd)));
        assert forall|c2: Seq<char>, p: Seq<char>| #[trigger] lookup(m2, c2, p)
            == (if c2 == c && has_key(ps, p) { Some(imported(p, props[p])) } else { lookup(m1, c2, p) }) by {
            if c2 == c {
                if p == pk {
                    assert(has_key(ps, p)) by { assert(ps[ps.len() - 1].0@ == p); }
                } else {
                    assert(lookup(m2, c2, p) == lookup(ma, c2, p));
                    if has_key(ps, p) {
                        let j = choose|j: int| 0 <= j < ps.len() && (#[trigger] ps[j]).0@ == p;
                        assert(j < ps.len() - 1);
                        assert(front[j] == ps[j]);
                        assert(has_key(front, p));
                    } else {
                        assert(!has_key(front, p)) by {
                            if has_key(front, p) {
                                let j = choose|j: int| 0 <= j < front.len() && (#[trigger] front[j]).0@ == p;
                                assert(ps[j] == front[j]);
                            }
                        }
                    }
                }
            } else {
                assert(lookup(m2, c2, p) == lookup(ma, c2, p));
            }
        }
    }
}

proof fn lemma_import_described_classes(m0: Map<Seq<char>, ClassDefinitions>, cs: Seq<(String, JsonValue)>,
    m: Map<Seq<char>, ClassDefinitions>)
    requires
        members_describe_classes(cs, m),
        forall|c: Seq<char>, p: Seq<char>| #[trigger] lookup(m, c, p) is Some ==> lookup(m0, c, p) is None,
    ensures
        import_classes(m0, cs).1 == member_total(cs),
        import_classes(m0, cs).2 is None,
        forall|c: Seq<char>, p: Seq<char>| #[trigger] lookup(import_classes(m0, cs).0, c, p)
            == (if has_key(cs, c) && lookup(m, c, p) is Some { Some(imported(p, lookup(m, c, p)->0)) } else { lookup(m0, c, p) }),
    decreases cs.len(),
{
    if cs.len() > 0 {
        let front = cs.drop_last();
        assert(members_describe_classes(front, m)) by {
            assert forall|a: int, b: int| 0 <= a < b < front.len() implies (#[trigger] front[a]).0@ != (#[trigger] front[b]).0@ by {
                assert(front[a] == cs[a] && front[b] == cs[b]);
            }
            assert forall|j: int| 0 <= j < front.len() implies m.contains_key((#[trigger] front[j]).0@)
                && (front[j].1 matches JsonValue::Object(ps) && describes_props(ps@, m[front[j].0@])) by {
                assert(front[j] == cs[j]);
            }
        }
        lemma_import_described_classes(m0, front, m);
        let ma = import_classes(m0, front).0;
        let last = cs[cs.len() - 1];
        let c = last.0@;
        let ps = last.1->Object_0@;
        let props = m[c];
        assert(!has_key(front, c)) by {
            if has_key(front, c) {
                let j = choose|j: int| 0 <= j < front.len() && (#[trigger] front[j]).0@ == c;
                assert(front[j] == cs[j]);
            }
        }
        assert forall|j: int| 0 <= j < ps.len() implies lookup(ma, c, (#[trigger] ps[j]).0@) is None by {
            let p = ps[j].0@;
            assert(props.contains_key(p));
            assert(lookup(m, c, p) is Some);
            assert(lookup(ma, c, p) == lookup(m0, c, p));
        }
        lemma_import_described_props(ma, c, ps, props);
        let m2 = import_classes(m0, cs).0;
        assert forall|c2: Seq<char>, p: Seq<char>| #[trigger] lookup(m2, c2, p)
            == (if has_key(cs, c2) && lookup(m, c2, p) is Some { Some(imported(p, lookup(m, c2, p)->0)) } else { lookup(m0, c2, p) }) by {
            assert(lookup(m2, c2, p) == (if c2 == c && has_key(ps, p) { Some(imported(p, props[p])) } else { lookup(ma, c2, p) }));
            if c2 == c {
                assert(has_key(cs, c2)) by { assert(cs[cs.len() - 1].0@ == c2); }
                if has_key(ps, p) {
                    let j = choose|j: int| 0 <= j < ps.len() && (#[trigger] ps[j]).0@ == p;
                    assert(props.contains_key(p));
                } else {
                    assert(!props.contains_key(p));
                }
            } else {
                assert(has_key(cs, c2) == has_key(front, c2)) by {
                    if has_key(cs, c2) {
                        let j = choose|j: int| 0 <= j < cs.len() && (#[trigger] cs[j]).0@ == c2;
                        assert(front[j] == cs[j]);
                    }
                    if has_key(front, c2) {
                        let j = choose|j: int| 0 <= j < front.len() && (#[trigger] front[j]).0@ == c2;
                        assert(front[j] == cs[j]);
                    }
                }
            }
        }
    }
}

/// What an export writes, an import reads back: importing a document that
/// describes definitions `m` as an export writes them, into definitions that
/// hold none of them, succeeds, counts every property, and gives each of
/// them its type and replication flag (the rest of a definition takes the
/// defaults of a registration); every other lookup is unchanged.
pub proof fn law_export_then_import(m: Map<Seq<char>, ClassDefinitions>, m0: Map<Seq<char>, ClassDefinitions>,
    cs: Seq<(String, JsonValue)>)
    requires
        describes_definitions(cs, m),
        forall|c: Seq<char>, p: Seq<char>| #[trigger] lookup(m, c, p) is Some ==> lookup(m0, c, p) is None,
    ensures
        ({
            let (m2, k, e) = import_classes(m0, cs);
            &&& e is None
            &&& k == member_total(cs)
            &&& forall|c: Seq<char>, p: Seq<char>| #[trigger] lookup(m2, c, p) == match lookup(m, c, p) {
                Some(d) => Some(imported(p, d)),
                None => lookup(m0, c, p),
            }
        }),
{
    lemma_import_described_classes(m0, cs, m);
    let m2 = import_classes(m0, cs).0;
    assert forall|c: Seq<char>, p: Seq<char>| #[trigger] lookup(m2, c, p) == match lookup(m, c, p) {
        Some(d) => Some(imported(p, d)),
        None => lookup(m0, c, p),
    } by {
        if lookup(m, c, p) is Some {
            assert(has_key(cs, c));
        }
    }
}

/// With distinct keys, a member is what a lookup of its key finds.
proof fn lemma_field_at(fs: Seq<(String, JsonValue)>, j: int)
    requires
        unique_keys(fs),
        0 <= j < fs.len(),
    ensures
        field(fs, fs[j].0@) == Some(fs[j].1),
    decreases j,
{
    if j > 0 {
        let rest = fs.drop_first();
        assert(fs[0].0@ != fs[j].0@);
        assert(rest[j - 1] == fs[j]);
        assert forall|a: int, b: int| 0 <= a < b < rest.len() implies (#[trigger] rest[a]).0@ != (#[trigger] rest[b]).0@ by {
            assert(rest[a] == fs[a + 1] && rest[b] == fs[b + 1]);
        }
        lemma_field_at(rest, j - 1);
    }
}

/// A key that a lookup finds is held by a member.
proof fn lemma_field_has_key(fs: Seq<(String, JsonValue)>, k: Seq<char>)
    requires
        field(fs, k) is Some,
    ensures
        has_key(fs, k),
    decreases fs.len(),
{
    if fs[0].0@ != k {
        let rest = fs.drop_first();
        lemma_field_has_key(rest, k);
        let j = choose|j: int| 0 <= j < rest.len() && (#[trigger] rest[j]).0@ == k;
        assert(fs[j + 1] == rest[j]);
    }
}

/// A key that a lookup of a document to be written finds is held by a member.
proof fn lemma_out_field_held(fs: Seq<(String, JsonOut)>, k: Seq<char>)
    requires
        crate::json::out_field(fs, k) is Some,
    ensures
        exists|y: int| 0 <= y < fs.len() && (#[trigger] fs[y]).0@ == k,
{
    if !(exists|y: int| 0 <= y < fs.len() && (#[trigger] fs[y]).0@ == k) {
        crate::json::lemma_out_field_absent(fs, k);
    }
}

/// The written definition of `d`, read back, has its type name and replication flag.
proof fn lemma_definition_read(o: JsonOut, d: DefinitionView, f: JsonValue)
    requires
        definition_json(o, d),
        crate::json::transports(o, f, 1),
    ensures
        f matches JsonValue::Object(ff) && string_member(ff@, "type"@) == Some(name_of_type(d.property_type))
            && flag_member(ff@, "replicated"@) == d.replicated,
{
    reveal_strlit("flags");
    reveal_strlit("readonly");
    reveal_strlit("replicated");
    reveal_strlit("replication_condition");
    reveal_strlit("type");
    let keys = seq!["flags"@, "readonly"@, "replicated"@, "replication_condition"@, "type"@];
    let ofs = o->Object_0@;
    assert forall|a: int, b: int| 0 <= a < b < ofs.len() implies ofs[a].0@ != ofs[b].0@ by {
        assert(ofs[a].0@ == keys[a] && ofs[b].0@ == keys[b]);
        crate::client::serialization::lemma_differ(keys[a], keys[b]);
    }
    crate::client::serialization::lemma_member_transported(o, f, 1, 2);
    crate::client::serialization::lemma_member_transported(o, f, 1, 4);
}

/// A written class, read back with distinct keys, describes the class's definitions.
proof fn lemma_class_read(o: JsonOut, props: ClassDefinitions, v: JsonValue)
    requires
        class_json(o, props),
        crate::json::transports(o, v, 2),
        v matches JsonValue::Object(ps) && unique_keys(ps@),
    ensures
        v matches JsonValue::Object(ps) && describes_props(ps@, props),
{
    let cfs = o->Object_0@;
    let ps = v->Object_0@;
    assert forall|j: int| 0 <= j < ps.len() implies props.contains_key((#[trigger] ps[j]).0@)
        && (ps[j].1 matches JsonValue::Object(f)
            && string_member(f@, "type"@) == Some(name_of_type(props[ps[j].0@].property_type))
            && flag_member(f@, "replicated"@) == props[ps[j].0@].replicated) by {
        let pk = ps[j].0@;
        lemma_field_at(ps, j);
        assert(field(ps, pk) is Some);
        assert(crate::json::out_field(cfs, pk) is Some);
        lemma_out_field_held(cfs, pk);
        let y = choose|y: int| 0 <= y < cfs.len() && (#[trigger] cfs[y]).0@ == pk;
        crate::client::serialization::lemma_member_transported(o, v, 2, y);
        lemma_definition_read(cfs[y].1, props[pk], ps[j].1);
    }
    assert forall|k: Seq<char>| props.contains_key(k) implies #[trigger] has_key(ps, k) by {
        let y = choose|y: int| 0 <= y < cfs.len() && cfs[y].0@ == k;
        crate::client::serialization::lemma_member_transported(o, v, 2, y);
        lemma_field_has_key(ps, k);
    }
}

/// The written definitions, read back with distinct keys, describe the definitions.
proof fn lemma_definitions_read(o: JsonOut, order: Seq<Seq<char>>, m: Map<Seq<char>, ClassDefinitions>, i: JsonValue)
    requires
        definitions_json(o, order, m),
        order.no_duplicates(),
        order.to_set() == m.dom(),
        crate::json::transports(o, i, 3),
        i matches JsonValue::Object(cs) && unique_keys(cs@)
            && forall|j: int| 0 <= j < cs@.len() ==> ((#[trigger] cs@[j]).1 matches JsonValue::Object(ps) ==> unique_keys(ps@)),
    ensures
        i matches JsonValue::Object(cs) && describes_definitions(cs@, m),
{
    let ofs = o->Object_0@;
    let cs = i->Object_0@;
    assert forall|a: int, b: int| 0 <= a < b < ofs.len() implies ofs[a].0@ != ofs[b].0@ by {
        assert(ofs[a].0@ == order[a] && ofs[b].0@ == order[b]);
    }
    assert forall|j: int| 0 <= j < cs.len() implies m.contains_key((#[trigger] cs[j]).0@)
        && (cs[j].1 matches JsonValue::Object(ps) && describes_props(ps@, m[cs[j].0@])) by {
        let ck = cs[j].0@;
        lemma_field_at(cs, j);
        assert(crate::json::out_field(ofs, ck) is Some);
        lemma_out_field_held(ofs, ck);
        let y = choose|y: int| 0 <= y < ofs.len() && (#[trigger] ofs[y]).0@ == ck;
        assert(ofs[y].0@ == order[y]);
        assert(order.to_set().contains(order[y]));
        crate::client::serialization::lemma_member_transported(o, i, 3, y);
        assert(class_json(ofs[y].1, m[order[y]]));
        assert(cs[j].1 is Object);
        lemma_class_read(ofs[y].1, m[ck], cs[j].1);
    }
    assert forall|c: Seq<char>| m.contains_key(c) implies #[trigger] has_key(cs, c) by {
        assert(order.to_set().contains(c));
        let y = choose|y: int| 0 <= y < order.len() && order[y] == c;
        assert(ofs[y].0@ == c);
        crate::client::serialization::lemma_member_transported(o, i, 3, y);
        lemma_field_has_key(cs, c);
    }
}

/// Exported definitions, once their JSON text is read back (its objects have
/// distinct keys, as parsed JSON objects do), import as what was exported:
/// into definitions holding none of them, the import succeeds, counts every
/// property, and gives each its type and replication flag; every other
/// lookup is unchanged.
pub proof fn law_exported_text_imports(o: JsonOut, order: Seq<Seq<char>>, m: Map<Seq<char>, ClassDefinitions>,
    i: JsonValue, m0: Map<Seq<char>, ClassDefinitions>)
    requires
        definitions_json(o, order, m),
        order.no_duplicates(),
        order.to_set() == m.dom(),
        crate::json::transports(o, i, 3),
        i matches JsonValue::Object(cs) && unique_keys(cs@)
            && forall|j: int| 0 <= j < cs@.len() ==> ((#[trigger] cs@[j]).1 matches JsonValue::Object(ps) ==> unique_keys(ps@)),
        forall|c: Seq<char>, p: Seq<char>| #[trigger] lookup(m, c, p) is Some ==> lookup(m0, c, p) is None,
    ensures
        i matches JsonValue::Object(cs) && ({
            let (m2, k, e) = import_classes(m0, cs@);
            &&& e is None
            &&& k == member_total(cs@)
            &&& forall|c: Seq<char>, p: Seq<char>| #[trigger] lookup(m2, c, p) == match lookup(m, c, p) {
                Some(d) => Some(imported(p, d)),
                None => lookup(m0, c, p),
            }
        }),
{
    lemma_definitions_read(o, order, m, i);
    law_export_then_import(m, m0, i->Object_0@);
}

} // verus!
