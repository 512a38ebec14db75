//! The server's property system: the registry of property definitions and
//! its client-visible table, writes of object properties, and the queue of
//! property changes waiting to be replicated.
use vstd::prelude::*;
use crate::collections::AssocMap;
use crate::shared::property::{PropertyType, PropertyValue, PropertyDefinition, DefinitionView, ReplicationCondition};
use crate::server::object::{ObjectInstance, ObjectProperty, object_index, find_object};
use crate::server::connection::ClientInfo;
use crate::client::property::{name_of_type, property_type_name, condition_name, replication_condition_name,
    type_from_name, condition_from_name, inserted_row, class_props, string_member, new_definition, ClassDefinitions};
use crate::json::{JsonValue, NumberRepr, field};
use crate::server::relevancy::RelevancyManager;
use crate::server::integration::{relevant_to, filter_clients_for_object_update};
use crate::text::{owned, str_contains, has_substring, decimal, with_number};

verus! {

/// A property change waiting to be replicated.
#[derive(Debug)]
pub struct QueuedPropertyReplication {
    pub object_id: u64,
    pub property_name: String,
    /// When the change occurred.
    pub timestamp: u64,
    pub is_high_priority: bool,
}

/// A queued change, with its property name as a character sequence.
pub type QueuedView = (u64, Seq<char>, u64, bool);

impl View for QueuedPropertyReplication {
    type V = QueuedView;

    open spec fn view(&self) -> QueuedView {
        (self.object_id, self.property_name@, self.timestamp, self.is_high_priority)
    }
}

/// The views of a replication queue.
pub open spec fn queue_views(q: Seq<QueuedPropertyReplication>) -> Seq<QueuedView> {
    q.map_values(|e: QueuedPropertyReplication| e@)
}

/// A row of the client-visible table of property definitions.
#[derive(Debug)]
pub struct PropertyDefinitionTable {
    /// `class_name:property_name`.
    pub id: String,
    pub class_name: String,
    pub property_name: String,
    /// The name of the property type.
    pub property_type: String,
    pub replicated: bool,
    /// The name of the replication condition.
    pub replication_condition: String,
    pub readonly: bool,
    pub flags: u32,
}

/// A definition-table row, with its texts as character sequences.
pub type DefinitionRowView = (Seq<char>, Seq<char>, Seq<char>, Seq<char>, bool, Seq<char>, bool, u32);

impl View for PropertyDefinitionTable {
    type V = DefinitionRowView;

    open spec fn view(&self) -> DefinitionRowView {
        (self.id@, self.class_name@, self.property_name@, self.property_type@, self.replicated,
            self.replication_condition@, self.readonly, self.flags)
    }
}

/// The views of a definition table.
pub open spec fn table_views(t: Seq<PropertyDefinitionTable>) -> Seq<DefinitionRowView> {
    t.map_values(|r: PropertyDefinitionTable| r@)
}

/// The property definitions of the server, by full name (`Class.Property`
/// or a bare property name).
pub type PropertyRegistry = AssocMap<String, PropertyDefinition>;

/// What the registry says, by full name.
pub open spec fn registry_view(r: PropertyRegistry) -> Map<Seq<char>, DefinitionView> {
    r@.map_values(|d: PropertyDefinition| d@)
}

/// A definition as it is written into the registry.
pub open spec fn definition(name: Seq<char>, t: PropertyType, replicated: bool, readonly: bool,
    c: ReplicationCondition, flags: u32) -> DefinitionView {
    DefinitionView { name, property_type: t, replicated, replication_condition: c, readonly, flags }
}

/// Register a property definition under its full name (replacing one of the same name).
pub fn register_property_definition(
    registry: &mut PropertyRegistry,
    full_name: &str,
    property_type: PropertyType,
    replicated: bool,
    readonly: bool,
    replication_condition: ReplicationCondition,
    flags: u32,
)
    ensures
        registry_view(*final(registry)) == registry_view(*old(registry)).insert(full_name@,
            definition(full_name@, property_type, replicated, readonly, replication_condition, flags)),
{
    let def = PropertyDefinition {
        name: owned(full_name),
        property_type,
        replicated,
        readonly,
        replication_condition,
        flags,
    };
    registry.insert(owned(full_name), def);
    assert(registry_view(*registry) =~= registry_view(*old(registry)).insert(full_name@,
        definition(full_name@, property_type, replicated, readonly, replication_condition, flags)));
}

/// A replicated, writable definition with no flags.
pub open spec fn standard(name: Seq<char>, t: PropertyType, c: ReplicationCondition) -> DefinitionView {
    definition(name, t, true, false, c, 0)
}

/// The standard engine properties added to a registry.
pub open spec fn with_standard_properties(m: Map<Seq<char>, DefinitionView>) -> Map<Seq<char>, DefinitionView> {
    m.insert("Location"@, standard("Location"@, PropertyType::Vector, ReplicationCondition::OnChange))
        .insert("Rotation"@, standard("Rotation"@, PropertyType::Rotator, ReplicationCondition::OnChange))
        .insert("Scale"@, standard("Scale"@, PropertyType::Vector, ReplicationCondition::OnChange))
        .insert("Health"@, standard("Health"@, PropertyType::Float, ReplicationCondition::OnChange))
        .insert("DisplayName"@, standard("DisplayName"@, PropertyType::String, ReplicationCondition::Initial))
}

/// The custom game properties added to a registry.
pub open spec fn with_custom_properties(m: Map<Seq<char>, DefinitionView>) -> Map<Seq<char>, DefinitionView> {
    m.insert("CustomData"@, standard("CustomData"@, PropertyType::Custom, ReplicationCondition::OnChange))
}

/// Add the standard engine property definitions: location, rotation, scale,
/// health and display name.
pub fn add_standard_properties(registry: &mut PropertyRegistry)
    ensures
        registry_view(*final(registry)) == with_standard_properties(registry_view(*old(registry))),
{
    register_property_definition(registry, "Location", PropertyType::Vector, true, false,
        ReplicationCondition::OnChange, 0);
    register_property_definition(registry, "Rotation", PropertyType::Rotator, true, false,
        ReplicationCondition::OnChange, 0);
    register_property_definition(registry, "Scale", PropertyType::Vector, true, false,
        ReplicationCondition::OnChange, 0);
    register_property_definition(registry, "Health", PropertyType::Float, true, false,
        ReplicationCondition::OnChange, 0);
    register_property_definition(registry, "DisplayName", PropertyType::String, true, false,
        ReplicationCondition::Initial, 0);
}

/// Add the custom game property definitions.
pub fn add_custom_properties(registry: &mut PropertyRegistry)
    ensures
        registry_view(*final(registry)) == with_custom_properties(registry_view(*old(registry))),
{
    register_property_definition(registry, "CustomData", PropertyType::Custom, true, false,
        ReplicationCondition::OnChange, 0);
}

/// Load the property definitions: the registry is cleared and gets the
/// standard and the custom definitions.
pub fn load_property_definitions(registry: &mut PropertyRegistry)
    ensures
        registry_view(*final(registry)) == with_custom_properties(with_standard_properties(
            Map::<Seq<char>, DefinitionView>::empty())),
{
    *registry = AssocMap::new();
    assert(registry_view(*registry) =~= Map::<Seq<char>, DefinitionView>::empty());
    add_standard_properties(registry);
    add_custom_properties(registry);
}

/// Whether changes of a property replicate: as its definition says, or
/// always when it has none.
pub open spec fn replicates(reg: Map<Seq<char>, DefinitionView>, name: Seq<char>) -> bool {
    !reg.contains_key(name) || reg[name].replicated
}

/// Whether a property is high priority: its name mentions location, rotation or transform.
pub open spec fn high_priority(name: Seq<char>) -> bool {
    has_substring(name, "Location"@) || has_substring(name, "Rotation"@) || has_substring(name, "Transform"@)
}

/// The queue after a change of a property has been offered to it.
pub open spec fn queued(reg: Map<Seq<char>, DefinitionView>, q: Seq<QueuedView>, object_id: u64, name: Seq<char>,
    ts: u64) -> Seq<QueuedView> {
    if replicates(reg, name) {
        q.push((object_id, name, ts, high_priority(name)))
    } else {
        q
    }
}

/// Add a property change to the replication queue, unless the property does not replicate.
pub fn queue_property_for_replication(registry: &PropertyRegistry, queue: &mut Vec<QueuedPropertyReplication>,
    object_id: u64, property_name: &str, timestamp: u64)
    ensures
        queue_views(final(queue)@) == queued(registry_view(*registry), queue_views(old(queue)@), object_id,
            property_name@, timestamp),
{
    let key = owned(property_name);
    let replicate = match registry.get(&key) {
        Some(def) => def.replicated,
        None => true,
    };
    if !replicate {
        return;
    }
    let is_high_priority = str_contains(property_name, "Location") || str_contains(property_name, "Rotation")
        || str_contains(property_name, "Transform");
    queue.push(QueuedPropertyReplication {
        object_id,
        property_name: owned(property_name),
        timestamp,
        is_high_priority,
    });
    assert(queue_views(queue@) =~= queue_views(old(queue)@).push((object_id, property_name@, timestamp,
        high_priority(property_name@))));
}

/// Whether a client may modify an object: admins may modify any object,
/// owners their own, and anyone an object without owner.
pub open spec fn spec_can_modify_object(client: ClientInfo, object: ObjectInstance) -> bool {
    client.is_admin || object.owner_identity == Some(client.identity) || object.owner_identity is None
}

/// Check if a client can modify an object.
pub fn can_modify_object(client: &ClientInfo, object: &ObjectInstance) -> (r: bool)
    ensures
        r == spec_can_modify_object(*client, *object),
{
    if client.is_admin {
        return true;
    }
    match object.owner_identity {
        Some(owner) => owner == client.identity,
        None => true,
    }
}

/// The property type of a value (a null value counts as `Bool`).
pub fn get_property_type(value: &PropertyValue) -> (t: PropertyType)
    ensures
        t == value.spec_type(),
{
    value.get_type()
}

/// Whether an `f32` bit pattern is a NaN: all exponent bits set and a
/// non-zero mantissa.
pub open spec fn f32_bits_nan(bits: u32) -> bool {
    (bits & 0x7f80_0000u32) == 0x7f80_0000u32 && (bits & 0x007f_ffffu32) != 0u32
}

fn is_nan_bits(bits: u32) -> (r: bool)
    ensures
        r == f32_bits_nan(bits),
{
    (bits & 0x7f80_0000u32) == 0x7f80_0000u32 && (bits & 0x007f_ffffu32) != 0u32
}

/// Whether a value may be written to a property: it must have the type of
/// the property's definition (if any), a reference must name an existing
/// object, and a vector must hold no NaN.
pub open spec fn spec_validate(reg: Map<Seq<char>, DefinitionView>, objects: Seq<ObjectInstance>, name: Seq<char>,
    v: PropertyValue) -> Result<(), Seq<char>> {
    if reg.contains_key(name) && reg[name].property_type != v.spec_type() {
        Err("Type mismatch: expected "@ + name_of_type(reg[name].property_type) + ", got "@ + name_of_type(
            v.spec_type()))
    } else {
        match v {
            PropertyValue::ObjectReference(id) => if object_index(objects, id) is None {
                Err("Referenced object "@ + decimal(id as nat) + " does not exist"@)
            } else {
                Ok(())
            },
            PropertyValue::Vector(vec) => if f32_bits_nan(vec.x) || f32_bits_nan(vec.y) || f32_bits_nan(vec.z) {
                Err("Vector contains NaN values"@)
            } else {
                Ok(())
            },
            _ => Ok(()),
        }
    }
}

/// Validate a property value against its definition and the objects that exist.
pub fn validate_property_value(registry: &PropertyRegistry, objects: &Vec<ObjectInstance>, property_name: &str,
    value: &PropertyValue) -> (r: Result<(), String>)
    ensures
        match spec_validate(registry_view(*registry), objects@, property_name@, *value) {
            Ok(()) => r is Ok,
            Err(e) => r matches Err(x) && x@ == e,
        },
{
    let key = owned(property_name);
    match registry.get(&key) {
        Some(def) => {
            let t = value.get_type();
            if def.property_type != t {
                let mut msg = owned("Type mismatch: expected ");
                msg.append(property_type_name(def.property_type));
                msg.append(", got ");
                msg.append(property_type_name(t));
                return Err(msg);
            }
        },
        None => {},
    }
    match value {
        PropertyValue::ObjectReference(id) => {
            if find_object(objects, *id).is_none() {
                return Err(with_number("Referenced object ", *id, " does not exist"));
            }
        },
        PropertyValue::Vector(v) => {
            if is_nan_bits(v.x) || is_nan_bits(v.y) || is_nan_bits(v.z) {
                return Err(owned("Vector contains NaN values"));
            }
        },
        _ => {},
    }
    Ok(())
}

/// The position of the first client row with a client ID, if any.
pub open spec fn client_id_index(rows: Seq<ClientInfo>, id: u64) -> Option<int> {
    if exists|i: int| 0 <= i < rows.len() && (#[trigger] rows[i]).client_id == id {
        Some(choose|i: int| 0 <= i < rows.len() && (#[trigger] rows[i]).client_id == id
            && forall|k: int| 0 <= k < i ==> rows[k].client_id != id)
    } else {
        None
    }
}

fn find_client_by_id(rows: &Vec<ClientInfo>, id: u64) -> (r: Option<usize>)
    ensures
        client_id_index(rows@, id) == match r { Some(i) => Some(i as int), None => None::<int> },
        r matches Some(i) ==> i < rows@.len(),
{
    let n = rows.len();
    let mut i: usize = 0;
    while i < n
        invariant
            n == rows@.len(),
            i <= n,
            forall|k: int| 0 <= k < i ==> (#[trigger] rows@[k]).client_id != id,
        decreases n - i,
    {
        if rows[i].client_id == id {
            proof {
                let c = choose|c: int| 0 <= c < rows@.len() && (#[trigger] rows@[c]).client_id == id
                    && forall|k: int| 0 <= k < c ==> rows@[k].client_id != id;
                if c > i {
                    assert(rows@[i as int].client_id == id);
                }
            }
            return Some(i);
        }
        i = i + 1;
    }
    None
}

/// The position of the first property row of an object with a name, if any.
pub open spec fn property_index(rows: Seq<ObjectProperty>, object_id: u64, name: Seq<char>) -> Option<int> {
    if exists|i: int| 0 <= i < rows.len() && (#[trigger] rows[i]).object_id == object_id
        && rows[i].property_name@ == name {
        Some(choose|i: int| 0 <= i < rows.len() && (#[trigger] rows[i]).object_id == object_id
            && rows[i].property_name@ == name && forall|k: int| 0 <= k < i ==> !(rows[k].object_id == object_id
            && rows[k].property_name@ == name))
    } else {
        None
    }
}

/// Finds the first property row of an object with a name.
pub fn find_object_property(rows: &Vec<ObjectProperty>, object_id: u64, name: &str) -> (r: Option<usize>)
    ensures
        property_index(rows@, object_id, name@) == match r { Some(i) => Some(i as int), None => None::<int> },
        r matches Some(i) ==> i < rows@.len(),
{
    let n = rows.len();
    let mut i: usize = 0;
    while i < n
        invariant
            n == rows@.len(),
            i <= n,
            forall|k: int| 0 <= k < i ==> !((#[trigger] rows@[k]).object_id == object_id
                && rows@[k].property_name@ == name@),
        decreases n - i,
    {
        if rows[i].object_id == object_id && crate::text::str_eq(rows[i].property_name.as_str(), name) {
            proof {
                let c = choose|c: int| 0 <= c < rows@.len() && (#[trigger] rows@[c]).object_id == object_id
                    && rows@[c].property_name@ == name@ && forall|k: int| 0 <= k < c ==> !(rows@[k].object_id
                    == object_id && rows@[k].property_name@ == name@);
                if c > i {
                    assert(rows@[i as int].object_id == object_id && rows@[i as int].property_name@ == name@);
                }
            }
            return Some(i);
        }
        i = i + 1;
    }
    None
}

/// The property rows after a value is written: the first row of the object
/// and name gets the value and time; without one, a replicated row is added.
pub open spec fn written(rows: Seq<ObjectProperty>, object_id: u64, name: String, value: PropertyValue, ts: u64)
    -> Seq<ObjectProperty> {
    match property_index(rows, object_id, name@) {
        Some(i) => rows.update(i, ObjectProperty { value, last_updated: ts, ..rows[i] }),
        None => rows.push(ObjectProperty { object_id, property_name: name, value, last_updated: ts, replicated: true }),
    }
}

/// What a property write by a client decides: the value to write, or the
/// error, checked in this order: the client, the object, the permission,
/// the decoded value, its validation.
pub open spec fn spec_set_property(
    clients: Seq<ClientInfo>,
    objects: Seq<ObjectInstance>,
    reg: Map<Seq<char>, DefinitionView>,
    client_id: u64,
    object_id: u64,
    name: Seq<char>,
    decoded: Result<PropertyValue, String>,
) -> Result<PropertyValue, Seq<char>> {
    match client_id_index(clients, client_id) {
        None => Err("Client not found"@),
        Some(c) => match object_index(objects, object_id) {
            None => Err("Object "@ + decimal(object_id as nat) + " not found"@),
            Some(o) => if !spec_can_modify_object(clients[c], objects[o]) {
                Err("You don't have permission to modify this object"@)
            } else {
                match decoded {
                    Err(e) => Err("Failed to parse property value: "@ + e@),
                    Ok(v) => match spec_validate(reg, objects, name, v) {
                        Err(e) => Err("Property validation failed: "@ + e),
                        Ok(()) => Ok(v),
                    },
                }
            },
        },
    }
}

fn replace_property(rows: &mut Vec<ObjectProperty>, i: usize, p: ObjectProperty)
    requires
        i < old(rows)@.len(),
    ensures
        final(rows)@ == old(rows)@.update(i as int, p),
{
    let mut tmp: Vec<ObjectProperty> = Vec::new();
    std::mem::swap(&mut tmp, rows);
    let _ = tmp.remove(i);
    tmp.insert(i, p);
    std::mem::swap(&mut tmp, rows);
    assert(rows@ =~= old(rows)@.update(i as int, p));
}

fn prefixed(prefix: &str, detail: &str) -> (r: String)
    ensures
        r@ == prefix@ + detail@,
{
    let mut msg = owned(prefix);
    msg.append(detail);
    msg
}

/// A client sets a property value on an object. `decoded` is the value read
/// from the JSON text that the client sent (or why it could not be read).
/// On success the value is written and the change offered to the
/// replication queue; on failure nothing changes.
pub fn set_object_property(
    clients: &Vec<ClientInfo>,
    objects: &Vec<ObjectInstance>,
    registry: &PropertyRegistry,
    properties: &mut Vec<ObjectProperty>,
    queue: &mut Vec<QueuedPropertyReplication>,
    timestamp: u64,
    client_id: u64,
    object_id: u64,
    property_name: String,
    decoded: Result<PropertyValue, String>,
) -> (r: Result<(), String>)
    ensures
        match spec_set_property(clients@, objects@, registry_view(*registry), client_id, object_id,
            property_name@, decoded) {
            Err(e) => {
                &&& r matches Err(x) && x@ == e
                &&& final(properties)@ == old(properties)@
                &&& final(queue)@ == old(queue)@
            },
            Ok(v) => {
                &&& r is Ok
                &&& final(properties)@ == written(old(properties)@, object_id, property_name, v, timestamp)
                &&& queue_views(final(queue)@) == queued(registry_view(*registry), queue_views(old(queue)@),
                    object_id, property_name@, timestamp)
            },
        },
{
    let c = match find_client_by_id(clients, client_id) {
        Some(c) => c,
        None => return Err(owned("Client not found")),
    };
    let o = match find_object(objects, object_id) {
        Some(o) => o,
        None => return Err(with_number("Object ", object_id, " not found")),
    };
    if !can_modify_object(&clients[c], &objects[o]) {
        return Err(owned("You don't have permission to modify this object"));
    }
    let value = match decoded {
        Ok(v) => v,
        Err(e) => return Err(prefixed("Failed to parse property value: ", e.as_str())),
    };
    match validate_property_value(registry, objects, property_name.as_str(), &value) {
        Ok(()) => {},
        Err(e) => return Err(prefixed("Property validation failed: ", e.as_str())),
    }
    match find_object_property(properties, object_id, property_name.as_str()) {
        Some(i) => {
            let p = ObjectProperty {
                object_id: properties[i].object_id,
                property_name: properties[i].property_name.clone(),
                value: value.clone(),
                last_updated: timestamp,
                replicated: properties[i].replicated,
            };
            replace_property(properties, i, p);
        },
        None => {
            properties.push(ObjectProperty {
                object_id,
                property_name: property_name.clone(),
                value: value.clone(),
                last_updated: timestamp,
                replicated: true,
            });
        },
    }
    queue_property_for_replication(registry, queue, object_id, property_name.as_str(), timestamp);
    Ok(())
}

/// How many dots a name holds.
pub open spec fn dot_count(s: Seq<char>) -> nat
    decreases s.len(),
{
    if s.len() == 0 {
        0
    } else {
        dot_count(s.drop_last()) + if s.last() == '.' { 1nat } else { 0nat }
    }
}

/// The position of the last dot of a name, or -1 when it has none.
pub open spec fn last_dot(s: Seq<char>) -> int
    decreases s.len(),
{
    if s.len() == 0 {
        -1
    } else if s.last() == '.' {
        s.len() - 1
    } else {
        last_dot(s.drop_last())
    }
}

proof fn lemma_last_dot(s: Seq<char>)
    ensures
        -1 <= last_dot(s) < s.len(),
    decreases s.len(),
{
    if s.len() > 0 {
        lemma_last_dot(s.drop_last());
    }
}

/// The class a registry name belongs to: the part before the dot of a
/// `Class.Property` name, and `Common` for any other name.
pub open spec fn class_part(s: Seq<char>) -> Seq<char> {
    if dot_count(s) == 1 { s.subrange(0, last_dot(s)) } else { "Common"@ }
}

/// The property a registry name denotes: the part after its last dot.
pub open spec fn property_part(s: Seq<char>) -> Seq<char> {
    s.subrange(last_dot(s) + 1, s.len() as int)
}

/// The table row of a registry entry.
pub open spec fn row_of(name: Seq<char>, d: DefinitionView) -> DefinitionRowView {
    (class_part(name) + ":"@ + property_part(name), class_part(name), property_part(name),
        name_of_type(d.property_type), d.replicated, condition_name(d.replication_condition), d.readonly, d.flags)
}

/// The position of the first row with an ID, if any.
pub open spec fn row_index(t: Seq<DefinitionRowView>, id: Seq<char>) -> Option<int> {
    if exists|i: int| 0 <= i < t.len() && (#[trigger] t[i]).0 == id {
        Some(choose|i: int| 0 <= i < t.len() && (#[trigger] t[i]).0 == id && forall|k: int| 0 <= k < i ==> t[k].0 != id)
    } else {
        None
    }
}

/// The table after a row is inserted, or replaces the row with its ID.
pub open spec fn upsert(t: Seq<DefinitionRowView>, r: DefinitionRowView) -> Seq<DefinitionRowView> {
    match row_index(t, r.0) {
        Some(i) => t.update(i, r),
        None => t.push(r),
    }
}

/// The table after the rows of registry entries are written, in order.
pub open spec fn synced(t: Seq<DefinitionRowView>, es: Seq<(Seq<char>, DefinitionView)>) -> Seq<DefinitionRowView>
    decreases es.len(),
{
    if es.len() == 0 {
        t
    } else {
        upsert(synced(t, es.drop_last()), row_of(es.last().0, es.last().1))
    }
}

/// The registry's entries, in its key order.
pub open spec fn registry_entries(r: PropertyRegistry) -> Seq<(Seq<char>, DefinitionView)> {
    r.key_seq().map_values(|k: Seq<char>| (k, registry_view(r)[k]))
}

/// Splits a registry name into its class and property parts.
fn split_name(name: &str) -> (r: (String, String))
    ensures
        r.0@ == class_part(name@),
        r.1@ == property_part(name@),
{
    let n = name.unicode_len();
    let mut count: usize = 0;
    let mut last: Option<usize> = None;
    let mut i: usize = 0;
    while i < n
        invariant
            n == name@.len(),
            i <= n,
            count == dot_count(name@.subrange(0, i as int)),
            count <= i,
            last_dot(name@.subrange(0, i as int)) == match last { Some(k) => k as int, None => -1 },
            last matches Some(k) ==> k < i,
            (count > 0) == (last is Some),
        decreases n - i,
    {
        proof {
            assert(name@.subrange(0, i + 1).drop_last() =~= name@.subrange(0, i as int));
        }
        if name.get_char(i) == '.' {
            count = count + 1;
            last = Some(i);
        }
        i = i + 1;
    }
    assert(name@.subrange(0, n as int) =~= name@);
    let start: usize = match last { Some(k) => k + 1, None => 0 };
    let prop = name.substring_char(start, n).to_string();
    let class = if count == 1 {
        match last {
            Some(k) => name.substring_char(0, k).to_string(),
            None => owned("Common"),
        }
    } else {
        owned("Common")
    };
    (class, prop)
}

/// The row of a registry entry.
fn make_row(name: &str, def: &PropertyDefinition) -> (r: PropertyDefinitionTable)
    ensures
        r@ == row_of(name@, def@),
{
    let (class_name, property_name) = split_name(name);
    let mut id = class_name.clone();
    id.append(":");
    id.append(property_name.as_str());
    PropertyDefinitionTable {
        id,
        class_name,
        property_name,
        property_type: owned(property_type_name(def.property_type)),
        replicated: def.replicated,
        replication_condition: owned(replication_condition_name(def.replication_condition)),
        readonly: def.readonly,
        flags: def.flags,
    }
}

/// Writes a row into the table: it replaces the first row with its ID, or is added.
fn upsert_row(table: &mut Vec<PropertyDefinitionTable>, row: PropertyDefinitionTable)
    ensures
        table_views(final(table)@) == upsert(table_views(old(table)@), row@),
{
    let ghost t = table_views(table@);
    let n = table.len();
    let mut i: usize = 0;
    while i < n
        invariant
            n == table@.len(),
            table@ == old(table)@,
            t == table_views(table@),
            i <= n,
            forall|k: int| 0 <= k < i ==> (#[trigger] t[k]).0 != row@.0,
        decreases n - i,
    {
        assert(t[i as int] == table@[i as int]@);
        if crate::text::str_eq(table[i].id.as_str(), row.id.as_str()) {
            proof {
                let c = choose|c: int| 0 <= c < t.len() && (#[trigger] t[c]).0 == row@.0
                    && forall|k: int| 0 <= k < c ==> t[k].0 != row@.0;
                if c > i {
                    assert(t[i as int].0 == row@.0);
                }
            }
            let ghost rv = row@;
            let mut tmp: Vec<PropertyDefinitionTable> = Vec::new();
            std::mem::swap(&mut tmp, table);
            let _ = tmp.remove(i);
            tmp.insert(i, row);
            std::mem::swap(&mut tmp, table);
            assert(table_views(table@) =~= t.update(i as int, rv));
            return;
        }
        i = i + 1;
    }
    let ghost rv = row@;
    table.push(row);
    assert(table_views(table@) =~= t.push(rv));
}

/// Copy the registry into the client-visible definition table, entry by
/// entry in registry order; returns how many entries were written.
pub fn sync_property_definitions_to_table(registry: &PropertyRegistry, table: &mut Vec<PropertyDefinitionTable>)
    -> (r: usize)
    ensures
        r == registry.key_seq().len(),
        table_views(final(table)@) == synced(table_views(old(table)@), registry_entries(*registry)),
{
    let n = registry.len();
    let ghost es = registry_entries(*registry);
    let mut i: usize = 0;
    while i < n
        invariant
            n == registry.key_seq().len(),
            es == registry_entries(*registry),
            i <= n,
            table_views(table@) == synced(table_views(old(table)@), es.subrange(0, i as int)),
        decreases n - i,
    {
        let (name, def) = registry.entry_at(i);
        let row = make_row(name.as_str(), def);
        upsert_row(table, row);
        proof {
            let sub = es.subrange(0, i + 1);
            assert(sub.drop_last() =~= es.subrange(0, i as int));
            assert(sub.last() == (name@, def@));
        }
        i = i + 1;
    }
    assert(es.subrange(0, n as int) =~= es);
    n
}

/// Initialize the property system: load the definitions and copy them into
/// the client-visible table; returns how many entries were written.
pub fn init(registry: &mut PropertyRegistry, table: &mut Vec<PropertyDefinitionTable>) -> (r: usize)
    ensures
        registry_view(*final(registry)) == with_custom_properties(with_standard_properties(
            Map::<Seq<char>, DefinitionView>::empty())),
        r == final(registry).key_seq().len(),
        table_views(final(table)@) == synced(table_views(old(table)@), registry_entries(*final(registry))),
{
    load_property_definitions(registry);
    sync_property_definitions_to_table(registry, table)
}

/// A property value to be sent to a client.
#[derive(Debug)]
pub struct PropertyUpdate {
    pub client_id: u64,
    pub object_id: u64,
    pub property_name: String,
    pub value: PropertyValue,
    pub is_high_priority: bool,
}

/// An update, with its property name as a character sequence.
pub type UpdateView = (u64, u64, Seq<char>, PropertyValue, bool);

impl View for PropertyUpdate {
    type V = UpdateView;

    open spec fn view(&self) -> UpdateView {
        (self.client_id, self.object_id, self.property_name@, self.value, self.is_high_priority)
    }
}

/// The views of a sequence of updates.
pub open spec fn update_views(u: Seq<PropertyUpdate>) -> Seq<UpdateView> {
    u.map_values(|x: PropertyUpdate| x@)
}

/// The updates a queued change produces: when its object exists and has the
/// property, one for each of the given clients to which the object is relevant.
pub open spec fn updates_for(
    e: QueuedView,
    objects: Seq<ObjectInstance>,
    props: Seq<ObjectProperty>,
    manager: RelevancyManager,
    clients: Seq<u64>,
) -> Seq<UpdateView> {
    if object_index(objects, e.0) is Some && property_index(props, e.0, e.1) is Some {
        let p = property_index(props, e.0, e.1)->0;
        clients.filter(|c: u64| relevant_to(manager, e.0, c)).map_values(
            |c: u64| (c, e.0, e.1, props[p].value, e.3))
    } else {
        Seq::empty()
    }
}

/// The updates the queued changes produce, in queue order.
pub open spec fn all_updates(
    q: Seq<QueuedView>,
    objects: Seq<ObjectInstance>,
    props: Seq<ObjectProperty>,
    manager: RelevancyManager,
    clients: Seq<u64>,
) -> Seq<UpdateView>
    decreases q.len(),
{
    if q.len() == 0 {
        Seq::empty()
    } else {
        all_updates(q.drop_last(), objects, props, manager, clients) + updates_for(q.last(), objects, props,
            manager, clients)
    }
}

/// Process the replication queue: it is emptied, and for each queued change
/// (in queue order) the current value of the property is addressed to each
/// connected client to which the object is relevant.
pub fn process_property_replication_queue(
    queue: &mut Vec<QueuedPropertyReplication>,
    objects: &Vec<ObjectInstance>,
    properties: &Vec<ObjectProperty>,
    manager: &RelevancyManager,
    clients: &Vec<u64>,
) -> (r: Vec<PropertyUpdate>)
    ensures
        final(queue)@.len() == 0,
        update_views(r@) == all_updates(queue_views(old(queue)@), objects@, properties@, *manager, clients@),
{
    let mut pending: Vec<QueuedPropertyReplication> = Vec::new();
    std::mem::swap(&mut pending, queue);
    let ghost q = queue_views(pending@);
    let mut out: Vec<PropertyUpdate> = Vec::new();
    let n = pending.len();
    let mut j: usize = 0;
    while j < n
        invariant
            n == pending@.len(),
            q == queue_views(pending@),
            j <= n,
            update_views(out@) == all_updates(q.subrange(0, j as int), objects@, properties@, *manager, clients@),
        decreases n - j,
    {
        let ghost before = update_views(out@);
        let e = &pending[j];
        proof {
            assert(q.subrange(0, j + 1).drop_last() =~= q.subrange(0, j as int));
            assert(q.subrange(0, j + 1).last() == e@);
        }
        let found = find_object(objects, e.object_id);
        let prop = find_object_property(properties, e.object_id, e.property_name.as_str());
        if found.is_some() && prop.is_some() {
            let p = match prop { Some(p) => p, None => 0 };
            let relevant = filter_clients_for_object_update(manager, clients, e.object_id);
            let ghost targets = relevant@;
            let m = relevant.len();
            let mut k: usize = 0;
            while k < m
                invariant
                    m == relevant@.len(),
                    targets == relevant@,
                    k <= m,
                    p < properties@.len(),
                    update_views(out@) == before + targets.subrange(0, k as int).map_values(
                        |c: u64| (c, e@.0, e@.1, properties@[p as int].value, e@.3)),
                decreases m - k,
            {
                let ghost prev = update_views(out@);
                out.push(PropertyUpdate {
                    client_id: relevant[k],
                    object_id: e.object_id,
                    property_name: e.property_name.clone(),
                    value: properties[p].value.clone(),
                    is_high_priority: e.is_high_priority,
                });
                proof {
                    let f = |c: u64| (c, e@.0, e@.1, properties@[p as int].value, e@.3);
                    assert(targets.subrange(0, k + 1).map_values(f) =~= targets.subrange(0, k as int).map_values(f).push(
                        f(targets[k as int])));
                    assert(update_views(out@) =~= prev.push(out@.last()@));
                }
                k = k + 1;
            }
            assert(targets.subrange(0, m as int) =~= targets);
            assert(update_views(out@) =~= before + updates_for(e@, objects@, properties@, *manager, clients@));
        } else {
            assert(updates_for(e@, objects@, properties@, *manager, clients@) =~= Seq::<UpdateView>::empty());
            assert(before + Seq::<UpdateView>::empty() =~= before);
        }
        j = j + 1;
    }
    assert(q.subrange(0, n as int) =~= q);
    out
}

proof fn lemma_property_index_found(rows: Seq<ObjectProperty>, object_id: u64, name: Seq<char>, j: int)
    requires
        0 <= j < rows.len(),
        rows[j].object_id == object_id,
        rows[j].property_name@ == name,
    ensures
        property_index(rows, object_id, name) matches Some(i) && 0 <= i <= j && rows[i].object_id == object_id
            && rows[i].property_name@ == name && forall|k: int| 0 <= k < i ==> !(rows[k].object_id == object_id
            && rows[k].property_name@ == name),
    decreases j,
{
    if exists|k: int| 0 <= k < j && (#[trigger] rows[k]).object_id == object_id && rows[k].property_name@ == name {
        let k = choose|k: int| 0 <= k < j && (#[trigger] rows[k]).object_id == object_id && rows[k].property_name@ == name;
        lemma_property_index_found(rows, object_id, name, k);
    } else {
        assert(0 <= j < rows.len() && rows[j].object_id == object_id && rows[j].property_name@ == name
            && forall|k: int| 0 <= k < j ==> !(rows[k].object_id == object_id && rows[k].property_name@ == name));
    }
}

/// A written property value is what a lookup of the property then finds.
pub proof fn law_write_then_read(rows: Seq<ObjectProperty>, object_id: u64, name: String, value: PropertyValue, ts: u64)
    ensures
        ({
            let w = written(rows, object_id, name, value, ts);
            property_index(w, object_id, name@) is Some && w[property_index(w, object_id, name@)->0].value == value
        }),
{
    let w = written(rows, object_id, name, value, ts);
    match property_index(rows, object_id, name@) {
        Some(i) => {
            let k = choose|k: int| 0 <= k < rows.len() && (#[trigger] rows[k]).object_id == object_id
                && rows[k].property_name@ == name@;
            lemma_property_index_found(rows, object_id, name@, k);
            lemma_property_index_found(w, object_id, name@, i);
            let j = property_index(w, object_id, name@)->0;
            if j < i {
                assert(w[j] == rows[j]);
            }
        },
        None => {
            let n = rows.len() as int;
            assert(w[n].object_id == object_id && w[n].property_name@ == name@);
            lemma_property_index_found(w, object_id, name@, n);
            let j = property_index(w, object_id, name@)->0;
            if j < n {
                assert(w[j] == rows[j]);
                lemma_property_index_found(rows, object_id, name@, j);
            }
        },
    }
}

proof fn lemma_row_index_found(t: Seq<DefinitionRowView>, id: Seq<char>, j: int)
    requires
        0 <= j < t.len(),
        t[j].0 == id,
    ensures
        row_index(t, id) matches Some(i) && 0 <= i <= j && t[i].0 == id && forall|k: int| 0 <= k < i ==> t[k].0 != id,
    decreases j,
{
    if exists|k: int| 0 <= k < j && (#[trigger] t[k]).0 == id {
        let k = choose|k: int| 0 <= k < j && (#[trigger] t[k]).0 == id;
        lemma_row_index_found(t, id, k);
    } else {
        assert(0 <= j < t.len() && t[j].0 == id && forall|k: int| 0 <= k < j ==> t[k].0 != id);
    }
}

/// A row written into the definition table is what a lookup of its ID then finds.
pub proof fn law_upsert_then_find(t: Seq<DefinitionRowView>, r: DefinitionRowView)
    ensures
        row_index(upsert(t, r), r.0) is Some,
        upsert(t, r)[row_index(upsert(t, r), r.0)->0] == r,
{
    let u = upsert(t, r);
    match row_index(t, r.0) {
        Some(i) => {
            let k = choose|k: int| 0 <= k < t.len() && (#[trigger] t[k]).0 == r.0;
            lemma_row_index_found(t, r.0, k);
            lemma_row_index_found(u, r.0, i);
            let j = row_index(u, r.0)->0;
            if j < i {
                assert(u[j] == t[j]);
            }
        },
        None => {
            let n = t.len() as int;
            assert(u[n] == r);
            lemma_row_index_found(u, r.0, n);
            let j = row_index(u, r.0)->0;
            if j < n {
                assert(u[j] == t[j]);
                lemma_row_index_found(t, r.0, j);
            }
        },
    }
}

/// A definition row as the named members a client receives: each column is
/// a member of its name, with the texts as strings, the flags as booleans and
/// `flags` as an integer.
pub open spec fn row_members(fs: Seq<(String, JsonValue)>, r: DefinitionRowView) -> bool {
    &&& string_member(fs, "class_name"@) == Some(r.1)
    &&& string_member(fs, "property_name"@) == Some(r.2)
    &&& string_member(fs, "property_type"@) == Some(r.3)
    &&& field(fs, "replicated"@) == Some(JsonValue::Bool(r.4))
    &&& string_member(fs, "replication_condition"@) == Some(r.5)
    &&& field(fs, "readonly"@) == Some(JsonValue::Bool(r.6))
    &&& field(fs, "flags"@) matches Some(JsonValue::Number(n)) && n.repr == NumberRepr::PosInt(r.7 as u64)
}

/// Every property type name reads back as its type.
pub(crate) proof fn lemma_type_names_read_back(t: PropertyType)
    ensures
        type_from_name(name_of_type(t)) == Some(t),
{
    crate::server::serialization::lemma_tag_codes();
}

/// Every condition a client reads back reads back as itself.
proof fn lemma_condition_names_read_back(c: ReplicationCondition)
    requires
        c == ReplicationCondition::Initial || c == ReplicationCondition::OnChange || c == ReplicationCondition::Always,
    ensures
        condition_from_name(condition_name(c)) == Some(c),
{
    reveal_strlit("Initial");
    reveal_strlit("OnChange");
    reveal_strlit("Always");
    crate::client::serialization::lemma_differ("OnChange"@, "Initial"@);
    crate::client::serialization::lemma_differ("Always"@, "Initial"@);
    crate::client::serialization::lemma_differ("Always"@, "OnChange"@);
}

/// Definitions written to the table reach clients: a row the server writes
/// for a registry entry, once a client reads it as an inserted row, gives the
/// client that definition under the row's class and property names. Clients
/// read the conditions `Initial`, `OnChange` and `Always`; a row with another
/// condition is refused by them.
pub proof fn law_synced_definition_reads_back(
    m: Map<Seq<char>, ClassDefinitions>,
    name: Seq<char>,
    d: DefinitionView,
    fs: Seq<(String, JsonValue)>,
)
    requires
        row_members(fs, row_of(name, d)),
        d.replication_condition == ReplicationCondition::Initial || d.replication_condition == ReplicationCondition::OnChange
            || d.replication_condition == ReplicationCondition::Always,
    ensures
        inserted_row(m, fs) == Ok::<Map<Seq<char>, ClassDefinitions>, Seq<char>>(m.insert(class_part(name),
            class_props(m, class_part(name)).insert(property_part(name), new_definition(property_part(name),
                d.property_type, d.replicated, d.replication_condition, d.readonly, d.flags)))),
{
    lemma_type_names_read_back(d.property_type);
    lemma_condition_names_read_back(d.replication_condition);
}

} // verus!
