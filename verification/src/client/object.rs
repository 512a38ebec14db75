//! Client-side objects: actors and plain objects in one registry, their
//! transforms, properties and components, and the temporary IDs of objects
//! created on the client until the server assigns their own.
use vstd::prelude::*;
use crate::collections::AssocMap;
use crate::json::{JsonValue, NumberRepr, field, get_field};
use crate::shared::object::SpawnParams;
use crate::shared::types::{ObjectId, Quat, Transform, Vector3, F32_ZERO_BITS, F32_ONE_BITS};
use crate::shared::property::PropertyValue;
use crate::shared::lifecycle::ObjectLifecycleState;
use crate::shared::connection::ConnectionState;
use crate::client::net::NetClient;
use crate::text::{owned, str_eq, with_number, decimal};
use crate::client::class::{ClassRegistry, spec_class_id, spec_is_actor_class, get_class_id_by_name, is_actor_class};
use crate::client::property::{PropertyCache, cached, cached_props, cache_lookup, cache_property_value,
    get_cached_property_value, transfer_cached_properties_to_object};

verus! {

/// A client-side object (an actor or a plain object).
pub struct ClientObject {
    pub id: ObjectId,
    pub class_name: String,
    pub owner_id: Option<ObjectId>,
    pub state: ObjectLifecycleState,
    /// Always present for actors, optional for other objects.
    pub transform: Option<Transform>,
    pub properties: AssocMap<String, PropertyValue>,
    /// Whether the object still has a temporary ID that the server will replace.
    pub needs_id_remap: bool,
    pub is_actor: bool,
    pub replicates: bool,
    /// The components attached to this object (actors only).
    pub components: Vec<ObjectId>,
}

/// What a client object holds, with texts as character sequences.
pub struct ObjectView {
    pub id: ObjectId,
    pub class_name: Seq<char>,
    pub owner_id: Option<ObjectId>,
    pub state: ObjectLifecycleState,
    pub transform: Option<Transform>,
    pub properties: Map<Seq<char>, PropertyValue>,
    pub needs_id_remap: bool,
    pub is_actor: bool,
    pub replicates: bool,
    pub components: Seq<ObjectId>,
}

impl View for ClientObject {
    type V = ObjectView;

    open spec fn view(&self) -> ObjectView {
        ObjectView {
            id: self.id,
            class_name: self.class_name@,
            owner_id: self.owner_id,
            state: self.state,
            transform: self.transform,
            properties: self.properties@,
            needs_id_remap: self.needs_id_remap,
            is_actor: self.is_actor,
            replicates: self.replicates,
            components: self.components@,
        }
    }
}

impl Clone for ClientObject {
    fn clone(&self) -> (r: Self)
        ensures
            r@ == self@,
    {
        ClientObject {
            id: self.id,
            class_name: self.class_name.clone(),
            owner_id: self.owner_id,
            state: self.state,
            transform: self.transform,
            properties: self.properties.duplicate_map(),
            needs_id_remap: self.needs_id_remap,
            is_actor: self.is_actor,
            replicates: self.replicates,
            components: self.components.clone(),
        }
    }
}

/// The transform of an object, or the identity transform when it has none.
pub open spec fn transform_or_identity(t: Option<Transform>) -> Transform {
    match t {
        Some(t) => t,
        None => Transform::spec_identity(),
    }
}

/// A transform with another location (starting from the identity when there is none).
pub open spec fn with_location(t: Option<Transform>, l: Vector3) -> Option<Transform> {
    Some(Transform { location: l, ..transform_or_identity(t) })
}

/// A transform with another rotation (starting from the identity when there is none).
pub open spec fn with_rotation(t: Option<Transform>, q: Quat) -> Option<Transform> {
    Some(Transform { rotation: q, ..transform_or_identity(t) })
}

/// A transform with another scale (starting from the identity when there is none).
pub open spec fn with_scale(t: Option<Transform>, s: Vector3) -> Option<Transform> {
    Some(Transform { scale: s, ..transform_or_identity(t) })
}

/// The value of a property as an object reads it: location, rotation (as a
/// quaternion) and scale come from the transform, other names from the
/// property map.
pub open spec fn property_read(v: ObjectView, name: Seq<char>) -> Option<PropertyValue> {
    if name == "Location"@ {
        match v.transform { Some(t) => Some(PropertyValue::Vector(t.location)), None => None }
    } else if name == "Rotation"@ {
        match v.transform { Some(t) => Some(PropertyValue::Quat(t.rotation)), None => None }
    } else if name == "Scale"@ {
        match v.transform { Some(t) => Some(PropertyValue::Vector(t.scale)), None => None }
    } else if v.properties.contains_key(name) {
        Some(v.properties[name])
    } else {
        None
    }
}

/// What setting a property on an object gives: location and scale take
/// vectors, rotation a quaternion (a rotator becomes the identity rotation),
/// other names go into the property map.
pub open spec fn property_set(v: ObjectView, name: Seq<char>, value: PropertyValue) -> Result<ObjectView, Seq<char>> {
    if name == "Location"@ {
        match value {
            PropertyValue::Vector(l) => Ok(ObjectView { transform: with_location(v.transform, l), ..v }),
            _ => Err("Invalid value type for Location property"@),
        }
    } else if name == "Rotation"@ {
        match value {
            PropertyValue::Quat(q) => Ok(ObjectView { transform: with_rotation(v.transform, q), ..v }),
            PropertyValue::Rotator(_) => Ok(ObjectView { transform: with_rotation(v.transform, Quat::spec_identity()), ..v }),
            _ => Err("Invalid value type for Rotation property"@),
        }
    } else if name == "Scale"@ {
        match value {
            PropertyValue::Vector(s) => Ok(ObjectView { transform: with_scale(v.transform, s), ..v }),
            _ => Err("Invalid value type for Scale property"@),
        }
    } else {
        Ok(ObjectView { properties: v.properties.insert(name, value), ..v })
    }
}

/// What an authoritative property update does to an object: as
/// `property_set`, but a value of the wrong type for location, rotation or
/// scale is ignored, and a rotator becomes `rotator_quat`, its quaternion.
pub open spec fn property_applied(v: ObjectView, name: Seq<char>, value: PropertyValue, rotator_quat: Quat) -> ObjectView {
    if name == "Location"@ {
        match value {
            PropertyValue::Vector(l) => ObjectView { transform: with_location(v.transform, l), ..v },
            _ => v,
        }
    } else if name == "Rotation"@ {
        match value {
            PropertyValue::Rotator(_) => ObjectView { transform: with_rotation(v.transform, rotator_quat), ..v },
            PropertyValue::Quat(q) => ObjectView { transform: with_rotation(v.transform, q), ..v },
            _ => v,
        }
    } else if name == "Scale"@ {
        match value {
            PropertyValue::Vector(s) => ObjectView { transform: with_scale(v.transform, s), ..v },
            _ => v,
        }
    } else {
        ObjectView { properties: v.properties.insert(name, value), ..v }
    }
}

impl ClientObject {
    /// This object's transform, which is created as the identity transform if missing.
    pub fn get_transform(&mut self) -> (r: &mut Transform)
        ensures
            *r == transform_or_identity(old(self).transform),
            final(self)@ == (ObjectView { transform: Some(*final(r)), ..old(self)@ }),
    {
        if self.transform.is_none() {
            self.transform = Some(Transform::identity());
        }
        self.transform.as_mut().unwrap()
    }

    /// Check if this object is an actor.
    pub fn is_actor(&self) -> (r: bool)
        ensures
            r == self.is_actor,
    {
        self.is_actor
    }

    /// The components attached to this object.
    pub fn get_components(&self) -> (r: &Vec<ObjectId>)
        ensures
            r@ == self.components@,
    {
        &self.components
    }

    /// Get a property value from this object.
    pub fn get_property(&self, property_name: &str) -> (r: Option<PropertyValue>)
        ensures
            r == property_read(self@, property_name@),
    {
        if str_eq(property_name, "Location") {
            match self.transform { Some(t) => Some(PropertyValue::Vector(t.location)), None => None }
        } else if str_eq(property_name, "Rotation") {
            match self.transform { Some(t) => Some(PropertyValue::Quat(t.rotation)), None => None }
        } else if str_eq(property_name, "Scale") {
            match self.transform { Some(t) => Some(PropertyValue::Vector(t.scale)), None => None }
        } else {
            match self.properties.get(&owned(property_name)) {
                Some(v) => Some(v.clone()),
                None => None,
            }
        }
    }

    /// Set a property value on this object.
    pub fn set_property(&mut self, property_name: &str, value: PropertyValue) -> (r: Result<(), String>)
        ensures
            match property_set(old(self)@, property_name@, value) {
                Ok(v) => r is Ok && final(self)@ == v,
                Err(e) => r matches Err(x) && x@ == e && final(self)@ == old(self)@,
            },
    {
        if str_eq(property_name, "Location") {
            match value {
                PropertyValue::Vector(l) => {
                    self.get_transform().location = l;
                },
                _ => return Err(owned("Invalid value type for Location property")),
            }
        } else if str_eq(property_name, "Rotation") {
            match value {
                PropertyValue::Quat(q) => {
                    self.get_transform().rotation = q;
                },
                PropertyValue::Rotator(_) => {
                    self.get_transform().rotation = Quat::identity();
                },
                _ => return Err(owned("Invalid value type for Rotation property")),
            }
        } else if str_eq(property_name, "Scale") {
            match value {
                PropertyValue::Vector(s) => {
                    self.get_transform().scale = s;
                },
                _ => return Err(owned("Invalid value type for Scale property")),
            }
        } else {
            self.properties.insert(owned(property_name), value);
        }
        Ok(())
    }
}

/// Applies an authoritative property update to an object.
fn apply_property(o: &mut ClientObject, property_name: &str, value: PropertyValue, rotator_quat: Quat)
    ensures
        final(o)@ == property_applied(old(o)@, property_name@, value, rotator_quat),
{
    if str_eq(property_name, "Location") {
        if let PropertyValue::Vector(l) = value {
            o.get_transform().location = l;
        }
    } else if str_eq(property_name, "Rotation") {
        match value {
            PropertyValue::Rotator(_) => {
                o.get_transform().rotation = rotator_quat;
            },
            PropertyValue::Quat(q) => {
                o.get_transform().rotation = q;
            },
            _ => {},
        }
    } else if str_eq(property_name, "Scale") {
        if let PropertyValue::Vector(s) = value {
            o.get_transform().scale = s;
        }
    } else {
        o.properties.insert(owned(property_name), value);
    }
}

/// The client's objects, which actor owns which component, and which
/// temporary IDs the server has replaced.
pub struct ObjectRegistry {
    pub objects: AssocMap<u64, ClientObject>,
    /// The owning actor of each component.
    pub component_owners: AssocMap<u64, u64>,
    /// The server ID that replaced each temporary ID.
    pub temp_id_mapping: AssocMap<u64, u64>,
}

/// The objects of a registry, by ID.
pub open spec fn objects_view(r: ObjectRegistry) -> Map<ObjectId, ObjectView> {
    r.objects@.map_values(|o: ClientObject| o@)
}

impl ObjectRegistry {
    /// An empty registry.
    pub fn new() -> (r: Self)
        ensures
            objects_view(r) == Map::<ObjectId, ObjectView>::empty(),
            r.component_owners@ == Map::<u64, u64>::empty(),
            r.temp_id_mapping@ == Map::<u64, u64>::empty(),
    {
        let r = ObjectRegistry { objects: AssocMap::new(), component_owners: AssocMap::new(), temp_id_mapping: AssocMap::new() };
        assert(objects_view(r) =~= Map::<ObjectId, ObjectView>::empty());
        r
    }
}

/// Puts an object back under an ID.
fn put_object(reg: &mut ObjectRegistry, id: ObjectId, o: ClientObject)
    ensures
        objects_view(*final(reg)) == objects_view(*old(reg)).insert(id, o@),
        final(reg).component_owners == old(reg).component_owners,
        final(reg).temp_id_mapping == old(reg).temp_id_mapping,
{
    let ghost v = o@;
    reg.objects.insert(id, o);
    assert(objects_view(*reg) =~= objects_view(*old(reg)).insert(id, v));
}

/// Takes an object out of the registry.
fn take_object(reg: &mut ObjectRegistry, id: ObjectId) -> (r: Option<ClientObject>)
    ensures
        match r {
            Some(o) => objects_view(*old(reg)).contains_key(id) && o@ == objects_view(*old(reg))[id],
            None => !objects_view(*old(reg)).contains_key(id),
        },
        objects_view(*final(reg)) == objects_view(*old(reg)).remove(id),
        final(reg).component_owners == old(reg).component_owners,
        final(reg).temp_id_mapping == old(reg).temp_id_mapping,
{
    let r = reg.objects.remove(&id);
    assert(objects_view(*reg) =~= objects_view(*old(reg)).remove(id));
    r
}

/// Get an object by ID.
pub fn get_object(reg: &ObjectRegistry, object_id: ObjectId) -> (r: Option<ClientObject>)
    ensures
        match r {
            Some(o) => objects_view(*reg).contains_key(object_id) && o@ == objects_view(*reg)[object_id],
            None => !objects_view(*reg).contains_key(object_id),
        },
{
    match reg.objects.get(&object_id) {
        Some(o) => Some(o.clone()),
        None => None,
    }
}

/// Get an object's class name.
pub fn get_object_class(reg: &ObjectRegistry, object_id: ObjectId) -> (r: Option<String>)
    ensures
        match r {
            Some(c) => objects_view(*reg).contains_key(object_id) && c@ == objects_view(*reg)[object_id].class_name,
            None => !objects_view(*reg).contains_key(object_id),
        },
{
    match reg.objects.get(&object_id) {
        Some(o) => Some(o.class_name.clone()),
        None => None,
    }
}

/// Get the class name for an object (the same as `get_object_class`).
pub fn get_class_for_object(reg: &ObjectRegistry, object_id: ObjectId) -> (r: Option<String>)
    ensures
        match r {
            Some(c) => objects_view(*reg).contains_key(object_id) && c@ == objects_view(*reg)[object_id].class_name,
            None => !objects_view(*reg).contains_key(object_id),
        },
{
    get_object_class(reg, object_id)
}

/// Check if an object is an actor (unknown objects are not).
pub fn is_actor(reg: &ObjectRegistry, object_id: ObjectId) -> (r: bool)
    ensures
        r == (objects_view(*reg).contains_key(object_id) && objects_view(*reg)[object_id].is_actor),
{
    match reg.objects.get(&object_id) {
        Some(o) => o.is_actor,
        None => false,
    }
}

/// Update an object's property with a value from the server. The value is
/// also written to the staging cache; an object that does not exist yet
/// gets it from there when it is created. For a rotator written to the
/// rotation, `rotator_quat` is its quaternion.
pub fn update_object_property(
    reg: &mut ObjectRegistry,
    cache: &mut PropertyCache,
    object_id: ObjectId,
    property_name: &str,
    value: PropertyValue,
    rotator_quat: Quat,
) -> (r: Result<(), String>)
    ensures
        r is Ok,
        objects_view(*final(reg)) == (if objects_view(*old(reg)).contains_key(object_id) {
            objects_view(*old(reg)).insert(object_id, property_applied(objects_view(*old(reg))[object_id],
                property_name@, value, rotator_quat))
        } else {
            objects_view(*old(reg))
        }),
        final(cache)@ == cached(old(cache)@, object_id, property_name@, value),
        final(reg).component_owners == old(reg).component_owners,
        final(reg).temp_id_mapping == old(reg).temp_id_mapping,
{
    match take_object(reg, object_id) {
        Some(mut o) => {
            apply_property(&mut o, property_name, value.clone(), rotator_quat);
            put_object(reg, object_id, o);
            assert(objects_view(*reg) =~= objects_view(*old(reg)).insert(object_id, property_applied(
                objects_view(*old(reg))[object_id], property_name@, value, rotator_quat)));
        },
        None => {
            assert(objects_view(*reg) =~= objects_view(*old(reg)));
        },
    }
    cache_property_value(cache, object_id, property_name, value);
    Ok(())
}

/// What a transform update does to an object: the given parts replace
/// those of its transform (the identity when it had none), and the given
/// parts are recorded as its `Location`, `Rotation` and `Scale` properties.
pub open spec fn transform_updated(v: ObjectView, location: Option<Vector3>, rotation: Option<Quat>,
    scale: Option<Vector3>) -> ObjectView {
    let t = transform_or_identity(v.transform);
    let t1 = match location { Some(l) => Transform { location: l, ..t }, None => t };
    let t2 = match rotation { Some(q) => Transform { rotation: q, ..t1 }, None => t1 };
    let t3 = match scale { Some(s) => Transform { scale: s, ..t2 }, None => t2 };
    let p1 = match location { Some(l) => v.properties.insert("Location"@, PropertyValue::Vector(l)), None => v.properties };
    let p2 = match rotation { Some(q) => p1.insert("Rotation"@, PropertyValue::Quat(q)), None => p1 };
    let p3 = match scale { Some(s) => p2.insert("Scale"@, PropertyValue::Vector(s)), None => p2 };
    ObjectView { transform: Some(t3), properties: p3, ..v }
}

/// The staging cache after a transform update records the given parts.
pub open spec fn transform_cached(m: Map<ObjectId, Map<Seq<char>, PropertyValue>>, id: ObjectId,
    location: Option<Vector3>, rotation: Option<Quat>, scale: Option<Vector3>) -> Map<ObjectId, Map<Seq<char>, PropertyValue>> {
    let m1 = match location { Some(l) => cached(m, id, "Location"@, PropertyValue::Vector(l)), None => m };
    let m2 = match rotation { Some(q) => cached(m1, id, "Rotation"@, PropertyValue::Quat(q)), None => m1 };
    match scale { Some(s) => cached(m2, id, "Scale"@, PropertyValue::Vector(s)), None => m2 }
}

/// Update an object's transform; an error for an unknown object.
pub fn update_transform(
    reg: &mut ObjectRegistry,
    cache: &mut PropertyCache,
    object_id: ObjectId,
    location: Option<Vector3>,
    rotation: Option<Quat>,
    scale: Option<Vector3>,
) -> (r: Result<(), String>)
    ensures
        objects_view(*old(reg)).contains_key(object_id) ==> {
            &&& r is Ok
            &&& objects_view(*final(reg)) == objects_view(*old(reg)).insert(object_id, transform_updated(
                objects_view(*old(reg))[object_id], location, rotation, scale))
            &&& final(cache)@ == transform_cached(old(cache)@, object_id, location, rotation, scale)
        },
        !objects_view(*old(reg)).contains_key(object_id) ==> {
            &&& r matches Err(e) && e@ == "Object "@ + decimal(object_id as nat) + " not found"@
            &&& objects_view(*final(reg)) == objects_view(*old(reg))
            &&& final(cache)@ == old(cache)@
        },
        final(reg).component_owners == old(reg).component_owners,
        final(reg).temp_id_mapping == old(reg).temp_id_mapping,
{
    let mut o = match take_object(reg, object_id) {
        Some(o) => o,
        None => {
            assert(objects_view(*reg) =~= objects_view(*old(reg)));
            return Err(with_number("Object ", object_id, " not found"));
        },
    };
    {
        let t = o.get_transform();
        if let Some(l) = location {
            t.location = l;
        }
        if let Some(q) = rotation {
            t.rotation = q;
        }
        if let Some(s) = scale {
            t.scale = s;
        }
    }
    if let Some(l) = location {
        o.properties.insert(owned("Location"), PropertyValue::Vector(l));
        cache_property_value(cache, object_id, "Location", PropertyValue::Vector(l));
    }
    if let Some(q) = rotation {
        o.properties.insert(owned("Rotation"), PropertyValue::Quat(q));
        cache_property_value(cache, object_id, "Rotation", PropertyValue::Quat(q));
    }
    if let Some(s) = scale {
        o.properties.insert(owned("Scale"), PropertyValue::Vector(s));
        cache_property_value(cache, object_id, "Scale", PropertyValue::Vector(s));
    }
    put_object(reg, object_id, o);
    assert(objects_view(*reg) =~= objects_view(*old(reg)).insert(object_id, transform_updated(
        objects_view(*old(reg))[object_id], location, rotation, scale)));
    Ok(())
}

/// Destroy an object on the client: it becomes pending destruction; an
/// object that still has a temporary ID is then removed at once and the
/// result is `Ok(false)`; for any other `Ok(true)` says that the server must
/// be asked to destroy it. An unknown object is an error.
pub fn destroy_object(reg: &mut ObjectRegistry, object_id: ObjectId) -> (r: Result<bool, String>)
    ensures
        ({
            let before = objects_view(*old(reg));
            if !before.contains_key(object_id) {
                &&& r matches Err(e) && e@ == "Object "@ + decimal(object_id as nat) + " not found"@
                &&& objects_view(*final(reg)) == before
            } else if before[object_id].needs_id_remap {
                &&& r == Ok::<bool, String>(false)
                &&& objects_view(*final(reg)) == before.remove(object_id)
            } else {
                &&& r == Ok::<bool, String>(true)
                &&& objects_view(*final(reg)) == before.insert(object_id,
                    ObjectView { state: ObjectLifecycleState::PendingKill, ..before[object_id] })
            }
        }),
        final(reg).component_owners == old(reg).component_owners,
        final(reg).temp_id_mapping == old(reg).temp_id_mapping,
{
    let mut o = match take_object(reg, object_id) {
        Some(o) => o,
        None => {
            assert(objects_view(*reg) =~= objects_view(*old(reg)));
            return Err(with_number("Object ", object_id, " not found"));
        },
    };
    o.state = ObjectLifecycleState::PendingKill;
    if o.needs_id_remap {
        return Ok(false);
    }
    put_object(reg, object_id, o);
    assert(objects_view(*reg) =~= objects_view(*old(reg)).insert(object_id,
        ObjectView { state: ObjectLifecycleState::PendingKill, ..objects_view(*old(reg))[object_id] }));
    Ok(true)
}

/// The server call that destroys an object of a class, and its arguments:
/// `destroy_actor` for actor classes, `destroy_object` for others. Fails
/// when not connected or for an unknown class.
pub fn request_server_destroy_object(classes: &ClassRegistry, connected: bool, object_id: ObjectId, class_name: &str)
    -> (r: Result<(String, String), String>)
    ensures
        !connected ==> (r matches Err(e) && e@ == "Not connected to server"@),
        connected && spec_class_id(classes, class_name@) is None ==> (r matches Err(e) && e@ == "Unknown class: "@
            + class_name@),
        connected && spec_class_id(classes, class_name@) is Some ==> ({
            let id = spec_class_id(classes, class_name@)->0;
            r matches Ok((f, a)) && f@ == (if spec_is_actor_class(classes, id) { "destroy_actor"@ } else {
                "destroy_object"@ }) && a@ == "{\"object_id\": "@ + decimal(object_id as nat) + "}"@
        }),
{
    if !connected {
        return Err(owned("Not connected to server"));
    }
    let class_id = match get_class_id_by_name(classes, class_name) {
        Some(id) => id,
        None => {
            let mut msg = owned("Unknown class: ");
            msg.append(class_name);
            return Err(msg);
        },
    };
    let function_name = if is_actor_class(classes, class_id) { owned("destroy_actor") } else { owned("destroy_object") };
    let args = with_number("{\"object_id\": ", object_id, "}");
    Ok((function_name, args))
}

/// Update an object's lifecycle state; setting it to destroyed destroys the
/// object (see `destroy_object`, whose result this returns). An unknown
/// object is an error.
pub fn update_lifecycle_state(reg: &mut ObjectRegistry, object_id: ObjectId, state: ObjectLifecycleState)
    -> (r: Result<bool, String>)
    ensures
        ({
            let before = objects_view(*old(reg));
            if !before.contains_key(object_id) {
                &&& r matches Err(e) && e@ == "Object "@ + decimal(object_id as nat) + " not found"@
                &&& objects_view(*final(reg)) == before
            } else if state != ObjectLifecycleState::Destroyed {
                &&& r == Ok::<bool, String>(false)
                &&& objects_view(*final(reg)) == before.insert(object_id, ObjectView { state, ..before[object_id] })
            } else if before[object_id].needs_id_remap {
                &&& r == Ok::<bool, String>(false)
                &&& objects_view(*final(reg)) == before.remove(object_id)
            } else {
                &&& r == Ok::<bool, String>(true)
                &&& objects_view(*final(reg)) == before.insert(object_id,
                    ObjectView { state: ObjectLifecycleState::PendingKill, ..before[object_id] })
            }
        }),
        final(reg).component_owners == old(reg).component_owners,
        final(reg).temp_id_mapping == old(reg).temp_id_mapping,
{
    let mut o = match take_object(reg, object_id) {
        Some(o) => o,
        None => {
            assert(objects_view(*reg) =~= objects_view(*old(reg)));
            return Err(with_number("Object ", object_id, " not found"));
        },
    };
    o.state = state;
    put_object(reg, object_id, o);
    assert(objects_view(*reg) =~= objects_view(*old(reg)).insert(object_id,
        ObjectView { state, ..objects_view(*old(reg))[object_id] }));
    if state == ObjectLifecycleState::Destroyed {
        let r = destroy_object(reg, object_id);
        proof {
            let before = objects_view(*old(reg));
            assert(before.insert(object_id, ObjectView { state, ..before[object_id] }).remove(object_id)
                =~= before.remove(object_id));
            assert(before.insert(object_id, ObjectView { state, ..before[object_id] }).insert(object_id,
                ObjectView { state: ObjectLifecycleState::PendingKill, ..before[object_id] }) =~= before.insert(
                object_id, ObjectView { state: ObjectLifecycleState::PendingKill, ..before[object_id] }));
        }
        return r;
    }
    Ok(false)
}

/// The component owners after an object goes away: its own owner record, and
/// those of its components if it is an actor, are dropped.
pub open spec fn owners_without(owners: Map<u64, u64>, id: ObjectId, objects: Map<ObjectId, ObjectView>) -> Map<u64, u64> {
    if objects.contains_key(id) && objects[id].is_actor {
        owners.remove(id).remove_keys(objects[id].components.to_set())
    } else {
        owners.remove(id)
    }
}

/// Handle the server's notice that an object was destroyed: its ownership
/// records go, and the object is removed.
pub fn handle_server_destroy_notification(reg: &mut ObjectRegistry, object_id: ObjectId)
    ensures
        final(reg).component_owners@ == owners_without(old(reg).component_owners@, object_id, objects_view(*old(reg))),
        objects_view(*final(reg)) == objects_view(*old(reg)).remove(object_id),
        final(reg).temp_id_mapping == old(reg).temp_id_mapping,
{
    let _ = reg.component_owners.remove(&object_id);
    let ghost after_self = reg.component_owners@;
    match reg.objects.get(&object_id) {
        Some(actor) => {
            if actor.is_actor {
                let n = actor.components.len();
                let mut i: usize = 0;
                while i < n
                    invariant
                        n == actor.components@.len(),
                        i <= n,
                        reg.component_owners@ == after_self.remove_keys(actor.components@.subrange(0, i as int).to_set()),
                        reg.objects == old(reg).objects,
                        reg.temp_id_mapping == old(reg).temp_id_mapping,
                    decreases n - i,
                {
                    let c = actor.components[i];
                    let _ = reg.component_owners.remove(&c);
                    assert(actor.components@.subrange(0, i + 1) =~= actor.components@.subrange(0, i as int).push(c));
                    proof {
                        actor.components@.subrange(0, i as int).lemma_push_to_set_commute(c);
                    }
                    assert(reg.component_owners@ =~= after_self.remove_keys(actor.components@.subrange(0, i + 1).to_set()));
                    i = i + 1;
                }
                assert(actor.components@.subrange(0, n as int) =~= actor.components@);
            }
        },
        None => {},
    }
    let _ = take_object(reg, object_id);
}

/// Whether an ID differs from `x`.
pub open spec fn other_id(x: ObjectId) -> spec_fn(ObjectId) -> bool {
    |c: ObjectId| c != x
}

/// The objects of a list of IDs that exist, in list order.
pub open spec fn existing_objects(ids: Seq<ObjectId>, objects: Map<ObjectId, ObjectView>) -> Seq<ObjectView> {
    ids.filter(|c: ObjectId| objects.contains_key(c)).map_values(|c: ObjectId| objects[c])
}

/// The first ID in a list whose object exists and has a class name.
pub open spec fn first_of_class(ids: Seq<ObjectId>, objects: Map<ObjectId, ObjectView>, class_name: Seq<char>)
    -> Option<ObjectId>
    decreases ids.len(),
{
    if ids.len() == 0 {
        None
    } else if objects.contains_key(ids[0]) && objects[ids[0]].class_name == class_name {
        Some(ids[0])
    } else {
        first_of_class(ids.drop_first(), objects, class_name)
    }
}

/// The objects that exist among a list of IDs, in list order.
fn collect_existing(reg: &ObjectRegistry, ids: &Vec<ObjectId>) -> (r: Vec<ClientObject>)
    ensures
        r@.map_values(|o: ClientObject| o@) == existing_objects(ids@, objects_view(*reg)),
{
    let ghost ov = objects_view(*reg);
    let ghost keep = |c: ObjectId| ov.contains_key(c);
    let ghost f = |c: ObjectId| ov[c];
    let mut out: Vec<ClientObject> = Vec::new();
    let n = ids.len();
    let mut i: usize = 0;
    while i < n
        invariant
            n == ids@.len(),
            i <= n,
            ov == objects_view(*reg),
            keep == (|c: ObjectId| ov.contains_key(c)),
            f == (|c: ObjectId| ov[c]),
            out@.map_values(|o: ClientObject| o@) == ids@.subrange(0, i as int).filter(keep).map_values(f),
        decreases n - i,
    {
        proof {
            reveal(Seq::filter);
            assert(ids@.subrange(0, i + 1).drop_last() =~= ids@.subrange(0, i as int));
        }
        let ghost prev = out@.map_values(|o: ClientObject| o@);
        match reg.objects.get(&ids[i]) {
            Some(o) => {
                out.push(o.clone());
                assert(out@.map_values(|o: ClientObject| o@) =~= prev.push(f(ids@[i as int])));
                assert(ids@.subrange(0, i + 1).filter(keep) == ids@.subrange(0, i as int).filter(keep).push(ids@[i as int]));
                assert(ids@.subrange(0, i + 1).filter(keep).map_values(f) =~= prev.push(f(ids@[i as int])));
            },
            None => {},
        }
        i = i + 1;
    }
    assert(ids@.subrange(0, n as int) =~= ids@);
    out
}

/// The first ID in a list whose object exists and has a class name.
fn find_first_of_class(reg: &ObjectRegistry, ids: &Vec<ObjectId>, class_name: &str) -> (r: Option<ObjectId>)
    ensures
        r == first_of_class(ids@, objects_view(*reg), class_name@),
{
    let ghost ov = objects_view(*reg);
    let n = ids.len();
    let mut i: usize = 0;
    assert(ids@.subrange(0, n as int) =~= ids@);
    while i < n
        invariant
            n == ids@.len(),
            i <= n,
            ov == objects_view(*reg),
            first_of_class(ids@, ov, class_name@) == first_of_class(ids@.subrange(i as int, n as int), ov, class_name@),
        decreases n - i,
    {
        assert(ids@.subrange(i as int, n as int).drop_first() =~= ids@.subrange(i + 1, n as int));
        assert(ids@.subrange(i as int, n as int)[0] == ids@[i as int]);
        match reg.objects.get(&ids[i]) {
            Some(o) => {
                if str_eq(o.class_name.as_str(), class_name) {
                    return Some(ids[i]);
                }
            },
            None => {},
        }
        i = i + 1;
    }
    None
}

impl ClientObject {
    /// The component objects of this actor that exist (none for other objects).
    pub fn get_component_objects(&self, reg: &ObjectRegistry) -> (r: Vec<ClientObject>)
        ensures
            r@.map_values(|o: ClientObject| o@) == (if self.is_actor {
                existing_objects(self.components@, objects_view(*reg))
            } else {
                Seq::empty()
            }),
    {
        if !self.is_actor {
            let r: Vec<ClientObject> = Vec::new();
            assert(r@.map_values(|o: ClientObject| o@) =~= Seq::<ObjectView>::empty());
            return r;
        }
        collect_existing(reg, &self.components)
    }

    /// The first component of this actor with a class name (none for other objects).
    pub fn get_component_by_class(&self, reg: &ObjectRegistry, class_name: &str) -> (r: Option<ObjectId>)
        ensures
            r == (if self.is_actor { first_of_class(self.components@, objects_view(*reg), class_name@) } else { None }),
    {
        if !self.is_actor {
            return None;
        }
        find_first_of_class(reg, &self.components, class_name)
    }

    /// The first component object of this actor with a class name.
    pub fn get_component_object_by_class(&self, reg: &ObjectRegistry, class_name: &str) -> (r: Option<ClientObject>)
        ensures
            match r {
                Some(o) => self.is_actor && (first_of_class(self.components@, objects_view(*reg), class_name@)
                    matches Some(c) && o@ == objects_view(*reg)[c]),
                None => !self.is_actor || first_of_class(self.components@, objects_view(*reg), class_name@) is None,
            },
    {
        match self.get_component_by_class(reg, class_name) {
            Some(c) => {
                proof {
                    lemma_first_of_class_exists(self.components@, objects_view(*reg), class_name@);
                }
                get_object(reg, c)
            },
            None => None,
        }
    }

    /// Whether this object is a component (it has an owner record).
    pub fn is_component(&self, reg: &ObjectRegistry) -> (r: bool)
        ensures
            r == reg.component_owners@.contains_key(self.id),
    {
        reg.component_owners.contains_key(&self.id)
    }

    /// The owner of this component, if it is one.
    pub fn get_owner_id(&self, reg: &ObjectRegistry) -> (r: Option<ObjectId>)
        ensures
            r == (if reg.component_owners@.contains_key(self.id) { Some(reg.component_owners@[self.id]) } else { None }),
    {
        match reg.component_owners.get(&self.id) {
            Some(o) => Some(*o),
            None => None,
        }
    }

    /// The owner object of this component, if it is one and the owner exists.
    pub fn get_owner(&self, reg: &ObjectRegistry) -> (r: Option<ClientObject>)
        ensures
            match r {
                Some(o) => reg.component_owners@.contains_key(self.id)
                    && objects_view(*reg).contains_key(reg.component_owners@[self.id])
                    && o@ == objects_view(*reg)[reg.component_owners@[self.id]],
                None => !reg.component_owners@.contains_key(self.id)
                    || !objects_view(*reg).contains_key(reg.component_owners@[self.id]),
            },
    {
        match self.get_owner_id(reg) {
            Some(owner) => get_object(reg, owner),
            None => None,
        }
    }

    /// Attach a component to this actor and record this actor as its owner.
    /// Fails for an object that is not an actor, or a component already attached.
    pub fn add_component(&mut self, owners: &mut AssocMap<u64, u64>, component_id: ObjectId) -> (r: Result<(), String>)
        ensures
            !old(self).is_actor ==> (r matches Err(e) && e@ == "Cannot add component to non-actor object "@
                + decimal(old(self).id as nat)),
            old(self).is_actor && old(self).components@.contains(component_id) ==> (r matches Err(e)
                && e@ == "Component "@ + decimal(component_id as nat) + " already attached to actor "@
                + decimal(old(self).id as nat)),
            r is Ok <==> old(self).is_actor && !old(self).components@.contains(component_id),
            r is Ok ==> final(self)@ == (ObjectView { components: old(self)@.components.push(component_id), ..old(self)@ })
                && final(owners)@ == old(owners)@.insert(component_id, old(self).id),
            r is Err ==> final(self)@ == old(self)@ && final(owners)@ == old(owners)@,
    {
        if !self.is_actor {
            return Err(crate::text::ending_with_number("Cannot add component to non-actor object ", self.id));
        }
        if crate::server::relevancy::vec_contains_u64(&self.components, component_id) {
            let mut msg = with_number("Component ", component_id, " already attached to actor ");
            let id_text = crate::text::format_u64(self.id);
            msg.append(id_text.as_str());
            return Err(msg);
        }
        self.components.push(component_id);
        owners.insert(component_id, self.id);
        Ok(())
    }

    /// Detach a component from this actor and drop its owner record; a
    /// component that is not attached is no error. Fails for an object that
    /// is not an actor.
    pub fn remove_component(&mut self, owners: &mut AssocMap<u64, u64>, component_id: ObjectId) -> (r: Result<(), String>)
        ensures
            !old(self).is_actor ==> (r matches Err(e) && e@ == "Cannot remove component from non-actor object "@
                + decimal(old(self).id as nat)) && final(self)@ == old(self)@ && final(owners)@ == old(owners)@,
            old(self).is_actor ==> r is Ok,
            old(self).is_actor && old(self).components@.contains(component_id) ==> final(self)@ == (ObjectView {
                components: old(self)@.components.filter(other_id(component_id)),
                ..old(self)@
            }) && final(owners)@ == old(owners)@.remove(component_id),
            old(self).is_actor && !old(self).components@.contains(component_id) ==> final(self)@ == old(self)@
                && final(owners)@ == old(owners)@,
    {
        if !self.is_actor {
            return Err(crate::text::ending_with_number("Cannot remove component from non-actor object ", self.id));
        }
        if crate::server::relevancy::vec_contains_u64(&self.components, component_id) {
            let ghost keep = other_id(component_id);
            let mut kept: Vec<ObjectId> = Vec::new();
            let n = self.components.len();
            let mut i: usize = 0;
            while i < n
                invariant
                    n == self.components@.len(),
                    i <= n,
                    keep == other_id(component_id),
                    kept@ == self.components@.subrange(0, i as int).filter(keep),
                decreases n - i,
            {
                proof {
                    reveal(Seq::filter);
                    assert(self.components@.subrange(0, i + 1).drop_last() =~= self.components@.subrange(0, i as int));
                }
                let c = self.components[i];
                if c != component_id {
                    kept.push(c);
                }
                i = i + 1;
            }
            assert(self.components@.subrange(0, n as int) =~= self.components@);
            self.components = kept;
            let _ = owners.remove(&component_id);
        }
        Ok(())
    }
}

proof fn lemma_first_of_class_exists(ids: Seq<ObjectId>, objects: Map<ObjectId, ObjectView>, class_name: Seq<char>)
    ensures
        first_of_class(ids, objects, class_name) matches Some(c) ==> objects.contains_key(c),
    decreases ids.len(),
{
    if ids.len() > 0 {
        lemma_first_of_class_exists(ids.drop_first(), objects, class_name);
    }
}

/// A component by ID, if the object is a component (has an owner record) and exists.
pub fn get_component(reg: &ObjectRegistry, component_id: ObjectId) -> (r: Option<ClientObject>)
    ensures
        match r {
            Some(o) => reg.component_owners@.contains_key(component_id) && objects_view(*reg).contains_key(component_id)
                && o@ == objects_view(*reg)[component_id],
            None => !reg.component_owners@.contains_key(component_id) || !objects_view(*reg).contains_key(component_id),
        },
{
    if !reg.component_owners.contains_key(&component_id) {
        return None;
    }
    get_object(reg, component_id)
}

/// The actor an ID names, or the error for an unknown object or one that is not an actor.
pub open spec fn actor_check(objects: Map<ObjectId, ObjectView>, actor_id: ObjectId) -> Result<ObjectView, Seq<char>> {
    if !objects.contains_key(actor_id) {
        Err("Actor "@ + decimal(actor_id as nat) + " not found"@)
    } else if !objects[actor_id].is_actor {
        Err("Object "@ + decimal(actor_id as nat) + " is not an actor"@)
    } else {
        Ok(objects[actor_id])
    }
}

/// Get all components of an actor.
pub fn get_components(reg: &ObjectRegistry, actor_id: ObjectId) -> (r: Result<Vec<ObjectId>, String>)
    ensures
        match actor_check(objects_view(*reg), actor_id) {
            Ok(a) => r matches Ok(v) && v@ == a.components,
            Err(e) => r matches Err(x) && x@ == e,
        },
{
    match reg.objects.get(&actor_id) {
        Some(actor) => {
            if !actor.is_actor {
                return Err(with_number("Object ", actor_id, " is not an actor"));
            }
            Ok(actor.components.clone())
        },
        None => Err(with_number("Actor ", actor_id, " not found")),
    }
}

/// Get all component objects of an actor that exist.
pub fn get_component_objects(reg: &ObjectRegistry, actor_id: ObjectId) -> (r: Result<Vec<ClientObject>, String>)
    ensures
        match actor_check(objects_view(*reg), actor_id) {
            Ok(a) => r matches Ok(v) && v@.map_values(|o: ClientObject| o@) == existing_objects(a.components,
                objects_view(*reg)),
            Err(e) => r matches Err(x) && x@ == e,
        },
{
    match reg.objects.get(&actor_id) {
        Some(actor) => {
            if !actor.is_actor {
                return Err(with_number("Object ", actor_id, " is not an actor"));
            }
            Ok(collect_existing(reg, &actor.components))
        },
        None => Err(with_number("Actor ", actor_id, " not found")),
    }
}

/// The first component of an actor with a class name, if any.
pub fn get_component_by_class(reg: &ObjectRegistry, actor_id: ObjectId, class_name: &str)
    -> (r: Result<Option<ClientObject>, String>)
    ensures
        match actor_check(objects_view(*reg), actor_id) {
            Ok(a) => r matches Ok(found) && match first_of_class(a.components, objects_view(*reg), class_name@) {
                Some(c) => found matches Some(o) && o@ == objects_view(*reg)[c],
                None => found is None,
            },
            Err(e) => r matches Err(x) && x@ == e,
        },
{
    match reg.objects.get(&actor_id) {
        Some(actor) => {
            if !actor.is_actor {
                return Err(with_number("Object ", actor_id, " is not an actor"));
            }
            match find_first_of_class(reg, &actor.components, class_name) {
                Some(c) => {
                    proof {
                        lemma_first_of_class_exists(actor.components@, objects_view(*reg), class_name@);
                    }
                    Ok(get_object(reg, c))
                },
                None => Ok(None),
            }
        },
        None => Err(with_number("Actor ", actor_id, " not found")),
    }
}

/// Get the owner of a component.
pub fn get_component_owner(reg: &ObjectRegistry, component_id: ObjectId) -> (r: Option<ObjectId>)
    ensures
        r == (if reg.component_owners@.contains_key(component_id) { Some(reg.component_owners@[component_id]) } else {
            None }),
{
    match reg.component_owners.get(&component_id) {
        Some(o) => Some(*o),
        None => None,
    }
}

/// Check if an object is a component (it has an owner record).
pub fn is_component(reg: &ObjectRegistry, object_id: ObjectId) -> (r: bool)
    ensures
        r == reg.component_owners@.contains_key(object_id),
{
    reg.component_owners.contains_key(&object_id)
}

/// The objects after a component is attached to an actor: the actor lists
/// it last, and the component's owner is the actor.
pub open spec fn attached(objects: Map<ObjectId, ObjectView>, actor_id: ObjectId, component_id: ObjectId)
    -> Map<ObjectId, ObjectView> {
    let o1 = objects.insert(actor_id, ObjectView { components: objects[actor_id].components.push(component_id),
        ..objects[actor_id] });
    o1.insert(component_id, ObjectView { owner_id: Some(objects[actor_id].id), ..o1[component_id] })
}

/// Add a component to an actor: the actor lists it, it records the actor as
/// its owner, and its owner record names the actor. Fails when the component
/// or the actor does not exist, the actor is not one, or the component is
/// already attached.
pub fn add_component(reg: &mut ObjectRegistry, actor_id: ObjectId, component_id: ObjectId) -> (r: Result<(), String>)
    ensures
        ({
            let ov = objects_view(*old(reg));
            if !ov.contains_key(component_id) {
                r matches Err(e) && e@ == "Component "@ + decimal(component_id as nat) + " does not exist"@
            } else if !ov.contains_key(actor_id) {
                r matches Err(e) && e@ == "Actor "@ + decimal(actor_id as nat) + " not found"@
            } else if !ov[actor_id].is_actor {
                r matches Err(e) && e@ == "Cannot add component to non-actor object "@ + decimal(ov[actor_id].id as nat)
            } else if ov[actor_id].components.contains(component_id) {
                r matches Err(e) && e@ == "Component "@ + decimal(component_id as nat) + " already attached to actor "@
                    + decimal(ov[actor_id].id as nat)
            } else {
                &&& r is Ok
                &&& objects_view(*final(reg)) == attached(ov, actor_id, component_id)
                &&& final(reg).component_owners@ == old(reg).component_owners@.insert(component_id, ov[actor_id].id)
            }
        }),
        r is Err ==> objects_view(*final(reg)) == objects_view(*old(reg))
            && final(reg).component_owners@ == old(reg).component_owners@,
        final(reg).temp_id_mapping == old(reg).temp_id_mapping,
{
    if !reg.objects.contains_key(&component_id) {
        return Err(with_number("Component ", component_id, " does not exist"));
    }
    let ghost ov = objects_view(*reg);
    let mut actor = match take_object(reg, actor_id) {
        Some(a) => a,
        None => {
            assert(objects_view(*reg) =~= ov);
            return Err(with_number("Actor ", actor_id, " not found"));
        },
    };
    let owner = actor.id;
    let res = actor.add_component(&mut reg.component_owners, component_id);
    put_object(reg, actor_id, actor);
    match res {
        Ok(()) => {
            let ghost o1 = objects_view(*reg);
            assert(o1 =~= ov.insert(actor_id, ObjectView { components: ov[actor_id].components.push(component_id),
                ..ov[actor_id] }));
            let mut c = match take_object(reg, component_id) {
                Some(c) => c,
                None => {
                    return Ok(());
                },
            };
            c.owner_id = Some(owner);
            put_object(reg, component_id, c);
            assert(objects_view(*reg) =~= attached(ov, actor_id, component_id));
            Ok(())
        },
        Err(e) => {
            assert(objects_view(*reg) =~= ov);
            Err(e)
        },
    }
}

/// The objects after a component is detached from an actor: the actor no
/// longer lists it, and the component has no owner.
pub open spec fn detached(objects: Map<ObjectId, ObjectView>, actor_id: ObjectId, component_id: ObjectId)
    -> Map<ObjectId, ObjectView> {
    let o1 = objects.insert(actor_id, ObjectView {
        components: objects[actor_id].components.filter(other_id(component_id)),
        ..objects[actor_id]
    });
    if o1.contains_key(component_id) {
        o1.insert(component_id, ObjectView { owner_id: None, ..o1[component_id] })
    } else {
        o1
    }
}

/// Remove a component from an actor (no error when it is not attached).
/// Fails when the actor does not exist or is not an actor.
pub fn remove_component(reg: &mut ObjectRegistry, actor_id: ObjectId, component_id: ObjectId) -> (r: Result<(), String>)
    ensures
        ({
            let ov = objects_view(*old(reg));
            if !ov.contains_key(actor_id) {
                &&& r matches Err(e) && e@ == "Actor "@ + decimal(actor_id as nat) + " not found"@
                &&& objects_view(*final(reg)) == ov
                &&& final(reg).component_owners@ == old(reg).component_owners@
            } else if !ov[actor_id].is_actor {
                &&& r matches Err(e) && e@ == "Cannot remove component from non-actor object "@
                    + decimal(ov[actor_id].id as nat)
                &&& objects_view(*final(reg)) == ov
                &&& final(reg).component_owners@ == old(reg).component_owners@
            } else if ov[actor_id].components.contains(component_id) {
                &&& r is Ok
                &&& objects_view(*final(reg)) == detached(ov, actor_id, component_id)
                &&& final(reg).component_owners@ == old(reg).component_owners@.remove(component_id)
            } else {
                &&& r is Ok
                &&& objects_view(*final(reg)) == ov
                &&& final(reg).component_owners@ == old(reg).component_owners@
            }
        }),
        final(reg).temp_id_mapping == old(reg).temp_id_mapping,
{
    let ghost ov = objects_view(*reg);
    let mut actor = match take_object(reg, actor_id) {
        Some(a) => a,
        None => {
            assert(objects_view(*reg) =~= ov);
            return Err(with_number("Actor ", actor_id, " not found"));
        },
    };
    let attached_before = crate::server::relevancy::vec_contains_u64(&actor.components, component_id);
    let res = actor.remove_component(&mut reg.component_owners, component_id);
    put_object(reg, actor_id, actor);
    match res {
        Ok(()) => {
            if attached_before {
                let ghost o1 = objects_view(*reg);
                assert(o1 =~= ov.insert(actor_id, ObjectView {
                    components: ov[actor_id].components.filter(other_id(component_id)),
                    ..ov[actor_id]
                }));
                match take_object(reg, component_id) {
                    Some(mut c) => {
                        c.owner_id = None;
                        put_object(reg, component_id, c);
                        assert(objects_view(*reg) =~= o1.insert(component_id, ObjectView { owner_id: None,
                            ..o1[component_id] }));
                    },
                    None => {
                        assert(objects_view(*reg) =~= o1);
                    },
                }
                assert(objects_view(*reg) =~= detached(ov, actor_id, component_id));
            } else {
                assert(objects_view(*reg) =~= ov);
            }
            Ok(())
        },
        Err(e) => {
            assert(objects_view(*reg) =~= ov);
            Err(e)
        },
    }
}

/// Remap an object from its temporary ID to the ID the server assigned: it
/// moves to the new ID, no longer needs remapping, and takes over the
/// values cached for the new ID (which win over its own). An unknown
/// temporary ID is an error.
pub fn remap_object_id(reg: &mut ObjectRegistry, cache: &mut PropertyCache, temp_id: ObjectId, server_id: ObjectId)
    -> (r: Result<(), String>)
    ensures
        ({
            let ov = objects_view(*old(reg));
            if ov.contains_key(temp_id) {
                &&& r is Ok
                &&& objects_view(*final(reg)) == ov.remove(temp_id).insert(server_id, ObjectView {
                    id: server_id,
                    needs_id_remap: false,
                    properties: ov[temp_id].properties.union_prefer_right(cached_props(old(cache)@, server_id)),
                    ..ov[temp_id]
                })
                &&& final(cache)@ == old(cache)@.remove(server_id)
            } else {
                &&& r matches Err(e) && e@ == "Failed to remap object: temp ID "@ + decimal(temp_id as nat) + " not found"@
                &&& objects_view(*final(reg)) == ov
                &&& final(cache)@ == old(cache)@
            }
        }),
        final(reg).component_owners == old(reg).component_owners,
        final(reg).temp_id_mapping == old(reg).temp_id_mapping,
{
    let ghost ov = objects_view(*reg);
    let mut o = match take_object(reg, temp_id) {
        Some(o) => o,
        None => {
            assert(objects_view(*reg) =~= ov);
            return Err(with_number("Failed to remap object: temp ID ", temp_id, " not found"));
        },
    };
    o.id = server_id;
    o.needs_id_remap = false;
    let cached_values = transfer_cached_properties_to_object(cache, server_id);
    let ghost base = o.properties@;
    let ghost o0 = o@;
    let n = cached_values.len();
    let mut i: usize = 0;
    while i < n
        invariant
            n == cached_values.key_seq().len(),
            i <= n,
            o@ == (ObjectView { properties: o.properties@, ..o0 }),
            o.properties@ == base.union_prefer_right(cached_values@.restrict(
                cached_values.key_seq().subrange(0, i as int).to_set())),
        decreases n - i,
    {
        let (k, v) = cached_values.entry_at(i);
        o.properties.insert(k.clone(), v.clone());
        proof {
            cached_values.key_seq().subrange(0, i as int).lemma_push_to_set_commute(k@);
            assert(cached_values.key_seq().subrange(0, i + 1) =~= cached_values.key_seq().subrange(0, i as int).push(k@));
        }
        assert(o.properties@ =~= base.union_prefer_right(cached_values@.restrict(
            cached_values.key_seq().subrange(0, i + 1).to_set())));
        i = i + 1;
    }
    proof {
        cached_values.lemma_dom();
        assert(cached_values.key_seq().subrange(0, n as int) =~= cached_values.key_seq());
        assert(cached_values@.restrict(cached_values.key_seq().to_set()) =~= cached_values@);
    }
    assert(o@ == ObjectView {
        id: server_id,
        needs_id_remap: false,
        properties: ov[temp_id].properties.union_prefer_right(cached_props(old(cache)@, server_id)),
        ..ov[temp_id]
    });
    put_object(reg, server_id, o);
    assert(objects_view(*reg) =~= ov.remove(temp_id).insert(server_id, ObjectView {
        id: server_id,
        needs_id_remap: false,
        properties: ov[temp_id].properties.union_prefer_right(cached_props(old(cache)@, server_id)),
        ..ov[temp_id]
    }));
    Ok(())
}

/// A JSON member read as a `u64`, as `Value::as_u64` reads it.
pub open spec fn json_u64(v: Option<JsonValue>) -> Option<u64> {
    match v {
        Some(JsonValue::Number(n)) => match n.repr {
            NumberRepr::PosInt(u) => Some(u),
            _ => None,
        },
        _ => None,
    }
}

/// A JSON member read as a string, as `Value::as_str` reads it.
pub open spec fn json_text(v: Option<JsonValue>) -> Option<Seq<char>> {
    match v {
        Some(JsonValue::String(s)) => Some(s@),
        _ => None,
    }
}

/// A member of a JSON document, if the document is an object that has it.
pub open spec fn member(doc: JsonValue, key: Seq<char>) -> Option<JsonValue> {
    match doc {
        JsonValue::Object(fs) => field(fs@, key),
        _ => None,
    }
}

fn get_member<'a>(doc: &'a JsonValue, key: &str) -> (r: Option<&'a JsonValue>)
    ensures
        match r {
            Some(v) => member(*doc, key@) == Some(*v),
            None => member(*doc, key@) is None,
        },
{
    match doc {
        JsonValue::Object(fs) => get_field(fs, key),
        _ => None,
    }
}

/// Handle the server's reply to an object creation request. Its
/// `object_id` is the server's ID for the temporary object: a missing ID is
/// an error; ID 0 means the server failed, and the temporary object is
/// removed (the error is the reply's `error` text); any other ID is
/// recorded for the temporary ID and the object is remapped to it.
pub fn handle_object_creation_response(reg: &mut ObjectRegistry, cache: &mut PropertyCache, temp_id: ObjectId,
    response: &JsonValue) -> (r: Result<(), String>)
    ensures
        ({
            let ov = objects_view(*old(reg));
            match json_u64(member(*response, "object_id"@)) {
                None => {
                    &&& r matches Err(e) && e@ == "Missing object_id in server response"@
                    &&& objects_view(*final(reg)) == ov
                    &&& final(reg).temp_id_mapping == old(reg).temp_id_mapping
                    &&& final(cache)@ == old(cache)@
                },
                Some(server_id) => if server_id == 0 {
                    &&& r matches Err(e) && e@ == (match json_text(member(*response, "error"@)) {
                        Some(t) => t,
                        None => "Unknown error creating object on server"@,
                    })
                    &&& objects_view(*final(reg)) == ov.remove(temp_id)
                    &&& final(reg).temp_id_mapping == old(reg).temp_id_mapping
                    &&& final(cache)@ == old(cache)@
                } else {
                    &&& final(reg).temp_id_mapping@ == old(reg).temp_id_mapping@.insert(temp_id, server_id)
                    &&& if ov.contains_key(temp_id) {
                        &&& r is Ok
                        &&& objects_view(*final(reg)) == ov.remove(temp_id).insert(server_id, ObjectView {
                            id: server_id,
                            needs_id_remap: false,
                            properties: ov[temp_id].properties.union_prefer_right(cached_props(old(cache)@, server_id)),
                            ..ov[temp_id]
                        })
                        &&& final(cache)@ == old(cache)@.remove(server_id)
                    } else {
                        &&& r matches Err(e) && e@ == "Failed to remap object: temp ID "@ + decimal(temp_id as nat)
                            + " not found"@
                        &&& objects_view(*final(reg)) == ov
                        &&& final(cache)@ == old(cache)@
                    }
                },
            }
        }),
        final(reg).component_owners == old(reg).component_owners,
{
    let server_id = match get_member(response, "object_id") {
        Some(JsonValue::Number(n)) => match n.repr {
            NumberRepr::PosInt(u) => u,
            _ => return Err(owned("Missing object_id in server response")),
        },
        _ => return Err(owned("Missing object_id in server response")),
    };
    if server_id == 0 {
        let msg = match get_member(response, "error") {
            Some(JsonValue::String(t)) => t.clone(),
            _ => owned("Unknown error creating object on server"),
        };
        let _ = take_object(reg, temp_id);
        return Err(msg);
    }
    reg.temp_id_mapping.insert(temp_id, server_id);
    remap_object_id(reg, cache, temp_id, server_id)
}

/// Get a property value of an object as the object reads it; for an object
/// that does not exist (yet), the value waiting in the staging cache.
pub fn get_object_property(reg: &ObjectRegistry, cache: &PropertyCache, object_id: ObjectId, property_name: &str)
    -> (r: Option<PropertyValue>)
    ensures
        r == (if objects_view(*reg).contains_key(object_id) {
            property_read(objects_view(*reg)[object_id], property_name@)
        } else {
            cache_lookup(cache@, object_id, property_name@)
        }),
{
    match reg.objects.get(&object_id) {
        Some(o) => o.get_property(property_name),
        None => get_cached_property_value(cache, object_id, property_name),
    }
}

/// Get a value from an object's property map; for an object that does not
/// exist (yet), the value waiting in the staging cache.
pub fn get_property(reg: &ObjectRegistry, cache: &PropertyCache, object_id: ObjectId, property_name: &str)
    -> (r: Result<Option<PropertyValue>, String>)
    ensures
        r == Ok::<Option<PropertyValue>, String>(if objects_view(*reg).contains_key(object_id) {
            let p = objects_view(*reg)[object_id].properties;
            if p.contains_key(property_name@) { Some(p[property_name@]) } else { None }
        } else {
            cache_lookup(cache@, object_id, property_name@)
        }),
{
    match reg.objects.get(&object_id) {
        Some(o) => match o.properties.get(&owned(property_name)) {
            Some(v) => Ok(Some(v.clone())),
            None => Ok(None),
        },
        None => Ok(get_cached_property_value(cache, object_id, property_name)),
    }
}

/// All objects, in registry order.
pub fn get_all_objects(reg: &ObjectRegistry) -> (r: Vec<ClientObject>)
    ensures
        r@.map_values(|o: ClientObject| o@) == reg.objects.key_seq().map_values(|k: u64| objects_view(*reg)[k]),
{
    let ghost ov = objects_view(*reg);
    let n = reg.objects.len();
    let mut out: Vec<ClientObject> = Vec::new();
    let mut i: usize = 0;
    while i < n
        invariant
            n == reg.objects.key_seq().len(),
            ov == objects_view(*reg),
            i <= n,
            out@.map_values(|o: ClientObject| o@) == reg.objects.key_seq().subrange(0, i as int).map_values(
                |k: u64| ov[k]),
        decreases n - i,
    {
        let (k, o) = reg.objects.entry_at(i);
        assert(ov[*k] == o@);
        let ghost prev = out@.map_values(|o: ClientObject| o@);
        out.push(o.clone());
        assert(out@.map_values(|o: ClientObject| o@) =~= prev.push(o@));
        assert(reg.objects.key_seq().subrange(0, i + 1) =~= reg.objects.key_seq().subrange(0, i as int).push(*k));
        assert(out@.map_values(|o: ClientObject| o@) =~= reg.objects.key_seq().subrange(0, i + 1).map_values(
            |k: u64| ov[k]));
        i = i + 1;
    }
    assert(reg.objects.key_seq().subrange(0, n as int) =~= reg.objects.key_seq());
    out
}

/// All actors, in registry order.
pub fn get_all_actors(reg: &ObjectRegistry) -> (r: Vec<ClientObject>)
    ensures
        r@.map_values(|o: ClientObject| o@) == reg.objects.key_seq().map_values(|k: u64| objects_view(*reg)[k]).filter(
            |v: ObjectView| v.is_actor),
{
    let ghost ov = objects_view(*reg);
    let ghost all = reg.objects.key_seq().map_values(|k: u64| ov[k]);
    let ghost keep = |v: ObjectView| v.is_actor;
    let n = reg.objects.len();
    let mut out: Vec<ClientObject> = Vec::new();
    let mut i: usize = 0;
    while i < n
        invariant
            n == reg.objects.key_seq().len(),
            ov == objects_view(*reg),
            all == reg.objects.key_seq().map_values(|k: u64| ov[k]),
            keep == (|v: ObjectView| v.is_actor),
            i <= n,
            out@.map_values(|o: ClientObject| o@) == all.subrange(0, i as int).filter(keep),
        decreases n - i,
    {
        proof {
            reveal(Seq::filter);
            assert(all.subrange(0, i + 1).drop_last() =~= all.subrange(0, i as int));
        }
        let (_k, o) = reg.objects.entry_at(i);
        assert(all[i as int] == o@);
        if o.is_actor {
            let ghost prev = out@.map_values(|o: ClientObject| o@);
            out.push(o.clone());
            assert(out@.map_values(|o: ClientObject| o@) =~= prev.push(o@));
        }
        i = i + 1;
    }
    assert(all.subrange(0, n as int) =~= all);
    out
}

/// The system clock's time type.
#[verifier::external_type_specification]
#[verifier::external_body]
pub struct ExSystemTime(std::time::SystemTime);

/// The error of a time before the Unix epoch.
#[verifier::external_type_specification]
#[verifier::external_body]
pub struct ExSystemTimeError(std::time::SystemTimeError);

/// `SystemTime::now()`: the current time of the system clock. Nothing is
/// claimed of the value: it is the time.
#[verifier::external_body]
fn system_now() -> (r: std::time::SystemTime) {
    std::time::SystemTime::now()
}

/// `SystemTime::duration_since(UNIX_EPOCH)`: the time elapsed since the Unix
/// epoch, or an error for a time before it. Nothing is claimed of the value.
#[verifier::external_body]
fn since_unix_epoch(t: &std::time::SystemTime) -> (r: Result<core::time::Duration, std::time::SystemTimeError>) {
    t.duration_since(std::time::UNIX_EPOCH)
}

/// `Duration::default()`: the zero duration. Nothing is claimed of it here.
#[verifier::external_body]
fn zero_duration() -> (r: core::time::Duration) {
    core::time::Duration::default()
}

/// `Duration::as_millis`: the whole milliseconds of a duration. Nothing is
/// claimed of the value.
#[verifier::external_body]
fn whole_millis(d: &core::time::Duration) -> (r: u128) {
    d.as_millis()
}

/// The current time as whole milliseconds since the Unix epoch (0 for a
/// clock set before it), truncated to 64 bits.
fn now_millis() -> (r: u64) {
    let t = system_now();
    let d = match since_unix_epoch(&t) {
        Ok(d) => d,
        Err(_) => zero_duration(),
    };
    let ms = whole_millis(&d);
    #[verifier::truncate] (ms as u64)
}

/// `OsRng::try_fill_bytes` (`rand::rngs::OsRng`, from `rand_core`): four
/// bytes from the operating system's random source, read as a little-endian
/// `u32`; `None` where the source reports an error. Nothing is claimed of the
/// value: it is random.
#[verifier::external_body]
fn random_u32() -> (r: Option<u32>) {
    let mut buf = [0u8; 4];
    match rand::RngCore::try_fill_bytes(&mut rand::rngs::OsRng, &mut buf) {
        Ok(()) => Some(u32::from_le_bytes(buf)),
        Err(_) => None,
    }
}

/// The flag bit that marks an object ID as temporary (assigned by the client).
pub const TEMP_ID_FLAG: u64 = 0x8000_0000_0000_0000;

/// A temporary object ID made from a time and a random number: the time,
/// with the random number in the high half mixed in, and the temporary flag set.
pub fn make_temp_object_id(timestamp: u64, random: u32) -> (r: u64)
    ensures
        r == (timestamp ^ ((random as u64) << 32u64)) | TEMP_ID_FLAG,
        r >= TEMP_ID_FLAG,
{
    let r = (timestamp ^ ((random as u64) << 32u64)) | TEMP_ID_FLAG;
    assert(r >= TEMP_ID_FLAG) by (bit_vector)
        requires
            r == (timestamp ^ ((random as u64) << 32u64)) | 0x8000_0000_0000_0000u64,
            TEMP_ID_FLAG == 0x8000_0000_0000_0000u64;
    r
}

/// Generate a temporary object ID from the current time and a random number,
/// flagged so that it cannot collide with an ID the server assigns. Where the
/// operating system gives no random number, the time alone is used (random
/// part 0); the ID is flagged either way.
pub fn generate_temp_object_id() -> (r: u64)
    ensures
        r >= TEMP_ID_FLAG,
{
    let timestamp = now_millis();
    let random = match random_u32() {
        Some(x) => x,
        None => 0,
    };
    make_temp_object_id(timestamp, random)
}

/// The staging cache after the initial property values that could be read
/// are cached for an object, in order.
pub open spec fn decoded_cached(m: Map<ObjectId, Map<Seq<char>, PropertyValue>>, id: ObjectId,
    props: Seq<(String, Result<PropertyValue, String>)>) -> Map<ObjectId, Map<Seq<char>, PropertyValue>>
    decreases props.len(),
{
    if props.len() == 0 {
        m
    } else {
        let m1 = decoded_cached(m, id, props.drop_last());
        match props.last().1 {
            Ok(v) => cached(m1, id, props.last().0@, v),
            Err(_) => m1,
        }
    }
}

/// The value, rounded to `f32`, of a number member of a JSON document.
pub open spec fn member_f32(doc: JsonValue, key: Seq<char>) -> Option<u32> {
    match member(doc, key) {
        Some(JsonValue::Number(n)) => Some(n.as_f32_bits),
        _ => None,
    }
}

fn get_member_f32(doc: &JsonValue, key: &str) -> (r: Option<u32>)
    ensures
        r == member_f32(*doc, key@),
{
    match get_member(doc, key) {
        Some(JsonValue::Number(n)) => Some(n.as_f32_bits),
        _ => None,
    }
}

/// A vector read from the number members `x`, `y` and `z` of a document;
/// `default` where the document is absent or one of them is missing.
pub open spec fn vector_member(doc: Option<JsonValue>, default: Vector3) -> Vector3 {
    match doc {
        Some(d) => match (member_f32(d, "x"@), member_f32(d, "y"@), member_f32(d, "z"@)) {
            (Some(x), Some(y), Some(z)) => Vector3 { x, y, z },
            _ => default,
        },
        None => default,
    }
}

fn read_vector(doc: Option<&JsonValue>, default: Vector3) -> (v: Vector3)
    ensures
        v == vector_member(match doc { Some(d) => Some(*d), None => None }, default),
{
    match doc {
        Some(d) => match (get_member_f32(d, "x"), get_member_f32(d, "y"), get_member_f32(d, "z")) {
            (Some(x), Some(y), Some(z)) => Vector3::new(x, y, z),
            _ => default,
        },
        None => default,
    }
}

/// A rotation read from the number members `x`, `y`, `z` and `w` of a
/// document; the identity where the document is absent or one is missing.
pub open spec fn quat_member(doc: Option<JsonValue>) -> Quat {
    match doc {
        Some(d) => match (member_f32(d, "x"@), member_f32(d, "y"@), member_f32(d, "z"@), member_f32(d, "w"@)) {
            (Some(x), Some(y), Some(z), Some(w)) => Quat { x, y, z, w },
            _ => Quat::spec_identity(),
        },
        None => Quat::spec_identity(),
    }
}

fn read_quat(doc: Option<&JsonValue>) -> (q: Quat)
    ensures
        q == quat_member(match doc { Some(d) => Some(*d), None => None }),
{
    match doc {
        Some(d) => match (get_member_f32(d, "x"), get_member_f32(d, "y"), get_member_f32(d, "z"),
            get_member_f32(d, "w")) {
            (Some(x), Some(y), Some(z), Some(w)) => Quat::new(x, y, z, w),
            _ => Quat::identity(),
        },
        None => Quat::identity(),
    }
}

/// What registering an object reads from its JSON description, besides its
/// initial property values.
#[derive(Debug, Clone, Copy, PartialEq, Eq, Structural)]
pub struct ObjectDescription {
    pub transform: Option<Transform>,
    pub owner_id: Option<u64>,
    pub replicates: bool,
}

/// The description of an object in a JSON document: a `transform` member
/// gives a transform whose `location`, `rotation` and `scale` default to
/// zero, the identity and one; `owner_id` counts where it is a non-negative
/// integer; `replicates` defaults to true where it is not a boolean.
pub open spec fn described(params: JsonValue) -> ObjectDescription {
    ObjectDescription {
        transform: match member(params, "transform"@) {
            Some(t) => Some(Transform {
                location: vector_member(member(t, "location"@),
                    Vector3 { x: F32_ZERO_BITS, y: F32_ZERO_BITS, z: F32_ZERO_BITS }),
                rotation: quat_member(member(t, "rotation"@)),
                scale: vector_member(member(t, "scale"@),
                    Vector3 { x: F32_ONE_BITS, y: F32_ONE_BITS, z: F32_ONE_BITS }),
            }),
            None => None,
        },
        owner_id: match member(params, "owner_id"@) {
            Some(JsonValue::Number(n)) => n.spec_as_u64(),
            _ => None,
        },
        replicates: match member(params, "replicates"@) {
            Some(JsonValue::Bool(b)) => b,
            _ => true,
        },
    }
}

/// Read the description of an object to register from its JSON parameters.
pub fn read_object_description(params: &JsonValue) -> (d: ObjectDescription)
    ensures
        d == described(*params),
{
    let transform = match get_member(params, "transform") {
        Some(t) => {
            let location = read_vector(get_member(t, "location"), Vector3::zero());
            let rotation = read_quat(get_member(t, "rotation"));
            let scale = read_vector(get_member(t, "scale"), Vector3::one());
            Some(Transform::new(location, rotation, scale))
        },
        None => None,
    };
    let owner_id = match get_member(params, "owner_id") {
        Some(JsonValue::Number(n)) => n.as_u64(),
        _ => None,
    };
    let replicates = match get_member(params, "replicates") {
        Some(JsonValue::Bool(b)) => *b,
        _ => true,
    };
    ObjectDescription { transform, owner_id, replicates }
}

/// Whether the server is asked to create a newly registered object: only an
/// object that replicates, and only while the client is connected.
pub fn requests_server_creation(description: &ObjectDescription, client: &NetClient) -> (r: bool)
    ensures
        r == (description.replicates && client.state == ConnectionState::Connected),
{
    description.replicates && crate::client::net::is_connected(client)
}

/// A newly created object with a temporary ID.
pub open spec fn new_object(id: ObjectId, class_name: Seq<char>, params: SpawnParams,
    properties: Map<Seq<char>, PropertyValue>, is_actor: bool) -> ObjectView {
    ObjectView {
        id,
        class_name,
        owner_id: params.owner_id,
        state: ObjectLifecycleState::Initializing,
        transform: params.transform,
        properties,
        needs_id_remap: true,
        is_actor,
        replicates: params.replicates,
        components: Seq::empty(),
    }
}

/// Whether objects of a class are actors (an unknown class counts as class 0).
pub open spec fn class_is_actor(classes: &ClassRegistry, class_name: Seq<char>) -> bool {
    spec_is_actor_class(classes, match spec_class_id(classes, class_name) { Some(id) => id, None => 0 })
}

/// Create an object on the client under a new temporary ID (returned): the
/// initial property values that could be read (`decoded`, in order) are
/// staged and become its properties, together with any values already
/// staged for the ID. Asking the server to create it is left to the caller.
pub fn create_object(
    reg: &mut ObjectRegistry,
    cache: &mut PropertyCache,
    classes: &ClassRegistry,
    class_name: &str,
    params: SpawnParams,
    decoded: Vec<(String, Result<PropertyValue, String>)>,
) -> (r: ObjectId)
    ensures
        r >= TEMP_ID_FLAG,
        ({
            let staged = decoded_cached(old(cache)@, r, decoded@);
            &&& final(cache)@ == staged.remove(r)
            &&& objects_view(*final(reg)) == objects_view(*old(reg)).insert(r, new_object(r, class_name@, params,
                cached_props(staged, r), class_is_actor(classes, class_name@)))
        }),
        final(reg).component_owners == old(reg).component_owners,
        final(reg).temp_id_mapping == old(reg).temp_id_mapping,
{
    let temp_object_id = generate_temp_object_id();
    let class_id = match get_class_id_by_name(classes, class_name) {
        Some(id) => id,
        None => 0,
    };
    let is_actor = is_actor_class(classes, class_id);
    let n = decoded.len();
    let mut i: usize = 0;
    while i < n
        invariant
            n == decoded@.len(),
            i <= n,
            cache@ == decoded_cached(old(cache)@, temp_object_id, decoded@.subrange(0, i as int)),
        decreases n - i,
    {
        proof {
            assert(decoded@.subrange(0, i + 1).drop_last() =~= decoded@.subrange(0, i as int));
        }
        match &decoded[i].1 {
            Ok(v) => {
                cache_property_value(cache, temp_object_id, decoded[i].0.as_str(), v.clone());
            },
            Err(_) => {},
        }
        i = i + 1;
    }
    assert(decoded@.subrange(0, n as int) =~= decoded@);
    let properties = transfer_cached_properties_to_object(cache, temp_object_id);
    let object = ClientObject {
        id: temp_object_id,
        class_name: owned(class_name),
        owner_id: params.owner_id,
        state: ObjectLifecycleState::Initializing,
        transform: params.transform,
        properties,
        needs_id_remap: true,
        is_actor,
        replicates: params.replicates,
        components: Vec::new(),
    };
    put_object(reg, temp_object_id, object);
    temp_object_id
}

/// The server call that creates an object of a class: its class ID and
/// `spawn_actor` for actor classes, `spawn_object` for others. Fails when
/// not connected or for an unknown class.
pub fn create_call_target(classes: &ClassRegistry, connected: bool, class_name: &str) -> (r: Result<(u32, String), String>)
    ensures
        !connected ==> (r matches Err(e) && e@ == "Not connected to server"@),
        connected && spec_class_id(classes, class_name@) is None ==> (r matches Err(e) && e@ == "Unknown class: "@
            + class_name@),
        connected && spec_class_id(classes, class_name@) is Some ==> ({
            let id = spec_class_id(classes, class_name@)->0;
            r matches Ok((c, f)) && c == id && f@ == (if spec_is_actor_class(classes, id) { "spawn_actor"@ } else {
                "spawn_object"@ })
        }),
{
    if !connected {
        return Err(owned("Not connected to server"));
    }
    let class_id = match get_class_id_by_name(classes, class_name) {
        Some(id) => id,
        None => {
            let mut msg = owned("Unknown class: ");
            msg.append(class_name);
            return Err(msg);
        },
    };
    let function_name = if is_actor_class(classes, class_id) { owned("spawn_actor") } else { owned("spawn_object") };
    Ok((class_id, function_name))
}

/// Create an actor on the client (see `create_object`), with a transform,
/// owner and replication flag and no initial properties.
pub fn create_actor(
    reg: &mut ObjectRegistry,
    cache: &mut PropertyCache,
    classes: &ClassRegistry,
    class_name: &str,
    transform: Transform,
    owner_id: Option<ObjectId>,
    replicates: bool,
) -> (r: ObjectId)
    ensures
        r >= TEMP_ID_FLAG,
        final(cache)@ == old(cache)@.remove(r),
        objects_view(*final(reg)) == objects_view(*old(reg)).insert(r, ObjectView {
            id: r,
            class_name: class_name@,
            owner_id,
            state: ObjectLifecycleState::Initializing,
            transform: Some(transform),
            properties: cached_props(old(cache)@, r),
            needs_id_remap: true,
            is_actor: class_is_actor(classes, class_name@),
            replicates,
            components: Seq::empty(),
        }),
        final(reg).component_owners == old(reg).component_owners,
        final(reg).temp_id_mapping == old(reg).temp_id_mapping,
{
    let mut params = SpawnParams::default();
    params.class_name = owned(class_name);
    params.transform = Some(transform);
    params.owner_id = owner_id;
    params.replicates = replicates;
    let decoded: Vec<(String, Result<PropertyValue, String>)> = Vec::new();
    create_object(reg, cache, classes, class_name, params, decoded)
}

/// Get a property from the first component of an actor with a class (none
/// when the actor has no such component).
pub fn get_component_property(reg: &ObjectRegistry, actor_id: ObjectId, component_class: &str, property_name: &str)
    -> (r: Result<Option<PropertyValue>, String>)
    ensures
        match actor_check(objects_view(*reg), actor_id) {
            Ok(a) => r == Ok::<Option<PropertyValue>, String>(
                match first_of_class(a.components, objects_view(*reg), component_class@) {
                    Some(c) => property_read(objects_view(*reg)[c], property_name@),
                    None => None,
                }),
            Err(e) => r matches Err(x) && x@ == e,
        },
{
    match get_component_by_class(reg, actor_id, component_class) {
        Ok(Some(component)) => Ok(component.get_property(property_name)),
        Ok(None) => Ok(None),
        Err(e) => Err(e),
    }
}

/// Set a property on the first component of an actor with a class (see
/// `update_object_property`). Fails when the actor has no such component.
pub fn set_component_property(
    reg: &mut ObjectRegistry,
    cache: &mut PropertyCache,
    actor_id: ObjectId,
    component_class: &str,
    property_name: &str,
    value: PropertyValue,
    rotator_quat: Quat,
) -> (r: Result<(), String>)
    ensures
        ({
            let ov = objects_view(*old(reg));
            match actor_check(ov, actor_id) {
                Err(e) => r matches Err(x) && x@ == e && objects_view(*final(reg)) == ov && final(cache)@ == old(cache)@,
                Ok(a) => match first_of_class(a.components, ov, component_class@) {
                    None => r matches Err(x) && x@ == "Component of class "@ + component_class@ + " not found on actor "@
                        + decimal(actor_id as nat) && objects_view(*final(reg)) == ov && final(cache)@ == old(cache)@,
                    Some(c) => {
                        &&& r is Ok
                        &&& objects_view(*final(reg)) == ov.insert(ov[c].id, property_applied(ov[ov[c].id],
                            property_name@, value, rotator_quat))
                            || !ov.contains_key(ov[c].id) && objects_view(*final(reg)) == ov
                        &&& final(cache)@ == cached(old(cache)@, ov[c].id, property_name@, value)
                    },
                },
            }
        }),
        final(reg).component_owners == old(reg).component_owners,
        final(reg).temp_id_mapping == old(reg).temp_id_mapping,
{
    match get_component_by_class(reg, actor_id, component_class) {
        Ok(Some(component)) => update_object_property(reg, cache, component.id, property_name, value, rotator_quat),
        Ok(None) => {
            let mut msg = owned("Component of class ");
            msg.append(component_class);
            msg.append(" not found on actor ");
            let t = crate::text::format_u64(actor_id);
            msg.append(t.as_str());
            Err(msg)
        },
        Err(e) => Err(e),
    }
}

/// What is set on an object reads back: after a successful set, reading
/// the property gives the value (a rotator set as the rotation reads back as
/// the identity rotation, so rotators are left out).
pub proof fn law_set_then_get(v: ObjectView, name: Seq<char>, value: PropertyValue)
    requires
        property_set(v, name, value) is Ok,
        !(value is Rotator),
    ensures
        property_read(property_set(v, name, value)->Ok_0, name) == Some(value),
{
}

/// What an authoritative update writes reads back: a vector for location
/// or scale, a quaternion for rotation (a rotator as its quaternion), and
/// any value for other names.
pub proof fn law_update_then_get(v: ObjectView, name: Seq<char>, value: PropertyValue, rotator_quat: Quat)
    requires
        name == "Location"@ || name == "Scale"@ ==> value is Vector,
        name == "Rotation"@ ==> value is Quat || value is Rotator,
    ensures
        property_read(property_applied(v, name, value, rotator_quat), name) == Some(
            if name == "Rotation"@ && value is Rotator { PropertyValue::Quat(rotator_quat) } else { value }),
{
}

/// Detaching a component undoes attaching it: the actor's list and the
/// component's (empty) owner are as before.
pub proof fn law_detach_undoes_attach(objects: Map<ObjectId, ObjectView>, actor_id: ObjectId, component_id: ObjectId)
    requires
        objects.contains_key(actor_id),
        objects.contains_key(component_id),
        actor_id != component_id,
        !objects[actor_id].components.contains(component_id),
        objects[component_id].owner_id is None,
    ensures
        detached(attached(objects, actor_id, component_id), actor_id, component_id) == objects,
{
    let cs = objects[actor_id].components;
    assert forall|i: int| 0 <= i < cs.len() implies other_id(component_id)(#[trigger] cs[i]) by {
        if cs[i] == component_id {
            assert(cs.contains(component_id));
        }
    }
    crate::collections::lemma_filter_push_fail(cs, component_id, other_id(component_id));
    crate::collections::lemma_filter_all(cs, other_id(component_id));
    let a = attached(objects, actor_id, component_id);
    assert(a[actor_id].components.filter(other_id(component_id)) == cs);
    assert(detached(a, actor_id, component_id) =~= objects);
}

} // verus!
