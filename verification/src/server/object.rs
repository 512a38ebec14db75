//! Objects on the server: the object tables, class registration, and the
//! lifecycle of actor objects (destruction, hiding, cleanup).
use vstd::prelude::*;
use crate::shared::property::{PropertyType, PropertyValue};
use crate::shared::lifecycle::ObjectLifecycleState;
use crate::server::connection::{Identity, ClientInfo, client_views, spec_is_admin, is_admin};

verus! {

/// A class in the reflection system (a `UClass`).
#[derive(Debug)]
pub struct ObjectClass {
    pub class_id: u32,
    pub class_name: String,
    pub class_path: String,
    /// Parent class ID (0 for the root class).
    pub parent_class_id: u32,
    pub replicates: bool,
    pub is_actor: bool,
    pub is_component: bool,
    pub always_relevant: bool,
    pub requires_transform_updates: bool,
}

/// A row of the object table.
#[derive(Debug)]
pub struct ObjectInstance {
    pub object_id: u64,
    pub class_id: u32,
    pub object_name: String,
    pub owner_identity: Option<Identity>,
    /// The object that contains this one, if any.
    pub outer_object_id: Option<u64>,
    pub created_at: u64,
    pub state: ObjectLifecycleState,
    pub is_actor: bool,
    pub hidden: bool,
    pub destroyed_at: Option<u64>,
}

/// A dynamic property value of an object.
#[derive(Debug)]
pub struct ObjectProperty {
    pub object_id: u64,
    pub property_name: String,
    pub value: PropertyValue,
    pub last_updated: u64,
    pub replicated: bool,
}

/// A property field defined on a class.
#[derive(Debug)]
pub struct ClassProperty {
    pub class_id: u32,
    pub property_name: String,
    pub property_type: PropertyType,
    pub replicated: bool,
    pub readonly: bool,
}

/// A reference held by an object's property to another object.
#[derive(Debug)]
pub struct ObjectReference {
    pub source_object_id: u64,
    pub property_name: String,
    pub target_object_id: u64,
}

/// An object's position, rotation (quaternion) and scale; components are `f32` bit patterns.
#[derive(Debug, Clone, Copy, PartialEq, Eq, Structural)]
pub struct ObjectTransform {
    pub object_id: u64,
    pub pos_x: u32,
    pub pos_y: u32,
    pub pos_z: u32,
    pub rot_x: u32,
    pub rot_y: u32,
    pub rot_z: u32,
    pub rot_w: u32,
    pub scale_x: u32,
    pub scale_y: u32,
    pub scale_z: u32,
}

/// A component instance of an object.
#[derive(Debug)]
pub struct ObjectComponent {
    pub component_id: u64,
    pub owner_object_id: u64,
    pub component_class_id: u32,
    pub component_name: String,
    pub is_active: bool,
}

/// The largest class ID in use, or -1 when there is no class.
pub open spec fn max_class_id(rows: Seq<ObjectClass>) -> int
    decreases rows.len(),
{
    if rows.len() == 0 {
        -1
    } else {
        let m = max_class_id(rows.drop_last());
        if rows.last().class_id > m { rows.last().class_id as int } else { m }
    }
}

/// The ID the next registered class gets: one past the largest in use, or
/// 100 when there is no class.
pub open spec fn next_class_id(rows: Seq<ObjectClass>) -> int {
    if rows.len() == 0 { 100 } else { max_class_id(rows) + 1 }
}

proof fn lemma_max_class_id(rows: Seq<ObjectClass>)
    ensures
        rows.len() > 0 ==> 0 <= max_class_id(rows),
        forall|i: int| 0 <= i < rows.len() ==> (#[trigger] rows[i]).class_id <= max_class_id(rows),
        rows.len() > 0 ==> exists|i: int| 0 <= i < rows.len() && (#[trigger] rows[i]).class_id == max_class_id(rows),
    decreases rows.len(),
{
    if rows.len() > 0 {
        lemma_max_class_id(rows.drop_last());
        let m = max_class_id(rows.drop_last());
        assert forall|i: int| 0 <= i < rows.len() implies (#[trigger] rows[i]).class_id <= max_class_id(rows) by {
            if i < rows.len() - 1 {
                assert(rows.drop_last()[i] == rows[i]);
            }
        }
        if rows.last().class_id > m {
            assert(rows[rows.len() - 1].class_id == max_class_id(rows));
        } else {
            let j = choose|j: int| 0 <= j < rows.drop_last().len() && (#[trigger] rows.drop_last()[j]).class_id == m;
            assert(rows[j] == rows.drop_last()[j]);
        }
    }
}

/// Generates a unique class ID: one past the largest in use (100 at first).
pub fn generate_class_id(classes: &Vec<ObjectClass>) -> (r: u32)
    requires
        forall|i: int| 0 <= i < classes@.len() ==> (#[trigger] classes@[i]).class_id < u32::MAX,
    ensures
        r == next_class_id(classes@),
        forall|i: int| 0 <= i < classes@.len() ==> (#[trigger] classes@[i]).class_id < r,
{
    proof {
        lemma_max_class_id(classes@);
    }
    let n = classes.len();
    let mut max_id: u32 = 99;
    let mut i: usize = 0;
    while i < n
        invariant
            n == classes@.len(),
            i <= n,
            i == 0 ==> max_id == 99,
            i > 0 ==> max_id == max_class_id(classes@.subrange(0, i as int)),
        decreases n - i,
    {
        proof {
            assert(classes@.subrange(0, i + 1).drop_last() =~= classes@.subrange(0, i as int));
            assert(classes@.subrange(0, i + 1).last() == classes@[i as int]);
            assert(max_class_id(classes@.subrange(0, 0)) == -1);
            if i > 0 {
                lemma_max_class_id(classes@.subrange(0, i as int));
            }
        }
        let c = classes[i].class_id;
        if i == 0 || c > max_id {
            max_id = c;
        }
        i = i + 1;
    }
    proof {
        assert(classes@.subrange(0, n as int) =~= classes@);
        if n > 0 {
            lemma_max_class_id(classes@);
            let j = choose|j: int| 0 <= j < classes@.len() && (#[trigger] classes@[j]).class_id == max_class_id(classes@);
            assert(classes@[j].class_id < u32::MAX);
        }
    }
    max_id + 1
}

/// What a class registration adds.
pub open spec fn is_registered_class(c: ObjectClass, class_id: u32, name: Seq<char>, path: Seq<char>,
    parent: u32, replicates: bool, is_actor: bool, is_component: bool) -> bool {
    &&& c.class_id == class_id
    &&& c.class_name@ == name
    &&& c.class_path@ == path
    &&& c.parent_class_id == parent
    &&& c.replicates == replicates
    &&& c.is_actor == is_actor
    &&& c.is_component == is_component
    &&& !c.always_relevant
    &&& !c.requires_transform_updates
}

/// Registers a custom class and returns the class ID it was given.
pub fn register_custom_class(
    classes: &mut Vec<ObjectClass>,
    class_name: String,
    class_path: String,
    parent_class_id: u32,
    replicates: bool,
    is_actor: bool,
    is_component: bool,
) -> (r: u32)
    requires
        forall|i: int| 0 <= i < old(classes)@.len() ==> (#[trigger] old(classes)@[i]).class_id < u32::MAX,
    ensures
        r == next_class_id(old(classes)@),
        forall|i: int| 0 <= i < old(classes)@.len() ==> (#[trigger] old(classes)@[i]).class_id < r,
        final(classes)@.len() == old(classes)@.len() + 1,
        final(classes)@.drop_last() == old(classes)@,
        is_registered_class(final(classes)@.last(), r, class_name@, class_path@, parent_class_id, replicates,
            is_actor, is_component),
{
    let class_id = generate_class_id(classes);
    classes.push(ObjectClass {
        class_id,
        class_name,
        class_path,
        parent_class_id,
        replicates,
        is_actor,
        is_component,
        always_relevant: false,
        requires_transform_updates: false,
    });
    assert(classes@.drop_last() =~= old(classes)@);
    class_id
}

/// Whether a class ID is registered.
pub open spec fn class_exists(classes: Seq<ObjectClass>, class_id: u32) -> bool {
    exists|i: int| 0 <= i < classes.len() && (#[trigger] classes[i]).class_id == class_id
}

fn find_class(classes: &Vec<ObjectClass>, class_id: u32) -> (r: bool)
    ensures
        r == class_exists(classes@, class_id),
{
    let n = classes.len();
    let mut i: usize = 0;
    while i < n
        invariant
            n == classes@.len(),
            i <= n,
            forall|k: int| 0 <= k < i ==> (#[trigger] classes@[k]).class_id != class_id,
        decreases n - i,
    {
        if classes[i].class_id == class_id {
            return true;
        }
        i = i + 1;
    }
    false
}

/// Registers a property for a class; returns false (and adds nothing) when
/// the class does not exist.
pub fn register_class_property(
    classes: &Vec<ObjectClass>,
    properties: &mut Vec<ClassProperty>,
    class_id: u32,
    property_name: String,
    property_type: PropertyType,
    replicated: bool,
    readonly: bool,
) -> (r: bool)
    ensures
        r == class_exists(classes@, class_id),
        r ==> final(properties)@ == old(properties)@.push(ClassProperty {
            class_id,
            property_name,
            property_type,
            replicated,
            readonly,
        }),
        !r ==> final(properties)@ == old(properties)@,
{
    if !find_class(classes, class_id) {
        return false;
    }
    properties.push(ClassProperty { class_id, property_name, property_type, replicated, readonly });
    true
}

impl Clone for ObjectInstance {
    fn clone(&self) -> (r: Self)
        ensures
            r == *self,
    {
        ObjectInstance {
            object_id: self.object_id,
            class_id: self.class_id,
            object_name: self.object_name.clone(),
            owner_identity: self.owner_identity,
            outer_object_id: self.outer_object_id,
            created_at: self.created_at,
            state: self.state,
            is_actor: self.is_actor,
            hidden: self.hidden,
            destroyed_at: self.destroyed_at,
        }
    }
}

/// The position of the first object with an ID, if any.
pub open spec fn object_index(rows: Seq<ObjectInstance>, id: u64) -> Option<int> {
    if exists|i: int| 0 <= i < rows.len() && (#[trigger] rows[i]).object_id == id {
        Some(choose|i: int| 0 <= i < rows.len() && (#[trigger] rows[i]).object_id == id
            && forall|k: int| 0 <= k < i ==> rows[k].object_id != id)
    } else {
        None
    }
}

/// Finds the first object with an ID.
pub fn find_object(rows: &Vec<ObjectInstance>, id: u64) -> (r: Option<usize>)
    ensures
        object_index(rows@, id) == match r { Some(i) => Some(i as int), None => None::<int> },
        r matches Some(i) ==> i < rows@.len() && rows@[i as int].object_id == id,
{
    let n = rows.len();
    let mut i: usize = 0;
    while i < n
        invariant
            n == rows@.len(),
            i <= n,
            forall|k: int| 0 <= k < i ==> (#[trigger] rows@[k]).object_id != id,
        decreases n - i,
    {
        if rows[i].object_id == id {
            proof {
                let c = choose|c: int| 0 <= c < rows@.len() && (#[trigger] rows@[c]).object_id == id
                    && forall|k: int| 0 <= k < c ==> rows@[k].object_id != id;
                if c > i {
                    assert(rows@[i as int].object_id == id);
                }
            }
            return Some(i);
        }
        i = i + 1;
    }
    None
}

/// Replaces the object row at `i`.
fn replace_object(rows: &mut Vec<ObjectInstance>, i: usize, o: ObjectInstance)
    requires
        i < old(rows)@.len(),
    ensures
        final(rows)@ == old(rows)@.update(i as int, o),
{
    let mut tmp: Vec<ObjectInstance> = Vec::new();
    std::mem::swap(&mut tmp, rows);
    let _ = tmp.remove(i);
    tmp.insert(i, o);
    std::mem::swap(&mut tmp, rows);
    assert(rows@ =~= old(rows)@.update(i as int, o));
}

/// Whether the caller may modify an object as an actor: it must be an
/// actor; system calls and admins may, otherwise only its owner.
pub open spec fn spec_can_modify_actor(clients: Seq<crate::server::connection::ClientView>, sender: Option<Identity>,
    actor: ObjectInstance) -> bool {
    actor.is_actor && (sender is None || spec_is_admin(clients, sender) || (actor.owner_identity is Some
        && sender == actor.owner_identity))
}

/// Checks whether the caller can modify the given actor.
pub fn can_modify_actor(clients: &Vec<ClientInfo>, sender: Option<Identity>, actor: &ObjectInstance) -> (r: bool)
    ensures
        r == spec_can_modify_actor(client_views(clients@), sender, *actor),
{
    if !actor.is_actor {
        return false;
    }
    if sender.is_none() {
        return true;
    }
    if is_admin(clients, sender) {
        return true;
    }
    match (sender, actor.owner_identity) {
        (Some(s), Some(o)) => s == o,
        _ => false,
    }
}

/// Marks an actor for destruction (pending, with the destruction time);
/// returns whether it did. Fails for an unknown object, an object that is
/// not an actor, or a caller that may not modify it.
pub fn destroy_actor(objects: &mut Vec<ObjectInstance>, clients: &Vec<ClientInfo>, sender: Option<Identity>,
    timestamp: u64, actor_id: u64) -> (r: bool)
    ensures
        ({
            match object_index(old(objects)@, actor_id) {
                Some(i) if spec_can_modify_actor(client_views(clients@), sender, old(objects)@[i]) => {
                    &&& r
                    &&& final(objects)@ == old(objects)@.update(i, ObjectInstance {
                        state: ObjectLifecycleState::PendingKill,
                        destroyed_at: Some(timestamp),
                        ..old(objects)@[i]
                    })
                },
                _ => !r && final(objects)@ == old(objects)@,
            }
        }),
{
    let i = match find_object(objects, actor_id) {
        Some(i) => i,
        None => return false,
    };
    if !objects[i].is_actor {
        return false;
    }
    if !can_modify_actor(clients, sender, &objects[i]) {
        return false;
    }
    let mut o = objects[i].clone();
    o.state = ObjectLifecycleState::PendingKill;
    o.destroyed_at = Some(timestamp);
    replace_object(objects, i, o);
    true
}

/// Immediately destroys an actor (admins and system calls only); returns
/// whether it did.
pub fn force_destroy_actor(objects: &mut Vec<ObjectInstance>, clients: &Vec<ClientInfo>, sender: Option<Identity>,
    timestamp: u64, actor_id: u64) -> (r: bool)
    ensures
        ({
            match object_index(old(objects)@, actor_id) {
                Some(i) if spec_is_admin(client_views(clients@), sender) && old(objects)@[i].is_actor => {
                    &&& r
                    &&& final(objects)@ == old(objects)@.update(i, ObjectInstance {
                        state: ObjectLifecycleState::Destroyed,
                        destroyed_at: Some(timestamp),
                        ..old(objects)@[i]
                    })
                },
                _ => !r && final(objects)@ == old(objects)@,
            }
        }),
{
    if !is_admin(clients, sender) {
        return false;
    }
    let i = match find_object(objects, actor_id) {
        Some(i) => i,
        None => return false,
    };
    if !objects[i].is_actor {
        return false;
    }
    let mut o = objects[i].clone();
    o.state = ObjectLifecycleState::Destroyed;
    o.destroyed_at = Some(timestamp);
    replace_object(objects, i, o);
    true
}

/// Hides or shows an actor; returns whether it did. Fails for an unknown
/// object, an object that is not an actor, or a caller that may not modify it.
pub fn set_actor_hidden(objects: &mut Vec<ObjectInstance>, clients: &Vec<ClientInfo>, sender: Option<Identity>,
    actor_id: u64, hidden: bool) -> (r: bool)
    ensures
        ({
            match object_index(old(objects)@, actor_id) {
                Some(i) if spec_can_modify_actor(client_views(clients@), sender, old(objects)@[i]) => {
                    &&& r
                    &&& final(objects)@ == old(objects)@.update(i, ObjectInstance { hidden, ..old(objects)@[i] })
                },
                _ => !r && final(objects)@ == old(objects)@,
            }
        }),
{
    let i = match find_object(objects, actor_id) {
        Some(i) => i,
        None => return false,
    };
    if !objects[i].is_actor {
        return false;
    }
    if !can_modify_actor(clients, sender, &objects[i]) {
        return false;
    }
    let mut o = objects[i].clone();
    o.hidden = hidden;
    replace_object(objects, i, o);
    true
}

/// The object tables of the world.
pub struct ObjectTables {
    pub classes: Vec<ObjectClass>,
    pub objects: Vec<ObjectInstance>,
    pub properties: Vec<ObjectProperty>,
    pub class_properties: Vec<ClassProperty>,
    pub references: Vec<ObjectReference>,
    pub transforms: Vec<ObjectTransform>,
    pub components: Vec<ObjectComponent>,
}

/// A table row that belongs to an object.
pub trait ObjectRow: Sized {
    /// The object the row belongs to.
    spec fn spec_object(&self) -> u64;

    fn object(&self) -> (r: u64)
        ensures
            r == self.spec_object(),
    ;

    fn duplicate(&self) -> (r: Self)
        ensures
            r == *self,
    ;
}

impl ObjectRow for ObjectInstance {
    open spec fn spec_object(&self) -> u64 {
        self.object_id
    }

    fn object(&self) -> (r: u64) {
        self.object_id
    }

    fn duplicate(&self) -> (r: Self) {
        self.clone()
    }
}

impl ObjectRow for ObjectComponent {
    open spec fn spec_object(&self) -> u64 {
        self.owner_object_id
    }

    fn object(&self) -> (r: u64) {
        self.owner_object_id
    }

    fn duplicate(&self) -> (r: Self) {
        ObjectComponent {
            component_id: self.component_id,
            owner_object_id: self.owner_object_id,
            component_class_id: self.component_class_id,
            component_name: self.component_name.clone(),
            is_active: self.is_active,
        }
    }
}

impl ObjectRow for ObjectProperty {
    open spec fn spec_object(&self) -> u64 {
        self.object_id
    }

    fn object(&self) -> (r: u64) {
        self.object_id
    }

    fn duplicate(&self) -> (r: Self) {
        ObjectProperty {
            object_id: self.object_id,
            property_name: self.property_name.clone(),
            value: self.value.clone(),
            last_updated: self.last_updated,
            replicated: self.replicated,
        }
    }
}

impl ObjectRow for ObjectTransform {
    open spec fn spec_object(&self) -> u64 {
        self.object_id
    }

    fn object(&self) -> (r: u64) {
        self.object_id
    }

    fn duplicate(&self) -> (r: Self) {
        *self
    }
}

/// Whether a row survives the deletion of the objects in `gone`.
pub open spec fn row_kept<T: ObjectRow>(gone: Seq<u64>) -> spec_fn(T) -> bool {
    |r: T| !gone.contains(r.spec_object())
}

/// Removes the rows that belong to the objects in `gone`, keeping the order of the others.
pub fn retain_rows<T: ObjectRow>(rows: &mut Vec<T>, gone: &Vec<u64>)
    ensures
        final(rows)@ == old(rows)@.filter(row_kept::<T>(gone@)),
{
    let mut kept: Vec<T> = Vec::new();
    let n = rows.len();
    let mut i: usize = 0;
    while i < n
        invariant
            n == rows@.len(),
            rows@ == old(rows)@,
            i <= n,
            kept@ == old(rows)@.subrange(0, i as int).filter(row_kept::<T>(gone@)),
        decreases n - i,
    {
        proof {
            reveal(Seq::filter);
            assert(old(rows)@.subrange(0, i + 1).drop_last() =~= old(rows)@.subrange(0, i as int));
        }
        let id = rows[i].object();
        if !crate::server::relevancy::vec_contains_u64(gone, id) {
            let r = rows[i].duplicate();
            kept.push(r);
        }
        i = i + 1;
    }
    assert(old(rows)@.subrange(0, n as int) =~= old(rows)@);
    *rows = kept;
}

/// An object after the pending-destruction pass: a pending actor becomes
/// destroyed, with the current time as its destruction time if it had none.
pub open spec fn settled(o: ObjectInstance, ts: u64) -> ObjectInstance {
    if o.is_actor && o.state == ObjectLifecycleState::PendingKill {
        ObjectInstance {
            state: ObjectLifecycleState::Destroyed,
            destroyed_at: if o.destroyed_at is None { Some(ts) } else { o.destroyed_at },
            ..o
        }
    } else {
        o
    }
}

/// How long a destroyed actor is kept before it is deleted, in milliseconds.
pub const DESTRUCTION_DELAY_MS: u64 = 10000;

/// Whether a destroyed actor has been kept long enough to be deleted.
pub open spec fn expired(o: ObjectInstance, ts: u64) -> bool {
    &&& o.is_actor
    &&& o.state == ObjectLifecycleState::Destroyed
    &&& o.destroyed_at matches Some(d) && ts - d > DESTRUCTION_DELAY_MS
}

/// The objects after the pending-destruction pass.
pub open spec fn settled_objects(objects: Seq<ObjectInstance>, ts: u64) -> Seq<ObjectInstance> {
    objects.map_values(|o: ObjectInstance| settled(o, ts))
}

/// Whether an object row is expired at a time.
pub open spec fn is_expired(ts: u64) -> spec_fn(ObjectInstance) -> bool {
    |o: ObjectInstance| expired(o, ts)
}

/// The IDs of the actors that a cleanup at time `ts` deletes, in table order.
pub open spec fn expired_ids(objects: Seq<ObjectInstance>, ts: u64) -> Seq<u64> {
    settled_objects(objects, ts).filter(is_expired(ts)).map_values(|o: ObjectInstance| o.object_id)
}

/// Whether no destruction time of a pending or destroyed actor lies after `ts`.
pub open spec fn destruction_times_before(objects: Seq<ObjectInstance>, ts: u64) -> bool {
    forall|i: int| 0 <= i < objects.len() && (#[trigger] objects[i]).is_actor
        && (objects[i].state == ObjectLifecycleState::Destroyed || objects[i].state == ObjectLifecycleState::PendingKill)
        && objects[i].destroyed_at is Some ==> objects[i].destroyed_at->0 <= ts
}

/// Runs the periodic cleanup: actors pending destruction become destroyed,
/// and actors destroyed more than the destruction delay ago are deleted with
/// their components, properties and transforms.
pub fn cleanup_destroyed_actors(tables: &mut ObjectTables, timestamp: u64)
    requires
        destruction_times_before(old(tables).objects@, timestamp),
    ensures
        ({
            let gone = expired_ids(old(tables).objects@, timestamp);
            &&& final(tables).objects@ == settled_objects(old(tables).objects@, timestamp).filter(
                row_kept::<ObjectInstance>(gone))
            &&& final(tables).components@ == old(tables).components@.filter(row_kept::<ObjectComponent>(gone))
            &&& final(tables).properties@ == old(tables).properties@.filter(row_kept::<ObjectProperty>(gone))
            &&& final(tables).transforms@ == old(tables).transforms@.filter(row_kept::<ObjectTransform>(gone))
            &&& final(tables).classes@ == old(tables).classes@
            &&& final(tables).class_properties@ == old(tables).class_properties@
            &&& final(tables).references@ == old(tables).references@
        }),
{
    let ghost before = tables.objects@;
    let mut settled_rows: Vec<ObjectInstance> = Vec::new();
    let n = tables.objects.len();
    let mut i: usize = 0;
    while i < n
        invariant
            n == tables.objects@.len(),
            tables.objects@ == before,
            i <= n,
            settled_rows@ == settled_objects(before, timestamp).subrange(0, i as int),
        decreases n - i,
    {
        let mut o = tables.objects[i].clone();
        if o.is_actor && o.state == ObjectLifecycleState::PendingKill {
            o.state = ObjectLifecycleState::Destroyed;
            if o.destroyed_at.is_none() {
                o.destroyed_at = Some(timestamp);
            }
        }
        settled_rows.push(o);
        assert(settled_rows@ =~= settled_objects(before, timestamp).subrange(0, i + 1));
        i = i + 1;
    }
    assert(settled_rows@ =~= settled_objects(before, timestamp));
    let ghost all = settled_rows@;
    let mut gone: Vec<u64> = Vec::new();
    let mut j: usize = 0;
    while j < n
        invariant
            n == settled_rows@.len(),
            settled_rows@ == all,
            all == settled_objects(before, timestamp),
            destruction_times_before(before, timestamp),
            before.len() == n,
            j <= n,
            gone@ == all.subrange(0, j as int).filter(is_expired(timestamp)).map_values(|o: ObjectInstance| o.object_id),
        decreases n - j,
    {
        proof {
            reveal(Seq::filter);
            assert(all.subrange(0, j + 1).drop_last() =~= all.subrange(0, j as int));
            assert(all[j as int] == settled(before[j as int], timestamp));
        }
        let o = &settled_rows[j];
        let mut is_gone = false;
        if o.is_actor && o.state == ObjectLifecycleState::Destroyed {
            match o.destroyed_at {
                Some(d) => {
                    is_gone = timestamp - d > DESTRUCTION_DELAY_MS;
                },
                None => {},
            }
        }
        if is_gone {
            gone.push(o.object_id);
        }
        proof {
            let f = |o: ObjectInstance| o.object_id;
            let before_j = all.subrange(0, j as int).filter(is_expired(timestamp));
            let after_j = all.subrange(0, j + 1).filter(is_expired(timestamp));
            if is_gone {
                assert(after_j == before_j.push(all[j as int]));
                assert(after_j.map_values(f) =~= before_j.map_values(f).push(all[j as int].object_id));
            } else {
                assert(after_j == before_j);
            }
        }
        j = j + 1;
    }
    assert(all.subrange(0, n as int) =~= all);
    retain_rows(&mut tables.components, &gone);
    retain_rows(&mut tables.properties, &gone);
    retain_rows(&mut tables.transforms, &gone);
    retain_rows(&mut settled_rows, &gone);
    tables.objects = settled_rows;
}

/// After a cleanup no actor that had been destroyed for longer than the
/// destruction delay remains.
pub proof fn law_cleanup_removes_expired(objects: Seq<ObjectInstance>, ts: u64)
    ensures
        ({
            let kept = settled_objects(objects, ts).filter(row_kept::<ObjectInstance>(expired_ids(objects, ts)));
            forall|i: int| 0 <= i < kept.len() ==> !expired(#[trigger] kept[i], ts)
        }),
{
    let s = settled_objects(objects, ts);
    let gone = expired_ids(objects, ts);
    let kept = s.filter(row_kept::<ObjectInstance>(gone));
    let ex = s.filter(is_expired(ts));
    assert forall|i: int| 0 <= i < kept.len() implies !expired(#[trigger] kept[i], ts) by {
        #[allow(deprecated)]
        s.filter_lemma(row_kept::<ObjectInstance>(gone));
        let o = kept[i];
        assert(row_kept::<ObjectInstance>(gone)(o));
        if expired(o, ts) {
            assert(kept.contains(o));
            s.lemma_filter_contains_rev(row_kept::<ObjectInstance>(gone), o);
            let j = choose|j: int| 0 <= j < s.len() && s[j] == o;
            assert(is_expired(ts)(s[j]));
            s.lemma_filter_contains(is_expired(ts), j);
            let k = choose|k: int| 0 <= k < ex.len() && ex[k] == o;
            assert(gone[k] == o.object_id);
            assert(gone.contains(o.object_id));
        }
    }
}

} // verus!
