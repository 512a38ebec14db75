//! Property replication on the server: which properties of which classes
//! replicate, the changes made since the last replication, and the snapshots
//! of object state sent to each client.
use vstd::prelude::*;
use crate::collections::AssocMap;
use crate::shared::types::ObjectId;
use crate::shared::property::{PropertyType, PropertyValue, ReplicationCondition};
use crate::text::owned;

verus! {

/// A property that replicates.
pub struct ReplicatedProperty {
    pub name: String,
    pub property_type: PropertyType,
    pub condition: ReplicationCondition,
    /// Replication priority (higher means more frequent updates).
    pub priority: u8,
}

/// A replicated property, with its name as a character sequence.
pub type ReplicatedPropertyView = (Seq<char>, PropertyType, ReplicationCondition, u8);

impl View for ReplicatedProperty {
    type V = ReplicatedPropertyView;

    open spec fn view(&self) -> ReplicatedPropertyView {
        (self.name@, self.property_type, self.condition, self.priority)
    }
}

/// The properties of a class that replicate.
pub struct ReplicatedPropertySet {
    pub class_name: String,
    pub properties: Vec<ReplicatedProperty>,
}

/// The replicated properties of a set, in order.
pub open spec fn prop_views(ps: Seq<ReplicatedProperty>) -> Seq<ReplicatedPropertyView> {
    ps.map_values(|p: ReplicatedProperty| p@)
}

/// The replicated properties of each class.
pub struct ReplicationRegistry {
    class_properties: AssocMap<String, ReplicatedPropertySet>,
}

impl View for ReplicationRegistry {
    type V = Map<Seq<char>, Seq<ReplicatedPropertyView>>;

    closed spec fn view(&self) -> Map<Seq<char>, Seq<ReplicatedPropertyView>> {
        self.class_properties@.map_values(|s: ReplicatedPropertySet| prop_views(s.properties@))
    }
}

impl ReplicationRegistry {
    /// Create a new empty registry.
    pub fn new() -> (r: Self)
        ensures
            r@ == Map::<Seq<char>, Seq<ReplicatedPropertyView>>::empty(),
    {
        let r = ReplicationRegistry { class_properties: AssocMap::new() };
        assert(r@ =~= Map::<Seq<char>, Seq<ReplicatedPropertyView>>::empty());
        r
    }

    /// Register the replicated properties of a class, replacing those it had.
    pub fn register_class(&mut self, property_set: ReplicatedPropertySet)
        ensures
            final(self)@ == old(self)@.insert(property_set.class_name@, prop_views(property_set.properties@)),
    {
        let ghost k = property_set.class_name@;
        let ghost v = prop_views(property_set.properties@);
        let name = property_set.class_name.clone();
        self.class_properties.insert(name, property_set);
        assert(self@ =~= old(self)@.insert(k, v));
    }

    /// Get the replicated properties of a class.
    pub fn get_class_properties(&self, class_name: &str) -> (r: Option<&ReplicatedPropertySet>)
        ensures
            match r {
                Some(s) => self@.contains_key(class_name@) && prop_views(s.properties@) == self@[class_name@],
                None => !self@.contains_key(class_name@),
            },
    {
        self.class_properties.get(&owned(class_name))
    }
}

/// The changes made since the last replication.
pub struct PropertyChangeTracker {
    changes: AssocMap<u64, AssocMap<String, PropertyValue>>,
    new_objects: Vec<ObjectId>,
    destroyed_objects: Vec<ObjectId>,
}

impl PropertyChangeTracker {
    /// No object is listed twice as new or as destroyed.
    #[verifier::type_invariant]
    closed spec fn tracker_inv(self) -> bool {
        &&& self.new_objects@.no_duplicates()
        &&& self.destroyed_objects@.no_duplicates()
    }

    /// What every tracker satisfies: the new and destroyed objects are each
    /// listed once, and the change order lists each object with changes once.
    pub open spec fn well_formed(self) -> bool {
        &&& self.new_objects().no_duplicates()
        &&& self.destroyed_objects().no_duplicates()
        &&& self.change_order().no_duplicates()
        &&& self.change_order().to_set() == self.changes().dom()
    }

    /// A tracker is well formed.
    fn note_well_formed(&self)
        ensures
            self.well_formed(),
    {
        proof {
            use_type_invariant(self);
            use_type_invariant(&self.changes);
            self.changes.lemma_keys_distinct();
            self.changes.lemma_dom();
            assert(self.changes().dom() =~= self.changes@.dom());
        }
    }

    /// The changed property values, by object.
    pub closed spec fn changes(self) -> Map<ObjectId, Map<Seq<char>, PropertyValue>> {
        self.changes@.map_values(|m: AssocMap<String, PropertyValue>| m@)
    }

    /// The objects with changes, in the order of their first change.
    pub closed spec fn change_order(self) -> Seq<ObjectId> {
        self.changes.key_seq()
    }

    /// The objects created since the last replication, in order, each once.
    pub closed spec fn new_objects(self) -> Seq<ObjectId> {
        self.new_objects@
    }

    /// The objects destroyed since the last replication, in order, each once.
    pub closed spec fn destroyed_objects(self) -> Seq<ObjectId> {
        self.destroyed_objects@
    }

    /// Create a new empty tracker.
    pub fn new() -> (t: Self)
        ensures
            t.changes() == Map::<ObjectId, Map<Seq<char>, PropertyValue>>::empty(),
            t.change_order() == Seq::<ObjectId>::empty(),
            t.new_objects() == Seq::<ObjectId>::empty(),
            t.destroyed_objects() == Seq::<ObjectId>::empty(),
            t.well_formed(),
    {
        let t = PropertyChangeTracker { changes: AssocMap::new(), new_objects: Vec::new(), destroyed_objects: Vec::new() };
        assert(t.changes() =~= Map::<ObjectId, Map<Seq<char>, PropertyValue>>::empty());
        t.note_well_formed();
        t
    }

    /// Record a property change.
    pub fn record_change(&mut self, object_id: ObjectId, property_name: &str, value: PropertyValue)
        ensures
            final(self).changes() == old(self).changes().insert(object_id,
                (if old(self).changes().contains_key(object_id) { old(self).changes()[object_id] } else { Map::empty() })
                    .insert(property_name@, value)),
            final(self).change_order() == (if old(self).changes().contains_key(object_id) {
                old(self).change_order()
            } else {
                old(self).change_order().push(object_id)
            }),
            final(self).new_objects() == old(self).new_objects(),
            final(self).destroyed_objects() == old(self).destroyed_objects(),
            final(self).well_formed(),
    {
        proof {
            use_type_invariant(&*self);
        }
        let mut changes = AssocMap::new();
        std::mem::swap(&mut changes, &mut self.changes);
        let mut props = match changes.swap_value(&object_id, AssocMap::new()) {
            Some(m) => m,
            None => AssocMap::new(),
        };
        let ghost p0 = props@;
        assert(p0 =~= (if old(self).changes().contains_key(object_id) { old(self).changes()[object_id] } else { Map::empty() }));
        props.insert(owned(property_name), value);
        changes.insert(object_id, props);
        self.changes = changes;
        assert(self.changes() =~= old(self).changes().insert(object_id,
            (if old(self).changes().contains_key(object_id) { old(self).changes()[object_id] } else { Map::empty() })
                .insert(property_name@, value)));
        self.note_well_formed();
    }
}

impl PropertyChangeTracker {
    /// Record a new object (once).
    pub fn record_new_object(&mut self, object_id: ObjectId)
        ensures
            final(self).new_objects() == (if old(self).new_objects().contains(object_id) {
                old(self).new_objects()
            } else {
                old(self).new_objects().push(object_id)
            }),
            final(self).changes() == old(self).changes(),
            final(self).change_order() == old(self).change_order(),
            final(self).destroyed_objects() == old(self).destroyed_objects(),
            final(self).well_formed(),
    {
        proof {
            use_type_invariant(&*self);
        }
        if !contains_id(&self.new_objects, object_id) {
            let mut news = Vec::new();
            std::mem::swap(&mut news, &mut self.new_objects);
            news.push(object_id);
            self.new_objects = news;
        }
        self.note_well_formed();
    }

    /// Record a destroyed object (once); its pending changes are dropped.
    pub fn record_destroyed_object(&mut self, object_id: ObjectId)
        ensures
            final(self).destroyed_objects() == (if old(self).destroyed_objects().contains(object_id) {
                old(self).destroyed_objects()
            } else {
                old(self).destroyed_objects().push(object_id)
            }),
            final(self).changes() == old(self).changes().remove(object_id),
            final(self).new_objects() == old(self).new_objects(),
            final(self).well_formed(),
    {
        proof {
            use_type_invariant(&*self);
        }
        if !contains_id(&self.destroyed_objects, object_id) {
            let mut gone = Vec::new();
            std::mem::swap(&mut gone, &mut self.destroyed_objects);
            gone.push(object_id);
            self.destroyed_objects = gone;
        }
        let mut changes = AssocMap::new();
        std::mem::swap(&mut changes, &mut self.changes);
        let _ = changes.remove(&object_id);
        self.changes = changes;
        assert(self.changes() =~= old(self).changes().remove(object_id));
        self.note_well_formed();
    }

    /// Get all changes of an object.
    pub fn get_object_changes(&self, object_id: ObjectId) -> (r: Option<&AssocMap<String, PropertyValue>>)
        ensures
            match r {
                Some(m) => self.changes().contains_key(object_id) && m@ == self.changes()[object_id],
                None => !self.changes().contains_key(object_id),
            },
    {
        self.changes.get(&object_id)
    }

    /// Get all new objects.
    pub fn get_new_objects(&self) -> (r: &Vec<ObjectId>)
        ensures
            r@ == self.new_objects(),
    {
        &self.new_objects
    }

    /// Get all destroyed objects.
    pub fn get_destroyed_objects(&self) -> (r: &Vec<ObjectId>)
        ensures
            r@ == self.destroyed_objects(),
    {
        &self.destroyed_objects
    }

    /// Clear all tracked changes.
    pub fn clear(&mut self)
        ensures
            final(self).changes() == Map::<ObjectId, Map<Seq<char>, PropertyValue>>::empty(),
            final(self).change_order() == Seq::<ObjectId>::empty(),
            final(self).new_objects() == Seq::<ObjectId>::empty(),
            final(self).destroyed_objects() == Seq::<ObjectId>::empty(),
            final(self).well_formed(),
    {
        proof {
            use_type_invariant(&*self);
        }
        self.changes = AssocMap::new();
        self.new_objects = Vec::new();
        self.destroyed_objects = Vec::new();
        assert(self.changes() =~= Map::<ObjectId, Map<Seq<char>, PropertyValue>>::empty());
        self.note_well_formed();
    }
}

fn contains_id(v: &Vec<ObjectId>, x: ObjectId) -> (r: bool)
    ensures
        r == v@.contains(x),
{
    let n = v.len();
    let mut i: usize = 0;
    while i < n
        invariant
            n == v@.len(),
            i <= n,
            forall|k: int| 0 <= k < i ==> v@[k] != x,
        decreases n - i,
    {
        if v[i] == x {
            assert(v@[i as int] == x);
            return true;
        }
        i = i + 1;
    }
    false
}

/// An object as replication sees it: its owner (0 for none), class and properties.
pub struct UObject {
    pub owner_client_id: u64,
    pub class_name: String,
    pub properties: AssocMap<String, PropertyValue>,
}

/// The state of an object sent to a client.
pub struct ObjectStateSnapshot {
    pub object_id: ObjectId,
    pub class_name: String,
    pub properties: AssocMap<String, PropertyValue>,
    /// Whether this is a new object (initial replication).
    pub is_new: bool,
}

/// Whether a client sees the objects of `owner` (0 means no owner).
pub open spec fn visible_to(owner: u64, c: u64) -> bool {
    owner == 0 || owner == c
}

/// Whether a replicated property of an object owned by `owner` is sent to client `c`.
pub open spec fn sent_to(p: ReplicatedPropertyView, owner: u64, c: u64) -> bool {
    p.2 != ReplicationCondition::ServerOnly && !(p.2 == ReplicationCondition::OwnerOnly && owner != c)
}

/// The properties of a new object sent to client `c`: those that replicate to
/// it and that the object has.
pub open spec fn initial_props(props: Seq<ReplicatedPropertyView>, values: Map<Seq<char>, PropertyValue>, owner: u64, c: u64) -> Map<Seq<char>, PropertyValue> {
    Map::new(
        |n: Seq<char>| (exists|i: int| 0 <= i < props.len() && (#[trigger] props[i]).0 == n && sent_to(props[i], owner, c))
            && values.contains_key(n),
        |n: Seq<char>| values[n],
    )
}

/// The properties of a changed object sent to client `c`: those that replicate
/// to it and changed or always replicate, with their changed or current value.
pub open spec fn changed_props(
    props: Seq<ReplicatedPropertyView>,
    changes: Map<Seq<char>, PropertyValue>,
    values: Map<Seq<char>, PropertyValue>,
    owner: u64,
    c: u64,
) -> Map<Seq<char>, PropertyValue> {
    Map::new(
        |n: Seq<char>| (exists|i: int| 0 <= i < props.len() && (#[trigger] props[i]).0 == n && sent_to(props[i], owner, c)
            && (changes.contains_key(n) || props[i].2 == ReplicationCondition::Always))
            && (changes.contains_key(n) || values.contains_key(n)),
        |n: Seq<char>| if changes.contains_key(n) { changes[n] } else { values[n] },
    )
}

/// What replication sends of an object's properties respects their
/// conditions. A property is in the snapshot for client `c` of an object
/// owned by `owner` (new or changed) only where the class registers it under
/// that name with a condition that lets it reach `c`: not server-only, and
/// owner-only only where `c` is the owner. So a property registered only as
/// owner-only never reaches a client that does not own the object, and one
/// registered only as server-only reaches no client. A changed object's
/// snapshot holds a property that did not change only where it is
/// registered as always replicated.
pub proof fn law_snapshots_respect_conditions(props: Seq<ReplicatedPropertyView>, changes: Map<Seq<char>, PropertyValue>,
    values: Map<Seq<char>, PropertyValue>, owner: u64, c: u64, n: Seq<char>)
    ensures
        initial_props(props, values, owner, c).contains_key(n) || changed_props(props, changes, values, owner, c).contains_key(n)
            ==> exists|j: int| 0 <= j < props.len() && (#[trigger] props[j]).0 == n
                && props[j].2 != ReplicationCondition::ServerOnly
                && (props[j].2 == ReplicationCondition::OwnerOnly ==> owner == c),
        owner != c && (forall|j: int| 0 <= j < props.len() && (#[trigger] props[j]).0 == n
            ==> props[j].2 == ReplicationCondition::OwnerOnly)
            ==> !initial_props(props, values, owner, c).contains_key(n) && !changed_props(props, changes, values, owner, c).contains_key(n),
        (forall|j: int| 0 <= j < props.len() && (#[trigger] props[j]).0 == n
            ==> props[j].2 == ReplicationCondition::ServerOnly)
            ==> !initial_props(props, values, owner, c).contains_key(n) && !changed_props(props, changes, values, owner, c).contains_key(n),
        changed_props(props, changes, values, owner, c).contains_key(n) && !changes.contains_key(n)
            ==> exists|j: int| 0 <= j < props.len() && (#[trigger] props[j]).0 == n
                && props[j].2 == ReplicationCondition::Always,
{
}

/// What replication must send: for a new object, every property the class
/// registers (under a condition that lets it reach client `c`) and the object
/// has, with its value; for a changed object, every such property that
/// changed, with its new value, and every such property registered as always
/// replicated that did not change but the object has, with its current value.
pub proof fn law_snapshots_send_what_reaches(props: Seq<ReplicatedPropertyView>, changes: Map<Seq<char>, PropertyValue>,
    values: Map<Seq<char>, PropertyValue>, owner: u64, c: u64, n: Seq<char>, j: int)
    requires
        0 <= j < props.len(),
        props[j].0 == n,
        props[j].2 != ReplicationCondition::ServerOnly,
        props[j].2 == ReplicationCondition::OwnerOnly ==> owner == c,
    ensures
        values.contains_key(n) ==> initial_props(props, values, owner, c).contains_key(n)
            && initial_props(props, values, owner, c)[n] == values[n],
        changes.contains_key(n) ==> changed_props(props, changes, values, owner, c).contains_key(n)
            && changed_props(props, changes, values, owner, c)[n] == changes[n],
        props[j].2 == ReplicationCondition::Always && !changes.contains_key(n) && values.contains_key(n)
            ==> changed_props(props, changes, values, owner, c).contains_key(n)
            && changed_props(props, changes, values, owner, c)[n] == values[n],
{
    assert(sent_to(props[j], owner, c));
}

/// Replicates property changes to clients.
pub struct PropertyReplicator {
    pub registry: ReplicationRegistry,
    pub tracker: PropertyChangeTracker,
}

/// The replicated properties of a class in a registry (none for an unknown class).
pub open spec fn class_props_of(reg: Map<Seq<char>, Seq<ReplicatedPropertyView>>, class: Seq<char>) -> Seq<ReplicatedPropertyView> {
    if reg.contains_key(class) { reg[class] } else { Seq::empty() }
}

fn initial_snapshot_props(set: Option<&ReplicatedPropertySet>, object: &UObject, client_id: u64) -> (r: AssocMap<String, PropertyValue>)
    ensures
        r@ == initial_props(match set { Some(s) => prop_views(s.properties@), None => Seq::empty() },
            object.properties@, object.owner_client_id, client_id),
{
    let mut out: AssocMap<String, PropertyValue> = AssocMap::new();
    match set {
        None => {
            assert(out@ =~= initial_props(Seq::empty(), object.properties@, object.owner_client_id, client_id));
            out
        },
        Some(s) => {
            let ghost props = prop_views(s.properties@);
            let n = s.properties.len();
            let mut j: usize = 0;
            while j < n
                invariant
                    n == s.properties@.len(),
                    props == prop_views(s.properties@),
                    j <= n,
                    out@ == initial_props(props.take(j as int), object.properties@, object.owner_client_id, client_id),
                decreases n - j,
            {
                let p = &s.properties[j];
                let ghost pre = props.take(j as int);
                let ghost post = props.take(j + 1);
                assert(post =~= pre.push(p@));
                let sent = p.condition != ReplicationCondition::ServerOnly
                    && !(p.condition == ReplicationCondition::OwnerOnly && object.owner_client_id != client_id);
                if sent {
                    match object.properties.get(&p.name) {
                        Some(v) => {
                            out.insert(p.name.clone(), v.clone());
                        },
                        None => {},
                    }
                }
                proof {
                    let target = initial_props(post, object.properties@, object.owner_client_id, client_id);
                    let before = initial_props(pre, object.properties@, object.owner_client_id, client_id);
                    let o = object.owner_client_id;
                    assert forall|m: Seq<char>| #[trigger] target.contains_key(m) <==> (before.contains_key(m) || (p@.0 == m && sent && object.properties@.contains_key(m))) by {
                        if exists|i: int| 0 <= i < post.len() && (#[trigger] post[i]).0 == m && sent_to(post[i], o, client_id) {
                            let i = choose|i: int| 0 <= i < post.len() && (#[trigger] post[i]).0 == m && sent_to(post[i], o, client_id);
                            if i < pre.len() {
                                assert(pre[i] == post[i]);
                            }
                        }
                        if exists|i: int| 0 <= i < pre.len() && (#[trigger] pre[i]).0 == m && sent_to(pre[i], o, client_id) {
                            let i = choose|i: int| 0 <= i < pre.len() && (#[trigger] pre[i]).0 == m && sent_to(pre[i], o, client_id);
                            assert(post[i] == pre[i]);
                        }
                        if p@.0 == m && sent {
                            assert(post[j as int] == p@);
                        }
                    }
                    assert(out@ == (if sent && object.properties@.contains_key(p@.0) {
                        before.insert(p@.0, object.properties@[p@.0])
                    } else {
                        before
                    }));
                    assert forall|m: Seq<char>| #[trigger] out@.contains_key(m) <==> target.contains_key(m) by {}
                    assert forall|m: Seq<char>| #[trigger] out@.contains_key(m) implies out@[m] == target[m] by {}
                    assert(out@ =~= target);
                }
                j = j + 1;
            }
            assert(props.take(n as int) =~= props);
            out
        },
    }
}

fn changed_snapshot_props(
    set: Option<&ReplicatedPropertySet>,
    changes: &AssocMap<String, PropertyValue>,
    object: &UObject,
    client_id: u64,
) -> (r: AssocMap<String, PropertyValue>)
    ensures
        r@ == changed_props(match set { Some(s) => prop_views(s.properties@), None => Seq::empty() },
            changes@, object.properties@, object.owner_client_id, client_id),
{
    let mut out: AssocMap<String, PropertyValue> = AssocMap::new();
    match set {
        None => {
            assert(out@ =~= changed_props(Seq::empty(), changes@, object.properties@, object.owner_client_id, client_id));
            out
        },
        Some(s) => {
            let ghost props = prop_views(s.properties@);
            let n = s.properties.len();
            let mut j: usize = 0;
            while j < n
                invariant
                    n == s.properties@.len(),
                    props == prop_views(s.properties@),
                    j <= n,
                    out@ == changed_props(props.take(j as int), changes@, object.properties@, object.owner_client_id, client_id),
                decreases n - j,
            {
                let p = &s.properties[j];
                let ghost pre = props.take(j as int);
                let ghost post = props.take(j + 1);
                assert(post =~= pre.push(p@));
                let in_changes = changes.contains_key(&p.name);
                let wanted = (in_changes || p.condition == ReplicationCondition::Always)
                    && p.condition != ReplicationCondition::ServerOnly
                    && !(p.condition == ReplicationCondition::OwnerOnly && object.owner_client_id != client_id);
                if wanted {
                    match changes.get(&p.name) {
                        Some(v) => {
                            out.insert(p.name.clone(), v.clone());
                        },
                        None => match object.properties.get(&p.name) {
                            Some(v) => {
                                out.insert(p.name.clone(), v.clone());
                            },
                            None => {},
                        },
                    }
                }
                proof {
                    let o = object.owner_client_id;
                    let target = changed_props(post, changes@, object.properties@, o, client_id);
                    let before = changed_props(pre, changes@, object.properties@, o, client_id);
                    assert forall|m: Seq<char>| #[trigger] target.contains_key(m) <==> (before.contains_key(m)
                        || (p@.0 == m && wanted && (changes@.contains_key(m) || object.properties@.contains_key(m)))) by {
                        if exists|i: int| 0 <= i < post.len() && (#[trigger] post[i]).0 == m && sent_to(post[i], o, client_id)
                            && (changes@.contains_key(m) || post[i].2 == ReplicationCondition::Always) {
                            let i = choose|i: int| 0 <= i < post.len() && (#[trigger] post[i]).0 == m && sent_to(post[i], o, client_id)
                                && (changes@.contains_key(m) || post[i].2 == ReplicationCondition::Always);
                            if i < pre.len() {
                                assert(pre[i] == post[i]);
                            }
                        }
                        if exists|i: int| 0 <= i < pre.len() && (#[trigger] pre[i]).0 == m && sent_to(pre[i], o, client_id)
                            && (changes@.contains_key(m) || pre[i].2 == ReplicationCondition::Always) {
                            let i = choose|i: int| 0 <= i < pre.len() && (#[trigger] pre[i]).0 == m && sent_to(pre[i], o, client_id)
                                && (changes@.contains_key(m) || pre[i].2 == ReplicationCondition::Always);
                            assert(post[i] == pre[i]);
                        }
                        if p@.0 == m && wanted {
                            assert(post[j as int] == p@);
                        }
                    }
                    let newv = if changes@.contains_key(p@.0) { changes@[p@.0] } else { object.properties@[p@.0] };
                    assert(out@ == (if wanted && (changes@.contains_key(p@.0) || object.properties@.contains_key(p@.0)) {
                        before.insert(p@.0, newv)
                    } else {
                        before
                    }));
                    assert forall|m: Seq<char>| #[trigger] out@.contains_key(m) <==> target.contains_key(m) by {}
                    assert forall|m: Seq<char>| #[trigger] out@.contains_key(m) implies out@[m] == target[m] by {}
                    assert(out@ =~= target);
                }
                j = j + 1;
            }
            assert(props.take(n as int) =~= props);
            out
        },
    }
}

/// The properties sent to client `c` in the snapshot of new object `o`.
pub open spec fn initial_snapshot_of(rep: PropertyReplicator, objects: Map<ObjectId, UObject>, o: ObjectId, c: u64) -> Map<Seq<char>, PropertyValue> {
    initial_props(class_props_of(rep.registry@, objects[o].class_name@), objects[o].properties@, objects[o].owner_client_id, c)
}

/// The properties sent to client `c` in the snapshot of changed object `o`.
pub open spec fn changed_snapshot_of(rep: PropertyReplicator, objects: Map<ObjectId, UObject>, o: ObjectId, c: u64) -> Map<Seq<char>, PropertyValue> {
    changed_props(class_props_of(rep.registry@, objects[o].class_name@), rep.tracker.changes()[o], objects[o].properties@,
        objects[o].owner_client_id, c)
}

/// The new objects that client `c` gets a snapshot of: those that exist and that it sees.
pub open spec fn new_snapshot_ids(rep: PropertyReplicator, objects: Map<ObjectId, UObject>, c: u64) -> Seq<ObjectId> {
    rep.tracker.new_objects().filter(|o: ObjectId| objects.contains_key(o) && visible_to(objects[o].owner_client_id, c))
}

/// The changed objects that client `c` gets a snapshot of: those neither new
/// nor destroyed that exist, that it sees, and that have properties to send.
pub open spec fn changed_snapshot_ids(rep: PropertyReplicator, objects: Map<ObjectId, UObject>, c: u64) -> Seq<ObjectId> {
    rep.tracker.change_order().filter(|o: ObjectId| !rep.tracker.new_objects().contains(o)
        && !rep.tracker.destroyed_objects().contains(o)
        && objects.contains_key(o)
        && visible_to(objects[o].owner_client_id, c)
        && changed_snapshot_of(rep, objects, o, c).dom() != Set::<Seq<char>>::empty())
}

/// Snapshot `s` is that of object `o` with properties `props`.
pub open spec fn snapshot_is(s: ObjectStateSnapshot, o: ObjectId, objects: Map<ObjectId, UObject>, props: Map<Seq<char>, PropertyValue>, is_new: bool) -> bool {
    &&& s.object_id == o
    &&& s.class_name@ == objects[o].class_name@
    &&& s.properties@ == props
    &&& s.is_new == is_new
}

/// The objects that get snapshots: new ones (each once, among the new
/// objects, existing and seen by the client) and changed ones (each once,
/// with changes, neither new nor destroyed, existing, seen by the client and
/// with properties to send).
proof fn lemma_snapshot_ids(rep: PropertyReplicator, objs: Map<ObjectId, UObject>, c: u64)
    requires
        rep.tracker.well_formed(),
    ensures
        ({
            let news = new_snapshot_ids(rep, objs, c);
            let changed = changed_snapshot_ids(rep, objs, c);
            &&& forall|i: int, j: int| 0 <= i < j < news.len() ==> #[trigger] news[i] != #[trigger] news[j]
            &&& forall|i: int, j: int| 0 <= i < j < changed.len() ==> #[trigger] changed[i] != #[trigger] changed[j]
            &&& forall|i: int| 0 <= i < news.len() ==> rep.tracker.new_objects().contains(#[trigger] news[i])
                && objs.contains_key(news[i]) && visible_to(objs[news[i]].owner_client_id, c)
            &&& forall|i: int| 0 <= i < changed.len() ==> !rep.tracker.new_objects().contains(#[trigger] changed[i])
                && !rep.tracker.destroyed_objects().contains(changed[i])
                && rep.tracker.changes().contains_key(changed[i])
                && objs.contains_key(changed[i]) && visible_to(objs[changed[i]].owner_client_id, c)
                && changed_snapshot_of(rep, objs, changed[i], c).dom() != Set::<Seq<char>>::empty()
        }),
{
    let id = |o: ObjectId| o;
    let new_pred = |o: ObjectId| objs.contains_key(o) && visible_to(objs[o].owner_client_id, c);
    let chg_pred = |o: ObjectId| !rep.tracker.new_objects().contains(o)
        && !rep.tracker.destroyed_objects().contains(o)
        && objs.contains_key(o)
        && visible_to(objs[o].owner_client_id, c)
        && changed_snapshot_of(rep, objs, o, c).dom() != Set::<Seq<char>>::empty();
    let ns = rep.tracker.new_objects();
    let os = rep.tracker.change_order();
    assert forall|i: int, j: int| 0 <= i < j < ns.len() implies id(#[trigger] ns[i]) != id(#[trigger] ns[j]) by {}
    assert forall|i: int, j: int| 0 <= i < j < os.len() implies id(#[trigger] os[i]) != id(#[trigger] os[j]) by {}
    crate::collections::lemma_filter_distinct(ns, new_pred, id);
    crate::collections::lemma_filter_distinct(os, chg_pred, id);
    let news = ns.filter(new_pred);
    let changed = os.filter(chg_pred);
    assert(news == new_snapshot_ids(rep, objs, c));
    assert(changed == changed_snapshot_ids(rep, objs, c));
    assert forall|i: int, j: int| 0 <= i < j < news.len() implies #[trigger] news[i] != #[trigger] news[j] by {
        assert(id(news[i]) != id(news[j]));
    }
    assert forall|i: int, j: int| 0 <= i < j < changed.len() implies #[trigger] changed[i] != #[trigger] changed[j] by {
        assert(id(changed[i]) != id(changed[j]));
    }
    assert forall|i: int| 0 <= i < news.len() implies rep.tracker.new_objects().contains(#[trigger] news[i])
        && objs.contains_key(news[i]) && visible_to(objs[news[i]].owner_client_id, c) by {
        ns.lemma_filter_pred(new_pred, i);
        let k = choose|k: int| 0 <= k < ns.len() && news[i] == ns[k];
    }
    assert forall|i: int| 0 <= i < changed.len() implies !rep.tracker.new_objects().contains(#[trigger] changed[i])
        && !rep.tracker.destroyed_objects().contains(changed[i])
        && rep.tracker.changes().contains_key(changed[i])
        && objs.contains_key(changed[i]) && visible_to(objs[changed[i]].owner_client_id, c)
        && changed_snapshot_of(rep, objs, changed[i], c).dom() != Set::<Seq<char>>::empty() by {
        os.lemma_filter_pred(chg_pred, i);
        let k = choose|k: int| 0 <= k < os.len() && changed[i] == os[k];
        assert(os.to_set().contains(os[k]));
    }
}

impl PropertyReplicator {
    /// Create a new property replicator.
    pub fn new(registry: ReplicationRegistry) -> (r: Self)
        ensures
            r.registry@ == registry@,
            r.tracker.changes() == Map::<ObjectId, Map<Seq<char>, PropertyValue>>::empty(),
            r.tracker.change_order() == Seq::<ObjectId>::empty(),
            r.tracker.new_objects() == Seq::<ObjectId>::empty(),
            r.tracker.destroyed_objects() == Seq::<ObjectId>::empty(),
            r.tracker.well_formed(),
    {
        PropertyReplicator { registry, tracker: PropertyChangeTracker::new() }
    }

    /// Record a property change.
    pub fn record_change(&mut self, object_id: ObjectId, property_name: &str, value: PropertyValue)
        ensures
            final(self).tracker.changes() == old(self).tracker.changes().insert(object_id,
                (if old(self).tracker.changes().contains_key(object_id) { old(self).tracker.changes()[object_id] } else { Map::empty() })
                    .insert(property_name@, value)),
            final(self).tracker.change_order() == (if old(self).tracker.changes().contains_key(object_id) {
                old(self).tracker.change_order()
            } else {
                old(self).tracker.change_order().push(object_id)
            }),
            final(self).tracker.new_objects() == old(self).tracker.new_objects(),
            final(self).tracker.destroyed_objects() == old(self).tracker.destroyed_objects(),
            final(self).registry@ == old(self).registry@,
            final(self).tracker.well_formed(),
    {
        self.tracker.record_change(object_id, property_name, value);
    }

    /// Record a new object.
    pub fn record_new_object(&mut self, object_id: ObjectId)
        ensures
            final(self).tracker.new_objects() == (if old(self).tracker.new_objects().contains(object_id) {
                old(self).tracker.new_objects()
            } else {
                old(self).tracker.new_objects().push(object_id)
            }),
            final(self).tracker.changes() == old(self).tracker.changes(),
            final(self).tracker.change_order() == old(self).tracker.change_order(),
            final(self).tracker.destroyed_objects() == old(self).tracker.destroyed_objects(),
            final(self).registry@ == old(self).registry@,
            final(self).tracker.well_formed(),
    {
        self.tracker.record_new_object(object_id);
    }

    /// Record a destroyed object.
    pub fn record_destroyed_object(&mut self, object_id: ObjectId)
        ensures
            final(self).tracker.destroyed_objects() == (if old(self).tracker.destroyed_objects().contains(object_id) {
                old(self).tracker.destroyed_objects()
            } else {
                old(self).tracker.destroyed_objects().push(object_id)
            }),
            final(self).tracker.changes() == old(self).tracker.changes().remove(object_id),
            final(self).tracker.new_objects() == old(self).tracker.new_objects(),
            final(self).registry@ == old(self).registry@,
            final(self).tracker.well_formed(),
    {
        self.tracker.record_destroyed_object(object_id);
    }

    /// Clear all tracked changes.
    pub fn clear_changes(&mut self)
        ensures
            final(self).tracker.changes() == Map::<ObjectId, Map<Seq<char>, PropertyValue>>::empty(),
            final(self).tracker.change_order() == Seq::<ObjectId>::empty(),
            final(self).tracker.new_objects() == Seq::<ObjectId>::empty(),
            final(self).tracker.destroyed_objects() == Seq::<ObjectId>::empty(),
            final(self).registry@ == old(self).registry@,
            final(self).tracker.well_formed(),
    {
        self.tracker.clear();
    }

    /// Generate the snapshots of the objects to replicate to a client: first
    /// the new objects, with all their properties that replicate to it, then
    /// the changed objects, with their changed and always-replicated properties.
    pub fn generate_snapshots_for_client(&self, client_id: u64, objects: &AssocMap<u64, UObject>) -> (r: Vec<ObjectStateSnapshot>)
        ensures
            ({
                let news = new_snapshot_ids(*self, objects@, client_id);
                let changed = changed_snapshot_ids(*self, objects@, client_id);
                &&& r@.len() == news.len() + changed.len()
                &&& forall|i: int| 0 <= i < news.len() ==> snapshot_is(#[trigger] r@[i], news[i], objects@,
                    initial_snapshot_of(*self, objects@, news[i], client_id), true)
                &&& forall|i: int| 0 <= i < changed.len() ==> snapshot_is(#[trigger] r@[news.len() + i], changed[i], objects@,
                    changed_snapshot_of(*self, objects@, changed[i], client_id), false)
            }),
            self.tracker.well_formed(),
            forall|i: int, j: int| 0 <= i < j < r@.len() ==> (#[trigger] r@[i]).object_id != (#[trigger] r@[j]).object_id,
            forall|i: int| 0 <= i < r@.len() ==> objects@.contains_key((#[trigger] r@[i]).object_id)
                && visible_to(objects@[r@[i].object_id].owner_client_id, client_id)
                && (r@[i].is_new <==> self.tracker.new_objects().contains(r@[i].object_id)),
            forall|i: int| 0 <= i < r@.len() && !(#[trigger] r@[i]).is_new ==>
                self.tracker.changes().contains_key(r@[i].object_id)
                && !self.tracker.destroyed_objects().contains(r@[i].object_id)
                && r@[i].properties@.dom() != Set::<Seq<char>>::empty(),
            forall|i: int, n: Seq<char>| 0 <= i < r@.len() && #[trigger] r@[i].properties@.contains_key(n) ==>
                exists|j: int| 0 <= j < class_props_of(self.registry@, objects@[r@[i].object_id].class_name@).len()
                    && (#[trigger] class_props_of(self.registry@, objects@[r@[i].object_id].class_name@)[j]).0 == n
                    && class_props_of(self.registry@, objects@[r@[i].object_id].class_name@)[j].2
                        != ReplicationCondition::ServerOnly
                    && (class_props_of(self.registry@, objects@[r@[i].object_id].class_name@)[j].2
                        == ReplicationCondition::OwnerOnly ==> objects@[r@[i].object_id].owner_client_id == client_id),
    {
        self.tracker.note_well_formed();
        let ghost rep = *self;
        let ghost objs = objects@;
        let ghost new_pred = |o: ObjectId| objs.contains_key(o) && visible_to(objs[o].owner_client_id, client_id);
        let ghost news_all = self.tracker.new_objects();
        let mut snapshots: Vec<ObjectStateSnapshot> = Vec::new();
        let n = self.tracker.new_objects.len();
        let mut i: usize = 0;
        while i < n
            invariant
                n == news_all.len(),
                news_all == self.tracker.new_objects(),
                rep == *self,
                objs == objects@,
                new_pred == (|o: ObjectId| objs.contains_key(o) && visible_to(objs[o].owner_client_id, client_id)),
                i <= n,
                snapshots@.len() == news_all.take(i as int).filter(new_pred).len(),
                forall|k: int| 0 <= k < snapshots@.len() ==> snapshot_is(#[trigger] snapshots@[k], news_all.take(i as int).filter(new_pred)[k],
                    objs, initial_snapshot_of(rep, objs, news_all.take(i as int).filter(new_pred)[k], client_id), true),
            decreases n - i,
        {
            let object_id = self.tracker.new_objects[i];
            proof {
                reveal(Seq::filter);
                assert(news_all.take(i + 1).drop_last() =~= news_all.take(i as int));
                assert(news_all.take(i + 1).last() == object_id);
            }
            let ghost prev = news_all.take(i as int).filter(new_pred);
            match objects.get(&object_id) {
                Some(object) => {
                    if object.owner_client_id == 0 || object.owner_client_id == client_id {
                        let set = self.registry.get_class_properties(object.class_name.as_str());
                        let properties = initial_snapshot_props(set, object, client_id);
                        proof {
                            assert(class_props_of(self.registry@, object.class_name@)
                                == (match set { Some(s) => prop_views(s.properties@), None => Seq::<ReplicatedPropertyView>::empty() }));
                        }
                        snapshots.push(ObjectStateSnapshot {
                            object_id,
                            class_name: object.class_name.clone(),
                            properties,
                            is_new: true,
                        });
                        proof {
                            let cur = news_all.take(i + 1).filter(new_pred);
                            assert(cur == prev.push(object_id));
                            assert forall|k: int| 0 <= k < snapshots@.len() implies snapshot_is(#[trigger] snapshots@[k], cur[k],
                                objs, initial_snapshot_of(rep, objs, cur[k], client_id), true) by {
                                if k < prev.len() {
                                    assert(cur[k] == prev[k]);
                                }
                            }
                        }
                    }
                },
                None => {},
            }
            i = i + 1;
        }
        assert(news_all.take(n as int) =~= news_all);
        let ghost news = news_all.filter(new_pred);
        assert(news == new_snapshot_ids(rep, objs, client_id));
        let base = snapshots.len();
        let ghost order = self.tracker.change_order();
        let ghost chg_pred = |o: ObjectId| !rep.tracker.new_objects().contains(o)
            && !rep.tracker.destroyed_objects().contains(o)
            && objs.contains_key(o)
            && visible_to(objs[o].owner_client_id, client_id)
            && changed_snapshot_of(rep, objs, o, client_id).dom() != Set::<Seq<char>>::empty();
        let m = self.tracker.changes.len();
        let mut j: usize = 0;
        while j < m
            invariant
                m == order.len(),
                order == self.tracker.change_order(),
                order == self.tracker.changes.key_seq(),
                rep == *self,
                objs == objects@,
                news == new_snapshot_ids(rep, objs, client_id),
                base == news.len(),
                chg_pred == (|o: ObjectId| !rep.tracker.new_objects().contains(o)
                    && !rep.tracker.destroyed_objects().contains(o)
                    && objs.contains_key(o)
                    && visible_to(objs[o].owner_client_id, client_id)
                    && changed_snapshot_of(rep, objs, o, client_id).dom() != Set::<Seq<char>>::empty()),
                j <= m,
                snapshots@.len() == base + order.take(j as int).filter(chg_pred).len(),
                forall|k: int| 0 <= k < base ==> snapshot_is(#[trigger] snapshots@[k], news[k], objs,
                    initial_snapshot_of(rep, objs, news[k], client_id), true),
                forall|k: int| 0 <= k < order.take(j as int).filter(chg_pred).len() ==> snapshot_is(#[trigger] snapshots@[base + k],
                    order.take(j as int).filter(chg_pred)[k], objs,
                    changed_snapshot_of(rep, objs, order.take(j as int).filter(chg_pred)[k], client_id), false),
            decreases m - j,
        {
            let (k, changes) = self.tracker.changes.entry_at(j);
            let object_id = *k;
            proof {
                reveal(Seq::filter);
                assert(order.take(j + 1).drop_last() =~= order.take(j as int));
                assert(order.take(j + 1).last() == object_id);
                assert(rep.tracker.changes().contains_key(object_id));
                assert(rep.tracker.changes()[object_id] == changes@);
            }
            let ghost prev = order.take(j as int).filter(chg_pred);
            let ghost s0 = snapshots@;
            if !contains_id(&self.tracker.new_objects, object_id) && !contains_id(&self.tracker.destroyed_objects, object_id) {
                match objects.get(&object_id) {
                    Some(object) => {
                        if object.owner_client_id == 0 || object.owner_client_id == client_id {
                            let set = self.registry.get_class_properties(object.class_name.as_str());
                            let properties = changed_snapshot_props(set, changes, object, client_id);
                            proof {
                                assert(class_props_of(self.registry@, object.class_name@)
                                    == (match set { Some(s) => prop_views(s.properties@), None => Seq::<ReplicatedPropertyView>::empty() }));
                                assert(properties@ == changed_snapshot_of(rep, objs, object_id, client_id));
                                properties.lemma_dom();
                            }
                            if properties.len() > 0 {
                                proof {
                                    assert(properties.key_seq().len() > 0);
                                    assert(properties.key_seq().to_set().contains(properties.key_seq()[0]));
                                    assert(properties@.dom() != Set::<Seq<char>>::empty());
                                }
                                snapshots.push(ObjectStateSnapshot {
                                    object_id,
                                    class_name: object.class_name.clone(),
                                    properties,
                                    is_new: false,
                                });
                                proof {
                                    let cur = order.take(j + 1).filter(chg_pred);
                                    assert(cur == prev.push(object_id));
                                    assert forall|q: int| 0 <= q < base implies snapshot_is(#[trigger] snapshots@[q], news[q], objs,
                                        initial_snapshot_of(rep, objs, news[q], client_id), true) by {
                                        assert(snapshots@[q] == s0[q]);
                                    }
                                    assert forall|q: int| 0 <= q < cur.len() implies snapshot_is(#[trigger] snapshots@[base + q], cur[q], objs,
                                        changed_snapshot_of(rep, objs, cur[q], client_id), false) by {
                                        if q < prev.len() {
                                            assert(cur[q] == prev[q]);
                                            assert(snapshots@[base + q] == s0[base + q]);
                                        }
                                    }
                                }
                            } else {
                                proof {
                                    assert(properties.key_seq().len() == 0);
                                    assert(properties@.dom() =~= Set::<Seq<char>>::empty());
                                }
                            }
                        }
                    },
                    None => {},
                }
            }
            j = j + 1;
        }
        assert(order.take(m as int) =~= order);
        proof {
            lemma_snapshot_ids(rep, objs, client_id);
            let changed = changed_snapshot_ids(rep, objs, client_id);
            let r = snapshots@;
            assert forall|i: int| 0 <= i < r.len() implies (#[trigger] r[i]).object_id
                == (if i < news.len() { news[i] } else { changed[i - news.len()] }) && (r[i].is_new <==> i < news.len()) by {
                if i >= news.len() {
                    assert(snapshot_is(r[news.len() + (i - news.len())], changed[i - news.len()], objs,
                        changed_snapshot_of(rep, objs, changed[i - news.len()], client_id), false));
                }
            }
            assert forall|i: int, j: int| 0 <= i < j < r.len() implies (#[trigger] r[i]).object_id != (#[trigger] r[j]).object_id by {
                if j < news.len() {
                } else if i < news.len() {
                    assert(rep.tracker.new_objects().contains(news[i]));
                    assert(!rep.tracker.new_objects().contains(changed[j - news.len()]));
                } else {
                    assert(changed[i - news.len()] != changed[j - news.len()]);
                }
            }
            assert forall|i: int| 0 <= i < r.len() implies objects@.contains_key((#[trigger] r[i]).object_id)
                && visible_to(objects@[r[i].object_id].owner_client_id, client_id)
                && (r[i].is_new <==> self.tracker.new_objects().contains(r[i].object_id)) by {
                if i >= news.len() {
                    assert(!rep.tracker.new_objects().contains(changed[i - news.len()]));
                } else {
                    assert(rep.tracker.new_objects().contains(news[i]));
                }
            }
            assert forall|i: int| 0 <= i < r.len() && !(#[trigger] r[i]).is_new implies
                self.tracker.changes().contains_key(r[i].object_id)
                && !self.tracker.destroyed_objects().contains(r[i].object_id)
                && r[i].properties@.dom() != Set::<Seq<char>>::empty() by {
                let q = i - news.len();
                assert(snapshot_is(r[news.len() + q], changed[q], objs, changed_snapshot_of(rep, objs, changed[q], client_id), false));
            }
            assert forall|i: int, n: Seq<char>| 0 <= i < r.len() && #[trigger] r[i].properties@.contains_key(n) implies
                exists|j: int| 0 <= j < class_props_of(self.registry@, objects@[r[i].object_id].class_name@).len()
                    && (#[trigger] class_props_of(self.registry@, objects@[r[i].object_id].class_name@)[j]).0 == n
                    && class_props_of(self.registry@, objects@[r[i].object_id].class_name@)[j].2
                        != ReplicationCondition::ServerOnly
                    && (class_props_of(self.registry@, objects@[r[i].object_id].class_name@)[j].2
                        == ReplicationCondition::OwnerOnly ==> objects@[r[i].object_id].owner_client_id == client_id) by {
                let o = objs[r[i].object_id];
                let props = class_props_of(self.registry@, o.class_name@);
                if i < news.len() {
                    assert(snapshot_is(r[i], news[i], objs, initial_snapshot_of(rep, objs, news[i], client_id), true));
                    law_snapshots_respect_conditions(props, Map::empty(), o.properties@, o.owner_client_id, client_id, n);
                } else {
                    let q = i - news.len();
                    assert(snapshot_is(r[news.len() + q], changed[q], objs, changed_snapshot_of(rep, objs, changed[q], client_id), false));
                    law_snapshots_respect_conditions(props, rep.tracker.changes()[changed[q]], o.properties@,
                        o.owner_client_id, client_id, n);
                }
            }
        }
        snapshots
    }
}

} // verus!
