//! Client-side actors: their registry, transforms, lifecycle and components.
use vstd::prelude::*;
use crate::collections::AssocMap;
use crate::shared::types::{ObjectId, Quat, Transform, Vector3};
use crate::shared::property::PropertyValue;
use crate::shared::lifecycle::ObjectLifecycleState;
use crate::client::property::{PropertyCache, cached, cache_property_value, clear_property_cache};
use crate::client::object::other_id;
use crate::text::{owned, with_number, decimal};

verus! {

/// A client-side actor.
#[derive(Debug)]
pub struct ClientActor {
    pub id: ObjectId,
    pub class_name: String,
    pub owner_id: Option<ObjectId>,
    pub state: ObjectLifecycleState,
    pub transform: Transform,
    pub replicates: bool,
    pub components: Vec<ObjectId>,
}

/// What a client actor holds, with texts and lists as sequences.
pub struct ActorView {
    pub id: ObjectId,
    pub class_name: Seq<char>,
    pub owner_id: Option<ObjectId>,
    pub state: ObjectLifecycleState,
    pub transform: Transform,
    pub replicates: bool,
    pub components: Seq<ObjectId>,
}

impl View for ClientActor {
    type V = ActorView;

    open spec fn view(&self) -> ActorView {
        ActorView {
            id: self.id,
            class_name: self.class_name@,
            owner_id: self.owner_id,
            state: self.state,
            transform: self.transform,
            replicates: self.replicates,
            components: self.components@,
        }
    }
}

impl Clone for ClientActor {
    fn clone(&self) -> (r: Self)
        ensures
            r@ == self@,
    {
        ClientActor {
            id: self.id,
            class_name: self.class_name.clone(),
            owner_id: self.owner_id,
            state: self.state,
            transform: self.transform,
            replicates: self.replicates,
            components: self.components.clone(),
        }
    }
}

/// The client's actors, by ID.
pub struct ActorRegistry {
    pub actors: AssocMap<u64, ClientActor>,
}

/// The actors of a registry, by ID.
pub open spec fn actors_view(r: ActorRegistry) -> Map<ObjectId, ActorView> {
    r.actors@.map_values(|a: ClientActor| a@)
}

impl ActorRegistry {
    /// An empty registry.
    pub fn new() -> (r: Self)
        ensures
            actors_view(r) == Map::<ObjectId, ActorView>::empty(),
    {
        let r = ActorRegistry { actors: AssocMap::new() };
        assert(actors_view(r) =~= Map::<ObjectId, ActorView>::empty());
        r
    }
}

fn put_actor(reg: &mut ActorRegistry, id: ObjectId, a: ClientActor)
    ensures
        actors_view(*final(reg)) == actors_view(*old(reg)).insert(id, a@),
{
    let ghost v = a@;
    reg.actors.insert(id, a);
    assert(actors_view(*reg) =~= actors_view(*old(reg)).insert(id, v));
}

fn take_actor(reg: &mut ActorRegistry, id: ObjectId) -> (r: Option<ClientActor>)
    ensures
        match r {
            Some(a) => actors_view(*old(reg)).contains_key(id) && a@ == actors_view(*old(reg))[id],
            None => !actors_view(*old(reg)).contains_key(id),
        },
        actors_view(*final(reg)) == actors_view(*old(reg)).remove(id),
{
    let r = reg.actors.remove(&id);
    assert(actors_view(*reg) =~= actors_view(*old(reg)).remove(id));
    r
}

/// Create and register a client-side actor; returns it.
pub fn create_actor(reg: &mut ActorRegistry, object_id: ObjectId, class_name: &str, transform: Transform,
    owner_id: Option<ObjectId>, replicates: bool) -> (r: Result<ClientActor, String>)
    ensures
        r matches Ok(a) && a@ == (ActorView {
            id: object_id,
            class_name: class_name@,
            owner_id,
            state: ObjectLifecycleState::Initializing,
            transform,
            replicates,
            components: Seq::empty(),
        }),
        r matches Ok(a) && actors_view(*final(reg)) == actors_view(*old(reg)).insert(object_id, a@),
{
    let actor = ClientActor {
        id: object_id,
        class_name: owned(class_name),
        owner_id,
        state: ObjectLifecycleState::Initializing,
        transform,
        replicates,
        components: Vec::new(),
    };
    put_actor(reg, object_id, actor.clone());
    Ok(actor)
}

/// Get an actor by ID.
pub fn get_actor(reg: &ActorRegistry, actor_id: ObjectId) -> (r: Option<ClientActor>)
    ensures
        match r {
            Some(a) => actors_view(*reg).contains_key(actor_id) && a@ == actors_view(*reg)[actor_id],
            None => !actors_view(*reg).contains_key(actor_id),
        },
{
    match reg.actors.get(&actor_id) {
        Some(a) => Some(a.clone()),
        None => None,
    }
}

/// Check if an object ID is a registered actor.
pub fn is_actor(reg: &ActorRegistry, object_id: ObjectId) -> (r: bool)
    ensures
        r == actors_view(*reg).contains_key(object_id),
{
    proof {
        reg.actors.lemma_dom();
    }
    reg.actors.contains_key(&object_id)
}

/// The staging cache after a transform update of an actor records the given parts.
pub open spec fn parts_cached(m: Map<ObjectId, Map<Seq<char>, PropertyValue>>, id: ObjectId,
    location: Option<Vector3>, rotation: Option<Quat>, scale: Option<Vector3>) -> Map<ObjectId, Map<Seq<char>, PropertyValue>> {
    let m1 = match location { Some(l) => cached(m, id, "Location"@, PropertyValue::Vector(l)), None => m };
    let m2 = match rotation { Some(q) => cached(m1, id, "Rotation"@, PropertyValue::Quat(q)), None => m1 };
    match scale { Some(s) => cached(m2, id, "Scale"@, PropertyValue::Vector(s)), None => m2 }
}

/// A transform with the given parts replaced.
pub open spec fn parts_replaced(t: Transform, location: Option<Vector3>, rotation: Option<Quat>, scale: Option<Vector3>)
    -> Transform {
    let t1 = match location { Some(l) => Transform { location: l, ..t }, None => t };
    let t2 = match rotation { Some(q) => Transform { rotation: q, ..t1 }, None => t1 };
    match scale { Some(s) => Transform { scale: s, ..t2 }, None => t2 }
}

/// Update an actor's transform; the given parts are also staged as its
/// `Location`, `Rotation` and `Scale` properties. An unknown actor is an error.
pub fn update_transform(
    reg: &mut ActorRegistry,
    cache: &mut PropertyCache,
    actor_id: ObjectId,
    location: Option<Vector3>,
    rotation: Option<Quat>,
    scale: Option<Vector3>,
) -> (r: Result<(), String>)
    ensures
        ({
            let av = actors_view(*old(reg));
            if av.contains_key(actor_id) {
                &&& r is Ok
                &&& actors_view(*final(reg)) == av.insert(actor_id, ActorView {
                    transform: parts_replaced(av[actor_id].transform, location, rotation, scale),
                    ..av[actor_id]
                })
                &&& final(cache)@ == parts_cached(old(cache)@, actor_id, location, rotation, scale)
            } else {
                &&& r matches Err(e) && e@ == "Actor "@ + decimal(actor_id as nat) + " not found"@
                &&& actors_view(*final(reg)) == av
                &&& final(cache)@ == old(cache)@
            }
        }),
{
    let ghost av = actors_view(*reg);
    let mut a = match take_actor(reg, actor_id) {
        Some(a) => a,
        None => {
            assert(actors_view(*reg) =~= av);
            return Err(with_number("Actor ", actor_id, " not found"));
        },
    };
    if let Some(l) = location {
        a.transform.location = l;
        cache_property_value(cache, actor_id, "Location", PropertyValue::Vector(l));
    }
    if let Some(q) = rotation {
        a.transform.rotation = q;
        cache_property_value(cache, actor_id, "Rotation", PropertyValue::Quat(q));
    }
    if let Some(s) = scale {
        a.transform.scale = s;
        cache_property_value(cache, actor_id, "Scale", PropertyValue::Vector(s));
    }
    put_actor(reg, actor_id, a);
    assert(actors_view(*reg) =~= av.insert(actor_id, ActorView {
        transform: parts_replaced(av[actor_id].transform, location, rotation, scale),
        ..av[actor_id]
    }));
    Ok(())
}

/// Destroy an actor: it leaves the registry and its staged values are dropped.
pub fn destroy_actor(reg: &mut ActorRegistry, cache: &mut PropertyCache, actor_id: ObjectId) -> (r: Result<(), String>)
    ensures
        r is Ok,
        actors_view(*final(reg)) == actors_view(*old(reg)).remove(actor_id),
        final(cache)@ == old(cache)@.remove(actor_id),
{
    let _ = take_actor(reg, actor_id);
    clear_property_cache(cache, actor_id);
    Ok(())
}

/// Update an actor's lifecycle state; setting it to destroyed destroys the
/// actor. An unknown actor is an error.
pub fn update_lifecycle_state(reg: &mut ActorRegistry, cache: &mut PropertyCache, actor_id: ObjectId,
    state: ObjectLifecycleState) -> (r: Result<(), String>)
    ensures
        ({
            let av = actors_view(*old(reg));
            if !av.contains_key(actor_id) {
                &&& r matches Err(e) && e@ == "Actor "@ + decimal(actor_id as nat) + " not found"@
                &&& actors_view(*final(reg)) == av
                &&& final(cache)@ == old(cache)@
            } else if state == ObjectLifecycleState::Destroyed {
                &&& r is Ok
                &&& actors_view(*final(reg)) == av.remove(actor_id)
                &&& final(cache)@ == old(cache)@.remove(actor_id)
            } else {
                &&& r is Ok
                &&& actors_view(*final(reg)) == av.insert(actor_id, ActorView { state, ..av[actor_id] })
                &&& final(cache)@ == old(cache)@
            }
        }),
{
    let ghost av = actors_view(*reg);
    let mut a = match take_actor(reg, actor_id) {
        Some(a) => a,
        None => {
            assert(actors_view(*reg) =~= av);
            return Err(with_number("Actor ", actor_id, " not found"));
        },
    };
    a.state = state;
    put_actor(reg, actor_id, a);
    assert(actors_view(*reg) =~= av.insert(actor_id, ActorView { state, ..av[actor_id] }));
    if state == ObjectLifecycleState::Destroyed {
        let r = destroy_actor(reg, cache, actor_id);
        assert(av.insert(actor_id, ActorView { state, ..av[actor_id] }).remove(actor_id) =~= av.remove(actor_id));
        return r;
    }
    Ok(())
}

/// Add a component to an actor. Fails for an unknown actor or a component
/// already attached.
pub fn add_component(reg: &mut ActorRegistry, actor_id: ObjectId, component_id: ObjectId) -> (r: Result<(), String>)
    ensures
        ({
            let av = actors_view(*old(reg));
            if !av.contains_key(actor_id) {
                &&& r matches Err(e) && e@ == "Actor "@ + decimal(actor_id as nat) + " not found"@
                &&& actors_view(*final(reg)) == av
            } else if av[actor_id].components.contains(component_id) {
                &&& r matches Err(e) && e@ == "Component "@ + decimal(component_id as nat) + " already attached to actor "@
                    + decimal(actor_id as nat)
                &&& actors_view(*final(reg)) == av
            } else {
                &&& r is Ok
                &&& actors_view(*final(reg)) == av.insert(actor_id, ActorView {
                    components: av[actor_id].components.push(component_id),
                    ..av[actor_id]
                })
            }
        }),
{
    let ghost av = actors_view(*reg);
    let mut a = match take_actor(reg, actor_id) {
        Some(a) => a,
        None => {
            assert(actors_view(*reg) =~= av);
            return Err(with_number("Actor ", actor_id, " not found"));
        },
    };
    if crate::server::relevancy::vec_contains_u64(&a.components, component_id) {
        put_actor(reg, actor_id, a);
        assert(actors_view(*reg) =~= av);
        let mut msg = with_number("Component ", component_id, " already attached to actor ");
        let t = crate::text::format_u64(actor_id);
        msg.append(t.as_str());
        return Err(msg);
    }
    a.components.push(component_id);
    put_actor(reg, actor_id, a);
    assert(actors_view(*reg) =~= av.insert(actor_id, ActorView {
        components: av[actor_id].components.push(component_id),
        ..av[actor_id]
    }));
    Ok(())
}

/// Remove a component from an actor (every occurrence). Fails for an unknown actor.
pub fn remove_component(reg: &mut ActorRegistry, actor_id: ObjectId, component_id: ObjectId) -> (r: Result<(), String>)
    ensures
        ({
            let av = actors_view(*old(reg));
            if !av.contains_key(actor_id) {
                &&& r matches Err(e) && e@ == "Actor "@ + decimal(actor_id as nat) + " not found"@
                &&& actors_view(*final(reg)) == av
            } else {
                &&& r is Ok
                &&& actors_view(*final(reg)) == av.insert(actor_id, ActorView {
                    components: av[actor_id].components.filter(other_id(component_id)),
                    ..av[actor_id]
                })
            }
        }),
{
    let ghost av = actors_view(*reg);
    let mut a = match take_actor(reg, actor_id) {
        Some(a) => a,
        None => {
            assert(actors_view(*reg) =~= av);
            return Err(with_number("Actor ", actor_id, " not found"));
        },
    };
    let ghost keep = other_id(component_id);
    let mut kept: Vec<ObjectId> = Vec::new();
    let n = a.components.len();
    let mut i: usize = 0;
    while i < n
        invariant
            n == a.components@.len(),
            i <= n,
            keep == other_id(component_id),
            kept@ == a.components@.subrange(0, i as int).filter(keep),
        decreases n - i,
    {
        proof {
            reveal(Seq::filter);
            assert(a.components@.subrange(0, i + 1).drop_last() =~= a.components@.subrange(0, i as int));
        }
        let c = a.components[i];
        if c != component_id {
            kept.push(c);
        }
        i = i + 1;
    }
    assert(a.components@.subrange(0, n as int) =~= a.components@);
    a.components = kept;
    put_actor(reg, actor_id, a);
    assert(actors_view(*reg) =~= av.insert(actor_id, ActorView {
        components: av[actor_id].components.filter(other_id(component_id)),
        ..av[actor_id]
    }));
    Ok(())
}

/// Get all components attached to an actor. Fails for an unknown actor.
pub fn get_components(reg: &ActorRegistry, actor_id: ObjectId) -> (r: Result<Vec<ObjectId>, String>)
    ensures
        actors_view(*reg).contains_key(actor_id) ==> (r matches Ok(v) && v@ == actors_view(*reg)[actor_id].components),
        !actors_view(*reg).contains_key(actor_id) ==> (r matches Err(e) && e@ == "Actor "@ + decimal(actor_id as nat)
            + " not found"@),
{
    match reg.actors.get(&actor_id) {
        Some(a) => Ok(a.components.clone()),
        None => Err(with_number("Actor ", actor_id, " not found")),
    }
}

/// All actors, in registry order.
pub fn get_all_actors(reg: &ActorRegistry) -> (r: Vec<ClientActor>)
    ensures
        r@.map_values(|a: ClientActor| a@) == reg.actors.key_seq().map_values(|k: u64| actors_view(*reg)[k]),
{
    let ghost av = actors_view(*reg);
    let n = reg.actors.len();
    let mut out: Vec<ClientActor> = Vec::new();
    let mut i: usize = 0;
    while i < n
        invariant
            n == reg.actors.key_seq().len(),
            av == actors_view(*reg),
            i <= n,
            out@.map_values(|a: ClientActor| a@) == reg.actors.key_seq().subrange(0, i as int).map_values(
                |k: u64| av[k]),
        decreases n - i,
    {
        let (k, a) = reg.actors.entry_at(i);
        assert(av[*k] == a@);
        let ghost prev = out@.map_values(|a: ClientActor| a@);
        out.push(a.clone());
        assert(out@.map_values(|a: ClientActor| a@) =~= prev.push(a@));
        assert(reg.actors.key_seq().subrange(0, i + 1) =~= reg.actors.key_seq().subrange(0, i as int).push(*k));
        assert(out@.map_values(|a: ClientActor| a@) =~= reg.actors.key_seq().subrange(0, i + 1).map_values(
            |k: u64| av[k]));
        i = i + 1;
    }
    assert(reg.actors.key_seq().subrange(0, n as int) =~= reg.actors.key_seq());
    out
}

} // verus!
