//! Actors on the server: the actor tables, actor IDs, the default actor
//! classes and persistent world actors, and spawning.
use vstd::prelude::*;
use crate::shared::types::{Vector3, Quat};
use crate::shared::property::PropertyValue;
use crate::shared::lifecycle::ActorLifecycleState;
use crate::server::connection::{Identity, ClientInfo, client_views, spec_can_spawn_actor, spec_is_admin,
    can_spawn_actor, is_admin};
use crate::text::owned;

verus! {

/// A class of actors (the server's view of a `UClass`).
#[derive(Debug)]
pub struct ActorClass {
    pub class_id: u32,
    pub class_name: String,
    pub class_path: String,
    pub replicates: bool,
    pub always_relevant: bool,
    pub requires_transform_updates: bool,
}

/// An actor class, with its texts as character sequences.
pub type ActorClassView = (u32, Seq<char>, Seq<char>, bool, bool, bool);

impl View for ActorClass {
    type V = ActorClassView;

    open spec fn view(&self) -> ActorClassView {
        (self.class_id, self.class_name@, self.class_path@, self.replicates, self.always_relevant,
            self.requires_transform_updates)
    }
}

/// The views of a sequence of actor classes.
pub open spec fn class_views(rows: Seq<ActorClass>) -> Seq<ActorClassView> {
    rows.map_values(|c: ActorClass| c@)
}

/// A row of the actor table.
#[derive(Debug)]
pub struct ActorInfo {
    pub actor_id: u64,
    pub class_id: u32,
    pub actor_name: String,
    pub owner_identity: Option<Identity>,
    pub state: ActorLifecycleState,
    pub created_at: u64,
    pub hidden: bool,
}

/// An actor's position, rotation (quaternion) and scale; components are `f32` bit patterns.
#[derive(Debug, Clone, Copy, PartialEq, Eq, Structural)]
pub struct ActorTransform {
    pub actor_id: u64,
    pub pos_x: u32,
    pub pos_y: u32,
    pub pos_z: u32,
    pub rot_x: u32,
    pub rot_y: u32,
    pub rot_z: u32,
    pub rot_w: u32,
    pub scale_x: u32,
    pub scale_y: u32,
    pub scale_z: u32,
}

/// A dynamic property value of an actor.
#[derive(Debug)]
pub struct ActorProperty {
    pub actor_id: u64,
    pub property_name: String,
    pub value: PropertyValue,
    pub last_updated: u64,
}

/// A component instance of an actor.
#[derive(Debug)]
pub struct ActorComponent {
    pub component_id: u64,
    pub owner_actor_id: u64,
    pub component_class_id: u32,
    pub component_name: String,
    pub is_active: bool,
}

/// The actor tables of the world.
pub struct ActorTables {
    pub classes: Vec<ActorClass>,
    pub actors: Vec<ActorInfo>,
    pub transforms: Vec<ActorTransform>,
    pub properties: Vec<ActorProperty>,
    pub components: Vec<ActorComponent>,
}

impl ActorTables {
    /// Empty tables.
    pub fn new() -> (t: Self)
        ensures
            t.classes@.len() == 0,
            t.actors@.len() == 0,
            t.transforms@.len() == 0,
            t.properties@.len() == 0,
            t.components@.len() == 0,
    {
        ActorTables {
            classes: Vec::new(),
            actors: Vec::new(),
            transforms: Vec::new(),
            properties: Vec::new(),
            components: Vec::new(),
        }
    }
}

/// The source of actor IDs: each new actor (or component) gets the next one, starting at 1000.
pub struct ActorIds {
    pub next: u64,
}

impl ActorIds {
    pub fn new() -> (a: Self)
        ensures
            a.next == 1000,
    {
        ActorIds { next: 1000 }
    }
}

/// Generate a unique actor ID.
pub fn generate_actor_id(ids: &mut ActorIds) -> (r: u64)
    requires
        old(ids).next < u64::MAX,
    ensures
        r == old(ids).next,
        final(ids).next == old(ids).next + 1,
{
    let id = ids.next;
    ids.next = ids.next + 1;
    id
}

proof fn lemma_counter_run(nexts: Seq<u64>, results: Seq<u64>, i: int)
    requires
        nexts.len() == results.len() + 1,
        nexts[0] == 1000,
        forall|k: int| 0 <= k < results.len() ==> #[trigger] results[k] == nexts[k] && nexts[k + 1] == nexts[k] + 1,
        0 <= i < nexts.len(),
    ensures
        nexts[i] == 1000 + i,
    decreases i,
{
    if i > 0 {
        lemma_counter_run(nexts, results, i - 1);
        assert(results[i - 1] == nexts[i - 1]);
    }
}

/// Actor IDs are handed out from 1000 upward, one per call, and never
/// repeat. `nexts` are the counter's values, from a fresh `ActorIds` on, and
/// `results` the IDs a run of `generate_actor_id` calls returned: each call
/// returns the counter and adds one to it.
pub proof fn law_actor_ids(nexts: Seq<u64>, results: Seq<u64>)
    requires
        nexts.len() == results.len() + 1,
        nexts[0] == 1000,
        forall|k: int| 0 <= k < results.len() ==> #[trigger] results[k] == nexts[k] && nexts[k + 1] == nexts[k] + 1,
    ensures
        forall|k: int| 0 <= k < results.len() ==> #[trigger] results[k] == 1000 + k,
        forall|j: int, k: int| 0 <= j < k < results.len() ==> results[j] != results[k],
{
    assert forall|k: int| 0 <= k < results.len() implies #[trigger] results[k] == 1000 + k by {
        lemma_counter_run(nexts, results, k);
    }
}

/// The built-in actor classes, in the order they are registered.
pub open spec fn default_actor_classes() -> Seq<ActorClassView> {
    seq![
        (1u32, "Actor"@, "/Script/Engine.Actor"@, true, false, true),
        (2u32, "Pawn"@, "/Script/Engine.Pawn"@, true, false, true),
        (3u32, "Character"@, "/Script/Engine.Character"@, true, false, true),
        (4u32, "PlayerController"@, "/Script/Engine.PlayerController"@, true, true, false),
        (5u32, "GameMode"@, "/Script/Engine.GameMode"@, false, false, false),
        (6u32, "PlayerState"@, "/Script/Engine.PlayerState"@, true, false, false),
        (7u32, "GameState"@, "/Script/Engine.GameState"@, true, true, false),
    ]
}

fn make_class(class_id: u32, name: &str, path: &str, replicates: bool, always_relevant: bool,
    requires_transform_updates: bool) -> (c: ActorClass)
    ensures
        c@ == (class_id, name@, path@, replicates, always_relevant, requires_transform_updates),
{
    ActorClass {
        class_id,
        class_name: owned(name),
        class_path: owned(path),
        replicates,
        always_relevant,
        requires_transform_updates,
    }
}

/// Registers the built-in actor classes that Unreal Engine provides.
pub fn register_default_actor_classes(classes: &mut Vec<ActorClass>)
    ensures
        class_views(final(classes)@) == class_views(old(classes)@) + default_actor_classes(),
{
    classes.push(make_class(1, "Actor", "/Script/Engine.Actor", true, false, true));
    classes.push(make_class(2, "Pawn", "/Script/Engine.Pawn", true, false, true));
    classes.push(make_class(3, "Character", "/Script/Engine.Character", true, false, true));
    classes.push(make_class(4, "PlayerController", "/Script/Engine.PlayerController", true, true, false));
    classes.push(make_class(5, "GameMode", "/Script/Engine.GameMode", false, false, false));
    classes.push(make_class(6, "PlayerState", "/Script/Engine.PlayerState", true, false, false));
    classes.push(make_class(7, "GameState", "/Script/Engine.GameState", true, true, false));
    proof {
        let n = old(classes)@.len();
        assert forall|i: int| 0 <= i < 7 implies #[trigger] classes@[n + i]@ == default_actor_classes()[i] by {}
        assert(class_views(classes@) =~= class_views(old(classes)@) + default_actor_classes());
    }
}

/// Whether an actor row is an active system actor (no owner) of a class with a name.
pub open spec fn is_world_actor(a: ActorInfo, id: u64, class_id: u32, name: Seq<char>, ts: u64) -> bool {
    &&& a.actor_id == id
    &&& a.class_id == class_id
    &&& a.actor_name@ == name
    &&& a.owner_identity is None
    &&& a.state == ActorLifecycleState::Active
    &&& a.created_at == ts
    &&& !a.hidden
}

/// Creates the actors that exist in the world from the beginning: the game
/// state (class 7) and the game mode (class 5), in that order.
pub fn spawn_persistent_world_actors(actors: &mut Vec<ActorInfo>, ids: &mut ActorIds, timestamp: u64)
    requires
        old(ids).next + 2 <= u64::MAX,
    ensures
        final(ids).next == old(ids).next + 2,
        final(actors)@.len() == old(actors)@.len() + 2,
        final(actors)@.subrange(0, old(actors)@.len() as int) == old(actors)@,
        is_world_actor(final(actors)@[old(actors)@.len() as int], old(ids).next, 7, "GameState"@, timestamp),
        is_world_actor(final(actors)@[old(actors)@.len() + 1int], (old(ids).next + 1) as u64, 5, "GameMode"@, timestamp),
        forall|comps: Seq<ComponentView>| actor_ids_fresh(old(actors)@, comps, old(ids).next)
            ==> #[trigger] actor_ids_fresh(final(actors)@, comps, final(ids).next),
{
    let game_state_id = generate_actor_id(ids);
    actors.push(ActorInfo {
        actor_id: game_state_id,
        class_id: 7,
        actor_name: owned("GameState"),
        owner_identity: None,
        state: ActorLifecycleState::Active,
        created_at: timestamp,
        hidden: false,
    });
    let game_mode_id = generate_actor_id(ids);
    actors.push(ActorInfo {
        actor_id: game_mode_id,
        class_id: 5,
        actor_name: owned("GameMode"),
        owner_identity: None,
        state: ActorLifecycleState::Active,
        created_at: timestamp,
        hidden: false,
    });
    assert(actors@.subrange(0, old(actors)@.len() as int) =~= old(actors)@);
}

/// Initializes the game world: registers the built-in actor classes and
/// creates the persistent world actors.
pub fn initialize_world(tables: &mut ActorTables, ids: &mut ActorIds, timestamp: u64)
    requires
        old(ids).next + 2 <= u64::MAX,
    ensures
        class_views(final(tables).classes@) == class_views(old(tables).classes@) + default_actor_classes(),
        final(ids).next == old(ids).next + 2,
        final(tables).actors@.len() == old(tables).actors@.len() + 2,
        final(tables).actors@.subrange(0, old(tables).actors@.len() as int) == old(tables).actors@,
        is_world_actor(final(tables).actors@[old(tables).actors@.len() as int], old(ids).next, 7, "GameState"@, timestamp),
        is_world_actor(final(tables).actors@[old(tables).actors@.len() + 1int], (old(ids).next + 1) as u64, 5,
            "GameMode"@, timestamp),
        final(tables).transforms == old(tables).transforms,
        final(tables).properties == old(tables).properties,
        final(tables).components == old(tables).components,
        actor_ids_fresh(old(tables).actors@, component_views(old(tables).components@), old(ids).next)
            ==> actor_ids_fresh(final(tables).actors@, component_views(final(tables).components@), final(ids).next),
{
    register_default_actor_classes(&mut tables.classes);
    spawn_persistent_world_actors(&mut tables.actors, ids, timestamp);
}

/// A component, with its name as a character sequence.
pub type ComponentView = (u64, u64, u32, Seq<char>, bool);

impl View for ActorComponent {
    type V = ComponentView;

    open spec fn view(&self) -> ComponentView {
        (self.component_id, self.owner_actor_id, self.component_class_id, self.component_name@, self.is_active)
    }
}

/// The views of a sequence of components.
pub open spec fn component_views(rows: Seq<ActorComponent>) -> Seq<ComponentView> {
    rows.map_values(|c: ActorComponent| c@)
}

/// The components a new actor of a class starts with: characters (class 3)
/// get a movement component (class 101) and a mesh component (class 102),
/// with the two IDs after the actor's own.
pub open spec fn default_components(actor_id: u64, class_id: u32) -> Seq<ComponentView> {
    if class_id == 3 {
        seq![
            ((actor_id + 1) as u64, actor_id, 101u32, "CharacterMovement"@, true),
            ((actor_id + 2) as u64, actor_id, 102u32, "Mesh"@, true),
        ]
    } else {
        Seq::empty()
    }
}

/// How many IDs the default components of a class take.
pub open spec fn default_component_count(class_id: u32) -> nat {
    if class_id == 3 { 2 } else { 0 }
}

/// The property row that an initial property of a new actor becomes.
pub open spec fn initial_property_row(actor_id: u64, ts: u64, p: (String, PropertyValue)) -> ActorProperty {
    ActorProperty { actor_id, property_name: p.0, value: p.1, last_updated: ts }
}

/// The transform row of a new actor.
pub open spec fn transform_row(actor_id: u64, position: Vector3, rotation: Quat, scale: Vector3) -> ActorTransform {
    ActorTransform {
        actor_id,
        pos_x: position.x,
        pos_y: position.y,
        pos_z: position.z,
        rot_x: rotation.x,
        rot_y: rotation.y,
        rot_z: rotation.z,
        rot_w: rotation.w,
        scale_x: scale.x,
        scale_y: scale.y,
        scale_z: scale.z,
    }
}

/// What spawning an actor with ID `id` does to the tables: an active actor
/// row, its transform, its initial properties (in order) and the default
/// components of its class are added; the classes stay.
pub open spec fn spawned(
    old_t: ActorTables,
    new_t: ActorTables,
    id: u64,
    class_id: u32,
    actor_name: String,
    owner: Option<Identity>,
    ts: u64,
    position: Vector3,
    rotation: Quat,
    scale: Vector3,
    props: Seq<(String, PropertyValue)>,
) -> bool {
    &&& new_t.classes@ == old_t.classes@
    &&& new_t.actors@ == old_t.actors@.push(ActorInfo {
        actor_id: id,
        class_id,
        actor_name,
        owner_identity: owner,
        state: ActorLifecycleState::Active,
        created_at: ts,
        hidden: false,
    })
    &&& new_t.transforms@ == old_t.transforms@.push(transform_row(id, position, rotation, scale))
    &&& new_t.properties@ == old_t.properties@ + props.map_values(|p: (String, PropertyValue)| initial_property_row(id, ts, p))
    &&& component_views(new_t.components@) == component_views(old_t.components@) + default_components(id, class_id)
}

/// Every actor and every component has its own ID (no actor shares one with a
/// component either), below the next one to be handed out.
pub open spec fn actor_ids_fresh(actors: Seq<ActorInfo>, comps: Seq<ComponentView>, next: u64) -> bool {
    &&& forall|i: int| 0 <= i < actors.len() ==> (#[trigger] actors[i]).actor_id < next
    &&& forall|i: int| 0 <= i < comps.len() ==> (#[trigger] comps[i]).0 < next
    &&& forall|i: int, j: int| 0 <= i < j < actors.len() ==> (#[trigger] actors[i]).actor_id != (#[trigger] actors[j]).actor_id
    &&& forall|i: int, j: int| 0 <= i < j < comps.len() ==> (#[trigger] comps[i]).0 != (#[trigger] comps[j]).0
    &&& forall|i: int, j: int| 0 <= i < actors.len() && 0 <= j < comps.len() ==>
        (#[trigger] actors[i]).actor_id != (#[trigger] comps[j]).0
}

/// Spawning keeps IDs unique: the new actor takes the next ID and its default
/// components the ones after it, so none of them was in use.
pub proof fn law_spawn_keeps_ids_fresh(
    old_t: ActorTables,
    new_t: ActorTables,
    next: u64,
    class_id: u32,
    actor_name: String,
    owner: Option<Identity>,
    ts: u64,
    position: Vector3,
    rotation: Quat,
    scale: Vector3,
    props: Seq<(String, PropertyValue)>,
)
    requires
        next + 3 <= u64::MAX,
        actor_ids_fresh(old_t.actors@, component_views(old_t.components@), next),
        spawned(old_t, new_t, next, class_id, actor_name, owner, ts, position, rotation, scale, props),
    ensures
        actor_ids_fresh(new_t.actors@, component_views(new_t.components@), (next + 1 + default_component_count(class_id)) as u64),
{
    let a = new_t.actors@;
    let c = component_views(new_t.components@);
    let oa = old_t.actors@;
    let oc = component_views(old_t.components@);
    let d = default_components(next, class_id);
    assert(c == oc + d);
    assert forall|j: int| 0 <= j < d.len() implies (#[trigger] d[j]).0 == next + 1 + j by {}
    assert forall|j: int| 0 <= j < c.len() implies (#[trigger] c[j]).0 == (if j < oc.len() { oc[j].0 as int } else { next + 1 + (j - oc.len()) }) by {
        if j >= oc.len() {
            assert(c[j] == d[j - oc.len()]);
        }
    }
    assert forall|i: int| 0 <= i < a.len() implies (#[trigger] a[i]).actor_id == (if i < oa.len() { oa[i].actor_id as int } else { next as int }) by {}
}

/// Sets the initial properties of a newly created actor, in order.
fn set_initial_properties(properties: &mut Vec<ActorProperty>, actor_id: u64, initial: Vec<(String, PropertyValue)>,
    timestamp: u64)
    ensures
        final(properties)@ == old(properties)@ + initial@.map_values(
            |p: (String, PropertyValue)| initial_property_row(actor_id, timestamp, p)),
{
    let n = initial.len();
    let mut i: usize = 0;
    while i < n
        invariant
            n == initial@.len(),
            i <= n,
            properties@ == old(properties)@ + initial@.subrange(0, i as int).map_values(
                |p: (String, PropertyValue)| initial_property_row(actor_id, timestamp, p)),
        decreases n - i,
    {
        let name = initial[i].0.clone();
        let value = initial[i].1.clone();
        properties.push(ActorProperty { actor_id, property_name: name, value, last_updated: timestamp });
        proof {
            let f = |p: (String, PropertyValue)| initial_property_row(actor_id, timestamp, p);
            assert(initial@.subrange(0, i + 1).map_values(f) =~= initial@.subrange(0, i as int).map_values(f).push(
                f(initial@[i as int])));
        }
        i = i + 1;
    }
    assert(initial@.subrange(0, n as int) =~= initial@);
}

/// Creates the default components of a new actor of a class.
fn initialize_default_components(components: &mut Vec<ActorComponent>, ids: &mut ActorIds, actor_id: u64, class_id: u32)
    requires
        old(ids).next == actor_id + 1,
        actor_id + 3 <= u64::MAX,
    ensures
        component_views(final(components)@) == component_views(old(components)@) + default_components(actor_id, class_id),
        final(ids).next == old(ids).next + default_component_count(class_id),
{
    if class_id == 3 {
        let movement = generate_actor_id(ids);
        components.push(ActorComponent {
            component_id: movement,
            owner_actor_id: actor_id,
            component_class_id: 101,
            component_name: owned("CharacterMovement"),
            is_active: true,
        });
        let mesh = generate_actor_id(ids);
        components.push(ActorComponent {
            component_id: mesh,
            owner_actor_id: actor_id,
            component_class_id: 102,
            component_name: owned("Mesh"),
            is_active: true,
        });
    }
    assert(component_views(components@) =~= component_views(old(components)@) + default_components(actor_id, class_id));
}

/// Spawns an actor with an owner (or none): a new ID, the actor row, its
/// transform, its initial properties and its default components.
fn spawn_owned(
    tables: &mut ActorTables,
    ids: &mut ActorIds,
    owner: Option<Identity>,
    timestamp: u64,
    class_id: u32,
    actor_name: String,
    position: Vector3,
    rotation: Quat,
    scale: Vector3,
    initial_properties: Vec<(String, PropertyValue)>,
) -> (r: u64)
    requires
        old(ids).next + 3 <= u64::MAX,
    ensures
        r == old(ids).next,
        final(ids).next == old(ids).next + 1 + default_component_count(class_id),
        spawned(*old(tables), *final(tables), r, class_id, actor_name, owner, timestamp, position, rotation, scale,
            initial_properties@),
{
    let actor_id = generate_actor_id(ids);
    tables.transforms.push(ActorTransform {
        actor_id,
        pos_x: position.x,
        pos_y: position.y,
        pos_z: position.z,
        rot_x: rotation.x,
        rot_y: rotation.y,
        rot_z: rotation.z,
        rot_w: rotation.w,
        scale_x: scale.x,
        scale_y: scale.y,
        scale_z: scale.z,
    });
    set_initial_properties(&mut tables.properties, actor_id, initial_properties, timestamp);
    initialize_default_components(&mut tables.components, ids, actor_id, class_id);
    tables.actors.push(ActorInfo {
        actor_id,
        class_id,
        actor_name,
        owner_identity: owner,
        state: ActorLifecycleState::Active,
        created_at: timestamp,
        hidden: false,
    });
    actor_id
}

/// Spawns an actor owned by the caller, if the caller may spawn actors of
/// the class; returns its ID, or 0 (and changes nothing) when not allowed.
pub fn spawn_actor(
    tables: &mut ActorTables,
    ids: &mut ActorIds,
    clients: &Vec<ClientInfo>,
    sender: Option<Identity>,
    timestamp: u64,
    class_id: u32,
    actor_name: String,
    position: Vector3,
    rotation: Quat,
    scale: Vector3,
    initial_properties: Vec<(String, PropertyValue)>,
) -> (r: u64)
    requires
        old(ids).next + 3 <= u64::MAX,
    ensures
        spec_can_spawn_actor(client_views(clients@), sender, class_id) ==> {
            &&& r == old(ids).next
            &&& final(ids).next == old(ids).next + 1 + default_component_count(class_id)
            &&& spawned(*old(tables), *final(tables), r, class_id, actor_name, sender, timestamp, position, rotation,
                scale, initial_properties@)
        },
        !spec_can_spawn_actor(client_views(clients@), sender, class_id) ==> {
            &&& r == 0
            &&& final(ids).next == old(ids).next
            &&& *final(tables) == *old(tables)
        },
{
    if !can_spawn_actor(clients, sender, class_id) {
        return 0;
    }
    spawn_owned(tables, ids, sender, timestamp, class_id, actor_name, position, rotation, scale, initial_properties)
}

/// Spawns a system actor (no owner), for admins and system calls only;
/// returns its ID, or 0 (and changes nothing) when not allowed.
pub fn spawn_system_actor(
    tables: &mut ActorTables,
    ids: &mut ActorIds,
    clients: &Vec<ClientInfo>,
    sender: Option<Identity>,
    timestamp: u64,
    class_id: u32,
    actor_name: String,
    position: Vector3,
    rotation: Quat,
    scale: Vector3,
    initial_properties: Vec<(String, PropertyValue)>,
) -> (r: u64)
    requires
        old(ids).next + 3 <= u64::MAX,
    ensures
        spec_is_admin(client_views(clients@), sender) ==> {
            &&& r == old(ids).next
            &&& final(ids).next == old(ids).next + 1 + default_component_count(class_id)
            &&& spawned(*old(tables), *final(tables), r, class_id, actor_name, None, timestamp, position, rotation,
                scale, initial_properties@)
        },
        !spec_is_admin(client_views(clients@), sender) ==> {
            &&& r == 0
            &&& final(ids).next == old(ids).next
            &&& *final(tables) == *old(tables)
        },
{
    if !is_admin(clients, sender) {
        return 0;
    }
    spawn_owned(tables, ids, None, timestamp, class_id, actor_name, position, rotation, scale, initial_properties)
}

/// Spawns an actor owned by a given player, for admins and system calls
/// only; returns its ID, or 0 (and changes nothing) when not allowed.
pub fn spawn_player_actor(
    tables: &mut ActorTables,
    ids: &mut ActorIds,
    clients: &Vec<ClientInfo>,
    sender: Option<Identity>,
    timestamp: u64,
    class_id: u32,
    player_identity: Identity,
    actor_name: String,
    position: Vector3,
    rotation: Quat,
    scale: Vector3,
    initial_properties: Vec<(String, PropertyValue)>,
) -> (r: u64)
    requires
        old(ids).next + 3 <= u64::MAX,
    ensures
        spec_is_admin(client_views(clients@), sender) ==> {
            &&& r == old(ids).next
            &&& final(ids).next == old(ids).next + 1 + default_component_count(class_id)
            &&& spawned(*old(tables), *final(tables), r, class_id, actor_name, Some(player_identity), timestamp,
                position, rotation, scale, initial_properties@)
        },
        !spec_is_admin(client_views(clients@), sender) ==> {
            &&& r == 0
            &&& final(ids).next == old(ids).next
            &&& *final(tables) == *old(tables)
        },
{
    if !is_admin(clients, sender) {
        return 0;
    }
    spawn_owned(tables, ids, Some(player_identity), timestamp, class_id, actor_name, position, rotation, scale,
        initial_properties)
}

impl Clone for ActorInfo {
    fn clone(&self) -> (r: Self)
        ensures
            r == *self,
    {
        ActorInfo {
            actor_id: self.actor_id,
            class_id: self.class_id,
            actor_name: self.actor_name.clone(),
            owner_identity: self.owner_identity,
            state: self.state,
            created_at: self.created_at,
            hidden: self.hidden,
        }
    }
}

/// An actor row in a given lifecycle state.
pub open spec fn with_state(a: ActorInfo, state: ActorLifecycleState) -> ActorInfo {
    ActorInfo { state, ..a }
}

/// The actors after a client's cleanup: each actor the client owns is
/// pending destruction; the others are unchanged.
pub open spec fn spec_cleanup_actors(before: Seq<ActorInfo>, after: Seq<ActorInfo>, id: Identity) -> bool {
    &&& after.len() == before.len()
    &&& forall|i: int| 0 <= i < before.len() ==> #[trigger] after[i] == (if before[i].owner_identity == Some(id) {
        with_state(before[i], ActorLifecycleState::PendingDestroy)
    } else {
        before[i]
    })
}

/// Marks every actor owned by a disconnected client as pending destruction.
pub fn cleanup_client_actors(actors: &mut Vec<ActorInfo>, identity: Identity)
    ensures
        spec_cleanup_actors(old(actors)@, final(actors)@, identity),
{
    let mut out: Vec<ActorInfo> = Vec::new();
    let n = actors.len();
    let mut i: usize = 0;
    while i < n
        invariant
            n == actors@.len(),
            actors@ == old(actors)@,
            i <= n,
            out@.len() == i,
            forall|k: int| 0 <= k < i ==> #[trigger] out@[k] == (if actors@[k].owner_identity == Some(identity) {
                with_state(actors@[k], ActorLifecycleState::PendingDestroy)
            } else {
                actors@[k]
            }),
        decreases n - i,
    {
        let mut a = actors[i].clone();
        if a.owner_identity == Some(identity) {
            a.state = ActorLifecycleState::PendingDestroy;
        }
        out.push(a);
        i = i + 1;
    }
    *actors = out;
}

/// Transform data for an actor: location, rotation quaternion `[x, y, z, w]`
/// and scale, as `f32` bit patterns.
#[derive(Debug, Clone, Copy)]
pub struct TransformData {
    pub location: [u32; 3],
    pub rotation: [u32; 4],
    pub scale: [u32; 3],
}

/// Velocity data for an actor (linear and angular), as `f32` bit patterns.
#[derive(Debug, Clone, Copy)]
pub struct VelocityData {
    pub linear: [u32; 3],
    pub angular: [u32; 3],
}

/// A transform update sent to clients.
#[derive(Debug)]
pub struct TransformUpdate {
    pub object_id: u64,
    pub transform: TransformData,
    pub velocity: Option<VelocityData>,
    /// Sequence number for client prediction reconciliation.
    pub sequence: Option<u32>,
}

impl TransformUpdate {
    /// Create a new transform update, without a sequence number.
    pub fn new(object_id: u64, transform: TransformData, velocity: Option<VelocityData>) -> (u: Self)
        ensures
            u == (TransformUpdate { object_id, transform, velocity, sequence: None }),
    {
        TransformUpdate { object_id, transform, velocity, sequence: None }
    }

    /// Create a new transform update with a sequence number.
    pub fn with_sequence(object_id: u64, transform: TransformData, velocity: Option<VelocityData>, sequence: u32)
        -> (u: Self)
        ensures
            u == (TransformUpdate { object_id, transform, velocity, sequence: Some(sequence) }),
    {
        TransformUpdate { object_id, transform, velocity, sequence: Some(sequence) }
    }

    /// Set the sequence number.
    pub fn set_sequence(&mut self, sequence: u32)
        ensures
            *final(self) == (TransformUpdate { sequence: Some(sequence), ..*old(self) }),
    {
        self.sequence = Some(sequence);
    }
}

/// Marking a client's actors for destruction keeps every actor's ID.
pub proof fn law_cleanup_keeps_ids_fresh(before: Seq<ActorInfo>, after: Seq<ActorInfo>, id: Identity,
    comps: Seq<ComponentView>, next: u64)
    requires
        actor_ids_fresh(before, comps, next),
        spec_cleanup_actors(before, after, id),
    ensures
        actor_ids_fresh(after, comps, next),
{
    assert forall|i: int| 0 <= i < after.len() implies (#[trigger] after[i]).actor_id == before[i].actor_id by {}
}

} // verus!
