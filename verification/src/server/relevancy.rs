//! Network relevancy on the server: which objects are replicated to which clients.
//!
//! Objects can be always relevant, relevant to their owner only, relevant
//! within a distance, relevant to clients that share a zone with them, or never
//! relevant. The relevancy manager caches, per client, the objects to update on
//! the current tick.
use vstd::prelude::*;
use crate::collections::AssocMap;
use crate::shared::types::ObjectId;
use crate::shared::relevancy::{RelevancyLevel, UpdateFrequency, NetworkPriority, RelevancySettings};
use crate::text::{owned, str_eq};

verus! {

/// Flag to control the visibility of an object.
#[derive(Debug, Clone, Copy, PartialEq, Eq, Structural)]
pub enum VisibilityFlag {
    /// Object is visible to clients.
    Visible,
    /// Object is hidden from clients.
    Hidden,
    /// Object's visibility is determined by relevancy settings.
    UseRelevancy,
}

/// A row of the relevancy zone table. `owner_address` is a 128-bit connection address.
#[derive(Debug)]
pub struct RelevancyZone {
    pub zone_id: u32,
    pub name: String,
    pub active: bool,
    pub owner_address: Option<u128>,
}

/// A row of the zone membership table.
#[derive(Debug, Clone, Copy, PartialEq, Eq, Structural)]
pub struct ZoneMembershipEntry {
    /// Entity ID (client ID or object ID).
    pub entity_id: u64,
    /// Is this entity a client.
    pub is_client: bool,
    /// Zone ID this entity belongs to.
    pub zone_id: u32,
}

/// A row of the relevancy settings table; the enum values are kept by name and
/// `max_distance` is an `f32` bit pattern.
#[derive(Debug)]
pub struct RelevancySettingsEntry {
    pub object_id: ObjectId,
    pub relevancy_level: String,
    pub update_frequency: String,
    pub network_priority: String,
    pub max_distance: Option<u32>,
}

/// The relevancy level a stored name denotes (unknown names mean `AlwaysRelevant`).
pub open spec fn level_from_name(s: Seq<char>) -> RelevancyLevel {
    if s == "AlwaysRelevant"@ {
        RelevancyLevel::AlwaysRelevant
    } else if s == "OwnerOnly"@ {
        RelevancyLevel::OwnerOnly
    } else if s == "DistanceBased"@ {
        RelevancyLevel::DistanceBased
    } else if s == "SameZone"@ {
        RelevancyLevel::SameZone
    } else if s == "Custom"@ {
        RelevancyLevel::Custom
    } else if s == "NeverRelevant"@ {
        RelevancyLevel::NeverRelevant
    } else {
        RelevancyLevel::AlwaysRelevant
    }
}

/// The update frequency a stored name denotes (unknown names mean `Medium`).
pub open spec fn frequency_from_name(s: Seq<char>) -> UpdateFrequency {
    if s == "High"@ {
        UpdateFrequency::High
    } else if s == "Medium"@ {
        UpdateFrequency::Medium
    } else if s == "Low"@ {
        UpdateFrequency::Low
    } else if s == "OnDemand"@ {
        UpdateFrequency::OnDemand
    } else {
        UpdateFrequency::Medium
    }
}

/// The network priority a stored name denotes (unknown names mean `Normal`).
pub open spec fn priority_from_name(s: Seq<char>) -> NetworkPriority {
    if s == "Critical"@ {
        NetworkPriority::Critical
    } else if s == "High"@ {
        NetworkPriority::High
    } else if s == "Normal"@ {
        NetworkPriority::Normal
    } else if s == "Low"@ {
        NetworkPriority::Low
    } else {
        NetworkPriority::Normal
    }
}

/// The name under which a relevancy level is stored.
pub open spec fn level_name(l: RelevancyLevel) -> Seq<char> {
    match l {
        RelevancyLevel::AlwaysRelevant => "AlwaysRelevant"@,
        RelevancyLevel::OwnerOnly => "OwnerOnly"@,
        RelevancyLevel::DistanceBased => "DistanceBased"@,
        RelevancyLevel::SameZone => "SameZone"@,
        RelevancyLevel::Custom => "Custom"@,
        RelevancyLevel::NeverRelevant => "NeverRelevant"@,
    }
}

/// The name under which an update frequency is stored.
pub open spec fn frequency_name(f: UpdateFrequency) -> Seq<char> {
    match f {
        UpdateFrequency::High => "High"@,
        UpdateFrequency::Medium => "Medium"@,
        UpdateFrequency::Low => "Low"@,
        UpdateFrequency::OnDemand => "OnDemand"@,
    }
}

/// The name under which a network priority is stored.
pub open spec fn priority_name(p: NetworkPriority) -> Seq<char> {
    match p {
        NetworkPriority::Critical => "Critical"@,
        NetworkPriority::High => "High"@,
        NetworkPriority::Normal => "Normal"@,
        NetworkPriority::Low => "Low"@,
    }
}

/// The settings a stored row describes.
pub open spec fn entry_settings(e: RelevancySettingsEntry) -> RelevancySettings {
    RelevancySettings {
        object_id: e.object_id,
        level: level_from_name(e.relevancy_level@),
        frequency: frequency_from_name(e.update_frequency@),
        priority: priority_from_name(e.network_priority@),
        max_distance: e.max_distance,
    }
}

impl RelevancySettingsEntry {
    pub fn get_relevancy_level(&self) -> (r: RelevancyLevel)
        ensures
            r == level_from_name(self.relevancy_level@),
    {
        let s = self.relevancy_level.as_str();
        if str_eq(s, "AlwaysRelevant") {
            RelevancyLevel::AlwaysRelevant
        } else if str_eq(s, "OwnerOnly") {
            RelevancyLevel::OwnerOnly
        } else if str_eq(s, "DistanceBased") {
            RelevancyLevel::DistanceBased
        } else if str_eq(s, "SameZone") {
            RelevancyLevel::SameZone
        } else if str_eq(s, "Custom") {
            RelevancyLevel::Custom
        } else if str_eq(s, "NeverRelevant") {
            RelevancyLevel::NeverRelevant
        } else {
            RelevancyLevel::AlwaysRelevant
        }
    }

    pub fn get_update_frequency(&self) -> (r: UpdateFrequency)
        ensures
            r == frequency_from_name(self.update_frequency@),
    {
        let s = self.update_frequency.as_str();
        if str_eq(s, "High") {
            UpdateFrequency::High
        } else if str_eq(s, "Medium") {
            UpdateFrequency::Medium
        } else if str_eq(s, "Low") {
            UpdateFrequency::Low
        } else if str_eq(s, "OnDemand") {
            UpdateFrequency::OnDemand
        } else {
            UpdateFrequency::Medium
        }
    }

    pub fn get_network_priority(&self) -> (r: NetworkPriority)
        ensures
            r == priority_from_name(self.network_priority@),
    {
        let s = self.network_priority.as_str();
        if str_eq(s, "Critical") {
            NetworkPriority::Critical
        } else if str_eq(s, "High") {
            NetworkPriority::High
        } else if str_eq(s, "Normal") {
            NetworkPriority::Normal
        } else if str_eq(s, "Low") {
            NetworkPriority::Low
        } else {
            NetworkPriority::Normal
        }
    }
}

/// The stored name of a relevancy level.
pub fn relevancy_level_name(l: RelevancyLevel) -> (r: &'static str)
    ensures
        r@ == level_name(l),
{
    match l {
        RelevancyLevel::AlwaysRelevant => "AlwaysRelevant",
        RelevancyLevel::OwnerOnly => "OwnerOnly",
        RelevancyLevel::DistanceBased => "DistanceBased",
        RelevancyLevel::SameZone => "SameZone",
        RelevancyLevel::Custom => "Custom",
        RelevancyLevel::NeverRelevant => "NeverRelevant",
    }
}

/// The stored name of an update frequency.
pub fn update_frequency_name(f: UpdateFrequency) -> (r: &'static str)
    ensures
        r@ == frequency_name(f),
{
    match f {
        UpdateFrequency::High => "High",
        UpdateFrequency::Medium => "Medium",
        UpdateFrequency::Low => "Low",
        UpdateFrequency::OnDemand => "OnDemand",
    }
}

/// The stored name of a network priority.
pub fn network_priority_name(p: NetworkPriority) -> (r: &'static str)
    ensures
        r@ == priority_name(p),
{
    match p {
        NetworkPriority::Critical => "Critical",
        NetworkPriority::High => "High",
        NetworkPriority::Normal => "Normal",
        NetworkPriority::Low => "Low",
    }
}

/// The relevancy tables of the database.
pub struct RelevancyTables {
    pub zones: Vec<RelevancyZone>,
    pub memberships: Vec<ZoneMembershipEntry>,
    pub settings: Vec<RelevancySettingsEntry>,
}

/// The zone of the relevancy system that everything starts in.
pub const GLOBAL_ZONE_ID: u32 = 0;

/// Initialize the relevancy tables: when there is no zone, the global zone is created.
pub fn init_relevancy(tables: &mut RelevancyTables)
    ensures
        old(tables).zones@.len() == 0 ==> final(tables).zones@.len() == 1
            && final(tables).zones@[0].zone_id == GLOBAL_ZONE_ID && final(tables).zones@[0].name@ == "Global"@
            && final(tables).zones@[0].active && final(tables).zones@[0].owner_address is None,
        old(tables).zones@.len() != 0 ==> final(tables).zones@ == old(tables).zones@,
        final(tables).memberships@ == old(tables).memberships@,
        final(tables).settings@ == old(tables).settings@,
{
    if tables.zones.len() == 0 {
        tables.zones.push(RelevancyZone { zone_id: GLOBAL_ZONE_ID, name: owned("Global"), active: true, owner_address: None });
    }
}

/// The settings of the settings table, by object (a later row replaces an earlier one).
pub open spec fn settings_from(rows: Seq<RelevancySettingsEntry>) -> Map<ObjectId, RelevancySettings>
    decreases rows.len(),
{
    if rows.len() == 0 {
        Map::empty()
    } else {
        settings_from(rows.drop_last()).insert(rows.last().object_id, entry_settings(rows.last()))
    }
}

/// The zones of entity `e` in a zone map (none when it has no entry).
pub open spec fn zones_of(m: Map<u64, Set<u32>>, e: u64) -> Set<u32> {
    if m.contains_key(e) { m[e] } else { Set::empty() }
}

/// The zones of every entity named in the membership table.
pub open spec fn memberships_from(rows: Seq<ZoneMembershipEntry>) -> Map<u64, Set<u32>>
    decreases rows.len(),
{
    if rows.len() == 0 {
        Map::empty()
    } else {
        let m = memberships_from(rows.drop_last());
        m.insert(rows.last().entity_id, zones_of(m, rows.last().entity_id).insert(rows.last().zone_id))
    }
}

/// Whether an object with update frequency `f` is updated on tick `tick`.
pub open spec fn updates_on_tick(tick: u32, f: UpdateFrequency) -> bool {
    match f {
        UpdateFrequency::High => true,
        UpdateFrequency::Medium => tick % 2 == 0,
        UpdateFrequency::Low => tick % 4 == 0,
        UpdateFrequency::OnDemand => false,
    }
}

/// How often each update frequency comes due: high on every tick, medium on
/// the even ticks, low on every fourth tick (those divisible by 4), and
/// on-demand never by itself.
pub proof fn law_update_frequencies(tick: u32)
    ensures
        updates_on_tick(tick, UpdateFrequency::High),
        updates_on_tick(tick, UpdateFrequency::Medium) <==> tick % 2 == 0,
        updates_on_tick(tick, UpdateFrequency::Low) <==> tick % 4 == 0,
        !updates_on_tick(tick, UpdateFrequency::OnDemand),
{
}

/// Whether object `o` is relevant to a client in zones `client_zones`, given
/// whether the two are within the object's relevant distance. Objects without
/// settings are relevant; so are those with custom relevancy.
pub open spec fn spec_relevant(
    settings: Map<ObjectId, RelevancySettings>,
    zones: Map<u64, Set<u32>>,
    o: ObjectId,
    client_zones: Set<u32>,
    within_distance: bool,
) -> bool {
    if !settings.contains_key(o) {
        true
    } else {
        match settings[o].level {
            RelevancyLevel::AlwaysRelevant => true,
            RelevancyLevel::OwnerOnly => false,
            RelevancyLevel::DistanceBased => within_distance,
            RelevancyLevel::SameZone => exists|z: u32| client_zones.contains(z) && #[trigger] zones_of(zones, o).contains(z),
            RelevancyLevel::Custom => true,
            RelevancyLevel::NeverRelevant => false,
        }
    }
}

/// Determines which objects are replicated to which clients.
pub struct RelevancyManager {
    relevancy_settings: AssocMap<u64, RelevancySettings>,
    zone_memberships: AssocMap<u64, Vec<u32>>,
    relevancy_cache: AssocMap<u64, Vec<u64>>,
    tick_counter: u32,
}

impl RelevancyManager {
    /// The cached settings, by object.
    pub closed spec fn settings(self) -> Map<ObjectId, RelevancySettings> {
        self.relevancy_settings@
    }

    /// The cached zones, by entity.
    pub closed spec fn zones(self) -> Map<u64, Set<u32>> {
        self.zone_memberships@.map_values(|v: Vec<u32>| v@.to_set())
    }

    /// The objects to update, by client.
    pub closed spec fn cache(self) -> Map<u64, Set<ObjectId>> {
        self.relevancy_cache@.map_values(|v: Vec<u64>| v@.to_set())
    }

    /// The tick counter.
    pub closed spec fn tick(self) -> u32 {
        self.tick_counter
    }

    /// Create a new relevancy manager.
    pub fn new() -> (m: Self)
        ensures
            m.settings() == Map::<ObjectId, RelevancySettings>::empty(),
            m.zones() == Map::<u64, Set<u32>>::empty(),
            m.cache() == Map::<u64, Set<ObjectId>>::empty(),
            m.tick() == 0,
    {
        let m = RelevancyManager {
            relevancy_settings: AssocMap::new(),
            zone_memberships: AssocMap::new(),
            relevancy_cache: AssocMap::new(),
            tick_counter: 0,
        };
        assert(m.zones() =~= Map::<u64, Set<u32>>::empty());
        assert(m.cache() =~= Map::<u64, Set<ObjectId>>::empty());
        m
    }

    /// Check if an object should update on the current tick based on its frequency.
    pub fn should_update_on_current_tick(&self, frequency: &UpdateFrequency) -> (r: bool)
        ensures
            r == updates_on_tick(self.tick(), *frequency),
            *frequency == UpdateFrequency::High ==> r,
            *frequency == UpdateFrequency::Medium ==> (r <==> self.tick() % 2 == 0),
            *frequency == UpdateFrequency::Low ==> (r <==> self.tick() % 4 == 0),
            *frequency == UpdateFrequency::OnDemand ==> !r,
    {
        match frequency {
            UpdateFrequency::High => true,
            UpdateFrequency::Medium => self.tick_counter % 2 == 0,
            UpdateFrequency::Low => self.tick_counter % 4 == 0,
            UpdateFrequency::OnDemand => false,
        }
    }

    /// Get the zones an entity (client or object) belongs to.
    pub fn get_entity_zones(&self, entity_id: u64, is_client: bool) -> (r: Vec<u32>)
        ensures
            r@.to_set() == zones_of(self.zones(), entity_id),
    {
        match self.zone_memberships.get(&entity_id) {
            Some(zones) => {
                let r = zones.clone();
                assert(r@ =~= zones@);
                r
            },
            None => {
                let r: Vec<u32> = Vec::new();
                assert(r@.to_set() =~= Set::<u32>::empty());
                r
            },
        }
    }

    /// Check if an object is currently relevant to a client in zones
    /// `client_zones`; `within_distance` tells whether the two are within the
    /// object's relevant distance.
    pub fn is_object_relevant_to_client(&self, object_id: ObjectId, client_id: u64, client_zones: &Vec<u32>, within_distance: bool) -> (r: bool)
        ensures
            r == spec_relevant(self.settings(), self.zones(), object_id, client_zones@.to_set(), within_distance),
    {
        match self.relevancy_settings.get(&object_id) {
            Some(settings) => match settings.level {
                RelevancyLevel::AlwaysRelevant => true,
                RelevancyLevel::OwnerOnly => false,
                RelevancyLevel::DistanceBased => within_distance,
                RelevancyLevel::SameZone => {
                    let object_zones = self.get_entity_zones(object_id, false);
                    shares_zone(client_zones, &object_zones)
                },
                RelevancyLevel::Custom => true,
                RelevancyLevel::NeverRelevant => false,
            },
            None => true,
        }
    }

    /// Get the objects to update for a client, if it is in the cache.
    pub fn get_relevant_objects_for_client(&self, client_id: u64) -> (r: Option<&Vec<ObjectId>>)
        ensures
            match r {
                Some(v) => self.cache().contains_key(client_id) && v@.to_set() == self.cache()[client_id],
                None => !self.cache().contains_key(client_id),
            },
    {
        self.relevancy_cache.get(&client_id)
    }

    /// Reload the cached settings and zones from the tables.
    pub fn reload_settings(&mut self, tables: &RelevancyTables)
        ensures
            final(self).settings() == settings_from(tables.settings@),
            final(self).zones() == memberships_from(tables.memberships@),
            final(self).cache() == old(self).cache(),
            final(self).tick() == old(self).tick(),
    {
        let mut settings: AssocMap<u64, RelevancySettings> = AssocMap::new();
        let n = tables.settings.len();
        let mut i: usize = 0;
        while i < n
            invariant
                n == tables.settings@.len(),
                i <= n,
                settings@ == settings_from(tables.settings@.take(i as int)),
            decreases n - i,
        {
            let entry = &tables.settings[i];
            let s = RelevancySettings {
                object_id: entry.object_id,
                level: entry.get_relevancy_level(),
                frequency: entry.get_update_frequency(),
                priority: entry.get_network_priority(),
                max_distance: entry.max_distance,
            };
            settings.insert(entry.object_id, s);
            proof {
                assert(tables.settings@.take(i + 1).drop_last() =~= tables.settings@.take(i as int));
            }
            i = i + 1;
        }
        assert(tables.settings@.take(n as int) =~= tables.settings@);
        let mut zones: AssocMap<u64, Vec<u32>> = AssocMap::new();
        let m = tables.memberships.len();
        let mut j: usize = 0;
        while j < m
            invariant
                m == tables.memberships@.len(),
                j <= m,
                zones@.map_values(|v: Vec<u32>| v@.to_set()) == memberships_from(tables.memberships@.take(j as int)),
            decreases m - j,
        {
            let entry = tables.memberships[j];
            let ghost before = zones@.map_values(|v: Vec<u32>| v@.to_set());
            let mut list = match zones.remove(&entry.entity_id) {
                Some(v) => v,
                None => Vec::new(),
            };
            let ghost l0 = list@;
            assert(l0.to_set() =~= zones_of(before, entry.entity_id));
            list.push(entry.zone_id);
            proof {
                l0.lemma_push_to_set_commute(entry.zone_id);
            }
            assert(list@.to_set() =~= l0.to_set().insert(entry.zone_id));
            zones.insert(entry.entity_id, list);
            proof {
                assert(tables.memberships@.take(j + 1).drop_last() =~= tables.memberships@.take(j as int));
                assert(zones@.map_values(|v: Vec<u32>| v@.to_set()) =~= before.insert(entry.entity_id,
                    zones_of(before, entry.entity_id).insert(entry.zone_id)));
            }
            j = j + 1;
        }
        assert(tables.memberships@.take(m as int) =~= tables.memberships@);
        self.relevancy_settings = settings;
        self.zone_memberships = zones;
    }
}

/// Whether two zone lists have a zone in common.
fn shares_zone(a: &Vec<u32>, b: &Vec<u32>) -> (r: bool)
    ensures
        r == exists|z: u32| a@.to_set().contains(z) && #[trigger] b@.to_set().contains(z),
{
    let n = a.len();
    let mut i: usize = 0;
    while i < n
        invariant
            n == a@.len(),
            i <= n,
            forall|k: int| 0 <= k < i ==> !b@.contains(#[trigger] a@[k]),
        decreases n - i,
    {
        let z = a[i];
        let m = b.len();
        let mut j: usize = 0;
        while j < m
            invariant
                m == b@.len(),
                n == a@.len(),
                i < n,
                z == a@[i as int],
                j <= m,
                forall|k: int| 0 <= k < j ==> b@[k] != z,
            decreases m - j,
        {
            if b[j] == z {
                assert(a@[i as int] == z && b@[j as int] == z);
                assert(a@.contains(z) && b@.contains(z));
                assert(a@.to_set().contains(z) && b@.to_set().contains(z));
                return true;
            }
            j = j + 1;
        }
        i = i + 1;
    }
    assert forall|z: u32| a@.to_set().contains(z) implies !#[trigger] b@.to_set().contains(z) by {
        let k = choose|k: int| 0 <= k < a@.len() && a@[k] == z;
        assert(!b@.contains(a@[k]));
    }
    false
}

/// The tick after tick `t` (the counter wraps around).
pub open spec fn next_tick(t: u32) -> u32 {
    if t == u32::MAX { 0 } else { (t + 1) as u32 }
}

/// The objects to update for `client` on tick `tick`: those with settings that
/// are relevant to it and due on that tick. `near` lists the (object, client)
/// pairs that are within the object's relevant distance.
pub open spec fn relevant_set(
    settings: Map<ObjectId, RelevancySettings>,
    zones: Map<u64, Set<u32>>,
    tick: u32,
    client: u64,
    near: Seq<(ObjectId, u64)>,
) -> Set<ObjectId> {
    Set::new(|o: ObjectId| settings.contains_key(o)
        && spec_relevant(settings, zones, o, zones_of(zones, client), near.contains((o, client)))
        && updates_on_tick(tick, settings[o].frequency))
}

/// Which objects a client is sent on a tick: exactly those with settings
/// whose level makes them relevant to it (always-relevant and custom ones
/// always; distance-based ones when near it; same-zone ones when they share
/// a zone with it; owner-only and never-relevant ones not) and whose update
/// frequency is due on that tick (high always, medium on even ticks, low on
/// ticks divisible by 4, on-demand never).
pub proof fn law_relevant_set(settings: Map<ObjectId, RelevancySettings>, zones: Map<u64, Set<u32>>, tick: u32,
    client: u64, near: Seq<(ObjectId, u64)>, o: ObjectId)
    ensures
        relevant_set(settings, zones, tick, client, near).contains(o) <==> settings.contains_key(o)
            && (match settings[o].level {
                RelevancyLevel::AlwaysRelevant => true,
                RelevancyLevel::Custom => true,
                RelevancyLevel::OwnerOnly => false,
                RelevancyLevel::NeverRelevant => false,
                RelevancyLevel::DistanceBased => near.contains((o, client)),
                RelevancyLevel::SameZone => exists|z: u32| zones_of(zones, client).contains(z)
                    && #[trigger] zones_of(zones, o).contains(z),
            })
            && (match settings[o].frequency {
                UpdateFrequency::High => true,
                UpdateFrequency::Medium => tick % 2 == 0,
                UpdateFrequency::Low => tick % 4 == 0,
                UpdateFrequency::OnDemand => false,
            }),
{
}

fn contains_pair(near: &Vec<(ObjectId, u64)>, o: ObjectId, c: u64) -> (r: bool)
    ensures
        r == near@.contains((o, c)),
{
    let n = near.len();
    let mut i: usize = 0;
    while i < n
        invariant
            n == near@.len(),
            i <= n,
            forall|k: int| 0 <= k < i ==> near@[k] != (o, c),
        decreases n - i,
    {
        if near[i].0 == o && near[i].1 == c {
            assert(near@[i as int] == (o, c));
            return true;
        }
        i = i + 1;
    }
    false
}

impl RelevancyManager {
    fn relevant_objects_for(&self, client_id: u64, near: &Vec<(ObjectId, u64)>) -> (r: Vec<ObjectId>)
        ensures
            r@.to_set() == relevant_set(self.settings(), self.zones(), self.tick(), client_id, near@),
    {
        let client_zones = self.get_entity_zones(client_id, true);
        let n = self.relevancy_settings.len();
        let ghost ks = self.relevancy_settings.key_seq();
        let ghost target = relevant_set(self.settings(), self.zones(), self.tick(), client_id, near@);
        let mut out: Vec<ObjectId> = Vec::new();
        let mut j: usize = 0;
        while j < n
            invariant
                n == ks.len(),
                ks == self.relevancy_settings.key_seq(),
                client_zones@.to_set() == zones_of(self.zones(), client_id),
                target == relevant_set(self.settings(), self.zones(), self.tick(), client_id, near@),
                j <= n,
                out@.to_set() == Set::new(|o: ObjectId| ks.take(j as int).contains(o) && target.contains(o)),
            decreases n - j,
        {
            let (k, settings) = self.relevancy_settings.entry_at(j);
            let object_id = *k;
            let within = contains_pair(near, object_id, client_id);
            let ghost o0 = out@;
            if self.is_object_relevant_to_client(object_id, client_id, &client_zones, within)
                && self.should_update_on_current_tick(&settings.frequency) {
                out.push(object_id);
                proof {
                    o0.lemma_push_to_set_commute(object_id);
                }
            }
            proof {
                assert(ks.take(j + 1) =~= ks.take(j as int).push(object_id));
                assert forall|o: ObjectId| ks.take(j + 1).contains(o) implies ks.take(j as int).contains(o) || o == object_id by {
                    let q = choose|q: int| 0 <= q < ks.take(j + 1).len() && #[trigger] ks.take(j + 1)[q] == o;
                    if q < j {
                        assert(ks.take(j as int)[q] == o);
                    }
                }
                assert forall|o: ObjectId| ks.take(j as int).contains(o) implies ks.take(j + 1).contains(o) by {
                    let q = choose|q: int| 0 <= q < ks.take(j as int).len() && #[trigger] ks.take(j as int)[q] == o;
                    assert(ks.take(j + 1)[q] == o);
                }
                assert(ks.take(j + 1)[j as int] == object_id);
                assert(out@.to_set() =~= Set::new(|o: ObjectId| ks.take(j + 1).contains(o) && target.contains(o)));
            }
            j = j + 1;
        }
        proof {
            self.relevancy_settings.lemma_dom();
            assert(ks.take(n as int) =~= ks);
            assert(out@.to_set() =~= target);
        }
        out
    }

    /// Advance the tick, reload the settings and zones from the tables and
    /// recompute, for every connected client, the objects to update on this
    /// tick. `near` lists the (object, client) pairs within the object's
    /// relevant distance.
    pub fn update_relevancy_cache(&mut self, tables: &RelevancyTables, clients: &Vec<u64>, near: &Vec<(ObjectId, u64)>)
        ensures
            final(self).tick() == next_tick(old(self).tick()),
            final(self).settings() == settings_from(tables.settings@),
            final(self).zones() == memberships_from(tables.memberships@),
            final(self).cache() == Map::new(|c: u64| clients@.contains(c),
                |c: u64| relevant_set(final(self).settings(), final(self).zones(), final(self).tick(), c, near@)),
    {
        self.tick_counter = if self.tick_counter == u32::MAX { 0 } else { self.tick_counter + 1 };
        self.relevancy_cache = AssocMap::new();
        self.reload_settings(tables);
        let n = clients.len();
        let mut i: usize = 0;
        while i < n
            invariant
                n == clients@.len(),
                i <= n,
                self.tick() == next_tick(old(self).tick()),
                self.settings() == settings_from(tables.settings@),
                self.zones() == memberships_from(tables.memberships@),
                self.cache() == Map::new(|c: u64| clients@.take(i as int).contains(c),
                    |c: u64| relevant_set(self.settings(), self.zones(), self.tick(), c, near@)),
            decreases n - i,
        {
            let client_id = clients[i];
            let objs = self.relevant_objects_for(client_id, near);
            let ghost before = self.cache();
            let mut cache = AssocMap::new();
            std::mem::swap(&mut cache, &mut self.relevancy_cache);
            cache.insert(client_id, objs);
            self.relevancy_cache = cache;
            proof {
                assert forall|c: u64| clients@.take(i + 1).contains(c) <==> (clients@.take(i as int).contains(c) || c == client_id) by {
                    if clients@.take(i + 1).contains(c) {
                        let q = choose|q: int| 0 <= q < clients@.take(i + 1).len() && #[trigger] clients@.take(i + 1)[q] == c;
                        if q < i {
                            assert(clients@.take(i as int)[q] == c);
                        }
                    }
                    if clients@.take(i as int).contains(c) {
                        let q = choose|q: int| 0 <= q < clients@.take(i as int).len() && #[trigger] clients@.take(i as int)[q] == c;
                        assert(clients@.take(i + 1)[q] == c);
                    }
                    assert(clients@.take(i + 1)[i as int] == client_id);
                }
                assert(self.cache() =~= before.insert(client_id, objs@.to_set()));
                let target = Map::new(|c: u64| clients@.take(i + 1).contains(c),
                    |c: u64| relevant_set(self.settings(), self.zones(), self.tick(), c, near@));
                assert forall|c: u64| #[trigger] self.cache().contains_key(c) <==> target.contains_key(c) by {
                    assert(before.contains_key(c) <==> clients@.take(i as int).contains(c));
                }
                assert forall|c: u64| #[trigger] self.cache().contains_key(c) implies self.cache()[c] == target[c] by {
                    if c != client_id {
                        assert(before.contains_key(c));
                        assert(before[c] == relevant_set(self.settings(), self.zones(), self.tick(), c, near@));
                    }
                }
                assert(self.cache() =~= Map::new(|c: u64| clients@.take(i + 1).contains(c),
                    |c: u64| relevant_set(self.settings(), self.zones(), self.tick(), c, near@)));
            }
            i = i + 1;
        }
        assert(clients@.take(n as int) =~= clients@);
    }
}

/// Filter a list of objects to only those relevant to a client (all of them
/// when the client is not in the cache).
pub fn filter_relevant_objects(manager: &RelevancyManager, client_id: u64, object_ids: &Vec<ObjectId>) -> (r: Vec<ObjectId>)
    ensures
        manager.cache().contains_key(client_id) ==> r@ == object_ids@.filter(|o: ObjectId| manager.cache()[client_id].contains(o)),
        !manager.cache().contains_key(client_id) ==> r@ == object_ids@,
{
    match manager.get_relevant_objects_for_client(client_id) {
        Some(relevant) => {
            let ghost keep = |o: ObjectId| manager.cache()[client_id].contains(o);
            let mut out: Vec<ObjectId> = Vec::new();
            let n = object_ids.len();
            let mut i: usize = 0;
            while i < n
                invariant
                    n == object_ids@.len(),
                    i <= n,
                    manager.cache().contains_key(client_id),
                    relevant@.to_set() == manager.cache()[client_id],
                    keep == (|o: ObjectId| manager.cache()[client_id].contains(o)),
                    out@ == object_ids@.take(i as int).filter(keep),
                decreases n - i,
            {
                proof {
                    reveal(Seq::filter);
                    assert(object_ids@.take(i + 1).drop_last() =~= object_ids@.take(i as int));
                }
                let id = object_ids[i];
                if vec_contains_u64(relevant, id) {
                    out.push(id);
                }
                i = i + 1;
            }
            assert(object_ids@.take(n as int) =~= object_ids@);
            out
        },
        None => {
            let mut out: Vec<ObjectId> = Vec::new();
            let n = object_ids.len();
            let mut i: usize = 0;
            while i < n
                invariant
                    n == object_ids@.len(),
                    i <= n,
                    out@ == object_ids@.take(i as int),
                decreases n - i,
            {
                out.push(object_ids[i]);
                assert(out@ =~= object_ids@.take(i + 1));
                i = i + 1;
            }
            assert(object_ids@.take(n as int) =~= object_ids@);
            out
        },
    }
}

/// Whether `x` occurs in `v`.
pub fn vec_contains_u64(v: &Vec<u64>, x: u64) -> (r: bool)
    ensures
        r == v@.contains(x),
        r == v@.to_set().contains(x),
{
    let n = v.len();
    let mut i: usize = 0;
    while i < n
        invariant
            n == v@.len(),
            i <= n,
            forall|k: int| 0 <= k < i ==> v@[k] != x,
        decreases n - i,
    {
        if v[i] == x {
            assert(v@[i as int] == x);
            return true;
        }
        i = i + 1;
    }
    false
}

/// Check if a specific object is relevant to a client (true when the client
/// is not in the cache).
pub fn is_object_relevant_to_client(manager: &RelevancyManager, object_id: ObjectId, client_id: u64) -> (r: bool)
    ensures
        r == (!manager.cache().contains_key(client_id) || manager.cache()[client_id].contains(object_id)),
{
    match manager.get_relevant_objects_for_client(client_id) {
        Some(relevant) => vec_contains_u64(relevant, object_id),
        None => true,
    }
}

/// The relevancy levels decide which clients get an object that is due on a
/// tick: always-relevant (and custom) objects go to every client, owner-only
/// and never-relevant ones to none through the cache, distance-based ones to
/// the clients within their distance, and zone-based ones to the clients that
/// share a zone with them.
pub proof fn law_relevancy_levels(
    settings: Map<ObjectId, RelevancySettings>,
    zones: Map<u64, Set<u32>>,
    tick: u32,
    client: u64,
    near: Seq<(ObjectId, u64)>,
    o: ObjectId,
)
    requires
        settings.contains_key(o),
        updates_on_tick(tick, settings[o].frequency),
    ensures
        ({
            let got = relevant_set(settings, zones, tick, client, near).contains(o);
            match settings[o].level {
                RelevancyLevel::AlwaysRelevant | RelevancyLevel::Custom => got,
                RelevancyLevel::OwnerOnly | RelevancyLevel::NeverRelevant => !got,
                RelevancyLevel::DistanceBased => got == near.contains((o, client)),
                RelevancyLevel::SameZone => got == exists|z: u32| zones_of(zones, client).contains(z)
                    && #[trigger] zones_of(zones, o).contains(z),
            }
        }),
{
}

} // verus!
