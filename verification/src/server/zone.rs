//! Zone-based relevancy: objects and clients are organized into zones, and
//! objects in a zone are relevant to clients in the same zone.
use vstd::prelude::*;
use crate::server::relevancy::{RelevancyManager, RelevancyTables, RelevancyZone, ZoneMembershipEntry, GLOBAL_ZONE_ID, RelevancySettingsEntry,
    level_name, frequency_name, priority_name, relevancy_level_name, update_frequency_name, network_priority_name};
use crate::shared::types::ObjectId;
use crate::shared::relevancy::{RelevancyLevel, UpdateFrequency, NetworkPriority};
use crate::text::{owned, with_number, decimal};

verus! {

/// A zone row, with its name as a character sequence.
pub type ZoneView = (u32, Seq<char>, bool, Option<u128>);

impl View for RelevancyZone {
    type V = ZoneView;

    open spec fn view(&self) -> ZoneView {
        (self.zone_id, self.name@, self.active, self.owner_address)
    }
}

/// The zone rows.
pub open spec fn zone_views(zs: Seq<RelevancyZone>) -> Seq<ZoneView> {
    zs.map_values(|z: RelevancyZone| z@)
}

/// Whether a zone with ID `z` exists.
pub open spec fn zone_exists(zs: Seq<ZoneView>, z: u32) -> bool {
    exists|i: int| 0 <= i < zs.len() && (#[trigger] zs[i]).0 == z
}

/// Whether entity `e` is a member of zone `z`.
pub open spec fn is_member(ms: Seq<ZoneMembershipEntry>, e: u64, z: u32) -> bool {
    exists|i: int| 0 <= i < ms.len() && (#[trigger] ms[i]).entity_id == e && ms[i].zone_id == z
}

/// Which membership rows a deletion removes.
pub enum MemberMatch {
    /// The rows of an entity in a zone.
    Pair(u64, u32),
    /// The rows of a zone.
    Zone(u32),
    /// The rows of an entity in any of the listed zones.
    EntityInZones(u64, Vec<u32>),
}

/// Whether a deletion removes row `r`.
pub open spec fn member_matches(m: MemberMatch, r: ZoneMembershipEntry) -> bool {
    match m {
        MemberMatch::Pair(e, z) => r.entity_id == e && r.zone_id == z,
        MemberMatch::Zone(z) => r.zone_id == z,
        MemberMatch::EntityInZones(e, zs) => r.entity_id == e && zs@.contains(r.zone_id),
    }
}

/// The predicate that keeps the rows a deletion does not remove.
pub open spec fn kept_by(m: MemberMatch) -> spec_fn(ZoneMembershipEntry) -> bool {
    |r: ZoneMembershipEntry| !member_matches(m, r)
}

fn u32_in(v: &Vec<u32>, x: u32) -> (r: bool)
    ensures
        r == v@.contains(x),
{
    let n = v.len();
    let mut i: usize = 0;
    while i < n
        invariant
            n == v@.len(),
            i <= n,
            forall|k: int| 0 <= k < i ==> v@[k] != x,
        decreases n - i,
    {
        if v[i] == x {
            assert(v@[i as int] == x);
            return true;
        }
        i = i + 1;
    }
    false
}

fn matches_row(m: &MemberMatch, r: ZoneMembershipEntry) -> (b: bool)
    ensures
        b == member_matches(*m, r),
{
    match m {
        MemberMatch::Pair(e, z) => r.entity_id == *e && r.zone_id == *z,
        MemberMatch::Zone(z) => r.zone_id == *z,
        MemberMatch::EntityInZones(e, zs) => r.entity_id == *e && u32_in(zs, r.zone_id),
    }
}

/// Delete the membership rows that `m` matches.
pub fn remove_members(ms: &mut Vec<ZoneMembershipEntry>, m: &MemberMatch)
    ensures
        final(ms)@ == old(ms)@.filter(kept_by(*m)),
{
    let ghost all = ms@;
    let mut out: Vec<ZoneMembershipEntry> = Vec::new();
    let n = ms.len();
    let mut i: usize = 0;
    while i < n
        invariant
            n == all.len(),
            *ms == *old(ms),
            all == old(ms)@,
            i <= n,
            out@ == all.take(i as int).filter(kept_by(*m)),
        decreases n - i,
    {
        proof {
            reveal(Seq::filter);
            assert(all.take(i + 1).drop_last() =~= all.take(i as int));
        }
        let r = ms[i];
        if !matches_row(m, r) {
            out.push(r);
        }
        i = i + 1;
    }
    assert(all.take(n as int) =~= all);
    *ms = out;
}

fn zone_index(zones: &Vec<RelevancyZone>, zone_id: u32) -> (r: Option<usize>)
    ensures
        match r {
            Some(i) => i < zones@.len() && zones@[i as int].zone_id == zone_id
                && forall|k: int| 0 <= k < i ==> zones@[k].zone_id != zone_id,
            None => !zone_exists(zone_views(zones@), zone_id),
        },
{
    let n = zones.len();
    let mut i: usize = 0;
    while i < n
        invariant
            n == zones@.len(),
            i <= n,
            forall|k: int| 0 <= k < i ==> zones@[k].zone_id != zone_id,
        decreases n - i,
    {
        if zones[i].zone_id == zone_id {
            return Some(i);
        }
        i = i + 1;
    }
    assert forall|k: int| 0 <= k < zone_views(zones@).len() implies (#[trigger] zone_views(zones@)[k]).0 != zone_id by {
        assert(zone_views(zones@)[k] == zones@[k]@);
    }
    None
}

fn member_exists(ms: &Vec<ZoneMembershipEntry>, entity_id: u64, zone_id: u32) -> (r: bool)
    ensures
        r == is_member(ms@, entity_id, zone_id),
{
    let n = ms.len();
    let mut i: usize = 0;
    while i < n
        invariant
            n == ms@.len(),
            i <= n,
            forall|k: int| 0 <= k < i ==> !(ms@[k].entity_id == entity_id && ms@[k].zone_id == zone_id),
        decreases n - i,
    {
        if ms[i].entity_id == entity_id && ms[i].zone_id == zone_id {
            assert(ms@[i as int].entity_id == entity_id && ms@[i as int].zone_id == zone_id);
            return true;
        }
        i = i + 1;
    }
    false
}

/// The error for a zone that does not exist.
pub open spec fn missing_zone_message(zone_id: u32) -> Seq<char> {
    "Zone with ID "@ + decimal(zone_id as nat) + " does not exist"@
}

/// Add an entity to a zone; nothing changes when it is a member already.
pub fn add_entity_to_zone(tables: &mut RelevancyTables, entity_id: u64, is_client: bool, zone_id: u32) -> (r: Result<(), String>)
    ensures
        !zone_exists(zone_views(old(tables).zones@), zone_id) ==> (r matches Err(e) && e@ == missing_zone_message(zone_id))
            && final(tables).memberships@ == old(tables).memberships@,
        zone_exists(zone_views(old(tables).zones@), zone_id) ==> r is Ok && final(tables).memberships@ == (
            if is_member(old(tables).memberships@, entity_id, zone_id) {
                old(tables).memberships@
            } else {
                old(tables).memberships@.push(ZoneMembershipEntry { entity_id, is_client, zone_id })
            }),
        final(tables).zones@ == old(tables).zones@,
        final(tables).settings@ == old(tables).settings@,
{
    match zone_index(&tables.zones, zone_id) {
        None => return Err(with_number("Zone with ID ", zone_id as u64, " does not exist")),
        Some(i) => {
            assert(zone_views(tables.zones@)[i as int].0 == zone_id);
        },
    }
    if !member_exists(&tables.memberships, entity_id, zone_id) {
        tables.memberships.push(ZoneMembershipEntry { entity_id, is_client, zone_id });
    }
    Ok(())
}

/// Remove an entity from a zone.
pub fn remove_entity_from_zone(tables: &mut RelevancyTables, entity_id: u64, zone_id: u32) -> (r: Result<(), String>)
    ensures
        r is Ok,
        final(tables).memberships@ == old(tables).memberships@.filter(kept_by(MemberMatch::Pair(entity_id, zone_id))),
        final(tables).zones@ == old(tables).zones@,
        final(tables).settings@ == old(tables).settings@,
{
    remove_members(&mut tables.memberships, &MemberMatch::Pair(entity_id, zone_id));
    Ok(())
}

/// The largest zone ID, or 0 when there is no zone.
pub open spec fn max_zone_id(zs: Seq<ZoneView>) -> nat
    decreases zs.len(),
{
    if zs.len() == 0 {
        0
    } else {
        let m = max_zone_id(zs.drop_last());
        if zs.last().0 > m { zs.last().0 as nat } else { m }
    }
}

proof fn lemma_max_zone_id(zs: Seq<ZoneView>)
    ensures
        forall|i: int| 0 <= i < zs.len() ==> (#[trigger] zs[i]).0 <= max_zone_id(zs),
        zs.len() == 0 || exists|i: int| 0 <= i < zs.len() && (#[trigger] zs[i]).0 == max_zone_id(zs),
    decreases zs.len(),
{
    if zs.len() > 0 {
        lemma_max_zone_id(zs.drop_last());
        assert forall|i: int| 0 <= i < zs.len() implies (#[trigger] zs[i]).0 <= max_zone_id(zs) by {
            if i < zs.len() - 1 {
                assert(zs[i] == zs.drop_last()[i]);
            }
        }
        if zs.last().0 <= max_zone_id(zs.drop_last()) && zs.len() > 1 {
            let j = choose|j: int| 0 <= j < zs.drop_last().len() && (#[trigger] zs.drop_last()[j]).0 == max_zone_id(zs.drop_last());
            assert(zs[j] == zs.drop_last()[j]);
        }
        if zs.len() == 1 {
            assert(zs[0] == zs.last());
        }
        assert(zs[zs.len() - 1] == zs.last());
    }
}

/// Generate a new zone ID: one more than the largest existing one.
pub fn generate_zone_id(tables: &RelevancyTables) -> (r: u32)
    requires
        forall|i: int| 0 <= i < tables.zones@.len() ==> (#[trigger] tables.zones@[i]).zone_id < u32::MAX,
    ensures
        r == max_zone_id(zone_views(tables.zones@)) + 1,
        forall|i: int| 0 <= i < tables.zones@.len() ==> (#[trigger] tables.zones@[i]).zone_id < r,
{
    proof {
        lemma_max_zone_id(zone_views(tables.zones@));
        assert forall|i: int| 0 <= i < tables.zones@.len() implies (#[trigger] tables.zones@[i]).zone_id
            <= max_zone_id(zone_views(tables.zones@)) by {
            assert(zone_views(tables.zones@)[i].0 == tables.zones@[i].zone_id);
        }
    }
    let ghost zs = zone_views(tables.zones@);
    let n = tables.zones.len();
    let mut max_id: u32 = 0;
    let mut i: usize = 0;
    while i < n
        invariant
            n == tables.zones@.len(),
            zs == zone_views(tables.zones@),
            i <= n,
            max_id == max_zone_id(zs.take(i as int)),
            forall|k: int| 0 <= k < tables.zones@.len() ==> (#[trigger] tables.zones@[k]).zone_id < u32::MAX,
            max_id < u32::MAX,
        decreases n - i,
    {
        proof {
            assert(zs.take(i + 1).drop_last() =~= zs.take(i as int));
            assert(zs.take(i + 1).last() == tables.zones@[i as int]@);
        }
        if tables.zones[i].zone_id > max_id {
            max_id = tables.zones[i].zone_id;
        }
        i = i + 1;
    }
    assert(zs.take(n as int) =~= zs);
    max_id + 1
}

/// Whether an address belongs to an admin (there are none).
pub fn is_admin(address: u128) -> (r: bool)
    ensures
        !r,
{
    false
}

/// Create a new relevancy zone owned by `sender`; returns its ID.
pub fn create_zone(tables: &mut RelevancyTables, sender: u128, name: String, active: bool) -> (r: Result<u32, String>)
    requires
        forall|i: int| 0 <= i < old(tables).zones@.len() ==> (#[trigger] old(tables).zones@[i]).zone_id < u32::MAX,
    ensures
        r == Ok::<u32, String>((max_zone_id(zone_views(old(tables).zones@)) + 1) as u32),
        forall|i: int| 0 <= i < old(tables).zones@.len() ==> (#[trigger] old(tables).zones@[i]).zone_id < r->Ok_0,
        zone_views(final(tables).zones@) == zone_views(old(tables).zones@).push((r->Ok_0, name@, active, Some(sender))),
        final(tables).memberships@ == old(tables).memberships@,
        final(tables).settings@ == old(tables).settings@,
{
    let zone_id = generate_zone_id(tables);
    let ghost z0 = tables.zones@;
    tables.zones.push(RelevancyZone { zone_id, name, active, owner_address: Some(sender) });
    assert(zone_views(tables.zones@) =~= zone_views(z0).push((zone_id, tables.zones@[z0.len() as int].name@, active, Some(sender))));
    Ok(zone_id)
}

/// The zone rows after the rows of zone `z` are deleted.
pub open spec fn other_zones(z: u32) -> spec_fn(ZoneView) -> bool {
    |v: ZoneView| v.0 != z
}

fn remove_zone_rows(zones: &mut Vec<RelevancyZone>, zone_id: u32)
    ensures
        zone_views(final(zones)@) == zone_views(old(zones)@).filter(other_zones(zone_id)),
{
    let ghost all = zone_views(zones@);
    let mut rest: Vec<RelevancyZone> = Vec::new();
    std::mem::swap(&mut rest, zones);
    let ghost rows = rest@;
    let n = rest.len();
    let mut k: usize = 0;
    while k < n
        invariant
            n == rows.len(),
            all == zone_views(rows),
            k <= n,
            rest@ == rows.skip(k as int),
            zone_views(zones@) == all.take(k as int).filter(other_zones(zone_id)),
        decreases n - k,
    {
        proof {
            reveal(Seq::filter);
            assert(all.take(k + 1).drop_last() =~= all.take(k as int));
            assert(all.take(k + 1).last() == rows[k as int]@);
        }
        let r = rest.remove(0);
        assert(r == rows[k as int]);
        assert(rest@ =~= rows.skip(k + 1));
        if r.zone_id != zone_id {
            let ghost z0 = zones@;
            zones.push(r);
            assert(zone_views(zones@) =~= zone_views(z0).push(rows[k as int]@));
        }
        k = k + 1;
    }
    assert(all.take(n as int) =~= all);
}

/// The first zone row with ID `z`, when there is one.
pub open spec fn first_zone(zs: Seq<ZoneView>, z: u32) -> ZoneView {
    zs[choose|i: int| 0 <= i < zs.len() && zs[i].0 == z && forall|k: int| 0 <= k < i ==> zs[k].0 != z]
}

/// Whether `sender` may change a zone with owner `owner` (its owner, when it has one).
pub open spec fn may_change_zone(owner: Option<u128>, sender: u128) -> bool {
    match owner {
        Some(o) => o == sender,
        None => true,
    }
}

/// Update a relevancy zone: its name and whether it is active, where given.
pub fn update_zone(tables: &mut RelevancyTables, sender: u128, zone_id: u32, name: Option<String>, active: Option<bool>) -> (r: Result<(), String>)
    ensures
        !zone_exists(zone_views(old(tables).zones@), zone_id) ==> (r matches Err(e) && e@ == missing_zone_message(zone_id))
            && *final(tables) == *old(tables),
        zone_exists(zone_views(old(tables).zones@), zone_id) ==> ({
            let z = first_zone(zone_views(old(tables).zones@), zone_id);
            &&& !may_change_zone(z.3, sender) ==> (r matches Err(e) && e@ == "You don't have permission to update this zone"@)
                && *final(tables) == *old(tables)
            &&& may_change_zone(z.3, sender) ==> r is Ok
                && zone_views(final(tables).zones@) == zone_views(old(tables).zones@).filter(other_zones(zone_id)).push((
                    zone_id,
                    match name { Some(n) => n@, None => z.1 },
                    match active { Some(a) => a, None => z.2 },
                    z.3,
                ))
                && final(tables).memberships@ == old(tables).memberships@
                && final(tables).settings@ == old(tables).settings@
        }),
{
    let i = match zone_index(&tables.zones, zone_id) {
        None => return Err(with_number("Zone with ID ", zone_id as u64, " does not exist")),
        Some(i) => i,
    };
    let ghost zs = zone_views(tables.zones@);
    proof {
        assert(zs[i as int].0 == zone_id);
        let c = choose|c: int| 0 <= c < zs.len() && zs[c].0 == zone_id && forall|k: int| 0 <= k < c ==> zs[k].0 != zone_id;
        if c < i {
            assert(zs[c] == tables.zones@[c]@);
        }
        if c > i {
            assert(zs[i as int].0 == zone_id);
        }
        assert(c == i);
    }
    let owner = tables.zones[i].owner_address;
    if let Some(o) = owner {
        if o != sender && !is_admin(sender) {
            return Err(owned("You don't have permission to update this zone"));
        }
    }
    let new_name = match name {
        Some(n) => n,
        None => tables.zones[i].name.clone(),
    };
    let new_active = match active {
        Some(a) => a,
        None => tables.zones[i].active,
    };
    remove_zone_rows(&mut tables.zones, zone_id);
    let ghost z1 = tables.zones@;
    tables.zones.push(RelevancyZone { zone_id, name: new_name, active: new_active, owner_address: owner });
    assert(zone_views(tables.zones@) =~= zone_views(z1).push(tables.zones@[z1.len() as int]@));
    Ok(())
}

/// Delete a relevancy zone and its memberships; the global zone cannot be deleted.
pub fn delete_zone(tables: &mut RelevancyTables, sender: u128, zone_id: u32) -> (r: Result<(), String>)
    ensures
        zone_id == GLOBAL_ZONE_ID ==> (r matches Err(e) && e@ == "Cannot delete the global zone"@) && *final(tables) == *old(tables),
        zone_id != GLOBAL_ZONE_ID && !zone_exists(zone_views(old(tables).zones@), zone_id) ==>
            (r matches Err(e) && e@ == missing_zone_message(zone_id)) && *final(tables) == *old(tables),
        zone_id != GLOBAL_ZONE_ID && zone_exists(zone_views(old(tables).zones@), zone_id) ==> ({
            let z = first_zone(zone_views(old(tables).zones@), zone_id);
            &&& !may_change_zone(z.3, sender) ==> (r matches Err(e) && e@ == "You don't have permission to delete this zone"@)
                && *final(tables) == *old(tables)
            &&& may_change_zone(z.3, sender) ==> r is Ok
                && zone_views(final(tables).zones@) == zone_views(old(tables).zones@).filter(other_zones(zone_id))
                && final(tables).memberships@ == old(tables).memberships@.filter(kept_by(MemberMatch::Zone(zone_id)))
                && final(tables).settings@ == old(tables).settings@
        }),
{
    if zone_id == GLOBAL_ZONE_ID {
        return Err(owned("Cannot delete the global zone"));
    }
    let i = match zone_index(&tables.zones, zone_id) {
        None => return Err(with_number("Zone with ID ", zone_id as u64, " does not exist")),
        Some(i) => i,
    };
    let ghost zs = zone_views(tables.zones@);
    proof {
        assert(zs[i as int].0 == zone_id);
        let c = choose|c: int| 0 <= c < zs.len() && zs[c].0 == zone_id && forall|k: int| 0 <= k < c ==> zs[k].0 != zone_id;
        if c < i {
            assert(zs[c] == tables.zones@[c]@);
        }
        assert(c == i);
    }
    if let Some(o) = tables.zones[i].owner_address {
        if o != sender && !is_admin(sender) {
            return Err(owned("You don't have permission to delete this zone"));
        }
    }
    remove_zone_rows(&mut tables.zones, zone_id);
    remove_members(&mut tables.memberships, &MemberMatch::Zone(zone_id));
    Ok(())
}

/// The memberships after adding `entities[k]` (a client when `are_clients[k]`)
/// to zone `z` in order, each unless it is a member already.
pub open spec fn added_members(ms: Seq<ZoneMembershipEntry>, entities: Seq<u64>, are_clients: Seq<bool>, z: u32) -> Seq<ZoneMembershipEntry>
    decreases entities.len(),
{
    if entities.len() == 0 {
        ms
    } else {
        let prev = added_members(ms, entities.drop_last(), are_clients.take(entities.len() - 1), z);
        if is_member(prev, entities.last(), z) {
            prev
        } else {
            prev.push(ZoneMembershipEntry { entity_id: entities.last(), is_client: are_clients[entities.len() - 1], zone_id: z })
        }
    }
}

/// Add several entities to a zone.
pub fn add_entities_to_zone(tables: &mut RelevancyTables, entity_ids: Vec<u64>, are_clients: Vec<bool>, zone_id: u32) -> (r: Result<(), String>)
    ensures
        entity_ids@.len() != are_clients@.len() ==> (r matches Err(e) && e@ == "Entity IDs and client flags must have the same length"@)
            && *final(tables) == *old(tables),
        entity_ids@.len() == are_clients@.len() && !zone_exists(zone_views(old(tables).zones@), zone_id) ==>
            (r matches Err(e) && e@ == missing_zone_message(zone_id)) && *final(tables) == *old(tables),
        entity_ids@.len() == are_clients@.len() && zone_exists(zone_views(old(tables).zones@), zone_id) ==>
            r is Ok && final(tables).memberships@ == added_members(old(tables).memberships@, entity_ids@, are_clients@, zone_id)
            && final(tables).zones@ == old(tables).zones@ && final(tables).settings@ == old(tables).settings@,
{
    if entity_ids.len() != are_clients.len() {
        return Err(owned("Entity IDs and client flags must have the same length"));
    }
    match zone_index(&tables.zones, zone_id) {
        None => return Err(with_number("Zone with ID ", zone_id as u64, " does not exist")),
        Some(i) => {
            assert(zone_views(tables.zones@)[i as int].0 == zone_id);
        },
    }
    let n = entity_ids.len();
    let mut i: usize = 0;
    while i < n
        invariant
            n == entity_ids@.len(),
            n == are_clients@.len(),
            i <= n,
            tables.zones@ == old(tables).zones@,
            tables.settings@ == old(tables).settings@,
            tables.memberships@ == added_members(old(tables).memberships@, entity_ids@.take(i as int), are_clients@.take(i as int), zone_id),
        decreases n - i,
    {
        proof {
            assert(entity_ids@.take(i + 1).drop_last() =~= entity_ids@.take(i as int));
            assert(are_clients@.take(i + 1).take(i as int) =~= are_clients@.take(i as int));
        }
        let entity_id = entity_ids[i];
        let is_client = are_clients[i];
        if !member_exists(&tables.memberships, entity_id, zone_id) {
            tables.memberships.push(ZoneMembershipEntry { entity_id, is_client, zone_id });
        }
        i = i + 1;
    }
    assert(entity_ids@.take(n as int) =~= entity_ids@);
    assert(are_clients@.take(n as int) =~= are_clients@);
    Ok(())
}

/// The zones of entity `e`, in table order.
pub open spec fn entity_zone_list(ms: Seq<ZoneMembershipEntry>, e: u64) -> Seq<u32>
    decreases ms.len(),
{
    if ms.len() == 0 {
        Seq::empty()
    } else {
        let prev = entity_zone_list(ms.drop_last(), e);
        if ms.last().entity_id == e { prev.push(ms.last().zone_id) } else { prev }
    }
}

/// The entities of zone `z`, in table order.
pub open spec fn zone_entity_list(ms: Seq<ZoneMembershipEntry>, z: u32) -> Seq<u64>
    decreases ms.len(),
{
    if ms.len() == 0 {
        Seq::empty()
    } else {
        let prev = zone_entity_list(ms.drop_last(), z);
        if ms.last().zone_id == z { prev.push(ms.last().entity_id) } else { prev }
    }
}

/// Get the zones an entity belongs to.
pub fn get_entity_zones(tables: &RelevancyTables, entity_id: u64) -> (r: Vec<u32>)
    ensures
        r@ == entity_zone_list(tables.memberships@, entity_id),
{
    let ms = &tables.memberships;
    let mut out: Vec<u32> = Vec::new();
    let n = ms.len();
    let mut i: usize = 0;
    while i < n
        invariant
            n == ms@.len(),
            i <= n,
            out@ == entity_zone_list(ms@.take(i as int), entity_id),
        decreases n - i,
    {
        assert(ms@.take(i + 1).drop_last() =~= ms@.take(i as int));
        if ms[i].entity_id == entity_id {
            out.push(ms[i].zone_id);
        }
        i = i + 1;
    }
    assert(ms@.take(n as int) =~= ms@);
    out
}

/// Get all entities in a zone.
pub fn get_zone_entities(tables: &RelevancyTables, zone_id: u32) -> (r: Vec<u64>)
    ensures
        r@ == zone_entity_list(tables.memberships@, zone_id),
{
    let ms = &tables.memberships;
    let mut out: Vec<u64> = Vec::new();
    let n = ms.len();
    let mut i: usize = 0;
    while i < n
        invariant
            n == ms@.len(),
            i <= n,
            out@ == zone_entity_list(ms@.take(i as int), zone_id),
        decreases n - i,
    {
        assert(ms@.take(i + 1).drop_last() =~= ms@.take(i as int));
        if ms[i].zone_id == zone_id {
            out.push(ms[i].entity_id);
        }
        i = i + 1;
    }
    assert(ms@.take(n as int) =~= ms@);
    out
}

proof fn lemma_entity_zone_list(ms: Seq<ZoneMembershipEntry>, e: u64, z: u32)
    ensures
        entity_zone_list(ms, e).contains(z) <==> is_member(ms, e, z),
    decreases ms.len(),
{
    if ms.len() > 0 {
        let prev = ms.drop_last();
        let n = ms.len() - 1;
        lemma_entity_zone_list(prev, e, z);
        let lp = entity_zone_list(prev, e);
        let l = entity_zone_list(ms, e);
        assert(ms[n] == ms.last());
        if is_member(prev, e, z) {
            let i = choose|i: int| 0 <= i < prev.len() && (#[trigger] prev[i]).entity_id == e && prev[i].zone_id == z;
            assert(ms[i] == prev[i]);
            assert(is_member(ms, e, z));
        }
        if is_member(ms, e, z) {
            let i = choose|i: int| 0 <= i < ms.len() && (#[trigger] ms[i]).entity_id == e && ms[i].zone_id == z;
            if i < n {
                assert(prev[i] == ms[i]);
                assert(is_member(prev, e, z));
            }
        }
        if ms.last().entity_id == e {
            assert(l == lp.push(ms.last().zone_id));
            if lp.contains(z) {
                let j = choose|j: int| 0 <= j < lp.len() && lp[j] == z;
                assert(l[j] == z);
            }
            if ms.last().zone_id == z {
                assert(l[lp.len() as int] == z);
            }
            if l.contains(z) {
                let j = choose|j: int| 0 <= j < l.len() && l[j] == z;
                if j < lp.len() {
                    assert(lp[j] == z);
                }
            }
        } else {
            assert(l == lp);
        }
    }
}

/// Whether two entities share any zone.
pub fn share_any_zone(tables: &RelevancyTables, entity1_id: u64, entity2_id: u64) -> (r: bool)
    ensures
        r == exists|z: u32| is_member(tables.memberships@, entity1_id, z) && #[trigger] is_member(tables.memberships@, entity2_id, z),
{
    let zones1 = get_entity_zones(tables, entity1_id);
    let zones2 = get_entity_zones(tables, entity2_id);
    let n = zones1.len();
    let mut i: usize = 0;
    while i < n
        invariant
            n == zones1@.len(),
            zones1@ == entity_zone_list(tables.memberships@, entity1_id),
            zones2@ == entity_zone_list(tables.memberships@, entity2_id),
            i <= n,
            forall|k: int| 0 <= k < i ==> !zones2@.contains(#[trigger] zones1@[k]),
        decreases n - i,
    {
        if u32_in(&zones2, zones1[i]) {
            proof {
                let z = zones1@[i as int];
                lemma_entity_zone_list(tables.memberships@, entity1_id, z);
                lemma_entity_zone_list(tables.memberships@, entity2_id, z);
                assert(zones1@.contains(z));
            }
            return true;
        }
        i = i + 1;
    }
    proof {
        assert forall|z: u32| is_member(tables.memberships@, entity1_id, z) implies !#[trigger] is_member(tables.memberships@, entity2_id, z) by {
            lemma_entity_zone_list(tables.memberships@, entity1_id, z);
            lemma_entity_zone_list(tables.memberships@, entity2_id, z);
            let k = choose|k: int| 0 <= k < zones1@.len() && zones1@[k] == z;
            assert(!zones2@.contains(zones1@[k]));
        }
    }
    false
}

/// Get all entities that share a zone with `entity_id`, other than itself.
pub fn get_entities_in_same_zones(tables: &RelevancyTables, entity_id: u64) -> (r: Vec<u64>)
    ensures
        r@.to_set() == Set::new(|e: u64| e != entity_id
            && exists|z: u32| is_member(tables.memberships@, entity_id, z) && #[trigger] is_member(tables.memberships@, e, z)),
{
    let zones = get_entity_zones(tables, entity_id);
    let ms = &tables.memberships;
    let ghost target = Set::new(|e: u64| e != entity_id
        && exists|z: u32| is_member(tables.memberships@, entity_id, z) && #[trigger] is_member(tables.memberships@, e, z));
    let mut out: Vec<u64> = Vec::new();
    let n = ms.len();
    let mut i: usize = 0;
    while i < n
        invariant
            n == ms@.len(),
            ms@ == tables.memberships@,
            zones@ == entity_zone_list(tables.memberships@, entity_id),
            target == Set::new(|e: u64| e != entity_id
                && exists|z: u32| is_member(tables.memberships@, entity_id, z) && #[trigger] is_member(tables.memberships@, e, z)),
            i <= n,
            out@.to_set() == Set::new(|e: u64| e != entity_id
                && exists|z: u32| is_member(tables.memberships@, entity_id, z) && #[trigger] is_member(ms@.take(i as int), e, z)),
        decreases n - i,
    {
        let entry = ms[i];
        let ghost o0 = out@;
        let ghost prefix = ms@.take(i as int);
        let ghost next = ms@.take(i + 1);
        proof {
            assert(next =~= prefix.push(entry));
            assert forall|e: u64, z: u32| #[trigger] is_member(next, e, z) <==> (is_member(prefix, e, z) || (entry.entity_id == e && entry.zone_id == z)) by {
                if is_member(next, e, z) {
                    let k = choose|k: int| 0 <= k < next.len() && (#[trigger] next[k]).entity_id == e && next[k].zone_id == z;
                    if k < i {
                        assert(prefix[k] == next[k]);
                    }
                }
                if is_member(prefix, e, z) {
                    let k = choose|k: int| 0 <= k < prefix.len() && (#[trigger] prefix[k]).entity_id == e && prefix[k].zone_id == z;
                    assert(next[k] == prefix[k]);
                }
                if entry.entity_id == e && entry.zone_id == z {
                    assert(next[i as int] == entry);
                }
            }
            lemma_entity_zone_list(tables.memberships@, entity_id, entry.zone_id);
        }
        let added = u32_in(&zones, entry.zone_id) && entry.entity_id != entity_id;
        if added {
            out.push(entry.entity_id);
            proof {
                o0.lemma_push_to_set_commute(entry.entity_id);
            }
        }
        proof {
            let all = tables.memberships@;
            let old_set = Set::new(|e: u64| e != entity_id
                && exists|z: u32| is_member(all, entity_id, z) && #[trigger] is_member(prefix, e, z));
            let new_set = Set::new(|e: u64| e != entity_id
                && exists|z: u32| is_member(all, entity_id, z) && #[trigger] is_member(next, e, z));
            assert(o0.to_set() == old_set);
            assert forall|e: u64| new_set.contains(e) <==> (old_set.contains(e) || (added && e == entry.entity_id)) by {
                if new_set.contains(e) {
                    let z = choose|z: u32| is_member(all, entity_id, z) && #[trigger] is_member(next, e, z);
                    if !is_member(prefix, e, z) {
                        assert(entry.entity_id == e && entry.zone_id == z);
                        assert(zones@.contains(z));
                    }
                }
                if old_set.contains(e) {
                    let z = choose|z: u32| is_member(all, entity_id, z) && #[trigger] is_member(prefix, e, z);
                    assert(is_member(next, e, z));
                }
                if added && e == entry.entity_id {
                    assert(is_member(all, entity_id, entry.zone_id));
                    assert(is_member(next, e, entry.zone_id));
                }
            }
            assert(out@.to_set() =~= new_set);
        }
        i = i + 1;
    }
    assert(ms@.take(n as int) =~= ms@);
    assert(out@.to_set() =~= target);
    out
}

impl Clone for RelevancyZone {
    fn clone(&self) -> (r: Self)
        ensures
            r == *self,
    {
        RelevancyZone { zone_id: self.zone_id, name: self.name.clone(), active: self.active, owner_address: self.owner_address }
    }
}

/// The active zones, in table order.
pub open spec fn active_zone_list(zs: Seq<ZoneView>) -> Seq<ZoneView> {
    zs.filter(|v: ZoneView| v.2)
}

/// Get all active zones.
pub fn get_active_zones(tables: &RelevancyTables) -> (r: Vec<RelevancyZone>)
    ensures
        zone_views(r@) == active_zone_list(zone_views(tables.zones@)),
{
    let ghost all = zone_views(tables.zones@);
    let mut out: Vec<RelevancyZone> = Vec::new();
    let n = tables.zones.len();
    let mut i: usize = 0;
    while i < n
        invariant
            n == tables.zones@.len(),
            all == zone_views(tables.zones@),
            i <= n,
            zone_views(out@) == all.take(i as int).filter(|v: ZoneView| v.2),
        decreases n - i,
    {
        proof {
            reveal(Seq::filter);
            assert(all.take(i + 1).drop_last() =~= all.take(i as int));
            assert(all.take(i + 1).last() == tables.zones@[i as int]@);
        }
        if tables.zones[i].active {
            let ghost o0 = out@;
            out.push(tables.zones[i].clone());
            assert(zone_views(out@) =~= zone_views(o0).push(tables.zones@[i as int]@));
        }
        i = i + 1;
    }
    assert(all.take(n as int) =~= all);
    out
}

/// Add a client to the default zone (the global zone) when it connects.
pub fn add_client_to_default_zones(tables: &mut RelevancyTables, client_id: u64) -> (r: Result<(), String>)
    ensures
        r is Ok,
        final(tables).memberships@ == old(tables).memberships@.push(ZoneMembershipEntry { entity_id: client_id, is_client: true, zone_id: GLOBAL_ZONE_ID }),
        final(tables).zones@ == old(tables).zones@,
        final(tables).settings@ == old(tables).settings@,
{
    tables.memberships.push(ZoneMembershipEntry { entity_id: client_id, is_client: true, zone_id: GLOBAL_ZONE_ID });
    Ok(())
}

/// The zones in which client `c` is a member as a client, in table order.
pub open spec fn client_zone_list(ms: Seq<ZoneMembershipEntry>, c: u64) -> Seq<u32>
    decreases ms.len(),
{
    if ms.len() == 0 {
        Seq::empty()
    } else {
        let prev = client_zone_list(ms.drop_last(), c);
        if ms.last().entity_id == c && ms.last().is_client { prev.push(ms.last().zone_id) } else { prev }
    }
}

/// Keeps the memberships that a client's removal from its zones leaves: all
/// but those of client `c` in a zone where it is a member as a client.
pub open spec fn kept_after_client_removal(ms: Seq<ZoneMembershipEntry>, c: u64) -> spec_fn(ZoneMembershipEntry) -> bool {
    |r: ZoneMembershipEntry| !(r.entity_id == c && client_zone_list(ms, c).contains(r.zone_id))
}

/// Remove a client from all zones it is a member of as a client, when it disconnects.
pub fn remove_client_from_all_zones(tables: &mut RelevancyTables, client_id: u64) -> (r: Result<(), String>)
    ensures
        r is Ok,
        final(tables).memberships@ == old(tables).memberships@.filter(kept_after_client_removal(old(tables).memberships@, client_id)),
        final(tables).zones@ == old(tables).zones@,
        final(tables).settings@ == old(tables).settings@,
{
    let ms = &tables.memberships;
    let mut zones: Vec<u32> = Vec::new();
    let n = ms.len();
    let mut i: usize = 0;
    while i < n
        invariant
            n == ms@.len(),
            i <= n,
            zones@ == client_zone_list(ms@.take(i as int), client_id),
        decreases n - i,
    {
        assert(ms@.take(i + 1).drop_last() =~= ms@.take(i as int));
        if ms[i].entity_id == client_id && ms[i].is_client {
            zones.push(ms[i].zone_id);
        }
        i = i + 1;
    }
    assert(ms@.take(n as int) =~= ms@);
    let which = MemberMatch::EntityInZones(client_id, zones);
    assert(kept_by(which) =~= kept_after_client_removal(tables.memberships@, client_id));
    remove_members(&mut tables.memberships, &which);
    Ok(())
}

/// A settings row, with its names as character sequences.
pub type SettingsRowView = (ObjectId, Seq<char>, Seq<char>, Seq<char>, Option<u32>);

impl View for RelevancySettingsEntry {
    type V = SettingsRowView;

    open spec fn view(&self) -> SettingsRowView {
        (self.object_id, self.relevancy_level@, self.update_frequency@, self.network_priority@, self.max_distance)
    }
}

/// The settings rows.
pub open spec fn settings_views(rows: Seq<RelevancySettingsEntry>) -> Seq<SettingsRowView> {
    rows.map_values(|r: RelevancySettingsEntry| r@)
}

/// Keeps the settings rows of objects other than `o`.
pub open spec fn other_objects(o: ObjectId) -> spec_fn(SettingsRowView) -> bool {
    |v: SettingsRowView| v.0 != o
}

fn remove_settings_rows(rows: &mut Vec<RelevancySettingsEntry>, object_id: ObjectId)
    ensures
        settings_views(final(rows)@) == settings_views(old(rows)@).filter(other_objects(object_id)),
{
    let ghost all = settings_views(rows@);
    let mut rest: Vec<RelevancySettingsEntry> = Vec::new();
    std::mem::swap(&mut rest, rows);
    let ghost src = rest@;
    let n = rest.len();
    let mut k: usize = 0;
    while k < n
        invariant
            n == src.len(),
            all == settings_views(src),
            k <= n,
            rest@ == src.skip(k as int),
            settings_views(rows@) == all.take(k as int).filter(other_objects(object_id)),
        decreases n - k,
    {
        proof {
            reveal(Seq::filter);
            assert(all.take(k + 1).drop_last() =~= all.take(k as int));
            assert(all.take(k + 1).last() == src[k as int]@);
        }
        let r = rest.remove(0);
        assert(r == src[k as int]);
        assert(rest@ =~= src.skip(k + 1));
        if r.object_id != object_id {
            let ghost z0 = rows@;
            rows.push(r);
            assert(settings_views(rows@) =~= settings_views(z0).push(src[k as int]@));
        }
        k = k + 1;
    }
    assert(all.take(n as int) =~= all);
}

impl RelevancyManager {
    /// Add an entity to a zone (see `add_entity_to_zone`).
    pub fn add_to_zone(tables: &mut RelevancyTables, entity_id: u64, is_client: bool, zone_id: u32) -> (r: Result<(), String>)
        ensures
            !zone_exists(zone_views(old(tables).zones@), zone_id) ==> (r matches Err(e) && e@ == missing_zone_message(zone_id))
                && final(tables).memberships@ == old(tables).memberships@,
            zone_exists(zone_views(old(tables).zones@), zone_id) ==> r is Ok && final(tables).memberships@ == (
                if is_member(old(tables).memberships@, entity_id, zone_id) {
                    old(tables).memberships@
                } else {
                    old(tables).memberships@.push(ZoneMembershipEntry { entity_id, is_client, zone_id })
                }),
            final(tables).zones@ == old(tables).zones@,
            final(tables).settings@ == old(tables).settings@,
    {
        add_entity_to_zone(tables, entity_id, is_client, zone_id)
    }

    /// Remove an entity from a zone.
    pub fn remove_from_zone(tables: &mut RelevancyTables, entity_id: u64, zone_id: u32) -> (r: Result<(), String>)
        ensures
            r is Ok,
            final(tables).memberships@ == old(tables).memberships@.filter(kept_by(MemberMatch::Pair(entity_id, zone_id))),
            final(tables).zones@ == old(tables).zones@,
            final(tables).settings@ == old(tables).settings@,
    {
        remove_entity_from_zone(tables, entity_id, zone_id)
    }

    /// Update or set the relevancy settings of an object: its earlier rows are
    /// replaced by one row holding the names of the given values.
    pub fn set_relevancy_settings(
        tables: &mut RelevancyTables,
        object_id: ObjectId,
        level: RelevancyLevel,
        frequency: UpdateFrequency,
        priority: NetworkPriority,
        max_distance: Option<u32>,
    ) -> (r: Result<(), String>)
        ensures
            r is Ok,
            settings_views(final(tables).settings@) == settings_views(old(tables).settings@).filter(other_objects(object_id)).push(
                (object_id, level_name(level), frequency_name(frequency), priority_name(priority), max_distance)),
            final(tables).zones@ == old(tables).zones@,
            final(tables).memberships@ == old(tables).memberships@,
    {
        remove_settings_rows(&mut tables.settings, object_id);
        let ghost s0 = tables.settings@;
        tables.settings.push(RelevancySettingsEntry {
            object_id,
            relevancy_level: owned(relevancy_level_name(level)),
            update_frequency: owned(update_frequency_name(frequency)),
            network_priority: owned(network_priority_name(priority)),
            max_distance,
        });
        assert(settings_views(tables.settings@) =~= settings_views(s0).push(tables.settings@[s0.len() as int]@));
        Ok(())
    }
}

/// Removing an entity from a zone undoes adding it there when it was not a
/// member: the membership table is as it was.
pub proof fn law_remove_undoes_add(ms: Seq<ZoneMembershipEntry>, entity_id: u64, is_client: bool, zone_id: u32)
    requires
        !is_member(ms, entity_id, zone_id),
    ensures
        ms.push(ZoneMembershipEntry { entity_id, is_client, zone_id }).filter(kept_by(MemberMatch::Pair(entity_id, zone_id)))
            == ms,
{
    let m = MemberMatch::Pair(entity_id, zone_id);
    assert forall|i: int| 0 <= i < ms.len() implies kept_by(m)(#[trigger] ms[i]) by {
        if ms[i].entity_id == entity_id && ms[i].zone_id == zone_id {
            assert(is_member(ms, entity_id, zone_id));
        }
    }
    crate::collections::lemma_filter_push_fail(ms, ZoneMembershipEntry { entity_id, is_client, zone_id }, kept_by(m));
    crate::collections::lemma_filter_all(ms, kept_by(m));
}

/// Every stored relevancy name reads back as what it names.
proof fn lemma_names_read_back(l: RelevancyLevel, f: UpdateFrequency, p: NetworkPriority)
    ensures
        crate::server::relevancy::level_from_name(level_name(l)) == l,
        crate::server::relevancy::frequency_from_name(frequency_name(f)) == f,
        crate::server::relevancy::priority_from_name(priority_name(p)) == p,
{
    reveal_strlit("AlwaysRelevant");
    reveal_strlit("OwnerOnly");
    reveal_strlit("DistanceBased");
    reveal_strlit("SameZone");
    reveal_strlit("Custom");
    reveal_strlit("NeverRelevant");
    reveal_strlit("High");
    reveal_strlit("Medium");
    reveal_strlit("Low");
    reveal_strlit("OnDemand");
    reveal_strlit("Critical");
    reveal_strlit("Normal");
    let ls = seq!["AlwaysRelevant"@, "OwnerOnly"@, "DistanceBased"@, "SameZone"@, "Custom"@, "NeverRelevant"@];
    assert forall|a: int, b: int| 0 <= a < b < ls.len() implies #[trigger] ls[a] != #[trigger] ls[b] by {
        crate::client::serialization::lemma_differ(ls[a], ls[b]);
    }
    let fs = seq!["High"@, "Medium"@, "Low"@, "OnDemand"@];
    assert forall|a: int, b: int| 0 <= a < b < fs.len() implies #[trigger] fs[a] != #[trigger] fs[b] by {
        crate::client::serialization::lemma_differ(fs[a], fs[b]);
    }
    let ps = seq!["Critical"@, "High"@, "Normal"@, "Low"@];
    assert forall|a: int, b: int| 0 <= a < b < ps.len() implies #[trigger] ps[a] != #[trigger] ps[b] by {
        crate::client::serialization::lemma_differ(ps[a], ps[b]);
    }
    assert(ls[0] != ls[1] && ls[0] != ls[2] && ls[0] != ls[3] && ls[0] != ls[4] && ls[1] != ls[2] && ls[1] != ls[3]
        && ls[1] != ls[4] && ls[2] != ls[3] && ls[2] != ls[4] && ls[3] != ls[4]);
    assert(fs[0] != fs[1] && fs[0] != fs[2] && fs[1] != fs[2]);
    assert(ps[0] != ps[1] && ps[0] != ps[2] && ps[1] != ps[2]);
}

/// Settings written for an object are what the table then holds for it: after
/// `set_relevancy_settings` exactly one row has the object's ID (the last),
/// and its stored names read back as the level, frequency and priority set,
/// with the distance set.
pub proof fn law_settings_read_back(
    rows: Seq<SettingsRowView>,
    object_id: ObjectId,
    level: RelevancyLevel,
    frequency: UpdateFrequency,
    priority: NetworkPriority,
    max_distance: Option<u32>,
)
    ensures
        ({
            let t = rows.filter(other_objects(object_id)).push(
                (object_id, level_name(level), frequency_name(frequency), priority_name(priority), max_distance));
            &&& forall|i: int| 0 <= i < t.len() ==> ((#[trigger] t[i]).0 == object_id <==> i == t.len() - 1)
            &&& crate::server::relevancy::level_from_name(t.last().1) == level
            &&& crate::server::relevancy::frequency_from_name(t.last().2) == frequency
            &&& crate::server::relevancy::priority_from_name(t.last().3) == priority
            &&& t.last().4 == max_distance
        }),
{
    lemma_names_read_back(level, frequency, priority);
    let f = rows.filter(other_objects(object_id));
    assert forall|i: int| 0 <= i < f.len() implies (#[trigger] f[i]).0 != object_id by {
        rows.lemma_filter_pred(other_objects(object_id), i);
    }
}

} // verus!
