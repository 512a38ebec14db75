//! Distance-based relevancy: the positions of entities, by entity ID.
//!
//! Positions are `f32` vectors held as bit patterns. Comparing distances is
//! floating-point arithmetic, which the caller does on the positions that the
//! lookups here return.
use vstd::prelude::*;
use crate::collections::AssocMap;
use crate::shared::types::Vector3;
use crate::shared::property::PropertyValue;
use crate::text::str_eq;

verus! {

/// The default relevant distance, as the bit pattern of `10000.0f32`.
pub const DEFAULT_RELEVANT_DISTANCE_BITS: u32 = 0x461C_4000;

/// Cache of entity positions.
pub struct SpatialCache {
    positions: AssocMap<u64, Vector3>,
}

impl View for SpatialCache {
    type V = Map<u64, Vector3>;

    closed spec fn view(&self) -> Map<u64, Vector3> {
        self.positions@
    }
}

impl SpatialCache {
    /// Create a new empty spatial cache.
    pub fn new() -> (c: Self)
        ensures
            c@ == Map::<u64, Vector3>::empty(),
    {
        SpatialCache { positions: AssocMap::new() }
    }

    /// Update the position of an entity.
    pub fn update_position(&mut self, entity_id: u64, position: Vector3)
        ensures
            final(self)@ == old(self)@.insert(entity_id, position),
    {
        self.positions.insert(entity_id, position);
    }

    /// Get the position of an entity.
    pub fn get_position(&self, entity_id: u64) -> (r: Option<Vector3>)
        ensures
            r == (if self@.contains_key(entity_id) { Some(self@[entity_id]) } else { None::<Vector3> }),
    {
        match self.positions.get(&entity_id) {
            Some(p) => Some(*p),
            None => None,
        }
    }

    /// The positions of two entities, when both are known; distances between
    /// entities are computed from these.
    pub fn positions_of(&self, entity1_id: u64, entity2_id: u64) -> (r: Option<(Vector3, Vector3)>)
        ensures
            r == (if self@.contains_key(entity1_id) && self@.contains_key(entity2_id) {
                Some((self@[entity1_id], self@[entity2_id]))
            } else {
                None::<(Vector3, Vector3)>
            }),
    {
        match (self.get_position(entity1_id), self.get_position(entity2_id)) {
            (Some(a), Some(b)) => Some((a, b)),
            _ => None,
        }
    }

    /// Remove an entity.
    pub fn remove_entity(&mut self, entity_id: u64)
        ensures
            final(self)@ == old(self)@.remove(entity_id),
    {
        let _ = self.positions.remove(&entity_id);
    }

    /// Clear the entire cache.
    pub fn clear(&mut self)
        ensures
            final(self)@ == Map::<u64, Vector3>::empty(),
    {
        self.positions = AssocMap::new();
    }

    /// The entities with a known position, in insertion order.
    pub fn entities(&self) -> (r: Vec<u64>)
        ensures
            r@.to_set() == self@.dom(),
            r@.no_duplicates(),
    {
        let r = self.positions.keys();
        proof {
            self.positions.lemma_dom();
            assert(r@.map_values(|x: u64| x@) =~= r@);
            assert(self.positions.key_seq() == r@);
            assert(self@.dom() == self.positions@.dom());
        }
        r
    }
}

/// The position a property value gives: a vector, or the location of a transform.
pub open spec fn position_of(v: PropertyValue) -> Option<Vector3> {
    match v {
        PropertyValue::Vector(p) => Some(p),
        PropertyValue::Transform(t) => Some(t.location),
        _ => None,
    }
}

/// Extract a position from a property value.
pub fn extract_position(property_value: &PropertyValue) -> (r: Option<Vector3>)
    ensures
        r == position_of(*property_value),
{
    match property_value {
        PropertyValue::Vector(p) => Some(*p),
        PropertyValue::Transform(t) => Some(t.location),
        _ => None,
    }
}

/// The property names that carry a position.
pub open spec fn is_position_name(name: Seq<char>) -> bool {
    name == "Location"@ || name == "Position"@ || name == "Transform"@
}

/// Update the position of an entity from a property update, when the property
/// is a position property and its value gives a position.
pub fn update_entity_position(cache: &mut SpatialCache, entity_id: u64, property_name: &str, property_value: &PropertyValue)
    ensures
        is_position_name(property_name@) && position_of(*property_value) is Some ==>
            final(cache)@ == old(cache)@.insert(entity_id, position_of(*property_value)->0),
        !(is_position_name(property_name@) && position_of(*property_value) is Some) ==> final(cache)@ == old(cache)@,
{
    if str_eq(property_name, "Location") || str_eq(property_name, "Position") || str_eq(property_name, "Transform") {
        if let Some(position) = extract_position(property_value) {
            cache.update_position(entity_id, position);
        }
    }
}

/// Clear inactive entities from the spatial cache.
pub fn cleanup_inactive_entities(cache: &mut SpatialCache, inactive_entity_ids: &Vec<u64>)
    ensures
        final(cache)@ == old(cache)@.remove_keys(inactive_entity_ids@.to_set()),
{
    let n = inactive_entity_ids.len();
    let mut i: usize = 0;
    while i < n
        invariant
            n == inactive_entity_ids@.len(),
            i <= n,
            cache@ == old(cache)@.remove_keys(inactive_entity_ids@.take(i as int).to_set()),
        decreases n - i,
    {
        let id = inactive_entity_ids[i];
        cache.remove_entity(id);
        proof {
            inactive_entity_ids@.take(i as int).lemma_push_to_set_commute(id);
            assert(inactive_entity_ids@.take(i + 1) =~= inactive_entity_ids@.take(i as int).push(id));
            assert(cache@ =~= old(cache)@.remove_keys(inactive_entity_ids@.take(i + 1).to_set()));
        }
        i = i + 1;
    }
    assert(inactive_entity_ids@.take(n as int) =~= inactive_entity_ids@);
}

} // verus!
