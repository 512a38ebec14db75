//! Network relevancy types shared by client and server.
use vstd::prelude::*;
use crate::shared::types::ObjectId;

verus! {

/// A zone or area for relevancy purposes.
#[derive(Debug)]
pub struct RelevancyZone {
    pub zone_id: u32,
    pub name: String,
    pub active: bool,
}

/// Relevancy level for network objects.
#[derive(Debug, Clone, Copy, PartialEq, Eq, Structural)]
pub enum RelevancyLevel {
    /// Always relevant to all clients.
    AlwaysRelevant,
    /// Only relevant to the owner.
    OwnerOnly,
    /// Relevant based on distance.
    DistanceBased,
    /// Relevant to clients in the same zone.
    SameZone,
    /// Custom relevancy logic.
    Custom,
    /// Never relevant (server only).
    NeverRelevant,
}

/// Update frequency for network objects.
#[derive(Debug, Clone, Copy, PartialEq, Eq, Structural)]
pub enum UpdateFrequency {
    /// Every tick.
    High,
    /// Every other tick.
    Medium,
    /// Every fourth tick.
    Low,
    /// When explicitly requested.
    OnDemand,
}

/// Network priority for objects (most urgent first).
#[derive(Debug, Clone, Copy, PartialEq, Eq, PartialOrd, Ord, Structural)]
pub enum NetworkPriority {
    Critical,
    High,
    Normal,
    Low,
}

/// Relevancy settings for an object or actor.
///
/// `max_distance` is an `f32` bit pattern.
#[derive(Debug, Clone, Copy, PartialEq, Eq, Structural)]
pub struct RelevancySettings {
    pub object_id: ObjectId,
    pub level: RelevancyLevel,
    pub frequency: UpdateFrequency,
    pub priority: NetworkPriority,
    pub max_distance: Option<u32>,
}

/// Zones an object or client is in.
#[derive(Debug)]
pub struct ZoneMembership {
    pub entity_id: u64,
    pub is_client: bool,
    pub zone_ids: Vec<u32>,
}

} // verus!
