//! Object spawn parameters and descriptions shared by client and server.
use vstd::prelude::*;
use crate::shared::types::{ObjectId, Transform};
use crate::shared::lifecycle::ObjectLifecycleState;

verus! {

/// Object spawn parameters.
///
/// `initial_properties` maps property names to JSON-encoded values.
#[derive(Debug)]
pub struct SpawnParams {
    pub class_name: String,
    pub transform: Option<Transform>,
    pub owner_id: Option<ObjectId>,
    pub replicates: bool,
    pub is_system: bool,
    pub initial_properties: Vec<(String, String)>,
}

impl Default for SpawnParams {
    fn default() -> (p: Self)
        ensures
            p.class_name@ == Seq::<char>::empty(),
            p.transform == Some(Transform::spec_identity()),
            p.owner_id is None,
            p.replicates,
            !p.is_system,
            p.initial_properties@.len() == 0,
    {
        SpawnParams {
            class_name: String::new(),
            transform: Some(Transform::identity()),
            owner_id: None,
            replicates: true,
            is_system: false,
            initial_properties: Vec::new(),
        }
    }
}

/// Object description used in replication.
#[derive(Debug)]
pub struct ObjectDescription {
    pub object_id: ObjectId,
    pub class_name: String,
    pub owner_id: Option<ObjectId>,
    pub state: ObjectLifecycleState,
    pub replicates: bool,
    pub transform: Option<Transform>,
    pub properties: Vec<(String, String)>,
}

} // verus!
