//! Actor-related types shared by client and server.
use vstd::prelude::*;
use crate::shared::types::{ObjectId, Vector3, Quat, Transform};
use crate::shared::lifecycle::ActorLifecycleState;

verus! {

/// Basic actor class information.
#[derive(Debug)]
pub struct ActorClassInfo {
    pub class_id: u32,
    pub class_name: String,
    pub replicates: bool,
    pub always_relevant: bool,
}

/// Basic actor instance information.
#[derive(Debug)]
pub struct ActorInfo {
    pub actor_id: ObjectId,
    pub class_id: u32,
    pub actor_name: String,
    pub owner_client_id: Option<u64>,
    pub state: ActorLifecycleState,
    pub hidden: bool,
}

/// Compact representation of an actor transform for network updates.
#[derive(Debug, Clone, Copy, PartialEq, Eq, Structural)]
pub struct ActorTransform {
    pub actor_id: ObjectId,
    pub position: Vector3,
    pub rotation: Quat,
    pub scale: Vector3,
}

impl From<ActorTransform> for Transform {
    fn from(t: ActorTransform) -> (r: Transform) {
        Transform { location: t.position, rotation: t.rotation, scale: t.scale }
    }
}

impl vstd::std_specs::convert::FromSpecImpl<ActorTransform> for Transform {
    open spec fn obeys_from_spec() -> bool {
        true
    }

    open spec fn from_spec(t: ActorTransform) -> Transform {
        Transform { location: t.position, rotation: t.rotation, scale: t.scale }
    }
}

impl ActorTransform {
    /// The transform carried by this update.
    pub fn to_transform(self) -> (t: Transform)
        ensures
            t == (Transform { location: self.position, rotation: self.rotation, scale: self.scale }),
    {
        Transform { location: self.position, rotation: self.rotation, scale: self.scale }
    }
}

/// Actor spawn parameters.
#[derive(Debug)]
pub struct ActorSpawnParams {
    pub class_id: u32,
    pub actor_name: Option<String>,
    pub initial_transform: Option<Transform>,
    pub owner_client_id: Option<u64>,
    pub initial_properties: Option<String>,
}

/// Actor movement update modes.
#[derive(Debug, Clone, Copy, PartialEq, Eq, Structural)]
pub enum MovementMode {
    /// No movement (the name `None` is reserved by the verifier's prelude).
    NoMovement,
    Walking,
    Falling,
    Swimming,
    Flying,
    Custom(u8),
}

} // verus!
