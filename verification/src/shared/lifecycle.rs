//! Object and actor lifecycle states and related event kinds.
use vstd::prelude::*;

verus! {

/// The current state of an object in its lifecycle.
#[derive(Debug, Clone, Copy, PartialEq, Eq, Structural)]
pub enum ObjectLifecycleState {
    /// Being created but not yet fully initialized.
    Initializing,
    /// Active and valid.
    Active,
    /// Being cleaned up for destruction.
    PendingKill,
    /// Destroyed but kept for delayed cleanup.
    Destroyed,
}

/// The current state of an actor in its lifecycle.
#[derive(Debug, Clone, Copy, PartialEq, Eq, Structural)]
pub enum ActorLifecycleState {
    Spawning,
    Active,
    PendingDestroy,
    Destroyed,
}

/// Types of object/actor creation events.
#[derive(Debug, Clone, Copy, PartialEq, Eq, Structural)]
pub enum CreationEventType {
    Created,
    Destroyed,
    Updated,
}

/// Types of relevant objects for notification.
#[derive(Debug, Clone, Copy, PartialEq, Eq, Structural)]
pub enum RelevantObjectType {
    Object,
    Actor,
    Component,
}

/// Visibility flags for network relevancy.
#[derive(Debug, Clone, Copy, PartialEq, Eq, Structural)]
pub enum VisibilityFlag {
    AllClients,
    OwnerOnly,
    SpecificClients,
    Hidden,
}

} // verus!
