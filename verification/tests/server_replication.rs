use stdb_unreal::collections::AssocMap;
use stdb_unreal::server::replication::{
    PropertyChangeTracker, PropertyReplicator, ReplicatedProperty, ReplicatedPropertySet, ReplicationRegistry, UObject,
};
use stdb_unreal::shared::property::{PropertyType, PropertyValue, ReplicationCondition};

fn prop(name: &str, condition: ReplicationCondition) -> ReplicatedProperty {
    ReplicatedProperty { name: name.to_string(), property_type: PropertyType::Int32, condition, priority: 1 }
}

fn registry() -> ReplicationRegistry {
    let mut reg = ReplicationRegistry::new();
    reg.register_class(ReplicatedPropertySet {
        class_name: "Pawn".to_string(),
        properties: vec![
            prop("Health", ReplicationCondition::OnChange),
            prop("Ammo", ReplicationCondition::OwnerOnly),
            prop("Secret", ReplicationCondition::ServerOnly),
            prop("Score", ReplicationCondition::Always),
        ],
    });
    reg
}

fn pawn(owner: u64, health: i32, score: i32) -> UObject {
    let mut properties = AssocMap::new();
    properties.insert("Health".to_string(), PropertyValue::Int32(health));
    properties.insert("Ammo".to_string(), PropertyValue::Int32(30));
    properties.insert("Secret".to_string(), PropertyValue::Int32(99));
    properties.insert("Score".to_string(), PropertyValue::Int32(score));
    UObject { owner_client_id: owner, class_name: "Pawn".to_string(), properties }
}

fn int_of(v: Option<&PropertyValue>) -> Option<i32> {
    match v {
        Some(PropertyValue::Int32(x)) => Some(*x),
        _ => None,
    }
}

#[test]
fn registry_replaces_class_properties() {
    let mut reg = registry();
    assert_eq!(reg.get_class_properties("Pawn").unwrap().properties.len(), 4);
    assert!(reg.get_class_properties("Tree").is_none());
    reg.register_class(ReplicatedPropertySet { class_name: "Pawn".to_string(), properties: vec![] });
    assert_eq!(reg.get_class_properties("Pawn").unwrap().properties.len(), 0);
}

#[test]
fn tracker_records_each_object_once() {
    let mut t = PropertyChangeTracker::new();
    t.record_new_object(1);
    t.record_new_object(1);
    t.record_new_object(2);
    assert_eq!(t.get_new_objects(), &vec![1, 2]);
    t.record_change(3, "Health", PropertyValue::Int32(5));
    t.record_change(3, "Health", PropertyValue::Int32(6));
    assert_eq!(int_of(t.get_object_changes(3).unwrap().get(&"Health".to_string())), Some(6));
    t.record_destroyed_object(3);
    t.record_destroyed_object(3);
    assert_eq!(t.get_destroyed_objects(), &vec![3]);
    assert!(t.get_object_changes(3).is_none());
    t.clear();
    assert!(t.get_new_objects().is_empty());
    assert!(t.get_destroyed_objects().is_empty());
}

#[test]
fn snapshots_for_new_objects_respect_conditions() {
    let mut rep = PropertyReplicator::new(registry());
    let mut objects = AssocMap::new();
    objects.insert(1u64, pawn(7, 100, 0));
    objects.insert(2u64, pawn(8, 50, 0));
    objects.insert(3u64, pawn(0, 10, 0));
    rep.record_new_object(1);
    rep.record_new_object(2);
    rep.record_new_object(3);
    let snaps = rep.generate_snapshots_for_client(7, &objects);
    // Object 2 belongs to another client and is not sent.
    assert_eq!(snaps.len(), 2);
    assert_eq!(snaps[0].object_id, 1);
    assert!(snaps[0].is_new);
    assert_eq!(snaps[0].class_name, "Pawn");
    assert_eq!(snaps[0].properties.len(), 3);
    assert_eq!(int_of(snaps[0].properties.get(&"Ammo".to_string())), Some(30));
    assert!(snaps[0].properties.get(&"Secret".to_string()).is_none());
    // Unowned object: owner-only properties are not sent.
    assert_eq!(snaps[1].object_id, 3);
    assert!(snaps[1].properties.get(&"Ammo".to_string()).is_none());
    assert_eq!(snaps[1].properties.len(), 2);
}

#[test]
fn snapshots_for_changed_objects() {
    let mut rep = PropertyReplicator::new(registry());
    let mut objects = AssocMap::new();
    objects.insert(1u64, pawn(7, 100, 12));
    objects.insert(2u64, pawn(7, 80, 3));
    rep.record_change(1, "Health", PropertyValue::Int32(90));
    rep.record_change(2, "Secret", PropertyValue::Int32(1));
    rep.record_change(4, "Health", PropertyValue::Int32(1));
    let snaps = rep.generate_snapshots_for_client(7, &objects);
    assert_eq!(snaps.len(), 2);
    assert_eq!(snaps[0].object_id, 1);
    assert!(!snaps[0].is_new);
    assert_eq!(int_of(snaps[0].properties.get(&"Health".to_string())), Some(90));
    // Always-replicated properties come with their current value.
    assert_eq!(int_of(snaps[0].properties.get(&"Score".to_string())), Some(12));
    assert_eq!(snaps[0].properties.len(), 2);
    // Object 2 changed only a server-only property: just the always-replicated one.
    assert_eq!(snaps[1].object_id, 2);
    assert_eq!(snaps[1].properties.len(), 1);
    assert_eq!(int_of(snaps[1].properties.get(&"Score".to_string())), Some(3));
    rep.record_destroyed_object(1);
    let after = rep.generate_snapshots_for_client(7, &objects);
    assert_eq!(after.len(), 1);
    rep.clear_changes();
    assert!(rep.generate_snapshots_for_client(7, &objects).is_empty());
}
