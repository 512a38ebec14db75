use stdb_unreal::server::distance::{cleanup_inactive_entities, extract_position, update_entity_position, SpatialCache};
use stdb_unreal::server::integration::{
    clear_client_replication_state, filter_clients_for_object_update, get_replicated_objects, is_object_replicated_to_client,
    is_position_property, is_relevancy_affecting_property, on_property_changed, reconcile_client_replication_state,
    update_replication_time, ClientObjectReplication,
};
use stdb_unreal::server::relevancy::{
    filter_relevant_objects, init_relevancy, is_object_relevant_to_client, network_priority_name, relevancy_level_name,
    update_frequency_name, RelevancyManager, RelevancySettingsEntry, RelevancyTables, ZoneMembershipEntry,
};
use stdb_unreal::server::zone::{
    add_client_to_default_zones, add_entities_to_zone, add_entity_to_zone, create_zone, delete_zone, generate_zone_id,
    get_active_zones, get_entities_in_same_zones, get_entity_zones, get_zone_entities, remove_client_from_all_zones,
    remove_entity_from_zone, share_any_zone, update_zone,
};
use stdb_unreal::shared::property::PropertyValue;
use stdb_unreal::shared::relevancy::{NetworkPriority, RelevancyLevel, UpdateFrequency};
use stdb_unreal::shared::types::{Quat, Transform, Vector3};

fn empty_tables() -> RelevancyTables {
    RelevancyTables { zones: Vec::new(), memberships: Vec::new(), settings: Vec::new() }
}

fn global_tables() -> RelevancyTables {
    let mut t = empty_tables();
    init_relevancy(&mut t);
    t
}

fn settings_row(object_id: u64, level: &str, frequency: &str) -> RelevancySettingsEntry {
    RelevancySettingsEntry {
        object_id,
        relevancy_level: level.to_string(),
        update_frequency: frequency.to_string(),
        network_priority: "Normal".to_string(),
        max_distance: None,
    }
}

#[test]
fn init_relevancy_creates_global_zone_once() {
    let mut t = empty_tables();
    init_relevancy(&mut t);
    assert_eq!(t.zones.len(), 1);
    assert_eq!(t.zones[0].zone_id, 0);
    assert_eq!(t.zones[0].name, "Global");
    assert!(t.zones[0].active);
    assert_eq!(t.zones[0].owner_address, None);
    init_relevancy(&mut t);
    assert_eq!(t.zones.len(), 1);
}

#[test]
fn settings_names_round_trip() {
    let row = settings_row(5, "SameZone", "Low");
    assert_eq!(row.get_relevancy_level(), RelevancyLevel::SameZone);
    assert_eq!(row.get_update_frequency(), UpdateFrequency::Low);
    assert_eq!(row.get_network_priority(), NetworkPriority::Normal);
    let unknown = settings_row(5, "Sometimes", "Never");
    assert_eq!(unknown.get_relevancy_level(), RelevancyLevel::AlwaysRelevant);
    assert_eq!(unknown.get_update_frequency(), UpdateFrequency::Medium);
    assert_eq!(relevancy_level_name(RelevancyLevel::DistanceBased), "DistanceBased");
    assert_eq!(update_frequency_name(UpdateFrequency::OnDemand), "OnDemand");
    assert_eq!(network_priority_name(NetworkPriority::Critical), "Critical");
}

#[test]
fn zone_ids_follow_the_largest() {
    let mut t = global_tables();
    assert_eq!(generate_zone_id(&t), 1);
    assert_eq!(create_zone(&mut t, 7, "Arena".to_string(), true), Ok(1));
    assert_eq!(create_zone(&mut t, 7, "Lobby".to_string(), false), Ok(2));
    assert_eq!(t.zones[2].owner_address, Some(7));
    assert_eq!(generate_zone_id(&t), 3);
    let active = get_active_zones(&t);
    assert_eq!(active.len(), 2);
    assert_eq!(active[1].name, "Arena");
}

#[test]
fn add_to_missing_zone_is_an_error() {
    let mut t = global_tables();
    assert_eq!(add_entity_to_zone(&mut t, 10, false, 9), Err("Zone with ID 9 does not exist".to_string()));
    assert!(t.memberships.is_empty());
    assert_eq!(add_entity_to_zone(&mut t, 10, false, 0), Ok(()));
    assert_eq!(add_entity_to_zone(&mut t, 10, false, 0), Ok(()));
    assert_eq!(t.memberships.len(), 1);
    assert_eq!(remove_entity_from_zone(&mut t, 10, 0), Ok(()));
    assert!(t.memberships.is_empty());
}

#[test]
fn zone_membership_queries() {
    let mut t = global_tables();
    create_zone(&mut t, 1, "Arena".to_string(), true).unwrap();
    add_entity_to_zone(&mut t, 10, false, 0).unwrap();
    add_entity_to_zone(&mut t, 10, false, 1).unwrap();
    add_entity_to_zone(&mut t, 20, true, 1).unwrap();
    add_entity_to_zone(&mut t, 30, true, 0).unwrap();
    assert_eq!(get_entity_zones(&t, 10), vec![0, 1]);
    assert_eq!(get_zone_entities(&t, 1), vec![10, 20]);
    assert!(share_any_zone(&t, 20, 10));
    assert!(!share_any_zone(&t, 20, 30));
    let mut same = get_entities_in_same_zones(&t, 10);
    same.sort();
    assert_eq!(same, vec![20, 30]);
}

#[test]
fn add_entities_checks_lengths() {
    let mut t = global_tables();
    assert_eq!(
        add_entities_to_zone(&mut t, vec![1, 2], vec![true], 0),
        Err("Entity IDs and client flags must have the same length".to_string())
    );
    assert_eq!(add_entities_to_zone(&mut t, vec![1, 2], vec![true, false], 4), Err("Zone with ID 4 does not exist".to_string()));
    assert_eq!(add_entities_to_zone(&mut t, vec![1, 2], vec![true, false], 0), Ok(()));
    assert_eq!(t.memberships, vec![
        ZoneMembershipEntry { entity_id: 1, is_client: true, zone_id: 0 },
        ZoneMembershipEntry { entity_id: 2, is_client: false, zone_id: 0 },
    ]);
}

#[test]
fn zone_owner_rules() {
    let mut t = global_tables();
    let z = create_zone(&mut t, 5, "Private".to_string(), true).unwrap();
    add_entity_to_zone(&mut t, 40, false, z).unwrap();
    assert_eq!(update_zone(&mut t, 6, z, Some("Mine".to_string()), None), Err("You don't have permission to update this zone".to_string()));
    assert_eq!(update_zone(&mut t, 5, z, Some("Renamed".to_string()), Some(false)), Ok(()));
    assert_eq!(t.zones[1].name, "Renamed");
    assert!(!t.zones[1].active);
    assert_eq!(update_zone(&mut t, 5, 42, None, None), Err("Zone with ID 42 does not exist".to_string()));
    assert_eq!(delete_zone(&mut t, 5, 0), Err("Cannot delete the global zone".to_string()));
    assert_eq!(delete_zone(&mut t, 6, z), Err("You don't have permission to delete this zone".to_string()));
    assert_eq!(delete_zone(&mut t, 5, z), Ok(()));
    assert_eq!(t.zones.len(), 1);
    assert!(t.memberships.is_empty());
}

#[test]
fn clients_join_and_leave_default_zones() {
    let mut t = global_tables();
    add_client_to_default_zones(&mut t, 77).unwrap();
    assert_eq!(get_entity_zones(&t, 77), vec![0]);
    add_entity_to_zone(&mut t, 99, false, 0).unwrap();
    remove_client_from_all_zones(&mut t, 77).unwrap();
    assert!(get_entity_zones(&t, 77).is_empty());
    assert_eq!(get_entity_zones(&t, 99), vec![0]);
}

#[test]
fn relevancy_cache_by_level() {
    let mut t = global_tables();
    let arena = create_zone(&mut t, 1, "Arena".to_string(), true).unwrap();
    add_entity_to_zone(&mut t, 100, true, arena).unwrap();
    add_entity_to_zone(&mut t, 3, false, arena).unwrap();
    t.settings.push(settings_row(1, "AlwaysRelevant", "High"));
    t.settings.push(settings_row(2, "NeverRelevant", "High"));
    t.settings.push(settings_row(3, "SameZone", "High"));
    t.settings.push(settings_row(4, "DistanceBased", "High"));
    t.settings.push(settings_row(5, "OwnerOnly", "High"));
    let mut m = RelevancyManager::new();
    m.update_relevancy_cache(&t, &vec![100, 200], &vec![(4, 200)]);
    let all = vec![1, 2, 3, 4, 5, 6];
    assert_eq!(filter_relevant_objects(&m, 100, &all), vec![1, 3]);
    assert_eq!(filter_relevant_objects(&m, 200, &all), vec![1, 4]);
    // A client that is not in the cache sees everything.
    assert_eq!(filter_relevant_objects(&m, 300, &all), all);
    assert!(is_object_relevant_to_client(&m, 3, 100));
    assert!(!is_object_relevant_to_client(&m, 3, 200));
    assert!(is_object_relevant_to_client(&m, 3, 300));
    assert_eq!(filter_clients_for_object_update(&m, &vec![100, 200, 300], 4), vec![200, 300]);
}

#[test]
fn update_frequency_follows_ticks() {
    let mut t = global_tables();
    t.settings.push(settings_row(1, "AlwaysRelevant", "Medium"));
    t.settings.push(settings_row(2, "AlwaysRelevant", "Low"));
    t.settings.push(settings_row(3, "AlwaysRelevant", "OnDemand"));
    let mut m = RelevancyManager::new();
    m.update_relevancy_cache(&t, &vec![9], &vec![]);
    // Tick 1: only objects without settings and high-frequency ones.
    assert_eq!(filter_relevant_objects(&m, 9, &vec![1, 2, 3]), Vec::<u64>::new());
    m.update_relevancy_cache(&t, &vec![9], &vec![]);
    assert_eq!(filter_relevant_objects(&m, 9, &vec![1, 2, 3]), vec![1]);
    assert!(m.should_update_on_current_tick(&UpdateFrequency::Medium));
    assert!(!m.should_update_on_current_tick(&UpdateFrequency::Low));
    m.update_relevancy_cache(&t, &vec![9], &vec![]);
    m.update_relevancy_cache(&t, &vec![9], &vec![]);
    assert_eq!(filter_relevant_objects(&m, 9, &vec![1, 2, 3]), vec![1, 2]);
}

#[test]
fn spatial_cache_tracks_positions() {
    let mut cache = SpatialCache::new();
    let p = Vector3::new(1, 2, 3);
    update_entity_position(&mut cache, 8, "Location", &PropertyValue::Vector(p));
    assert_eq!(cache.get_position(8), Some(p));
    update_entity_position(&mut cache, 9, "Health", &PropertyValue::Vector(p));
    assert_eq!(cache.get_position(9), None);
    let t = Transform::new(Vector3::new(4, 5, 6), Quat::identity(), Vector3::one());
    assert_eq!(extract_position(&PropertyValue::Transform(t)), Some(Vector3::new(4, 5, 6)));
    assert_eq!(extract_position(&PropertyValue::Int32(3)), None);
    assert!(on_property_changed(&mut cache, 9, "Transform", &PropertyValue::Transform(t)));
    assert_eq!(cache.get_position(9), Some(Vector3::new(4, 5, 6)));
    assert!(on_property_changed(&mut cache, 9, "Team", &PropertyValue::Int32(1)));
    assert!(!on_property_changed(&mut cache, 9, "Health", &PropertyValue::Int32(1)));
    cleanup_inactive_entities(&mut cache, &vec![8]);
    assert_eq!(cache.get_position(8), None);
    assert_eq!(cache.entities(), vec![9]);
}

#[test]
fn property_names_that_matter() {
    assert!(is_position_property("Position"));
    assert!(!is_position_property("Team"));
    assert!(is_relevancy_affecting_property("StealthLevel"));
    assert!(is_relevancy_affecting_property("Location"));
    assert!(!is_relevancy_affecting_property("Score"));
}

fn row(client_id: u64, object_id: u64, done: bool, time: u64) -> ClientObjectReplication {
    ClientObjectReplication { client_id, object_id, initial_replication_complete: done, last_replication_time: time }
}

#[test]
fn replication_rows() {
    let mut rows = vec![row(1, 10, true, 5), row(2, 10, true, 5), row(1, 11, false, 6)];
    assert_eq!(get_replicated_objects(&rows, 1), vec![10, 11]);
    assert!(is_object_replicated_to_client(&rows, 2, 10));
    assert!(!is_object_replicated_to_client(&rows, 2, 11));
    update_replication_time(&mut rows, 1, 10, 50).unwrap();
    assert_eq!(rows, vec![row(2, 10, true, 5), row(1, 11, false, 6), row(1, 10, true, 50)]);
    clear_client_replication_state(&mut rows, 1).unwrap();
    assert_eq!(rows, vec![row(2, 10, true, 5)]);
}

#[test]
fn reconcile_replication_with_cache() {
    let t = global_tables();
    let mut m = RelevancyManager::new();
    m.update_relevancy_cache(&t, &vec![1], &vec![]);
    // No settings: nothing is in the cache for client 1 (objects are only
    // cached when they have settings), so every row of client 1 goes.
    let mut rows = vec![row(1, 10, true, 5), row(2, 10, true, 5)];
    reconcile_client_replication_state(&mut rows, &m, 1, 9).unwrap();
    assert_eq!(rows, vec![row(2, 10, true, 5)]);

    let mut t2 = global_tables();
    t2.settings.push(settings_row(10, "AlwaysRelevant", "High"));
    t2.settings.push(settings_row(11, "AlwaysRelevant", "High"));
    let mut m2 = RelevancyManager::new();
    m2.update_relevancy_cache(&t2, &vec![1], &vec![]);
    let mut rows2 = vec![row(1, 10, true, 5), row(1, 12, true, 5)];
    reconcile_client_replication_state(&mut rows2, &m2, 1, 9).unwrap();
    assert_eq!(rows2, vec![row(1, 10, true, 5), row(1, 11, false, 9)]);
}
