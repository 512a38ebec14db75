use stdb_unreal::server::connection::{has_permission, register_client, set_client_admin_status, ClientIds, Identity};
use stdb_unreal::server::relevancy::{
    init_relevancy, RelevancyManager, RelevancySettingsEntry, RelevancyTables,
};
use stdb_unreal::server::integration::filter_initial_objects_for_client;
use stdb_unreal::server::rpc::{
    clear_registry, execute_handler, function_exists, get_function_info, get_handler, get_next_call_id,
    get_registered_functions, register_module_rpcs, register_rpc, unregister_rpc, CallIds, HandlerRun, RpcRegistry,
    ServerRpcHandler,
};
use stdb_unreal::shared::actor::ActorTransform;
use stdb_unreal::shared::relevancy::{NetworkPriority, RelevancyLevel, UpdateFrequency};
use stdb_unreal::shared::rpc::{RpcError, RpcType};
use stdb_unreal::shared::types::{Quat, Transform, Vector3};

fn id(n: u128) -> Identity {
    Identity { hi: 0, lo: n }
}

#[test]
fn registry_lookup_and_removal() {
    let mut reg = RpcRegistry::new();
    stdb_unreal::server::rpc::init(&mut reg);
    register_rpc(&mut reg, "jump", "Pawn", RpcType::Multicast, false, ServerRpcHandler::Registered(9));
    assert!(function_exists(&reg, "jump"));
    let info = get_function_info(&reg, "jump").unwrap();
    assert_eq!(info.class_name, "Pawn");
    assert_eq!(info.rpc_type, RpcType::Multicast);
    assert!(!info.is_reliable);
    let names: Vec<String> = get_registered_functions(&reg).into_iter().map(|f| f.name).collect();
    assert_eq!(names, vec!["ping".to_string(), "echo".to_string(), "jump".to_string()]);
    assert_eq!(get_handler(&reg, "ping"), Some(ServerRpcHandler::Ping));
    unregister_rpc(&mut reg, "jump");
    assert!(!function_exists(&reg, "jump"));
    assert!(get_function_info(&reg, "jump").is_none());
    clear_registry(&mut reg);
    assert!(get_registered_functions(&reg).is_empty());
}

#[test]
fn handlers_run() {
    let mut reg = RpcRegistry::new();
    stdb_unreal::server::rpc::init(&mut reg);
    register_rpc(&mut reg, "custom", "Pawn", RpcType::Server, true, ServerRpcHandler::Registered(4));
    assert!(matches!(execute_handler(&reg, "ping", 1, "{}"), HandlerRun::Done(Ok(s)) if s == "\"pong\""));
    assert!(matches!(execute_handler(&reg, "echo", 1, "[1,2]"), HandlerRun::Done(Ok(s)) if s == "[1,2]"));
    assert!(matches!(execute_handler(&reg, "custom", 1, "{}"), HandlerRun::Application(4)));
    assert!(matches!(execute_handler(&reg, "missing", 1, "{}"), HandlerRun::Done(Err(RpcError::FunctionNotFound))));
}

#[test]
fn module_registration_runs_the_registrar() {
    let mut seen = String::new();
    register_module_rpcs("combat", |name: &str| seen.push_str(name));
    assert_eq!(seen, "combat");
}

#[test]
fn call_ids_count_up() {
    let mut ids = CallIds::new();
    assert_eq!(get_next_call_id(&mut ids), 1);
    assert_eq!(get_next_call_id(&mut ids), 2);
}

#[test]
fn permissions() {
    let mut rows = Vec::new();
    let mut ids = ClientIds::new();
    register_client(&mut rows, &mut ids, Some(id(1)), 1);
    register_client(&mut rows, &mut ids, Some(id(2)), 1);
    assert!(has_permission(&rows, Some(id(1)), "actor.view"));
    assert!(!has_permission(&rows, Some(id(1)), "admin.kick"));
    assert!(!has_permission(&rows, Some(id(3)), "actor.view"));
    // System calls have every permission.
    assert!(has_permission(&rows, None, "admin.kick"));
    assert!(set_client_admin_status(&mut rows, None, id(2), true));
    assert!(has_permission(&rows, Some(id(2)), "admin.kick"));
    // A client that is not an admin cannot grant admin rights.
    assert!(!set_client_admin_status(&mut rows, Some(id(1)), id(1), true));
}

#[test]
fn client_ids_are_unique() {
    let mut rows = Vec::new();
    let mut ids = ClientIds::new();
    register_client(&mut rows, &mut ids, Some(id(1)), 1);
    register_client(&mut rows, &mut ids, Some(id(2)), 2);
    register_client(&mut rows, &mut ids, Some(id(1)), 3);
    assert_eq!(rows.len(), 2);
    assert_eq!(rows[0].client_id, 1000);
    assert_eq!(rows[1].client_id, 1001);
    assert_eq!(rows[0].connected_at, 3);
}

#[test]
fn relevancy_manager_edits_tables() {
    let mut t = RelevancyTables { zones: Vec::new(), memberships: Vec::new(), settings: Vec::new() };
    init_relevancy(&mut t);
    assert_eq!(RelevancyManager::add_to_zone(&mut t, 5, false, 0), Ok(()));
    assert_eq!(RelevancyManager::add_to_zone(&mut t, 5, false, 3), Err("Zone with ID 3 does not exist".to_string()));
    assert_eq!(t.memberships.len(), 1);
    assert_eq!(RelevancyManager::remove_from_zone(&mut t, 5, 0), Ok(()));
    assert!(t.memberships.is_empty());
    assert_eq!(
        RelevancyManager::set_relevancy_settings(&mut t, 8, RelevancyLevel::OwnerOnly, UpdateFrequency::High, NetworkPriority::Critical, Some(7)),
        Ok(())
    );
    assert_eq!(
        RelevancyManager::set_relevancy_settings(&mut t, 8, RelevancyLevel::SameZone, UpdateFrequency::Low, NetworkPriority::Low, None),
        Ok(())
    );
    assert_eq!(t.settings.len(), 1);
    let row: &RelevancySettingsEntry = &t.settings[0];
    assert_eq!(row.relevancy_level, "SameZone");
    assert_eq!(row.update_frequency, "Low");
    assert_eq!(row.network_priority, "Low");
    assert_eq!(row.max_distance, None);
    let mut m = RelevancyManager::new();
    m.update_relevancy_cache(&t, &vec![1], &vec![]);
    // Object 8 is in no zone the client shares, and object 9 has no settings.
    assert!(filter_initial_objects_for_client(&m, 1, &vec![8, 9]).is_empty());
    assert_eq!(filter_initial_objects_for_client(&m, 2, &vec![8, 9]), vec![8, 9]);
}

#[test]
fn actor_transform_update_carries_its_transform() {
    let u = ActorTransform { actor_id: 3, position: Vector3::new(1, 2, 3), rotation: Quat::identity(), scale: Vector3::one() };
    assert_eq!(u.to_transform(), Transform::new(Vector3::new(1, 2, 3), Quat::identity(), Vector3::one()));
    assert_eq!(Transform::from(u), u.to_transform());
}
