use stdb_unreal::collections::AssocMap;
use stdb_unreal::server::actor::{
    cleanup_client_actors, generate_actor_id, initialize_world, spawn_actor, spawn_player_actor,
    spawn_system_actor, ActorIds, ActorInfo, ActorTables, TransformData, TransformUpdate,
};
use stdb_unreal::server::connection::{
    register_client, set_client_admin_status, set_client_display_name, set_connection_params, unregister_client,
    ClientIds, ClientInfo, Identity,
};
use stdb_unreal::server::dispatch::{
    broadcast_rpc, call_server_function, complete_call, send_rpc_to_client, send_rpc_to_others, send_rpc_to_owner,
    CallStep,
};
use stdb_unreal::server::object::{
    can_modify_actor, cleanup_destroyed_actors, destroy_actor, force_destroy_actor, generate_class_id,
    register_class_property, register_custom_class, set_actor_hidden, ObjectClass, ObjectComponent, ObjectInstance,
    ObjectProperty, ObjectTables, ObjectTransform,
};
use stdb_unreal::server::property::{
    get_property_type, init, load_property_definitions, process_property_replication_queue,
    queue_property_for_replication, set_object_property, sync_property_definitions_to_table,
    validate_property_value, PropertyDefinitionTable, PropertyRegistry, QueuedPropertyReplication,
};
use stdb_unreal::server::relevancy::RelevancyManager;
use stdb_unreal::server::rpc::{register_rpc, CallIds, RpcRegistry, ServerRpcHandler};
use stdb_unreal::server::validation::{
    validate_property, validation_message, ClassPropertySchema, PropertyConstraint, PropertySchemaRegistry, ValidationError,
};
use stdb_unreal::shared::connection::ConnectionParams;
use stdb_unreal::shared::lifecycle::{ActorLifecycleState, ObjectLifecycleState};
use stdb_unreal::shared::property::{PropertyType, PropertyValue};
use stdb_unreal::shared::rpc::{RpcCall, RpcError, RpcStatus, RpcType};
use stdb_unreal::shared::types::{Quat, Vector3};

fn id(n: u128) -> Identity {
    Identity { hi: 0, lo: n }
}

fn object(object_id: u64, owner: Option<Identity>, is_actor: bool) -> ObjectInstance {
    ObjectInstance {
        object_id,
        class_id: 1,
        object_name: String::from("o"),
        owner_identity: owner,
        outer_object_id: None,
        created_at: 0,
        state: ObjectLifecycleState::Active,
        is_actor,
        hidden: false,
        destroyed_at: None,
    }
}

fn connected(ids: &[u128]) -> Vec<ClientInfo> {
    let mut rows = Vec::new();
    let mut client_ids = ClientIds::new();
    for n in ids {
        register_client(&mut rows, &mut client_ids, Some(id(*n)), 1);
    }
    rows
}

#[test]
fn world_starts_with_default_classes_and_system_actors() {
    let mut tables = ActorTables::new();
    let mut ids = ActorIds::new();
    initialize_world(&mut tables, &mut ids, 50);
    assert_eq!(tables.classes.len(), 7);
    assert_eq!(tables.classes[0].class_name, "Actor");
    assert_eq!(tables.classes[3].class_name, "PlayerController");
    assert!(tables.classes[3].always_relevant);
    assert!(!tables.classes[4].replicates);
    assert_eq!(tables.actors.len(), 2);
    assert_eq!(tables.actors[0].actor_id, 1000);
    assert_eq!(tables.actors[0].class_id, 7);
    assert_eq!(tables.actors[1].actor_id, 1001);
    assert_eq!(tables.actors[1].actor_name, "GameMode");
    assert_eq!(ids.next, 1002);
}

#[test]
fn spawning_respects_permissions() {
    let mut tables = ActorTables::new();
    let mut ids = ActorIds::new();
    let clients = connected(&[1]);
    let pos = Vector3::new(1, 2, 3);
    // a known client may spawn a character, which gets two components
    let a = spawn_actor(&mut tables, &mut ids, &clients, Some(id(1)), 9, 3, String::from("Hero"), pos,
        Quat::identity(), Vector3::one(), vec![(String::from("Health"), PropertyValue::Int32(10))]);
    assert_eq!(a, 1000);
    assert_eq!(tables.actors[0].state, ActorLifecycleState::Active);
    assert_eq!(tables.actors[0].owner_identity, Some(id(1)));
    assert_eq!(tables.transforms[0].pos_z, 3);
    assert_eq!(tables.properties[0].property_name, "Health");
    assert_eq!(tables.components.len(), 2);
    assert_eq!(tables.components[0].component_id, 1001);
    assert_eq!(tables.components[1].component_name, "Mesh");
    assert_eq!(ids.next, 1003);
    // but not a player controller, and strangers nothing
    assert_eq!(spawn_actor(&mut tables, &mut ids, &clients, Some(id(1)), 9, 4, String::from("PC"), pos,
        Quat::identity(), Vector3::one(), Vec::new()), 0);
    assert_eq!(spawn_actor(&mut tables, &mut ids, &clients, Some(id(2)), 9, 1, String::from("A"), pos,
        Quat::identity(), Vector3::one(), Vec::new()), 0);
    assert_eq!(ids.next, 1003);
    // system actors need an admin or the system
    assert_eq!(spawn_system_actor(&mut tables, &mut ids, &clients, Some(id(1)), 9, 1, String::from("S"), pos,
        Quat::identity(), Vector3::one(), Vec::new()), 0);
    let s = spawn_system_actor(&mut tables, &mut ids, &clients, None, 9, 1, String::from("S"), pos,
        Quat::identity(), Vector3::one(), Vec::new());
    assert_eq!(s, 1003);
    assert_eq!(tables.actors[1].owner_identity, None);
    let p = spawn_player_actor(&mut tables, &mut ids, &clients, None, 9, 2, id(5), String::from("P"), pos,
        Quat::identity(), Vector3::one(), Vec::new());
    assert_eq!(p, 1004);
    assert_eq!(tables.actors[2].owner_identity, Some(id(5)));
}

#[test]
fn actor_ids_count_up() {
    let mut ids = ActorIds::new();
    assert_eq!(generate_actor_id(&mut ids), 1000);
    assert_eq!(generate_actor_id(&mut ids), 1001);
}

#[test]
fn transform_updates() {
    let t = TransformData { location: [1, 2, 3], rotation: [0, 0, 0, 1], scale: [1, 1, 1] };
    let mut u = TransformUpdate::new(4, t, None);
    assert_eq!(u.sequence, None);
    u.set_sequence(9);
    assert_eq!(u.sequence, Some(9));
    let v = TransformUpdate::with_sequence(4, t, None, 2);
    assert_eq!(v.sequence, Some(2));
    assert_eq!(v.object_id, 4);
}

#[test]
fn clients_connect_reconnect_and_disconnect() {
    let mut rows: Vec<ClientInfo> = Vec::new();
    let mut ids = ClientIds::new();
    register_client(&mut rows, &mut ids, Some(id(1)), 10);
    assert_eq!(rows.len(), 1);
    assert_eq!(rows[0].client_id, 1000);
    assert!(!rows[0].is_admin);
    register_client(&mut rows, &mut ids, Some(id(1)), 20);
    assert_eq!(rows.len(), 1);
    assert_eq!(rows[0].client_id, 1000);
    assert_eq!(rows[0].connected_at, 20);
    register_client(&mut rows, &mut ids, None, 30);
    assert_eq!(rows.len(), 1);
    // the client's actors are marked for destruction when it leaves
    let mut actors = vec![
        ActorInfo { actor_id: 1, class_id: 1, actor_name: String::from("a"), owner_identity: Some(id(1)),
            state: ActorLifecycleState::Active, created_at: 0, hidden: false },
        ActorInfo { actor_id: 2, class_id: 1, actor_name: String::from("b"), owner_identity: None,
            state: ActorLifecycleState::Active, created_at: 0, hidden: false },
    ];
    unregister_client(&mut rows, &mut actors, Some(id(1)));
    assert!(rows.is_empty());
    assert_eq!(actors[0].state, ActorLifecycleState::PendingDestroy);
    assert_eq!(actors[1].state, ActorLifecycleState::Active);
    // connecting and disconnecting again leaves the table as it was
    unregister_client(&mut rows, &mut actors, Some(id(9)));
    assert!(rows.is_empty());
    cleanup_client_actors(&mut actors, id(7));
    assert_eq!(actors.len(), 2);
}

#[test]
fn client_settings() {
    let mut rows = connected(&[1]);
    assert!(set_client_display_name(&mut rows, Some(id(1)), 5, String::from("Ann")));
    assert_eq!(rows[0].display_name, Some(String::from("Ann")));
    assert_eq!(rows[0].last_activity, 5);
    assert!(!set_client_display_name(&mut rows, Some(id(2)), 5, String::from("Bob")));
    assert!(!set_client_display_name(&mut rows, None, 5, String::from("Bob")));
    let params = ConnectionParams { host: String::from("h"), database_name: String::from("d"), auth_token: None };
    assert!(set_connection_params(&mut rows, Some(id(1)), 6, String::from("{}"), Some(params)));
    assert_eq!(rows[0].connection_params, Some(String::from("{}")));
    assert!(!set_connection_params(&mut rows, Some(id(1)), 7, String::from("x"), None));
    assert_eq!(rows[0].connection_params, Some(String::from("{}")));
    assert!(set_client_admin_status(&mut rows, None, id(1), true));
    assert!(rows[0].is_admin);
}

#[test]
fn custom_classes_and_properties() {
    let mut classes: Vec<ObjectClass> = Vec::new();
    assert_eq!(generate_class_id(&classes), 100);
    let c = register_custom_class(&mut classes, String::from("Door"), String::from("/Game/Door"), 1, true, true, false);
    assert_eq!(c, 100);
    let d = register_custom_class(&mut classes, String::from("Key"), String::from("/Game/Key"), 0, true, false, false);
    assert_eq!(d, 101);
    let mut props = Vec::new();
    assert!(register_class_property(&classes, &mut props, 100, String::from("Open"), PropertyType::Bool, true, false));
    assert!(!register_class_property(&classes, &mut props, 7, String::from("Open"), PropertyType::Bool, true, false));
    assert_eq!(props.len(), 1);
}

#[test]
fn actor_destruction_and_hiding() {
    let clients = connected(&[1, 2]);
    let mut objects = vec![object(10, Some(id(1)), true), object(11, None, false)];
    assert!(!destroy_actor(&mut objects, &clients, Some(id(2)), 5, 10));
    assert!(!destroy_actor(&mut objects, &clients, Some(id(1)), 5, 11));
    assert!(!destroy_actor(&mut objects, &clients, Some(id(1)), 5, 99));
    assert!(destroy_actor(&mut objects, &clients, Some(id(1)), 5, 10));
    assert_eq!(objects[0].state, ObjectLifecycleState::PendingKill);
    assert_eq!(objects[0].destroyed_at, Some(5));
    assert!(set_actor_hidden(&mut objects, &clients, None, 10, true));
    assert!(objects[0].hidden);
    assert!(!force_destroy_actor(&mut objects, &clients, Some(id(1)), 6, 10));
    assert!(force_destroy_actor(&mut objects, &clients, None, 6, 10));
    assert_eq!(objects[0].state, ObjectLifecycleState::Destroyed);
    assert!(can_modify_actor(&clients, Some(id(1)), &objects[0]));
    assert!(!can_modify_actor(&clients, Some(id(2)), &objects[0]));
    assert!(!can_modify_actor(&clients, None, &objects[1]));
}

#[test]
fn cleanup_deletes_long_destroyed_actors() {
    let mut pending = object(1, None, true);
    pending.state = ObjectLifecycleState::PendingKill;
    let mut old = object(2, None, true);
    old.state = ObjectLifecycleState::Destroyed;
    old.destroyed_at = Some(1000);
    let mut tables = ObjectTables {
        classes: Vec::new(),
        objects: vec![pending, old, object(3, None, true)],
        properties: vec![ObjectProperty { object_id: 2, property_name: String::from("x"), value: PropertyValue::Null,
            last_updated: 0, replicated: true }],
        class_properties: Vec::new(),
        references: Vec::new(),
        transforms: vec![ObjectTransform { object_id: 2, pos_x: 0, pos_y: 0, pos_z: 0, rot_x: 0, rot_y: 0, rot_z: 0,
            rot_w: 0, scale_x: 0, scale_y: 0, scale_z: 0 }],
        components: vec![ObjectComponent { component_id: 9, owner_object_id: 2, component_class_id: 1,
            component_name: String::from("c"), is_active: true }],
    };
    cleanup_destroyed_actors(&mut tables, 20000);
    assert_eq!(tables.objects.len(), 2);
    assert_eq!(tables.objects[0].object_id, 1);
    assert_eq!(tables.objects[0].state, ObjectLifecycleState::Destroyed);
    assert_eq!(tables.objects[0].destroyed_at, Some(20000));
    assert_eq!(tables.objects[1].object_id, 3);
    assert!(tables.properties.is_empty());
    assert!(tables.transforms.is_empty());
    assert!(tables.components.is_empty());
    // a second pass soon after keeps the freshly destroyed actor
    cleanup_destroyed_actors(&mut tables, 25000);
    assert_eq!(tables.objects.len(), 2);
    cleanup_destroyed_actors(&mut tables, 30001);
    assert_eq!(tables.objects.len(), 1);
}

#[test]
fn property_registry_and_table() {
    let mut registry: PropertyRegistry = AssocMap::new();
    let mut table: Vec<PropertyDefinitionTable> = Vec::new();
    let n = init(&mut registry, &mut table);
    assert_eq!(n, 6);
    assert_eq!(table.len(), 6);
    assert_eq!(table[0].id, "Common:Location");
    assert_eq!(table[0].property_type, "Vector");
    assert_eq!(table[4].replication_condition, "Initial");
    assert_eq!(table[5].property_type, "Custom");
    stdb_unreal::server::property::register_property_definition(&mut registry, "Door.Open", PropertyType::Bool, true,
        false, stdb_unreal::shared::property::ReplicationCondition::Always, 2);
    stdb_unreal::server::property::register_property_definition(&mut registry, "a.b.Color", PropertyType::Color, true,
        false, stdb_unreal::shared::property::ReplicationCondition::OnChange, 0);
    let m = sync_property_definitions_to_table(&registry, &mut table);
    assert_eq!(m, 8);
    assert_eq!(table.len(), 8);
    assert_eq!(table[6].id, "Door:Open");
    assert_eq!(table[6].class_name, "Door");
    assert_eq!(table[6].flags, 2);
    assert_eq!(table[7].id, "Common:Color");
    load_property_definitions(&mut registry);
    assert_eq!(registry.len(), 6);
}

#[test]
fn replication_queue() {
    let mut registry: PropertyRegistry = AssocMap::new();
    load_property_definitions(&mut registry);
    stdb_unreal::server::property::register_property_definition(&mut registry, "Secret", PropertyType::Int32, false,
        false, stdb_unreal::shared::property::ReplicationCondition::OnChange, 0);
    let mut queue: Vec<QueuedPropertyReplication> = Vec::new();
    queue_property_for_replication(&registry, &mut queue, 1, "ActorLocation", 5);
    queue_property_for_replication(&registry, &mut queue, 1, "Health", 6);
    queue_property_for_replication(&registry, &mut queue, 1, "Secret", 7);
    assert_eq!(queue.len(), 2);
    assert!(queue[0].is_high_priority);
    assert!(!queue[1].is_high_priority);
    let objects = vec![object(1, None, true)];
    let props = vec![ObjectProperty { object_id: 1, property_name: String::from("Health"), value: PropertyValue::Int32(3),
        last_updated: 0, replicated: true }];
    let manager = RelevancyManager::new();
    let updates = process_property_replication_queue(&mut queue, &objects, &props, &manager, &vec![7, 8]);
    assert!(queue.is_empty());
    assert_eq!(updates.len(), 2);
    assert_eq!(updates[0].client_id, 7);
    assert_eq!(updates[1].client_id, 8);
    assert_eq!(updates[0].property_name, "Health");
}

#[test]
fn writing_object_properties() {
    let mut registry: PropertyRegistry = AssocMap::new();
    load_property_definitions(&mut registry);
    let mut clients = connected(&[1, 2]);
    clients[1].is_admin = false;
    let objects = vec![object(1, Some(id(1)), true), object(2, None, false)];
    let mut props: Vec<ObjectProperty> = Vec::new();
    let mut queue: Vec<QueuedPropertyReplication> = Vec::new();
    let c1 = clients[0].client_id;
    let c2 = clients[1].client_id;
    assert_eq!(set_object_property(&clients, &objects, &registry, &mut props, &mut queue, 3, 77, 1,
        String::from("Health"), Ok(PropertyValue::Float(1))), Err(String::from("Client not found")));
    assert_eq!(set_object_property(&clients, &objects, &registry, &mut props, &mut queue, 3, c1, 9,
        String::from("Health"), Ok(PropertyValue::Float(1))), Err(String::from("Object 9 not found")));
    assert_eq!(set_object_property(&clients, &objects, &registry, &mut props, &mut queue, 3, c2, 1,
        String::from("Health"), Ok(PropertyValue::Float(1))),
        Err(String::from("You don't have permission to modify this object")));
    assert_eq!(set_object_property(&clients, &objects, &registry, &mut props, &mut queue, 3, c1, 1,
        String::from("Health"), Err(String::from("bad"))), Err(String::from("Failed to parse property value: bad")));
    assert_eq!(set_object_property(&clients, &objects, &registry, &mut props, &mut queue, 3, c1, 1,
        String::from("Health"), Ok(PropertyValue::Int32(1))),
        Err(String::from("Property validation failed: Type mismatch: expected Float, got Int32")));
    assert_eq!(set_object_property(&clients, &objects, &registry, &mut props, &mut queue, 3, c1, 1,
        String::from("Target"), Ok(PropertyValue::ObjectReference(55))),
        Err(String::from("Property validation failed: Referenced object 55 does not exist")));
    assert_eq!(set_object_property(&clients, &objects, &registry, &mut props, &mut queue, 3, c1, 1,
        String::from("Location"), Ok(PropertyValue::Vector(Vector3::new(0x7fc0_0000, 0, 0)))),
        Err(String::from("Property validation failed: Vector contains NaN values")));
    assert!(props.is_empty() && queue.is_empty());
    assert_eq!(set_object_property(&clients, &objects, &registry, &mut props, &mut queue, 3, c1, 1,
        String::from("Health"), Ok(PropertyValue::Float(5))), Ok(()));
    assert_eq!(set_object_property(&clients, &objects, &registry, &mut props, &mut queue, 4, c2, 2,
        String::from("Health"), Ok(PropertyValue::Float(6))), Ok(()));
    assert_eq!(set_object_property(&clients, &objects, &registry, &mut props, &mut queue, 5, c1, 1,
        String::from("Health"), Ok(PropertyValue::Float(7))), Ok(()));
    assert_eq!(props.len(), 2);
    assert!(matches!(props[0].value, PropertyValue::Float(7)));
    assert_eq!(props[0].last_updated, 5);
    assert_eq!(queue.len(), 3);
    assert!(validate_property_value(&registry, &objects, "Anything", &PropertyValue::ObjectReference(2)).is_ok());
    assert_eq!(get_property_type(&PropertyValue::Null), PropertyType::Bool);
}

#[test]
fn whole_number_bound_messages() {
    let c = PropertyConstraint {
        property_type: PropertyType::Int32,
        min_value: Some(PropertyValue::Int32(10)),
        max_value: Some(PropertyValue::Int32(-3)),
        allowed_values: None,
        required: false,
        custom_validator: None,
    };
    let e = validate_property(&PropertyValue::Int32(5), &c, false, false).unwrap_err();
    assert_eq!(e, ValidationError::BelowMinimum);
    assert_eq!(validation_message(&e, &PropertyValue::Int32(5), &c), Some(String::from("Value 5 is less than minimum 10")));
    assert_eq!(validation_message(&ValidationError::AboveMaximum, &PropertyValue::Int32(-1), &c),
        Some(String::from("Value -1 is greater than maximum -3")));
    assert_eq!(validation_message(&ValidationError::TypeMismatch { expected: PropertyType::Int32, got: PropertyType::Bool },
        &PropertyValue::Bool(true), &c), Some(String::from("Type mismatch: expected Int32, got Bool")));
    assert_eq!(validation_message(&ValidationError::Required, &PropertyValue::Null, &c),
        Some(String::from("Property is required but value is null")));
    let f = PropertyConstraint { min_value: Some(PropertyValue::Float(1.5f32.to_bits())), ..c };
    assert_eq!(validation_message(&ValidationError::BelowMinimum, &PropertyValue::Int32(1), &f), None);
    assert_eq!(validation_message(&ValidationError::NotAllowed, &PropertyValue::Int32(1), &f), None);
}

#[test]
fn constraints() {
    let c = PropertyConstraint {
        property_type: PropertyType::String,
        min_value: None,
        max_value: None,
        allowed_values: Some(vec![String::from("red"), String::from("blue")]),
        required: true,
        custom_validator: None,
    };
    assert_eq!(validate_property(&PropertyValue::Null, &c, false, false), Err(ValidationError::Required));
    assert_eq!(validate_property(&PropertyValue::Int32(1), &c, false, false),
        Err(ValidationError::TypeMismatch { expected: PropertyType::String, got: PropertyType::Int32 }));
    assert_eq!(validate_property(&PropertyValue::String(String::from("red")), &c, false, false), Ok(()));
    assert_eq!(validate_property(&PropertyValue::String(String::from("green")), &c, false, false),
        Err(ValidationError::NotAllowed));
    let n = PropertyConstraint {
        property_type: PropertyType::Int32,
        min_value: Some(PropertyValue::Int32(0)),
        max_value: Some(PropertyValue::Int32(10)),
        allowed_values: None,
        required: false,
        custom_validator: None,
    };
    assert_eq!(validate_property(&PropertyValue::Int32(-1), &n, true, false), Err(ValidationError::BelowMinimum));
    assert_eq!(validate_property(&PropertyValue::Int32(11), &n, false, true), Err(ValidationError::AboveMaximum));
    assert_eq!(validate_property(&PropertyValue::Null, &n, false, false), Ok(()));
    // Whole numbers are compared with whole-number bounds by the library itself (inclusively).
    let tight = PropertyConstraint {
        property_type: PropertyType::Int32,
        min_value: Some(PropertyValue::Int32(10)),
        max_value: Some(PropertyValue::Int32(10)),
        allowed_values: None,
        required: false,
        custom_validator: None,
    };
    assert_eq!(validate_property(&PropertyValue::Int32(5), &tight, false, false), Err(ValidationError::BelowMinimum));
    assert_eq!(validate_property(&PropertyValue::Int32(10), &tight, true, true), Ok(()));
    assert_eq!(validate_property(&PropertyValue::Int32(11), &tight, false, false), Err(ValidationError::AboveMaximum));
    // A float bound is compared by the caller.
    let float_min = PropertyConstraint {
        property_type: PropertyType::Int32,
        min_value: Some(PropertyValue::Float(2.5f32.to_bits())),
        max_value: None,
        allowed_values: None,
        required: false,
        custom_validator: None,
    };
    assert_eq!(validate_property(&PropertyValue::Int32(2), &float_min, true, false), Err(ValidationError::BelowMinimum));
    let mut schema = ClassPropertySchema::new("Door", Some("Actor"));
    schema.add_property("Color", c);
    let mut reg = PropertySchemaRegistry::new();
    reg.register_class_schema("Door", schema);
    assert_eq!(reg.validate_property("Window", "Color", &PropertyValue::Null, false, false), Err(ValidationError::NoSchema));
    assert_eq!(reg.validate_property("Door", "Size", &PropertyValue::Null, false, false),
        Err(ValidationError::UndefinedProperty));
    assert_eq!(reg.validate_property("Door", "Color", &PropertyValue::String(String::from("blue")), false, false), Ok(()));
    assert!(reg.get_class_schema("Door").is_some());
}

fn call(object_id: u64, name: &str, call_id: Option<u64>) -> RpcCall {
    RpcCall {
        object_id,
        function_name: String::from(name),
        arguments_json: String::from("[1]"),
        rpc_type: RpcType::Server,
        call_id,
    }
}

#[test]
fn server_rpc_dispatch() {
    let mut registry = RpcRegistry::new();
    stdb_unreal::server::rpc::init(&mut registry);
    register_rpc(&mut registry, "open", "Door", RpcType::Server, true, ServerRpcHandler::Registered(4));
    let objects = vec![object(1, None, true)];
    let mut ids = CallIds::new();
    let mut log = Vec::new();
    match call_server_function(&registry, &objects, &mut ids, &mut log, None, 3, &call(1, "nope", None)) {
        CallStep::Respond(r) => {
            assert_eq!(r.call_id, 1);
            assert_eq!(r.status, RpcStatus::Failed);
            assert!(matches!(r.error, Some(RpcError::FunctionNotFound)));
        },
        _ => panic!("expected a response"),
    }
    match call_server_function(&registry, &objects, &mut ids, &mut log, None, 3, &call(2, "ping", Some(40))) {
        CallStep::Respond(r) => assert!(matches!(r.error, Some(RpcError::ObjectNotFound(2))) && r.call_id == 40),
        _ => panic!("expected a response"),
    }
    match call_server_function(&registry, &objects, &mut ids, &mut log, None, 3, &call(1, "echo", None)) {
        CallStep::Respond(r) => assert_eq!(r.result_json, Some(String::from("[1]"))),
        _ => panic!("expected a response"),
    }
    match call_server_function(&registry, &objects, &mut ids, &mut log, None, 3, &call(1, "open", None)) {
        CallStep::RunApplication { call_id, handler } => {
            assert_eq!(call_id, 3);
            assert_eq!(handler, 4);
            let r = complete_call(&mut log, None, 3, &call(1, "open", None), call_id, Ok(String::from("true")));
            assert_eq!(r.status, RpcStatus::Success);
        },
        _ => panic!("expected an application handler"),
    }
    assert_eq!(log.len(), 4);
    assert_eq!(log[1].status, RpcStatus::Failed);
}

#[test]
fn an_application_handler_failure_is_answered_once() {
    let mut registry = RpcRegistry::new();
    stdb_unreal::server::rpc::init(&mut registry);
    register_rpc(&mut registry, "open", "Door", RpcType::Server, true, ServerRpcHandler::Registered(4));
    let objects = vec![object(1, None, true)];
    let mut ids = CallIds::new();
    let mut log = Vec::new();
    match call_server_function(&registry, &objects, &mut ids, &mut log, None, 5, &call(1, "open", Some(12))) {
        CallStep::RunApplication { call_id, handler } => {
            assert_eq!((call_id, handler), (12, 4));
            assert!(log.is_empty());
            let r = complete_call(&mut log, None, 5, &call(1, "open", Some(12)), call_id,
                Err(RpcError::ExecutionFailed(String::from("jammed"))));
            assert_eq!(r.call_id, 12);
            assert_eq!(r.status, RpcStatus::Failed);
            assert_eq!(r.result_json, None);
            assert!(r.error.is_some());
        },
        _ => panic!("expected an application handler"),
    }
    assert_eq!(log.len(), 1);
    assert_eq!(log[0].call_id, 12);
    assert_eq!(log[0].status, RpcStatus::Failed);
}

#[test]
fn server_to_client_rpcs() {
    let clients = connected(&[1, 2, 3]);
    let mut ids = CallIds::new();
    assert!(send_rpc_to_client(&clients, &mut ids, id(9), 1, "f", "{}").is_none());
    let c = send_rpc_to_client(&clients, &mut ids, id(2), 1, "f", "{}").unwrap();
    assert_eq!(c.call_id, Some(1));
    let (n, calls) = broadcast_rpc(&clients, &mut ids, 1, "f", "{}");
    assert_eq!(n, 3);
    assert_eq!(calls.len(), 3);
    assert_eq!(calls[2].1.call_id, Some(4));
    let others = send_rpc_to_others(&clients, &mut ids, Some(id(2)), 1, "f", "{}");
    assert_eq!(others.len(), 2);
    assert_eq!(others[0].0, id(1));
    assert_eq!(others[1].0, id(3));
    let objects = vec![object(1, Some(id(3)), true), object(2, None, true)];
    let (owner, call) = send_rpc_to_owner(&objects, &clients, &mut ids, 1, "f", "{}").unwrap();
    assert_eq!(owner, id(3));
    assert!(call.is_some());
    assert_eq!(send_rpc_to_owner(&objects, &clients, &mut ids, 2, "f", "{}").err(),
        Some(String::from("No owner found for object 2")));
}

#[test]
fn actor_ids_count_up_from_one_thousand() {
    let mut ids = ActorIds::new();
    let got: Vec<u64> = (0..4).map(|_| generate_actor_id(&mut ids)).collect();
    assert_eq!(got, vec![1000, 1001, 1002, 1003]);
}
