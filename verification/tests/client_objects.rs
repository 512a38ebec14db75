use stdb_unreal::client::class::{register_class, ClassRegistry};
use stdb_unreal::client::object::{
    add_component, create_actor, create_call_target, create_object, destroy_object, get_all_actors,
    get_all_objects, get_component_by_class, get_component_owner, get_component_property, get_components,
    get_object, get_object_property, get_property, handle_object_creation_response,
    handle_server_destroy_notification, is_actor, is_component, make_temp_object_id, generate_temp_object_id, read_object_description, requests_server_creation,
    remap_object_id, remove_component, request_server_destroy_object, set_component_property,
    update_lifecycle_state, update_object_property, update_transform, ObjectRegistry, TEMP_ID_FLAG,
};
use stdb_unreal::client::net::{connect, NetClient};
use stdb_unreal::shared::connection::ConnectionParams;
use stdb_unreal::client::property::{cache_property_value, get_cached_property_value, PropertyCache};
use stdb_unreal::json::{JsonNumber, JsonValue, NumberRepr};
use stdb_unreal::shared::lifecycle::ObjectLifecycleState;
use stdb_unreal::shared::object::SpawnParams;
use stdb_unreal::shared::property::PropertyValue;
use stdb_unreal::shared::types::{Quat, Rotator, Transform, Vector3};

fn bits(x: f32) -> u32 {
    x.to_bits()
}

fn vec3(x: f32, y: f32, z: f32) -> Vector3 {
    Vector3::new(bits(x), bits(y), bits(z))
}

fn world() -> (ObjectRegistry, PropertyCache, ClassRegistry) {
    let mut classes = ClassRegistry::new();
    register_class(&mut classes, "Actor", 1, true);
    register_class(&mut classes, "Widget", 200, false);
    (ObjectRegistry::new(), PropertyCache::new(), classes)
}

fn number(n: u64) -> JsonValue {
    JsonValue::Number(JsonNumber {
        repr: NumberRepr::PosInt(n),
        as_f64_bits: (n as f64).to_bits(),
        as_f32_bits: (n as f32).to_bits(),
    })
}

#[test]
fn temp_id_formula() {
    assert_eq!(make_temp_object_id(0, 0), 1u64 << 63);
    assert_eq!(make_temp_object_id(5, 1), (5u64 ^ (1u64 << 32)) | (1u64 << 63));
    assert_eq!(make_temp_object_id(0xFFFF_FFFF, 0xFFFF_FFFF), u64::MAX);
    assert!(generate_temp_object_id() >= TEMP_ID_FLAG);
}

#[test]
fn created_objects_get_temporary_ids_and_staged_properties() {
    let (mut reg, mut cache, classes) = world();
    let mut params = SpawnParams::default();
    params.class_name = String::from("Actor");
    let decoded = vec![
        (String::from("Health"), Ok(PropertyValue::Int32(100))),
        (String::from("Broken"), Err(String::from("bad json"))),
    ];
    let id = create_object(&mut reg, &mut cache, &classes, "Actor", params, decoded);
    assert!(id >= TEMP_ID_FLAG);
    let o = get_object(&reg, id).expect("registered");
    assert_eq!(o.class_name, "Actor");
    assert!(o.is_actor);
    assert!(o.needs_id_remap);
    assert_eq!(o.state, ObjectLifecycleState::Initializing);
    assert!(matches!(o.get_property("Health"), Some(PropertyValue::Int32(100))));
    assert!(o.get_property("Broken").is_none());
    assert!(get_cached_property_value(&cache, id, "Health").is_none());
    assert!(is_actor(&reg, id));
}

#[test]
fn non_actor_class_and_unknown_class_are_not_actors() {
    let (mut reg, mut cache, classes) = world();
    let w = create_object(&mut reg, &mut cache, &classes, "Widget", SpawnParams::default(), Vec::new());
    let u = create_object(&mut reg, &mut cache, &classes, "Nope", SpawnParams::default(), Vec::new());
    assert!(!is_actor(&reg, w));
    assert!(!is_actor(&reg, u));
    assert!(!is_actor(&reg, 42));
}

#[test]
fn update_then_read_location_rotation_scale_and_plain() {
    let (mut reg, mut cache, classes) = world();
    let id = create_actor(&mut reg, &mut cache, &classes, "Actor", Transform::identity(), None, true);
    let q = Quat::new(bits(0.0), bits(0.0), bits(0.7071), bits(0.7071));
    update_object_property(&mut reg, &mut cache, id, "Location", PropertyValue::Vector(vec3(1.0, 2.0, 3.0)), Quat::identity()).unwrap();
    update_object_property(&mut reg, &mut cache, id, "Rotation", PropertyValue::Rotator(Rotator::new(bits(0.0), bits(90.0), bits(0.0))), q).unwrap();
    update_object_property(&mut reg, &mut cache, id, "Speed", PropertyValue::Float(bits(4.5)), Quat::identity()).unwrap();
    assert!(matches!(get_object_property(&reg, &cache, id, "Location"), Some(PropertyValue::Vector(v)) if v == vec3(1.0, 2.0, 3.0)));
    assert!(matches!(get_object_property(&reg, &cache, id, "Rotation"), Some(PropertyValue::Quat(r)) if r == q));
    assert!(matches!(get_object_property(&reg, &cache, id, "Speed"), Some(PropertyValue::Float(b)) if b == bits(4.5)));
    // every update is also staged
    assert!(matches!(get_cached_property_value(&cache, id, "Speed"), Some(PropertyValue::Float(_))));
}

#[test]
fn update_of_unknown_object_is_staged() {
    let (mut reg, mut cache, _classes) = world();
    update_object_property(&mut reg, &mut cache, 77, "Health", PropertyValue::Int32(5), Quat::identity()).unwrap();
    assert!(get_object(&reg, 77).is_none());
    assert!(matches!(get_object_property(&reg, &cache, 77, "Health"), Some(PropertyValue::Int32(5))));
    assert!(matches!(get_property(&reg, &cache, 77, "Health"), Ok(Some(PropertyValue::Int32(5)))));
}

#[test]
fn wrong_value_kind_for_location_is_ignored() {
    let (mut reg, mut cache, classes) = world();
    let id = create_object(&mut reg, &mut cache, &classes, "Widget", SpawnParams::default(), Vec::new());
    let before = get_object(&reg, id).unwrap().transform;
    update_object_property(&mut reg, &mut cache, id, "Location", PropertyValue::Int32(3), Quat::identity()).unwrap();
    assert_eq!(get_object(&reg, id).unwrap().transform, before);
}

#[test]
fn client_object_set_property_errors() {
    let (mut reg, mut cache, classes) = world();
    let id = create_object(&mut reg, &mut cache, &classes, "Widget", SpawnParams::default(), Vec::new());
    let mut o = get_object(&reg, id).unwrap();
    assert_eq!(o.set_property("Location", PropertyValue::Bool(true)), Err(String::from("Invalid value type for Location property")));
    assert_eq!(o.set_property("Rotation", PropertyValue::Bool(true)), Err(String::from("Invalid value type for Rotation property")));
    assert_eq!(o.set_property("Scale", PropertyValue::Bool(true)), Err(String::from("Invalid value type for Scale property")));
    assert!(o.set_property("Rotation", PropertyValue::Rotator(Rotator::zero())).is_ok());
    assert!(matches!(o.get_property("Rotation"), Some(PropertyValue::Quat(q)) if q == Quat::identity()));
    assert!(o.set_property("Name", PropertyValue::String(String::from("x"))).is_ok());
    assert!(matches!(o.get_property("Name"), Some(PropertyValue::String(s)) if s == "x"));
}

#[test]
fn transform_update_records_parts() {
    let (mut reg, mut cache, classes) = world();
    let id = create_object(&mut reg, &mut cache, &classes, "Widget", SpawnParams::default(), Vec::new());
    update_transform(&mut reg, &mut cache, id, Some(vec3(9.0, 8.0, 7.0)), None, Some(vec3(2.0, 2.0, 2.0))).unwrap();
    let o = get_object(&reg, id).unwrap();
    let t = o.transform.unwrap();
    assert_eq!(t.location, vec3(9.0, 8.0, 7.0));
    assert_eq!(t.rotation, Quat::identity());
    assert_eq!(t.scale, vec3(2.0, 2.0, 2.0));
    assert!(matches!(get_cached_property_value(&cache, id, "Scale"), Some(PropertyValue::Vector(_))));
    assert!(get_cached_property_value(&cache, id, "Rotation").is_none());
    assert_eq!(update_transform(&mut reg, &mut cache, 5, None, None, None), Err(String::from("Object 5 not found")));
}

#[test]
fn destroying_temporary_objects_is_local() {
    let (mut reg, mut cache, classes) = world();
    let id = create_object(&mut reg, &mut cache, &classes, "Widget", SpawnParams::default(), Vec::new());
    assert_eq!(destroy_object(&mut reg, id), Ok(false));
    assert!(get_object(&reg, id).is_none());
    assert_eq!(destroy_object(&mut reg, id), Err(format!("Object {} not found", id)));
}

#[test]
fn remap_then_destroy_asks_the_server() {
    let (mut reg, mut cache, classes) = world();
    let temp = create_object(&mut reg, &mut cache, &classes, "Actor", SpawnParams::default(), Vec::new());
    cache_property_value(&mut cache, 500, "Color", PropertyValue::Int32(7));
    remap_object_id(&mut reg, &mut cache, temp, 500).unwrap();
    assert!(get_object(&reg, temp).is_none());
    let o = get_object(&reg, 500).unwrap();
    assert_eq!(o.id, 500);
    assert!(!o.needs_id_remap);
    assert!(matches!(o.get_property("Color"), Some(PropertyValue::Int32(7))));
    assert_eq!(destroy_object(&mut reg, 500), Ok(true));
    assert_eq!(get_object(&reg, 500).unwrap().state, ObjectLifecycleState::PendingKill);
    assert_eq!(remap_object_id(&mut reg, &mut cache, temp, 501), Err(format!("Failed to remap object: temp ID {} not found", temp)));
}

#[test]
fn lifecycle_state_updates() {
    let (mut reg, mut cache, classes) = world();
    let temp = create_object(&mut reg, &mut cache, &classes, "Actor", SpawnParams::default(), Vec::new());
    assert_eq!(update_lifecycle_state(&mut reg, temp, ObjectLifecycleState::Active), Ok(false));
    assert_eq!(get_object(&reg, temp).unwrap().state, ObjectLifecycleState::Active);
    assert_eq!(update_lifecycle_state(&mut reg, temp, ObjectLifecycleState::Destroyed), Ok(false));
    assert!(get_object(&reg, temp).is_none());
    assert_eq!(update_lifecycle_state(&mut reg, 3, ObjectLifecycleState::Active), Err(String::from("Object 3 not found")));
}

#[test]
fn creation_response_cases() {
    let (mut reg, mut cache, classes) = world();
    let temp = create_object(&mut reg, &mut cache, &classes, "Actor", SpawnParams::default(), Vec::new());
    let missing = JsonValue::Object(vec![]);
    assert_eq!(handle_object_creation_response(&mut reg, &mut cache, temp, &missing),
        Err(String::from("Missing object_id in server response")));
    let ok = JsonValue::Object(vec![(String::from("object_id"), number(900))]);
    assert!(handle_object_creation_response(&mut reg, &mut cache, temp, &ok).is_ok());
    assert!(get_object(&reg, 900).is_some());
    assert_eq!(reg.temp_id_mapping.get(&temp), Some(&900));

    let temp2 = create_object(&mut reg, &mut cache, &classes, "Actor", SpawnParams::default(), Vec::new());
    let failed = JsonValue::Object(vec![
        (String::from("object_id"), number(0)),
        (String::from("error"), JsonValue::String(String::from("no room"))),
    ]);
    assert_eq!(handle_object_creation_response(&mut reg, &mut cache, temp2, &failed), Err(String::from("no room")));
    assert!(get_object(&reg, temp2).is_none());
    let temp3 = create_object(&mut reg, &mut cache, &classes, "Actor", SpawnParams::default(), Vec::new());
    let failed_plain = JsonValue::Object(vec![(String::from("object_id"), number(0))]);
    assert_eq!(handle_object_creation_response(&mut reg, &mut cache, temp3, &failed_plain),
        Err(String::from("Unknown error creating object on server")));
}

#[test]
fn components_attach_and_detach() {
    let (mut reg, mut cache, classes) = world();
    let actor = create_object(&mut reg, &mut cache, &classes, "Actor", SpawnParams::default(), Vec::new());
    let comp = create_object(&mut reg, &mut cache, &classes, "Widget", SpawnParams::default(), Vec::new());
    let widget = create_object(&mut reg, &mut cache, &classes, "Widget", SpawnParams::default(), Vec::new());
    assert_eq!(add_component(&mut reg, actor, 12345), Err(String::from("Component 12345 does not exist")));
    assert_eq!(add_component(&mut reg, 4, comp), Err(String::from("Actor 4 not found")));
    assert_eq!(add_component(&mut reg, widget, comp), Err(format!("Cannot add component to non-actor object {}", widget)));
    assert!(add_component(&mut reg, actor, comp).is_ok());
    assert_eq!(add_component(&mut reg, actor, comp), Err(format!("Component {} already attached to actor {}", comp, actor)));
    assert_eq!(get_components(&reg, actor), Ok(vec![comp]));
    assert_eq!(get_component_owner(&reg, comp), Some(actor));
    assert!(is_component(&reg, comp));
    assert_eq!(get_object(&reg, comp).unwrap().owner_id, Some(actor));
    let found = get_component_by_class(&reg, actor, "Widget").unwrap().unwrap();
    assert_eq!(found.id, comp);
    assert!(get_component_by_class(&reg, actor, "Other").unwrap().is_none());
    assert_eq!(get_components(&reg, widget), Err(format!("Object {} is not an actor", widget)));
    // detach undoes attach
    assert!(remove_component(&mut reg, actor, comp).is_ok());
    assert_eq!(get_components(&reg, actor), Ok(vec![]));
    assert!(!is_component(&reg, comp));
    assert_eq!(get_object(&reg, comp).unwrap().owner_id, None);
    assert!(remove_component(&mut reg, actor, comp).is_ok());
    assert_eq!(remove_component(&mut reg, 4, comp), Err(String::from("Actor 4 not found")));
}

#[test]
fn component_properties() {
    let (mut reg, mut cache, classes) = world();
    let actor = create_object(&mut reg, &mut cache, &classes, "Actor", SpawnParams::default(), Vec::new());
    let comp = create_object(&mut reg, &mut cache, &classes, "Widget", SpawnParams::default(), Vec::new());
    add_component(&mut reg, actor, comp).unwrap();
    set_component_property(&mut reg, &mut cache, actor, "Widget", "Power", PropertyValue::Int32(3), Quat::identity()).unwrap();
    assert!(matches!(get_component_property(&reg, actor, "Widget", "Power"), Ok(Some(PropertyValue::Int32(3)))));
    assert!(matches!(get_component_property(&reg, actor, "Other", "Power"), Ok(None)));
    assert_eq!(set_component_property(&mut reg, &mut cache, actor, "Other", "Power", PropertyValue::Int32(3), Quat::identity()),
        Err(format!("Component of class Other not found on actor {}", actor)));
}

#[test]
fn destroy_notification_drops_ownership() {
    let (mut reg, mut cache, classes) = world();
    let actor = create_object(&mut reg, &mut cache, &classes, "Actor", SpawnParams::default(), Vec::new());
    let comp = create_object(&mut reg, &mut cache, &classes, "Widget", SpawnParams::default(), Vec::new());
    add_component(&mut reg, actor, comp).unwrap();
    handle_server_destroy_notification(&mut reg, actor);
    assert!(get_object(&reg, actor).is_none());
    assert!(!is_component(&reg, comp));
    assert!(get_object(&reg, comp).is_some());
}

#[test]
fn listings() {
    let (mut reg, mut cache, classes) = world();
    let a = create_object(&mut reg, &mut cache, &classes, "Actor", SpawnParams::default(), Vec::new());
    let w = create_object(&mut reg, &mut cache, &classes, "Widget", SpawnParams::default(), Vec::new());
    let all = get_all_objects(&reg);
    assert_eq!(all.len(), 2);
    let actors = get_all_actors(&reg);
    assert_eq!(actors.len(), 1);
    assert_eq!(actors[0].id, a);
    assert!(all.iter().any(|o| o.id == w));
}

#[test]
fn server_call_targets() {
    let (_reg, _cache, classes) = world();
    assert_eq!(create_call_target(&classes, false, "Actor"), Err(String::from("Not connected to server")));
    assert_eq!(create_call_target(&classes, true, "Nope"), Err(String::from("Unknown class: Nope")));
    assert_eq!(create_call_target(&classes, true, "Actor"), Ok((1, String::from("spawn_actor"))));
    assert_eq!(create_call_target(&classes, true, "Widget"), Ok((200, String::from("spawn_object"))));
    assert_eq!(request_server_destroy_object(&classes, true, 9, "Actor"),
        Ok((String::from("destroy_actor"), String::from("{\"object_id\": 9}"))));
    assert_eq!(request_server_destroy_object(&classes, true, 9, "Widget"),
        Ok((String::from("destroy_object"), String::from("{\"object_id\": 9}"))));
    assert_eq!(request_server_destroy_object(&classes, false, 9, "Widget"), Err(String::from("Not connected to server")));
    assert_eq!(request_server_destroy_object(&classes, true, 9, "Nope"), Err(String::from("Unknown class: Nope")));
}

fn fields(members: Vec<(&str, JsonValue)>) -> JsonValue {
    JsonValue::Object(members.into_iter().map(|(k, v)| (k.to_string(), v)).collect())
}

fn floating(x: f64) -> JsonValue {
    JsonValue::Number(JsonNumber { repr: NumberRepr::Float(x.to_bits()), as_f64_bits: x.to_bits(), as_f32_bits: (x as f32).to_bits() })
}

#[test]
fn object_description_defaults() {
    let d = read_object_description(&fields(vec![]));
    assert_eq!(d.transform, None);
    assert_eq!(d.owner_id, None);
    assert!(d.replicates);
    let d = read_object_description(&fields(vec![
        ("transform", fields(vec![("location", fields(vec![("x", floating(1.5)), ("y", number(2))]))])),
        ("owner_id", number(9)),
        ("replicates", JsonValue::Bool(false)),
    ]));
    assert_eq!(d.transform, Some(Transform::identity()));
    assert_eq!(d.owner_id, Some(9));
    assert!(!d.replicates);
}

#[test]
fn object_description_reads_transform() {
    let t = fields(vec![
        ("location", fields(vec![("x", floating(1.5)), ("y", number(2)), ("z", floating(-3.0))])),
        ("rotation", fields(vec![("x", number(0)), ("y", number(0)), ("z", number(0)), ("w", floating(0.5))])),
        ("scale", fields(vec![("x", number(2)), ("y", number(2)), ("z", number(2))])),
    ]);
    let d = read_object_description(&fields(vec![("transform", t), ("owner_id", floating(3.5)), ("replicates", number(0))]));
    assert_eq!(d.transform, Some(Transform::new(vec3(1.5, 2.0, -3.0), Quat::new(bits(0.0), bits(0.0), bits(0.0), bits(0.5)), vec3(2.0, 2.0, 2.0))));
    assert_eq!(d.owner_id, None);
    assert!(d.replicates);
}

#[test]
fn only_replicating_objects_are_requested_while_connected() {
    let mut c = NetClient::new();
    let replicating = read_object_description(&fields(vec![]));
    let local = read_object_description(&fields(vec![("transform", fields(vec![])), ("replicates", JsonValue::Bool(false))]));
    assert_eq!(local.transform, Some(Transform::identity()));
    assert!(!requests_server_creation(&replicating, &c));
    let params = ConnectionParams { host: "localhost:3000".to_string(), database_name: "game".to_string(), auth_token: None };
    assert_eq!(connect(&mut c, params), Ok(()));
    assert!(requests_server_creation(&replicating, &c));
    assert!(!requests_server_creation(&local, &c));
}
