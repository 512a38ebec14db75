use stdb_unreal::client::actor::{
    add_component, create_actor, destroy_actor, get_actor, get_all_actors, get_components, is_actor,
    remove_component, update_lifecycle_state, update_transform, ActorRegistry,
};
use stdb_unreal::client::entry::{connect_to_server, dispatch_unreliable_rpc, handle_property_update, set_property};
use stdb_unreal::client::net::{is_connected, NetClient, SIMULATED_CLIENT_ID};
use stdb_unreal::client::object::{create_object, get_object_property, ObjectRegistry};
use stdb_unreal::client::class::ClassRegistry;
use stdb_unreal::client::property::{cache_property_value, get_cached_property_value, PropertyCache};
use stdb_unreal::client::rpc::{
    call_result, call_server_function, create_error_response, create_response, handle_server_call,
    send_rpc_to_server, RpcResult,
};
use stdb_unreal::json::{JsonOut, JsonValue};
use stdb_unreal::shared::lifecycle::ObjectLifecycleState;
use stdb_unreal::shared::object::SpawnParams;
use stdb_unreal::shared::property::PropertyValue;
use stdb_unreal::shared::types::{Quat, StatusCode, Transform, Vector3};

#[test]
fn actor_registry_lifecycle() {
    let mut reg = ActorRegistry::new();
    let mut cache = PropertyCache::new();
    let a = create_actor(&mut reg, 10, "Pawn", Transform::identity(), Some(3), true).unwrap();
    assert_eq!(a.id, 10);
    assert_eq!(a.state, ObjectLifecycleState::Initializing);
    assert!(is_actor(&reg, 10));
    assert!(!is_actor(&reg, 11));
    let loc = Vector3::new(1.0f32.to_bits(), 0, 0);
    update_transform(&mut reg, &mut cache, 10, Some(loc), None, None).unwrap();
    assert_eq!(get_actor(&reg, 10).unwrap().transform.location, loc);
    assert!(matches!(get_cached_property_value(&cache, 10, "Location"), Some(PropertyValue::Vector(v)) if v == loc));
    assert_eq!(update_transform(&mut reg, &mut cache, 11, None, None, None), Err(String::from("Actor 11 not found")));
    update_lifecycle_state(&mut reg, &mut cache, 10, ObjectLifecycleState::Active).unwrap();
    assert_eq!(get_actor(&reg, 10).unwrap().state, ObjectLifecycleState::Active);
    update_lifecycle_state(&mut reg, &mut cache, 10, ObjectLifecycleState::Destroyed).unwrap();
    assert!(get_actor(&reg, 10).is_none());
    assert!(get_cached_property_value(&cache, 10, "Location").is_none());
    assert_eq!(update_lifecycle_state(&mut reg, &mut cache, 10, ObjectLifecycleState::Active), Err(String::from("Actor 10 not found")));
}

#[test]
fn actor_components() {
    let mut reg = ActorRegistry::new();
    let mut cache = PropertyCache::new();
    create_actor(&mut reg, 1, "Pawn", Transform::identity(), None, true).unwrap();
    add_component(&mut reg, 1, 100).unwrap();
    add_component(&mut reg, 1, 101).unwrap();
    assert_eq!(add_component(&mut reg, 1, 100), Err(String::from("Component 100 already attached to actor 1")));
    assert_eq!(add_component(&mut reg, 2, 100), Err(String::from("Actor 2 not found")));
    assert_eq!(get_components(&reg, 1), Ok(vec![100, 101]));
    remove_component(&mut reg, 1, 100).unwrap();
    assert_eq!(get_components(&reg, 1), Ok(vec![101]));
    assert_eq!(remove_component(&mut reg, 2, 100), Err(String::from("Actor 2 not found")));
    assert_eq!(get_components(&reg, 2), Err(String::from("Actor 2 not found")));
    assert_eq!(get_all_actors(&reg).len(), 1);
    destroy_actor(&mut reg, &mut cache, 1).unwrap();
    assert_eq!(get_all_actors(&reg).len(), 0);
}

#[test]
fn rpc_results_and_texts() {
    let ok = RpcResult::success(Some(String::from("1")));
    assert_eq!(ok.status, StatusCode::Success);
    assert_eq!(ok.data, Some(String::from("1")));
    let bad = RpcResult::failure("oops", StatusCode::Timeout);
    assert_eq!(bad.status, StatusCode::Timeout);
    assert_eq!(bad.error, Some(String::from("oops")));
    assert_eq!(create_response(Some("[1,2]")), "{\"status\": \"success\", \"data\": [1,2]}");
    assert_eq!(create_response(None), "{\"status\": \"success\"}");
    assert_eq!(create_error_response("nope"), "{\"status\": \"error\", \"message\": \"nope\"}");
    assert_eq!(
        send_rpc_to_server(7, 8, "jump", "{}"),
        "{\n            \"client_id\": 7,\n            \"object_id\": 8,\n            \"function\": \"jump\",\n            \"args\": {}\n        }"
    );
    assert_eq!(call_server_function(false, 7, 8, "jump", "{}"), Err(String::from("Not connected to server")));
    assert!(call_server_function(true, 7, 8, "jump", "{}").unwrap().contains("\"function\": \"jump\""));
    assert_eq!(call_result(Ok(())).status, StatusCode::Success);
    let net = call_result(Err(String::from("down")));
    assert_eq!(net.status, StatusCode::NetworkError);
    assert_eq!(net.error, Some(String::from("down")));
}

#[test]
fn server_call_outcomes() {
    let r = handle_server_call("ping", Some(Ok(()))).unwrap();
    assert_eq!(r.status, StatusCode::Success);
    let r = handle_server_call("fail", Some(Err(String::from("bad")))).unwrap();
    assert_eq!(r.status, StatusCode::Failure);
    assert_eq!(r.error, Some(String::from("bad")));
    let r = handle_server_call("missing", None).unwrap();
    assert_eq!(r.status, StatusCode::NotFound);
    assert_eq!(r.error, Some(String::from("No handler registered for RPC function: missing")));
}

#[test]
fn connecting_twice_fails() {
    let mut client = NetClient::new();
    assert!(connect_to_server(&mut client, String::from("http://h"), String::from("db"), String::new()).is_ok());
    assert!(is_connected(&client));
    assert_eq!(client.client_id, SIMULATED_CLIENT_ID);
    assert_eq!(
        connect_to_server(&mut client, String::from("http://h"), String::from("db"), String::from("t")),
        Err(String::from("Failed to connect: Already connected or connecting"))
    );
}

#[test]
fn property_updates_in_both_directions() {
    let mut reg = ObjectRegistry::new();
    let mut cache = PropertyCache::new();
    let classes = ClassRegistry::new();
    let client = NetClient::new();
    let id = create_object(&mut reg, &mut cache, &classes, "Thing", SpawnParams::default(), Vec::new());
    let doc = JsonValue::String(String::from("hello"));
    handle_property_update(&mut reg, &mut cache, id, "Label", &doc, &String::from("\"hello\""), Quat::identity()).unwrap();
    assert!(matches!(get_object_property(&reg, &cache, id, "Label"), Some(PropertyValue::String(s)) if s == "hello"));
    let msg = set_property(&mut reg, &mut cache, &client, id, "Count", PropertyValue::Int32(4), true, Quat::identity()).unwrap();
    match msg {
        Some(JsonOut::Object(fs)) => {
            assert_eq!(fs.len(), 5);
            assert_eq!(fs[0].0, "type");
            assert_eq!(fs[2].0, "property");
        },
        _ => panic!("expected an update message"),
    }
    assert!(set_property(&mut reg, &mut cache, &client, id, "Count", PropertyValue::Int32(5), false, Quat::identity()).unwrap().is_none());
    assert!(matches!(get_object_property(&reg, &cache, id, "Count"), Some(PropertyValue::Int32(5))));
}

#[test]
fn unreliable_rpc_checks() {
    let mut reg = ObjectRegistry::new();
    let mut cache = PropertyCache::new();
    let classes = ClassRegistry::new();
    let mut client = NetClient::new();
    let mut params = SpawnParams::default();
    params.replicates = false;
    let local = create_object(&mut reg, &mut cache, &classes, "Thing", params, Vec::new());
    let shared = create_object(&mut reg, &mut cache, &classes, "Thing", SpawnParams::default(), Vec::new());
    assert_eq!(dispatch_unreliable_rpc(&reg, &client, 3, "f", JsonOut::Null).err(), Some(String::from("Object 3 not found")));
    assert_eq!(dispatch_unreliable_rpc(&reg, &client, local, "f", JsonOut::Null).err(),
        Some(format!("Cannot dispatch RPC for non-replicated object {}", local)));
    assert_eq!(dispatch_unreliable_rpc(&reg, &client, shared, "f", JsonOut::Null).err(),
        Some(String::from("Not connected to server")));
    connect_to_server(&mut client, String::from("h"), String::from("d"), String::new()).unwrap();
    assert!(matches!(dispatch_unreliable_rpc(&reg, &client, shared, "f", JsonOut::Null), Ok(JsonOut::Object(_))));
    cache_property_value(&mut cache, 1, "x", PropertyValue::Bool(true));
}
