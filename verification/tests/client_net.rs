use stdb_unreal::client::class::{get_class_id_by_name, get_class_name_by_id, is_actor_class, register_class, ClassRegistry};
use stdb_unreal::client::net::{
    client_disconnect_message, connect, convert_disconnect_reason, disconnect, format_hex16, get_client_id,
    get_client_identity_hex, get_subscribed_tables, is_connected, send_message, subscribe_to_tables,
    unsubscribe_from_tables, NetClient, MAX_MESSAGE_BYTES, SIMULATED_CLIENT_ID,
    process_incoming_data, process_table_update, register_table_handler, Received, TableHandlerKind, TableStep,
};
use stdb_unreal::client::prediction::PredictionSystem;
use stdb_unreal::client::property::PropertyDefinitions;
use stdb_unreal::json::{get_field, has_field, take_field, JsonNumber, JsonOut, JsonValue, NumberRepr};
use stdb_unreal::shared::connection::{ConnectionParams, DisconnectReason};
use stdb_unreal::text_parse::{parse_error_text, parse_u64, ParseU64Error};

fn params() -> ConnectionParams {
    ConnectionParams { host: "localhost:3000".to_string(), database_name: "game".to_string(), auth_token: None }
}

fn table_of(o: &JsonOut) -> Option<(String, String, u64)> {
    match o {
        JsonOut::Object(fs) if fs.len() == 3 => match (&fs[0].1, &fs[1].1, &fs[2].1) {
            (JsonOut::String(k), JsonOut::String(t), JsonOut::UInt(id)) => Some((k.clone(), t.clone(), *id)),
            _ => None,
        },
        _ => None,
    }
}

#[test]
fn connect_then_disconnect() {
    let mut c = NetClient::new();
    assert!(!is_connected(&c));
    assert_eq!(get_client_identity_hex(&c), None);
    assert_eq!(connect(&mut c, params()), Ok(()));
    assert!(is_connected(&c));
    assert_eq!(get_client_id(&c), SIMULATED_CLIENT_ID);
    assert_eq!(connect(&mut c, params()), Err("Already connected or connecting".to_string()));
    assert_eq!(get_client_identity_hex(&c), Some("0000000000003039".to_string()));
    assert!(disconnect(&mut c));
    assert!(!disconnect(&mut c));
    assert_eq!(get_client_id(&c), 0);
    assert_eq!(client_disconnect_message(), "Disconnected by client");
}

#[test]
fn hex_formatting() {
    assert_eq!(format_hex16(0), "0000000000000000");
    assert_eq!(format_hex16(255), "00000000000000ff");
    assert_eq!(format_hex16(u64::MAX), "ffffffffffffffff");
    assert_eq!(format_hex16(0x0123_4567_89ab_cdef), "0123456789abcdef");
}

#[test]
fn disconnect_reasons() {
    assert!(matches!(convert_disconnect_reason("ClosedByClient".to_string()), DisconnectReason::ClientRequest));
    assert!(matches!(convert_disconnect_reason("ClosedByServer".to_string()), DisconnectReason::ServerShutdown));
    assert!(matches!(convert_disconnect_reason("Timeout".to_string()), DisconnectReason::Timeout));
    assert!(matches!(convert_disconnect_reason("ConnectionError".to_string()), DisconnectReason::NetworkError(m) if m == "ConnectionError"));
    assert!(matches!(convert_disconnect_reason("Other".to_string()), DisconnectReason::Unknown));
}

#[test]
fn sending_needs_a_connection_and_a_small_message() {
    let mut c = NetClient::new();
    assert_eq!(send_message(&c, "hi"), (Err("Not connected to server".to_string()), None));
    connect(&mut c, params()).unwrap();
    assert_eq!(send_message(&c, "hi"), (Ok(()), None));
    let big = "x".repeat(MAX_MESSAGE_BYTES + 1);
    assert_eq!(
        send_message(&c, &big),
        (Err("Message too large".to_string()), Some("Network error: Message too large".to_string()))
    );
    let exact = "x".repeat(MAX_MESSAGE_BYTES);
    assert_eq!(send_message(&c, &exact), (Ok(()), None));
}

#[test]
fn subscriptions() {
    let mut c = NetClient::new();
    assert_eq!(subscribe_to_tables(&mut c, &vec!["a".to_string()]).err(), Some("Not connected to server".to_string()));
    connect(&mut c, params()).unwrap();
    let reqs = subscribe_to_tables(&mut c, &vec!["a".to_string(), "b".to_string(), "a".to_string()]).unwrap();
    assert_eq!(reqs.len(), 2);
    assert_eq!(table_of(&reqs[0]), Some(("subscribe".to_string(), "a".to_string(), SIMULATED_CLIENT_ID)));
    assert_eq!(table_of(&reqs[1]), Some(("subscribe".to_string(), "b".to_string(), SIMULATED_CLIENT_ID)));
    assert_eq!(get_subscribed_tables(&c), vec!["a".to_string(), "b".to_string()]);
    assert_eq!(c.handlers.len(), 2);
    let again = subscribe_to_tables(&mut c, &vec!["b".to_string()]).unwrap();
    assert!(again.is_empty());
    let unsub = unsubscribe_from_tables(&mut c, &vec!["a".to_string(), "z".to_string()]).unwrap();
    assert_eq!(unsub.len(), 1);
    assert_eq!(table_of(&unsub[0]), Some(("unsubscribe".to_string(), "a".to_string(), SIMULATED_CLIENT_ID)));
    assert_eq!(get_subscribed_tables(&c), vec!["b".to_string()]);
}

#[test]
fn prediction_sequences() {
    let mut p = PredictionSystem::new();
    assert_eq!(p.get_next_sequence(4), None);
    p.register_object(4);
    assert!(p.has_prediction(4));
    assert_eq!(p.get_next_sequence(4), Some(0));
    assert_eq!(p.get_next_sequence(4), Some(1));
    assert_eq!(p.get_last_acked_sequence(4), Some(0));
    p.process_ack(4, 1);
    assert_eq!(p.get_last_acked_sequence(4), Some(1));
    p.process_ack(5, 3);
    assert_eq!(p.get_last_acked_sequence(5), None);
    // Registering again starts over.
    p.register_object(4);
    assert_eq!(p.get_next_sequence(4), Some(0));
    p.unregister_object(4);
    assert!(!p.has_prediction(4));
}

#[test]
fn parse_u64_cases() {
    assert_eq!(parse_u64("0"), Ok(0));
    assert_eq!(parse_u64("+42"), Ok(42));
    assert_eq!(parse_u64("18446744073709551615"), Ok(u64::MAX));
    assert_eq!(parse_u64("18446744073709551616"), Err(ParseU64Error::PosOverflow));
    assert_eq!(parse_u64(""), Err(ParseU64Error::Empty));
    assert_eq!(parse_u64("+"), Err(ParseU64Error::InvalidDigit));
    assert_eq!(parse_u64("-1"), Err(ParseU64Error::InvalidDigit));
    assert_eq!(parse_u64("12a"), Err(ParseU64Error::InvalidDigit));
    assert_eq!(parse_error_text(ParseU64Error::Empty), "".parse::<u64>().unwrap_err().to_string());
    assert_eq!(parse_error_text(ParseU64Error::InvalidDigit), "x".parse::<u64>().unwrap_err().to_string());
    assert_eq!(
        parse_error_text(ParseU64Error::PosOverflow),
        "99999999999999999999".parse::<u64>().unwrap_err().to_string()
    );
}

fn num(u: u64) -> JsonValue {
    JsonValue::Number(JsonNumber { repr: NumberRepr::PosInt(u), as_f64_bits: (u as f64).to_bits(), as_f32_bits: (u as f32).to_bits() })
}

#[test]
fn json_fields() {
    let mut fs = vec![("a".to_string(), num(1)), ("b".to_string(), JsonValue::Bool(true)), ("a".to_string(), num(2))];
    assert!(matches!(get_field(&fs, "a"), Some(JsonValue::Number(n)) if n.as_u64() == Some(1)));
    assert!(has_field(&fs, "b"));
    assert!(!has_field(&fs, "c"));
    assert!(matches!(take_field(&mut fs, "a"), Some(JsonValue::Number(n)) if n.as_u64() == Some(1)));
    assert!(take_field(&mut fs, "c").is_none());
    let neg = JsonNumber { repr: NumberRepr::NegInt(-3), as_f64_bits: 0, as_f32_bits: 0 };
    assert_eq!(neg.as_u64(), None);
    assert_eq!(neg.as_i64(), Some(-3));
    let big = JsonNumber { repr: NumberRepr::PosInt(u64::MAX), as_f64_bits: 0, as_f32_bits: 0 };
    assert_eq!(big.as_i64(), None);
}

#[test]
fn class_registry_lookups() {
    let mut reg = ClassRegistry::new();
    register_class(&mut reg, "Pawn", 3, true);
    register_class(&mut reg, "Item", 4, false);
    assert_eq!(get_class_id_by_name(&reg, "Pawn"), Some(3));
    assert_eq!(get_class_id_by_name(&reg, "Tree"), None);
    assert!(is_actor_class(&reg, 3));
    assert!(!is_actor_class(&reg, 4));
    assert!(!is_actor_class(&reg, 9));
    assert_eq!(get_class_name_by_id(&reg, 4), Some("Item".to_string()));
    assert_eq!(get_class_name_by_id(&reg, 9), None);
}

fn table_update_message(table: &str) -> JsonValue {
    JsonValue::Object(vec![
        ("type".to_string(), JsonValue::String("table_update".to_string())),
        ("table".to_string(), JsonValue::String(table.to_string())),
        ("operations".to_string(), JsonValue::Array(vec![])),
    ])
}

#[test]
fn application_table_handlers_run_in_turn() {
    let mut c = NetClient::new();
    let mut defs = PropertyDefinitions::new();
    register_table_handler(&mut c, "T", TableHandlerKind::LogUpdates);
    register_table_handler(&mut c, "T", TableHandlerKind::Application(7));
    register_table_handler(&mut c, "U", TableHandlerKind::Application(8));
    register_table_handler(&mut c, "T", TableHandlerKind::Application(9));
    let update = match process_incoming_data(&c, &mut defs, table_update_message("T")) {
        Received::RunApplication { update, handler, resume } => {
            assert_eq!((handler, resume), (7, 2));
            update
        }
        Received::Done(..) => panic!("expected an application handler"),
    };
    assert_eq!(update.table_name, "T");
    assert!(matches!(process_table_update(&c, &mut defs, &update, 2),
        TableStep::RunApplication { handler: 9, resume: 4 }));
    assert!(matches!(process_table_update(&c, &mut defs, &update, 4), TableStep::Done(Ok(()))));
    assert!(matches!(process_incoming_data(&c, &mut defs, table_update_message("V")), Received::Done(Ok(()), None)));
}
