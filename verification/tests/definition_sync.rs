use stdb_unreal::client::property::{
    get_property_definition, handle_property_definition_update, PropertyDefinitions, TableOp, TableRowOperation, TableUpdate,
};
use stdb_unreal::collections::AssocMap;
use stdb_unreal::json::{JsonNumber, JsonValue, NumberRepr};
use stdb_unreal::server::property::{
    register_property_definition, sync_property_definitions_to_table, PropertyDefinitionTable, PropertyRegistry,
};
use stdb_unreal::shared::property::{PropertyType, ReplicationCondition};

/// The row as the named members a client receives.
fn members(r: &PropertyDefinitionTable) -> Vec<(String, JsonValue)> {
    vec![
        ("id".to_string(), JsonValue::String(r.id.clone())),
        ("class_name".to_string(), JsonValue::String(r.class_name.clone())),
        ("property_name".to_string(), JsonValue::String(r.property_name.clone())),
        ("property_type".to_string(), JsonValue::String(r.property_type.clone())),
        ("replicated".to_string(), JsonValue::Bool(r.replicated)),
        ("replication_condition".to_string(), JsonValue::String(r.replication_condition.clone())),
        ("readonly".to_string(), JsonValue::Bool(r.readonly)),
        (
            "flags".to_string(),
            JsonValue::Number(JsonNumber {
                repr: NumberRepr::PosInt(r.flags as u64),
                as_f64_bits: (r.flags as f64).to_bits(),
                as_f32_bits: (r.flags as f32).to_bits(),
            }),
        ),
    ]
}

fn insert(row: &PropertyDefinitionTable) -> TableUpdate {
    TableUpdate {
        table_name: "PropertyDefinition".to_string(),
        table_row_operations: vec![TableRowOperation { operation: TableOp::Insert, row: Some(members(row)) }],
    }
}

#[test]
fn synced_definitions_reach_the_client() {
    let mut registry: PropertyRegistry = AssocMap::new();
    register_property_definition(&mut registry, "Pawn.Health", PropertyType::Int32, true, false, ReplicationCondition::Always, 5);
    register_property_definition(&mut registry, "Pawn.Secret", PropertyType::TMap, false, true, ReplicationCondition::OwnerOnly, 0);
    let mut table: Vec<PropertyDefinitionTable> = Vec::new();
    assert_eq!(sync_property_definitions_to_table(&registry, &mut table), 2);
    let mut defs = PropertyDefinitions::new();
    assert_eq!(handle_property_definition_update(&mut defs, &insert(&table[0])), Ok(()));
    let d = get_property_definition(&defs, "Pawn", "Health").unwrap();
    assert_eq!(d.name, "Health");
    assert_eq!(d.property_type, PropertyType::Int32);
    assert!(d.replicated);
    assert!(!d.readonly);
    assert_eq!(d.replication_condition, ReplicationCondition::Always);
    assert_eq!(d.flags, 5);
    // Clients only read the Initial, OnChange and Always conditions.
    assert_eq!(
        handle_property_definition_update(&mut defs, &insert(&table[1])),
        Err("Unknown replication condition: OwnerOnly".to_string())
    );
    assert!(get_property_definition(&defs, "Pawn", "Secret").is_none());
}

fn row(class_name: &str, property_name: &str, property_type: &str) -> Vec<(String, JsonValue)> {
    vec![
        ("class_name".to_string(), JsonValue::String(class_name.to_string())),
        ("property_name".to_string(), JsonValue::String(property_name.to_string())),
        ("property_type".to_string(), JsonValue::String(property_type.to_string())),
    ]
}

#[test]
fn every_row_of_an_update_is_applied() {
    let mut defs = PropertyDefinitions::new();
    let update = TableUpdate {
        table_name: "PropertyDefinition".to_string(),
        table_row_operations: vec![
            TableRowOperation { operation: TableOp::Insert, row: Some(row("C", "p1", "Bool")) },
            TableRowOperation { operation: TableOp::Insert, row: Some(row("C", "p2", "Bool")) },
        ],
    };
    assert_eq!(handle_property_definition_update(&mut defs, &update), Ok(()));
    assert!(get_property_definition(&defs, "C", "p1").is_some());
    assert!(get_property_definition(&defs, "C", "p2").is_some());
}

#[test]
fn an_update_stops_at_the_first_bad_row() {
    let mut defs = PropertyDefinitions::new();
    let update = TableUpdate {
        table_name: "PropertyDefinition".to_string(),
        table_row_operations: vec![
            TableRowOperation { operation: TableOp::Insert, row: Some(row("C", "p1", "Bool")) },
            TableRowOperation { operation: TableOp::Insert, row: Some(row("C", "p2", "Blob")) },
            TableRowOperation { operation: TableOp::Insert, row: Some(row("C", "p3", "Bool")) },
        ],
    };
    assert_eq!(handle_property_definition_update(&mut defs, &update), Err("Unknown property type: Blob".to_string()));
    assert!(get_property_definition(&defs, "C", "p1").is_some());
    assert!(get_property_definition(&defs, "C", "p2").is_none());
    assert!(get_property_definition(&defs, "C", "p3").is_none());
}
