use stdb_unreal::client::property::{
    add_property, cache_property_value, clear_property_cache, export_property_definitions_as_json,
    get_cached_property_value, get_property_definition, get_property_definition_as_json,
    get_property_definition_count, get_property_names_for_class, get_property_names_for_class_as_json,
    get_registered_class_names, get_registered_class_names_as_json,
    has_property_definitions_for_class, import_property_definitions_from_json, parse_property_type,
    parse_replication_condition, property_type_from_name, property_type_name, register_property_definition,
    remap_property_cache, replication_condition_name, transfer_cached_properties_to_object,
    unregister_property_definition, PropertyCache, PropertyDefinitions,
};
use stdb_unreal::json::{JsonOut, JsonValue};
use stdb_unreal::shared::property::{PropertyType, PropertyValue, ReplicationCondition};

#[test]
fn type_and_condition_names() {
    assert_eq!(property_type_name(PropertyType::TMap), "Map");
    assert_eq!(property_type_from_name("Set"), Some(PropertyType::TSet));
    assert_eq!(property_type_from_name("set"), None);
    assert_eq!(parse_property_type("Vector"), Ok(PropertyType::Vector));
    assert_eq!(parse_property_type("Matrix"), Err("Unknown property type: Matrix".to_string()));
    assert_eq!(replication_condition_name(ReplicationCondition::ServerOnly), "ServerOnly");
    assert_eq!(parse_replication_condition("Initial"), Ok(ReplicationCondition::Initial));
    // Received definitions may only name these three conditions.
    assert_eq!(
        parse_replication_condition("OwnerOnly"),
        Err("Unknown replication condition: OwnerOnly".to_string())
    );
}

#[test]
fn registration_never_replaces() {
    let mut defs = PropertyDefinitions::new();
    assert!(register_property_definition(&mut defs, "Pawn", "Health", PropertyType::Int32, true));
    assert!(!register_property_definition(&mut defs, "Pawn", "Health", PropertyType::Float, false));
    let d = get_property_definition(&defs, "Pawn", "Health").unwrap();
    assert_eq!(d.property_type, PropertyType::Int32);
    assert!(d.replicated);
    assert_eq!(d.replication_condition, ReplicationCondition::OnChange);
    assert!(get_property_definition(&defs, "Pawn", "Armor").is_none());
    assert!(get_property_definition(&defs, "Tree", "Health").is_none());
}

#[test]
fn add_property_checks_the_type() {
    let mut defs = PropertyDefinitions::new();
    assert!(!add_property(&mut defs, "Pawn", "Pos", "Vec3", true, ReplicationCondition::Always, false, 0));
    assert!(!has_property_definitions_for_class(&defs, "Pawn"));
    assert!(add_property(&mut defs, "Pawn", "Pos", "Vector", true, ReplicationCondition::Always, true, 6));
    let d = get_property_definition(&defs, "Pawn", "Pos").unwrap();
    assert_eq!(d.replication_condition, ReplicationCondition::Always);
    assert!(d.readonly);
    assert_eq!(d.flags, 6);
    assert!(!add_property(&mut defs, "Pawn", "Pos", "Float", true, ReplicationCondition::Always, true, 6));
}

#[test]
fn class_listing_and_counts() {
    let mut defs = PropertyDefinitions::new();
    register_property_definition(&mut defs, "Pawn", "Health", PropertyType::Int32, true);
    register_property_definition(&mut defs, "Item", "Weight", PropertyType::Float, false);
    register_property_definition(&mut defs, "Pawn", "Name", PropertyType::String, true);
    let mut classes = get_registered_class_names(&defs);
    classes.sort();
    assert_eq!(classes, vec!["Item".to_string(), "Pawn".to_string()]);
    let mut names = get_property_names_for_class(&defs, "Pawn");
    names.sort();
    assert_eq!(names, vec!["Health".to_string(), "Name".to_string()]);
    assert!(get_property_names_for_class(&defs, "Tree").is_empty());
    assert_eq!(get_property_definition_count(&defs), 3);
    assert!(unregister_property_definition(&mut defs, "Pawn", "Health"));
    assert!(!unregister_property_definition(&mut defs, "Pawn", "Health"));
    assert_eq!(get_property_definition_count(&defs), 2);
    assert!(has_property_definitions_for_class(&defs, "Pawn"));
}

fn member<'a>(o: &'a JsonOut, key: &str) -> Option<&'a JsonOut> {
    match o {
        JsonOut::Object(fs) => fs.iter().find(|(k, _)| k == key).map(|(_, v)| v),
        _ => None,
    }
}

#[test]
fn definitions_export_as_json() {
    let mut defs = PropertyDefinitions::new();
    add_property(&mut defs, "Pawn", "Health", "Int32", true, ReplicationCondition::Initial, false, 3);
    let doc = export_property_definitions_as_json(&defs);
    let d = member(member(&doc, "Pawn").unwrap(), "Health").unwrap();
    assert!(matches!(member(d, "type"), Some(JsonOut::String(t)) if t == "Int32"));
    assert!(matches!(member(d, "replication_condition"), Some(JsonOut::String(t)) if t == "Initial"));
    assert!(matches!(member(d, "flags"), Some(JsonOut::UInt(3))));
    assert!(matches!(member(d, "replicated"), Some(JsonOut::Bool(true))));
    let single = get_property_definition_as_json(&defs, "Pawn", "Health");
    assert!(matches!(member(&single, "name"), Some(JsonOut::String(t)) if t == "Health"));
    assert!(matches!(member(&single, "property_type"), Some(JsonOut::String(t)) if t == "Int32"));
    assert!(matches!(member(&single, "flags"), Some(JsonOut::UInt(3))));
    let missing = get_property_definition_as_json(&defs, "Pawn", "Armor");
    assert!(matches!(missing, JsonOut::Object(fs) if fs.is_empty()));
}

fn obj(members: Vec<(&str, JsonValue)>) -> JsonValue {
    JsonValue::Object(members.into_iter().map(|(k, v)| (k.to_string(), v)).collect())
}

#[test]
fn definitions_import_from_json() {
    let mut defs = PropertyDefinitions::new();
    let doc = obj(vec![(
        "Pawn",
        obj(vec![
            ("Health", obj(vec![("type", JsonValue::String("Int32".to_string())), ("replicated", JsonValue::Bool(true))])),
            ("Note", JsonValue::Bool(true)),
            ("Name", obj(vec![("type", JsonValue::String("String".to_string()))])),
        ]),
    )]);
    assert_eq!(import_property_definitions_from_json(&mut defs, &doc), Ok(2));
    assert!(get_property_definition(&defs, "Pawn", "Health").unwrap().replicated);
    assert!(!get_property_definition(&defs, "Pawn", "Name").unwrap().replicated);
    let bad = obj(vec![("Pawn", obj(vec![("Speed", obj(vec![("type", JsonValue::String("Speed".to_string()))]))]))]);
    assert_eq!(import_property_definitions_from_json(&mut defs, &bad), Err("Unknown property type: Speed".to_string()));
    assert_eq!(
        import_property_definitions_from_json(&mut defs, &JsonValue::Bool(true)),
        Err("Property definitions must be a JSON object".to_string())
    );
}

#[test]
fn cache_stages_values_until_transfer() {
    let mut cache = PropertyCache::new();
    cache_property_value(&mut cache, 1, "Health", PropertyValue::Int32(5));
    cache_property_value(&mut cache, 1, "Health", PropertyValue::Int32(6));
    cache_property_value(&mut cache, 1, "Name", PropertyValue::String("Bob".to_string()));
    assert!(matches!(get_cached_property_value(&cache, 1, "Health"), Some(PropertyValue::Int32(6))));
    remap_property_cache(&mut cache, 1, 500);
    assert!(get_cached_property_value(&cache, 1, "Health").is_none());
    assert!(matches!(get_cached_property_value(&cache, 500, "Name"), Some(PropertyValue::String(s)) if s == "Bob"));
    let props = transfer_cached_properties_to_object(&mut cache, 500);
    assert_eq!(props.len(), 2);
    assert!(get_cached_property_value(&cache, 500, "Name").is_none());
    cache_property_value(&mut cache, 2, "X", PropertyValue::Bool(true));
    clear_property_cache(&mut cache, 2);
    assert!(get_cached_property_value(&cache, 2, "X").is_none());
}

fn strings(o: &JsonOut) -> Vec<String> {
    match o {
        JsonOut::Array(xs) => xs
            .iter()
            .map(|x| match x {
                JsonOut::String(t) => t.clone(),
                _ => String::from("?"),
            })
            .collect(),
        _ => vec![String::from("not an array")],
    }
}

#[test]
fn names_as_json_arrays() {
    let mut defs = PropertyDefinitions::new();
    register_property_definition(&mut defs, "Pawn", "Health", PropertyType::Int32, true);
    register_property_definition(&mut defs, "Item", "Weight", PropertyType::Float, false);
    assert_eq!(strings(&get_registered_class_names_as_json(&defs)), vec!["Pawn".to_string(), "Item".to_string()]);
    assert_eq!(strings(&get_property_names_for_class_as_json(&defs, "Item")), vec!["Weight".to_string()]);
    assert!(strings(&get_property_names_for_class_as_json(&defs, "Tree")).is_empty());
}

/// What reading back the JSON text of an exported document gives.
fn carry(o: &JsonOut) -> JsonValue {
    match o {
        JsonOut::Null => JsonValue::Null,
        JsonOut::Bool(b) => JsonValue::Bool(*b),
        JsonOut::UInt(u) => JsonValue::Number(stdb_unreal::json::JsonNumber {
            repr: stdb_unreal::json::NumberRepr::PosInt(*u),
            as_f64_bits: (*u as f64).to_bits(),
            as_f32_bits: (*u as f32).to_bits(),
        }),
        JsonOut::String(t) => JsonValue::String(t.clone()),
        JsonOut::Object(fs) => JsonValue::Object(fs.iter().map(|(k, v)| (k.clone(), carry(v))).collect()),
        _ => JsonValue::Null,
    }
}

#[test]
fn exported_definitions_import_back() {
    let mut defs = PropertyDefinitions::new();
    add_property(&mut defs, "Pawn", "Health", "Int32", true, ReplicationCondition::Initial, true, 3);
    add_property(&mut defs, "Pawn", "Name", "String", false, ReplicationCondition::Always, false, 0);
    add_property(&mut defs, "Item", "Tags", "Set", true, ReplicationCondition::OnChange, false, 0);
    let doc = carry(&export_property_definitions_as_json(&defs));
    assert!(unregister_property_definition(&mut defs, "Pawn", "Health"));
    assert!(unregister_property_definition(&mut defs, "Pawn", "Name"));
    assert!(unregister_property_definition(&mut defs, "Item", "Tags"));
    assert_eq!(import_property_definitions_from_json(&mut defs, &doc), Ok(3));
    let h = get_property_definition(&defs, "Pawn", "Health").unwrap();
    assert_eq!(h.property_type, PropertyType::Int32);
    assert!(h.replicated);
    let n = get_property_definition(&defs, "Pawn", "Name").unwrap();
    assert_eq!(n.property_type, PropertyType::String);
    assert!(!n.replicated);
    assert_eq!(get_property_definition(&defs, "Item", "Tags").unwrap().property_type, PropertyType::TSet);
}

#[test]
fn staged_values_transfer_once_with_their_last_values() {
    let mut cache = PropertyCache::new();
    cache_property_value(&mut cache, 1, "a", PropertyValue::Int32(1));
    cache_property_value(&mut cache, 2, "a", PropertyValue::Int32(9));
    cache_property_value(&mut cache, 1, "a", PropertyValue::Int32(2));
    cache_property_value(&mut cache, 1, "b", PropertyValue::Bool(true));
    let moved = transfer_cached_properties_to_object(&mut cache, 1);
    assert_eq!(moved.len(), 2);
    assert!(matches!(moved.get(&"a".to_string()), Some(PropertyValue::Int32(2))));
    assert!(matches!(moved.get(&"b".to_string()), Some(PropertyValue::Bool(true))));
    assert!(get_cached_property_value(&cache, 1, "a").is_none());
    assert_eq!(transfer_cached_properties_to_object(&mut cache, 1).len(), 0);
    assert!(matches!(get_cached_property_value(&cache, 2, "a"), Some(PropertyValue::Int32(9))));
}

#[test]
fn definition_count_is_the_sum_over_classes() {
    let mut defs = PropertyDefinitions::new();
    for (c, p) in [("Door", "Open"), ("Door", "Color"), ("Lamp", "On"), ("Door", "Open")] {
        add_property(&mut defs, c, p, "Bool", true, ReplicationCondition::Always, false, 0);
    }
    let total: usize = get_registered_class_names(&defs)
        .iter()
        .map(|c| get_property_names_for_class(&defs, c).len())
        .sum();
    assert_eq!(total, 3);
    assert_eq!(get_property_definition_count(&defs), total);
}
