use heroes_service::hero::Hero;
use heroes_service::json::{hero_to_json, heroes_to_json};

fn hero_from_json_value(value: &serde_json::Value) -> Hero {
    let object = value.as_object().unwrap();
    assert_eq!(object.len(), 2);
    Hero::new(
        object["id"].as_str().unwrap(),
        object["name"].as_str().unwrap(),
    )
}

#[test]
fn entity_serializes_to_the_two_field_object() {
    let hero = Hero::new("1", "Wonder Woman");
    assert_eq!(hero_to_json(&hero), "{\"id\":\"1\",\"name\":\"Wonder Woman\"}");
}

#[test]
fn entity_round_trips_through_json() {
    let hero = Hero::new("1", "Wonder Woman");
    let encoded = hero_to_json(&hero);
    let value: serde_json::Value = serde_json::from_str(&encoded).unwrap();
    assert_eq!(hero_from_json_value(&value), hero);

    let parsed: serde_json::Value =
        serde_json::from_str("{\"id\":\"1\",\"name\":\"Wonder Woman\"}").unwrap();
    assert_eq!(hero_from_json_value(&parsed), hero);
}

#[test]
fn quotes_and_backslashes_are_escaped() {
    let hero = Hero::new("say \"hi\"", "back\\slash");
    let encoded = hero_to_json(&hero);
    let value: serde_json::Value = serde_json::from_str(&encoded).unwrap();
    assert_eq!(hero_from_json_value(&value), hero);
}

#[test]
fn control_characters_are_escaped() {
    let hero = Hero::new("1", "line\nbreak");
    let encoded = hero_to_json(&hero);
    assert_eq!(encoded, "{\"id\":\"1\",\"name\":\"line\\u000abreak\"}");
    let value: serde_json::Value = serde_json::from_str(&encoded).unwrap();
    assert_eq!(hero_from_json_value(&value), hero);

    let hero = Hero::new("\u{1}\u{1f}", "tab\there");
    let value: serde_json::Value = serde_json::from_str(&hero_to_json(&hero)).unwrap();
    assert_eq!(hero_from_json_value(&value), hero);
}

#[test]
fn default_entity_has_empty_fields() {
    let hero = Hero::default();
    assert_eq!(hero_to_json(&hero), "{\"id\":\"\",\"name\":\"\"}");
}

#[test]
fn collection_serializes_to_an_array_in_order() {
    let heroes = vec![Hero::new("1", "Wonder Woman"), Hero::new("2", "Deadpool")];
    assert_eq!(
        heroes_to_json(&heroes),
        "[{\"id\":\"1\",\"name\":\"Wonder Woman\"},{\"id\":\"2\",\"name\":\"Deadpool\"}]"
    );
    let empty: Vec<Hero> = Vec::new();
    assert_eq!(heroes_to_json(&empty), "[]");
}
