use salesforce_exporter::json::Json;
use salesforce_exporter::listing::{list_object, list_objects, ObjectInfo};

fn object(name: &str, key_prefix: Option<&str>) -> ObjectInfo {
    ObjectInfo {
        name: name.to_string(),
        label: format!("{name} label"),
        label_plural: format!("{name} labels"),
        queryable: true,
        custom: false,
        createable: true,
        updateable: false,
        deletable: true,
        key_prefix: key_prefix.map(|s| s.to_string()),
    }
}

fn text<'a>(value: &'a Json, key: &str) -> Option<&'a str> {
    match value.get(key) {
        Some(Json::Text(text)) => Some(text),
        _ => None,
    }
}

fn flag(value: &Json, key: &str) -> Option<bool> {
    match value.get(key) {
        Some(Json::Bool(flag)) => Some(*flag),
        _ => None,
    }
}

#[test]
fn objects_are_shown_with_their_properties() {
    let shown = list_object(&object("Account", Some("001")));
    assert_eq!(text(&shown, "name"), Some("Account"));
    assert_eq!(text(&shown, "label"), Some("Account label"));
    assert_eq!(text(&shown, "label_plural"), Some("Account labels"));
    assert_eq!(flag(&shown, "queryable"), Some(true));
    assert_eq!(flag(&shown, "custom"), Some(false));
    assert_eq!(flag(&shown, "createable"), Some(true));
    assert_eq!(flag(&shown, "updateable"), Some(false));
    assert_eq!(flag(&shown, "deletable"), Some(true));
    assert_eq!(text(&shown, "key_prefix"), Some("001"));
    match shown {
        Json::Object(members) => assert_eq!(members.len(), 9),
        _ => panic!("not an object"),
    }
}

#[test]
fn an_object_without_a_prefix_shows_null() {
    let shown = list_object(&object("Account", None));
    assert!(matches!(shown.get("key_prefix"), Some(Json::Null)));
}

#[test]
fn objects_are_shown_in_order() {
    let shown = list_objects(&vec![object("B", None), object("A", None)]);
    assert_eq!(shown.len(), 2);
    assert_eq!(text(&shown[0], "name"), Some("B"));
    assert_eq!(text(&shown[1], "name"), Some("A"));
}
