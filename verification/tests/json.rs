use salesforce_exporter::json::{Json, JsonNumber};

#[test]
fn members_are_found_by_name() {
    let value = Json::Object(vec![
        ("a".to_string(), Json::Bool(true)),
        ("b".to_string(), Json::Null),
        ("a".to_string(), Json::Bool(false)),
    ]);
    assert!(matches!(value.get("a"), Some(Json::Bool(true))));
    assert!(matches!(value.get("b"), Some(Json::Null)));
    assert!(value.get("c").is_none());
}

#[test]
fn only_objects_have_members() {
    let number = Json::Number(JsonNumber { int: Some(1), bits: None });
    assert!(number.get("a").is_none());
    assert!(Json::Null.get("a").is_none());
    assert!(Json::Text("a".to_string()).get("a").is_none());
    assert!(Json::Array(vec![Json::Null]).get("a").is_none());
}
