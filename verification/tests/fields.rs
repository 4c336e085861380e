use salesforce_exporter::columns::ColumnKind;
use salesforce_exporter::fields::{
    map_fields, read_field, read_fields, resolve_export_fields, select_fields, DescribedField,
    FieldError, FieldMap, RequestedField,
};
use salesforce_exporter::json::Json;

fn text(value: &str) -> Json {
    Json::Text(value.to_string())
}

fn item(name: &str, sf_type: &str) -> Json {
    Json::Object(vec![
        ("label".to_string(), text("shown")),
        ("name".to_string(), text(name)),
        ("type".to_string(), text(sf_type)),
    ])
}

fn describe(items: Vec<Json>) -> Json {
    Json::Object(vec![
        ("name".to_string(), text("Account")),
        ("fields".to_string(), Json::Array(items)),
    ])
}

fn account() -> Json {
    describe(vec![item("Id", "id"), item("Name", "string"), item("Employees__c", "int")])
}

fn names(items: &[&str]) -> Option<Vec<String>> {
    Some(items.iter().map(|s| s.to_string()).collect())
}

fn found(items: &[(&str, ColumnKind)]) -> Vec<(String, ColumnKind)> {
    items.iter().map(|(n, k)| (n.to_string(), *k)).collect()
}

fn resolve(
    description: &Json,
    requested: Option<Vec<String>>,
) -> Result<Vec<(String, ColumnKind)>, FieldError> {
    resolve_export_fields(description, "Account", requested)
}

fn refused(description: &Json, requested: Option<Vec<String>>) -> String {
    resolve(description, requested).unwrap_err().message()
}

fn field(name: &str, sf_type: &str) -> DescribedField {
    DescribedField { name: name.to_string(), sf_type: sf_type.to_string() }
}

#[test]
fn all_fields_come_in_order() {
    assert_eq!(
        resolve(&account(), None).unwrap(),
        found(&[
            ("Id", ColumnKind::Utf8),
            ("Name", ColumnKind::Utf8),
            ("Employees__c", ColumnKind::Int64),
        ])
    );
}

#[test]
fn requested_fields_come_in_the_order_of_the_request() {
    assert_eq!(
        resolve(&account(), names(&["Employees__c", "Id", "Id"])).unwrap(),
        found(&[
            ("Employees__c", ColumnKind::Int64),
            ("Id", ColumnKind::Utf8),
            ("Id", ColumnKind::Utf8),
        ])
    );
}

#[test]
fn requests_ignore_case_and_white_space() {
    assert_eq!(
        resolve(&account(), names(&[" eMPLOYEES__C\t", "NAME"])).unwrap(),
        found(&[("Employees__c", ColumnKind::Int64), ("Name", ColumnKind::Utf8)])
    );
}

#[test]
fn a_missing_field_is_an_error() {
    let error = resolve(&account(), names(&["Id", " Color "])).unwrap_err();
    assert!(matches!(error, FieldError::NotFound { .. }));
    assert_eq!(error.message(), "Field ' Color ' not found on object 'Account'");
}

#[test]
fn an_unsupported_request_is_an_error() {
    let description = describe(vec![item("Id", "id"), item("BillingAddress", "address")]);
    let error = resolve(&description, names(&["billingaddress"])).unwrap_err();
    assert!(matches!(error, FieldError::UnsupportedRequest { .. }));
    assert_eq!(
        error.message(),
        "Field 'BillingAddress' has unsupported Salesforce type 'address'"
    );
    assert!(resolve(&description, names(&["Id"])).is_ok());
}

#[test]
fn an_unsupported_field_is_an_error_where_all_are_exported() {
    let description = describe(vec![item("Id", "id"), item("BillingAddress", "address")]);
    let error = resolve(&description, None).unwrap_err();
    assert!(matches!(error, FieldError::UnsupportedField { .. }));
    assert_eq!(
        error.message(),
        "Field 'BillingAddress' has unsupported Salesforce type 'address'. \
         Use --fields to select only supported fields."
    );
}

#[test]
fn the_first_request_that_fails_decides() {
    let description = describe(vec![item("Id", "id"), item("A", "address")]);
    assert_eq!(
        refused(&description, names(&["X", "A"])),
        "Field 'X' not found on object 'Account'"
    );
    assert_eq!(
        refused(&description, names(&["A", "X"])),
        "Field 'A' has unsupported Salesforce type 'address'"
    );
}

#[test]
fn a_description_without_fields_is_an_error() {
    let expected = "No fields found for table Account";
    assert_eq!(refused(&Json::Null, None), expected);
    assert_eq!(refused(&describe(vec![]), None), expected);
    assert_eq!(refused(&describe(vec![Json::Null]), names(&["Id"])), expected);
    let odd = Json::Object(vec![("fields".to_string(), text("Id"))]);
    assert_eq!(refused(&odd, None), expected);
    assert!(matches!(resolve(&odd, None), Err(FieldError::NoFields { .. })));
}

#[test]
fn an_empty_request_is_an_error() {
    let error = resolve(&account(), names(&[])).unwrap_err();
    assert!(matches!(error, FieldError::NothingToExport { .. }));
    assert_eq!(error.message(), "No fields to export for table Account");
}

#[test]
fn items_without_name_or_type_are_passed_over() {
    let nameless = Json::Object(vec![("type".to_string(), text("id"))]);
    let typeless = Json::Object(vec![("name".to_string(), text("Id"))]);
    let numbered = Json::Object(vec![
        ("name".to_string(), Json::Bool(true)),
        ("type".to_string(), text("id")),
    ]);
    assert!(read_field(&nameless).is_none());
    assert!(read_field(&typeless).is_none());
    assert!(read_field(&numbered).is_none());
    let description = describe(vec![nameless, item("Id", "id"), typeless, numbered]);
    assert_eq!(read_fields(&description).len(), 1);
    assert_eq!(resolve(&description, None).unwrap(), found(&[("Id", ColumnKind::Utf8)]));
}

#[test]
fn of_two_fields_with_one_key_the_later_counts() {
    let description = describe(vec![item("NAME", "string"), item("Id", "id"), item("Name", "int")]);
    assert_eq!(
        resolve(&description, None).unwrap(),
        found(&[("Name", ColumnKind::Int64), ("Id", ColumnKind::Utf8)])
    );
}

#[test]
fn maps_keep_one_field_for_a_key() {
    let mut map = FieldMap::new();
    assert_eq!(map.len(), 0);
    map.insert("a".to_string(), field("A", "id"));
    map.insert("b".to_string(), field("B", "int"));
    map.insert("a".to_string(), field("AA", "date"));
    assert_eq!(map.len(), 2);
    assert_eq!(map.get(&"a".to_string()).unwrap().name, "AA");
    assert_eq!(map.get(&"a".to_string()).unwrap().sf_type, "date");
    assert_eq!(map.get(&"b".to_string()).unwrap().name, "B");
    assert!(map.get(&"c".to_string()).is_none());
}

#[test]
fn fields_are_selected_by_the_given_keys() {
    let map = map_fields(
        vec![field("A", "id"), field("B", "double")],
        vec!["one".to_string(), "two".to_string()],
    );
    let requests = vec![RequestedField { given: "TWO".to_string(), key: "two".to_string() }];
    assert_eq!(
        select_fields(&map, Some(requests), "T").unwrap(),
        found(&[("B", ColumnKind::Float64)])
    );
    let requests = vec![RequestedField { given: "B".to_string(), key: "b".to_string() }];
    assert_eq!(
        select_fields(&map, Some(requests), "T").unwrap_err().message(),
        "Field 'B' not found on object 'T'"
    );
    assert_eq!(select_fields(&map, None, "T").unwrap().len(), 2);
    assert!(select_fields(&FieldMap::new(), None, "T").is_err());
}
