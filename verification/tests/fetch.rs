use arrow::array::Int64Array;
use salesforce_exporter::columns::ColumnKind;
use salesforce_exporter::fetch::{export_query, FetchNote, TableFetch};
use salesforce_exporter::json::{Json, JsonNumber};

fn text(value: &str) -> Json {
    Json::Text(value.to_string())
}

fn describe() -> Json {
    let item = |name: &str, sf_type: &str| {
        Json::Object(vec![
            ("name".to_string(), text(name)),
            ("type".to_string(), text(sf_type)),
        ])
    };
    Json::Object(vec![(
        "fields".to_string(),
        Json::Array(vec![item("Id", "id"), item("Size__c", "int")]),
    )])
}

fn record(size: i64) -> Json {
    let number = JsonNumber { int: Some(size), bits: Some((size as f64).to_bits()) };
    Json::Object(vec![("Size__c".to_string(), Json::Number(number))])
}

#[test]
fn queries_name_the_fields() {
    let fields =
        vec![("Id".to_string(), ColumnKind::Utf8), ("Name".to_string(), ColumnKind::Utf8)];
    assert_eq!(export_query("Account", &fields, None), "SELECT Id, Name FROM Account");
    assert_eq!(
        export_query("Account", &fields, Some(0)),
        "SELECT Id, Name FROM Account LIMIT 0"
    );
    assert_eq!(
        export_query("Account", &fields, Some(1500)),
        "SELECT Id, Name FROM Account LIMIT 1500"
    );
}

#[test]
fn a_fetch_brings_the_records() {
    let mut fetch = TableFetch::begin(&describe(), "Box__c", Some(10), None).ok().unwrap();
    assert_eq!(fetch.query(), "SELECT Id, Size__c FROM Box__c LIMIT 10");
    assert_eq!(fetch.field_count(), 2);
    assert!(matches!(fetch.receive(Ok(record(1)), 0), FetchNote::Quiet));
    assert!(matches!(fetch.receive(Ok(record(2)), 4), FetchNote::Quiet));
    assert!(matches!(fetch.receive(Ok(record(3)), 5), FetchNote::Progress { count: 3 }));
    assert_eq!(fetch.record_count(), 3);
    assert!(fetch.fits());
    let batch = fetch.finish().ok().unwrap().batch;
    assert_eq!(batch.num_rows(), 3);
    let sizes = batch.column(1).as_any().downcast_ref::<Int64Array>().unwrap();
    assert_eq!(sizes.iter().collect::<Vec<_>>(), vec![Some(1), Some(2), Some(3)]);
}

#[test]
fn an_error_among_the_items_costs_only_itself() {
    let names = Some(vec!["size__c".to_string()]);
    let mut fetch = TableFetch::begin(&describe(), "Box__c", None, names).ok().unwrap();
    assert_eq!(fetch.query(), "SELECT Size__c FROM Box__c");
    fetch.receive(Ok(record(1)), 0);
    match fetch.receive(Err("timeout".to_string()), 60) {
        FetchNote::Skipped { message } => assert_eq!(message, "Error fetching record: timeout"),
        note => panic!("{note:?}"),
    }
    fetch.receive(Ok(record(3)), 0);
    let batch = fetch.finish().ok().unwrap().batch;
    let sizes = batch.column(0).as_any().downcast_ref::<Int64Array>().unwrap();
    assert_eq!(sizes.iter().collect::<Vec<_>>(), vec![Some(1), Some(3)]);
}

#[test]
fn a_fetch_without_records_is_an_empty_batch() {
    let fetch = TableFetch::begin(&describe(), "Box__c", None, None).ok().unwrap();
    let batch = fetch.finish().ok().unwrap().batch;
    assert_eq!(batch.num_rows(), 0);
    assert_eq!(batch.num_columns(), 2);
}

#[test]
fn a_fetch_of_unknown_fields_does_not_begin() {
    let names = Some(vec!["Nope".to_string()]);
    let error = TableFetch::begin(&describe(), "Box__c", None, names).err().unwrap();
    assert_eq!(error.message(), "Field 'Nope' not found on object 'Box__c'");
}
