use arrow::array::{
    Array, BooleanArray, Date32Array, Float64Array, Int64Array, StringArray,
    Time64MicrosecondArray, TimestampMicrosecondArray,
};
use arrow::datatypes::{DataType, TimeUnit};
use salesforce_exporter::columns::{
    bits_value, build_arrow_array, date_value, empty_array, export_text_fits, field_text_fits,
    flag_value, int_value, json_to_arrow, salesforce_type_to_arrow, text_value, time_value,
    timestamp_value, ArrowBatch, ColumnKind,
};
use salesforce_exporter::json::{Json, JsonNumber};

fn text(value: &str) -> Json {
    Json::Text(value.to_string())
}

fn whole(value: i64) -> Json {
    Json::Number(JsonNumber { int: Some(value), bits: Some((value as f64).to_bits()) })
}

fn float(value: f64) -> Json {
    Json::Number(JsonNumber { int: None, bits: Some(value.to_bits()) })
}

fn record(name: &str, value: Json) -> Json {
    Json::Object(vec![(name.to_string(), value)])
}

fn nothing() -> Json {
    Json::Object(Vec::new())
}

fn one_column(kind: ColumnKind, records: Vec<Json>) -> ArrowBatch {
    let fields = vec![("F".to_string(), kind)];
    match json_to_arrow(&fields, &records) {
        Ok(batch) => batch,
        Err(error) => panic!("{}", error.cause),
    }
}

fn kind(sf_type: &str) -> Option<ColumnKind> {
    salesforce_type_to_arrow(sf_type)
}

#[test]
fn text_types_are_text_columns() {
    for sf_type in [
        "id", "string", "textarea", "url", "email", "phone", "picklist", "multipicklist",
        "combobox", "reference", "encryptedstring",
    ] {
        assert_eq!(kind(sf_type), Some(ColumnKind::Utf8), "{sf_type}");
    }
}

#[test]
fn other_types_have_their_columns() {
    assert_eq!(kind("int"), Some(ColumnKind::Int64));
    assert_eq!(kind("double"), Some(ColumnKind::Float64));
    assert_eq!(kind("currency"), Some(ColumnKind::Float64));
    assert_eq!(kind("percent"), Some(ColumnKind::Float64));
    assert_eq!(kind("boolean"), Some(ColumnKind::Boolean));
    assert_eq!(kind("datetime"), Some(ColumnKind::TimestampMicrosecond));
    assert_eq!(kind("date"), Some(ColumnKind::Date32));
    assert_eq!(kind("time"), Some(ColumnKind::Time64Microsecond));
}

#[test]
fn unknown_types_are_not_supported() {
    assert_eq!(kind("address"), None);
    assert_eq!(kind("location"), None);
    assert_eq!(kind("Int"), None);
    assert_eq!(kind(""), None);
}

#[test]
fn text_column_holds_texts() {
    let batch = one_column(
        ColumnKind::Utf8,
        vec![
            record("F", text("Grüße")),
            record("F", Json::Null),
            nothing(),
            record("F", whole(7)),
            record("F", text("")),
        ],
    );
    let column = batch.batch.column(0);
    assert_eq!(column.data_type(), &DataType::Utf8);
    let column = column.as_any().downcast_ref::<StringArray>().unwrap();
    assert_eq!(column.len(), 5);
    assert_eq!(column.value(0), "Grüße");
    assert!(column.is_null(1));
    assert!(column.is_null(2));
    assert!(column.is_valid(3));
    assert_eq!(column.value(3), "");
    assert!(column.is_valid(4));
    assert_eq!(column.value(4), "");
}

#[test]
fn integer_column_holds_integers() {
    let batch = one_column(
        ColumnKind::Int64,
        vec![
            record("F", whole(-3)),
            record("F", whole(i64::MAX)),
            record("F", float(1.5)),
            record("F", text("4")),
            record("F", Json::Null),
        ],
    );
    let column = batch.batch.column(0);
    assert_eq!(column.data_type(), &DataType::Int64);
    let column = column.as_any().downcast_ref::<Int64Array>().unwrap();
    assert_eq!(column.iter().collect::<Vec<_>>(), vec![Some(-3), Some(i64::MAX), None, None, None]);
}

#[test]
fn number_column_holds_doubles() {
    let batch = one_column(
        ColumnKind::Float64,
        vec![
            record("F", float(1.5)),
            record("F", Json::Null),
            record("F", whole(-2)),
            record("F", float(0.1)),
            record("F", Json::Bool(true)),
        ],
    );
    let column = batch.batch.column(0);
    assert_eq!(column.data_type(), &DataType::Float64);
    let column = column.as_any().downcast_ref::<Float64Array>().unwrap();
    assert_eq!(
        column.iter().collect::<Vec<_>>(),
        vec![Some(1.5), None, Some(-2.0), Some(0.1), None]
    );
    assert_eq!(
        column,
        &Float64Array::from(vec![Some(1.5), None, Some(-2.0), Some(0.1), None])
    );
}

#[test]
fn number_column_without_nulls() {
    let batch = one_column(ColumnKind::Float64, vec![record("F", float(2.25))]);
    let column = batch.batch.column(0).as_any().downcast_ref::<Float64Array>().unwrap();
    assert_eq!(column, &Float64Array::from(vec![Some(2.25)]));
}

#[test]
fn truth_column_holds_truth_values() {
    let batch = one_column(
        ColumnKind::Boolean,
        vec![
            record("F", Json::Bool(true)),
            record("F", Json::Bool(false)),
            record("F", text("true")),
            nothing(),
        ],
    );
    let column = batch.batch.column(0);
    assert_eq!(column.data_type(), &DataType::Boolean);
    let column = column.as_any().downcast_ref::<BooleanArray>().unwrap();
    assert_eq!(column.iter().collect::<Vec<_>>(), vec![Some(true), Some(false), None, None]);
}

#[test]
fn timestamp_column_counts_microseconds() {
    let batch = one_column(
        ColumnKind::TimestampMicrosecond,
        vec![
            record("F", text("1970-01-01T00:00:01.000002Z")),
            record("F", text("2024-01-15T10:30:00.000+0000")),
            record("F", text("2024-01-15T12:30:00+02:00")),
            record("F", text("2024-01-15")),
            record("F", text("soon")),
            record("F", whole(5)),
            record("F", Json::Null),
        ],
    );
    let column = batch.batch.column(0);
    assert_eq!(column.data_type(), &DataType::Timestamp(TimeUnit::Microsecond, None));
    let column = column.as_any().downcast_ref::<TimestampMicrosecondArray>().unwrap();
    assert_eq!(
        column.iter().collect::<Vec<_>>(),
        vec![
            Some(1_000_002),
            Some(1_705_314_600_000_000),
            Some(1_705_314_600_000_000),
            None,
            None,
            None,
            None
        ]
    );
}

#[test]
fn date_column_counts_days() {
    let batch = one_column(
        ColumnKind::Date32,
        vec![
            record("F", text("1970-01-01")),
            record("F", text("1970-01-02")),
            record("F", text("1969-12-31")),
            record("F", text("2024-02-29")),
            record("F", text("2023-02-29")),
            record("F", text("2024-02-29T00:00:00Z")),
            record("F", whole(5)),
        ],
    );
    let column = batch.batch.column(0);
    assert_eq!(column.data_type(), &DataType::Date32);
    let column = column.as_any().downcast_ref::<Date32Array>().unwrap();
    assert_eq!(
        column.iter().collect::<Vec<_>>(),
        vec![Some(0), Some(1), Some(-1), Some(19_782), None, None, None]
    );
}

#[test]
fn time_column_counts_microseconds() {
    let batch = one_column(
        ColumnKind::Time64Microsecond,
        vec![
            record("F", text("00:00:00")),
            record("F", text("14:30:00.000")),
            record("F", text("23:59:59.999999999")),
            record("F", text("25:00:00")),
            record("F", text("14:30:00.000Z")),
            record("F", Json::Null),
        ],
    );
    let column = batch.batch.column(0);
    assert_eq!(column.data_type(), &DataType::Time64(TimeUnit::Microsecond));
    let column = column.as_any().downcast_ref::<Time64MicrosecondArray>().unwrap();
    assert_eq!(
        column.iter().collect::<Vec<_>>(),
        vec![Some(0), Some(52_200_000_000), Some(86_399_999_999), None, None, None]
    );
}

#[test]
fn dates_and_times_stay_in_range() {
    let first = record("F", text("-9999-01-01"));
    let last = record("F", text("9999-12-31"));
    assert_eq!(date_value(&first, "F"), Some(-4_371_587));
    assert_eq!(date_value(&last, "F"), Some(2_932_896));
    assert_eq!(time_value(&record("F", text("23:59:59.999999999")), "F"), Some(86_399_999_999));
    assert_eq!(time_value(&record("F", text("24:00:00")), "F"), None);
}

#[test]
fn batch_has_a_nullable_field_for_each_column() {
    let fields = vec![
        ("Name".to_string(), ColumnKind::Utf8),
        ("Amount".to_string(), ColumnKind::Float64),
        ("Name".to_string(), ColumnKind::Int64),
    ];
    let records = vec![
        Json::Object(vec![
            ("Amount".to_string(), float(3.5)),
            ("Name".to_string(), text("a")),
            ("Extra".to_string(), Json::Bool(true)),
        ]),
        Json::Object(vec![("Name".to_string(), whole(4))]),
    ];
    let batch = json_to_arrow(&fields, &records).ok().unwrap().batch;
    assert_eq!(batch.num_rows(), 2);
    assert_eq!(batch.num_columns(), 3);
    let schema = batch.schema();
    assert_eq!(schema.field(0).name(), "Name");
    assert_eq!(schema.field(1).name(), "Amount");
    assert_eq!(schema.field(2).name(), "Name");
    assert!(schema.fields().iter().all(|f| f.is_nullable()));
    let names = batch.column(0).as_any().downcast_ref::<StringArray>().unwrap();
    assert_eq!(names.iter().collect::<Vec<_>>(), vec![Some("a"), Some("")]);
    let amounts = batch.column(1).as_any().downcast_ref::<Float64Array>().unwrap();
    assert_eq!(amounts.iter().collect::<Vec<_>>(), vec![Some(3.5), None]);
    let numbers = batch.column(2).as_any().downcast_ref::<Int64Array>().unwrap();
    assert_eq!(numbers.iter().collect::<Vec<_>>(), vec![None, Some(4)]);
}

#[test]
fn batch_of_no_records_has_empty_columns_of_every_type() {
    let kinds = [
        (ColumnKind::Utf8, DataType::Utf8),
        (ColumnKind::Int64, DataType::Int64),
        (ColumnKind::Float64, DataType::Float64),
        (ColumnKind::Boolean, DataType::Boolean),
        (ColumnKind::TimestampMicrosecond, DataType::Timestamp(TimeUnit::Microsecond, None)),
        (ColumnKind::Date32, DataType::Date32),
        (ColumnKind::Time64Microsecond, DataType::Time64(TimeUnit::Microsecond)),
    ];
    let mut fields = Vec::new();
    for (kind, _) in &kinds {
        fields.push((format!("{kind:?}"), *kind));
    }
    let batch = json_to_arrow(&fields, &[]).ok().unwrap().batch;
    assert_eq!(batch.num_rows(), 0);
    assert_eq!(batch.num_columns(), 7);
    for (i, (_, data_type)) in kinds.iter().enumerate() {
        assert_eq!(batch.schema().field(i).data_type(), data_type);
        assert_eq!(batch.column(i).len(), 0);
    }
}

#[test]
fn batch_without_fields_is_refused() {
    let error = json_to_arrow(&[], &[nothing()]).err().unwrap();
    assert_eq!(
        error.cause.to_string(),
        "Invalid argument error: must either specify a row count or at least one column"
    );
    assert!(json_to_arrow(&[], &[]).is_err());
}

#[test]
fn a_record_that_is_no_object_gives_nulls() {
    let batch = one_column(ColumnKind::Utf8, vec![text("F"), Json::Array(vec![text("F")])]);
    let column = batch.batch.column(0).as_any().downcast_ref::<StringArray>().unwrap();
    assert!(column.is_null(0));
    assert!(column.is_null(1));
}

#[test]
fn arrays_can_be_built_alone() {
    let records = vec![record("F", whole(1))];
    let built = build_arrow_array("F", ColumnKind::Int64, &records).array;
    let column = built.as_any().downcast_ref::<Int64Array>().unwrap();
    assert_eq!(column.iter().collect::<Vec<_>>(), vec![Some(1)]);
    let empty = empty_array(ColumnKind::Date32).array;
    assert_eq!(empty.data_type(), &DataType::Date32);
    assert_eq!(empty.len(), 0);
}

#[test]
fn values_are_read_one_by_one() {
    assert_eq!(text_value(&record("F", text("x")), "F"), Some("x".to_string()));
    assert_eq!(text_value(&record("F", text("x")), "G"), None);
    assert_eq!(text_value(&record("F", Json::Bool(true)), "F"), Some(String::new()));
    assert_eq!(int_value(&record("F", whole(9)), "F"), Some(9));
    assert_eq!(bits_value(&record("F", float(0.5)), "F"), Some(0.5f64.to_bits()));
    assert_eq!(flag_value(&record("F", Json::Bool(false)), "F"), Some(false));
    assert_eq!(timestamp_value(&record("F", text("1970-01-01T00:00:00-01:00")), "F"), Some(3_600_000_000));
    assert_eq!(date_value(&record("F", text("2000-03-01")), "F"), Some(11_017));
    assert_eq!(time_value(&record("F", text("01:00:00")), "F"), Some(3_600_000_000));
}

#[test]
fn small_texts_fit() {
    let records = vec![record("F", text("abc")), nothing(), record("F", whole(1))];
    assert!(field_text_fits("F", &records));
    assert!(export_text_fits(
        &[("F".to_string(), ColumnKind::Utf8), ("G".to_string(), ColumnKind::Int64)],
        &records
    ));
}

#[test]
fn rows_stand_for_records_one_by_one() {
    let parts = [vec![record("F", whole(1)), nothing()], vec![record("F", whole(2))]];
    let whole = vec![record("F", whole(1)), nothing(), record("F", whole(2))];
    let mut values: Vec<Option<i64>> = Vec::new();
    for part in parts {
        let batch = one_column(ColumnKind::Int64, part).batch;
        let column = batch.column(0).as_any().downcast_ref::<Int64Array>().unwrap();
        values.extend(column.iter());
    }
    let batch = one_column(ColumnKind::Int64, whole).batch;
    let column = batch.column(0).as_any().downcast_ref::<Int64Array>().unwrap();
    assert_eq!(column.iter().collect::<Vec<_>>(), values);
}

fn month_days(year: i16, month: i8) -> i8 {
    let leap = year % 4 == 0 && (year % 100 != 0 || year % 400 == 0);
    match month {
        2 if leap => 29,
        2 => 28,
        4 | 6 | 9 | 11 => 30,
        _ => 31,
    }
}

#[test]
fn dates_written_out_in_full_are_counted() {
    let mut days: i32 = -719_528;
    for year in 0i16..=9999 {
        for month in 1i8..=12 {
            let last = month_days(year, month);
            for day in 1i8..=last {
                if year % 97 == 0 || day == last {
                    let written = format!("{year:04}-{month:02}-{day:02}");
                    assert_eq!(date_value(&record("F", text(&written)), "F"), Some(days), "{written}");
                }
                days += 1;
            }
        }
    }
}

#[test]
fn times_written_out_in_full_are_counted() {
    for second in 0i64..86_400 {
        let written = format!("{:02}:{:02}:{:02}", second / 3600, second / 60 % 60, second % 60);
        assert_eq!(
            time_value(&record("F", text(&written)), "F"),
            Some(second * 1_000_000),
            "{written}"
        );
    }
}

#[test]
fn instants_written_out_in_full_are_counted() {
    let mut days: i64 = -719_528;
    for year in 0i16..=9998 {
        for month in 1i8..=12 {
            let second = (days + 800_000) * 7919 % 86_400;
            let written = format!(
                "{year:04}-{month:02}-01T{:02}:{:02}:{:02}Z",
                second / 3600,
                second / 60 % 60,
                second % 60
            );
            assert_eq!(
                timestamp_value(&record("F", text(&written)), "F"),
                Some((days * 86_400 + second) * 1_000_000),
                "{written}"
            );
            days += i64::from(month_days(year, month));
        }
    }
    let last = record("F", text("9998-12-31T23:59:59Z"));
    assert_eq!(timestamp_value(&last, "F"), Some(253_370_764_799_000_000));
}
