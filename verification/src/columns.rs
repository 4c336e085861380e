//! Typed columns: from JSON records to Arrow arrays and record batches.
use crate::civil::{
    date_text, days_since_epoch, epoch_days, epoch_micros, instant_text, lemma_milli_time_micros,
    micros_since_midnight, midnight_micros, milli_time_text, offset_instant_text, parse_date, parse_time, parse_timestamp,
    parsed_date, parsed_time, parsed_timestamp, time_text, writable_date, writable_instant,
    writable_milli_time, writable_offset_instant, writable_time, CivilDate, CivilTime, DATE_FORMAT,
    MICROS_PER_DAY,
};
use crate::json::Json;
use crate::text::same_text;
use vstd::prelude::*;
use vstd::utf8::encode_utf8;

verus! {

/// The most bytes of text that one text column can hold: its offsets are 32-bit.
pub const MAX_TEXT_BYTES: usize = 2_147_483_647;

/// Whether the columns of an export admit nulls: any record may lack any field.
pub const COLUMNS_NULLABLE: bool = true;

/// The type of a column.
#[derive(Clone, Copy, Debug, PartialEq, Eq, Structural)]
pub enum ColumnKind {
    /// Text.
    Utf8,
    /// 64-bit signed integers.
    Int64,
    /// Double-precision numbers.
    Float64,
    /// Truth values.
    Boolean,
    /// Microseconds since the Unix epoch, without a time zone.
    TimestampMicrosecond,
    /// Days since the Unix epoch.
    Date32,
    /// Microseconds since midnight.
    Time64Microsecond,
}

impl DeepView for ColumnKind {
    type V = ColumnKind;

    open spec fn deep_view(&self) -> ColumnKind {
        *self
    }
}

/// One value of a column. Integers stand for themselves, and for the counts that the date,
/// time and timestamp columns hold; a double-precision number is given by its bit pattern.
pub enum Cell {
    Null,
    Text(Seq<char>),
    Integer(int),
    Bits(u64),
    Flag(bool),
}

/// One column of a record batch.
pub struct Column {
    pub name: Seq<char>,
    pub kind: ColumnKind,
    pub nullable: bool,
    pub cells: Seq<Cell>,
}

/// Whether a Salesforce field type is one of those that hold text.
pub open spec fn is_text_type(sf_type: Seq<char>) -> bool {
    ||| sf_type == "id"@
    ||| sf_type == "string"@
    ||| sf_type == "textarea"@
    ||| sf_type == "url"@
    ||| sf_type == "email"@
    ||| sf_type == "phone"@
    ||| sf_type == "picklist"@
    ||| sf_type == "multipicklist"@
    ||| sf_type == "combobox"@
    ||| sf_type == "reference"@
    ||| sf_type == "encryptedstring"@
}

/// The column type that a Salesforce field type is exported as; none where the type is
/// not supported.
pub open spec fn kind_of_type(sf_type: Seq<char>) -> Option<ColumnKind> {
    if is_text_type(sf_type) {
        Some(ColumnKind::Utf8)
    } else if sf_type == "int"@ {
        Some(ColumnKind::Int64)
    } else if sf_type == "double"@ || sf_type == "currency"@ || sf_type == "percent"@ {
        Some(ColumnKind::Float64)
    } else if sf_type == "boolean"@ {
        Some(ColumnKind::Boolean)
    } else if sf_type == "datetime"@ {
        Some(ColumnKind::TimestampMicrosecond)
    } else if sf_type == "date"@ {
        Some(ColumnKind::Date32)
    } else if sf_type == "time"@ {
        Some(ColumnKind::Time64Microsecond)
    } else {
        None
    }
}

/// Maps a Salesforce field type to a column type.
pub fn salesforce_type_to_arrow(sf_type: &str) -> (kind: Option<ColumnKind>)
    ensures
        kind == kind_of_type(sf_type@),
{
    if same_text(sf_type, "id") || same_text(sf_type, "string") || same_text(sf_type, "textarea")
        || same_text(sf_type, "url") || same_text(sf_type, "email") || same_text(sf_type, "phone")
        || same_text(sf_type, "picklist") || same_text(sf_type, "multipicklist") || same_text(
        sf_type,
        "combobox",
    ) || same_text(sf_type, "reference") || same_text(sf_type, "encryptedstring") {
        Some(ColumnKind::Utf8)
    } else if same_text(sf_type, "int") {
        Some(ColumnKind::Int64)
    } else if same_text(sf_type, "double") || same_text(sf_type, "currency") || same_text(
        sf_type,
        "percent",
    ) {
        Some(ColumnKind::Float64)
    } else if same_text(sf_type, "boolean") {
        Some(ColumnKind::Boolean)
    } else if same_text(sf_type, "datetime") {
        Some(ColumnKind::TimestampMicrosecond)
    } else if same_text(sf_type, "date") {
        Some(ColumnKind::Date32)
    } else if same_text(sf_type, "time") {
        Some(ColumnKind::Time64Microsecond)
    } else {
        None
    }
}

/// What a record holds under `name`, where that is there and not null.
pub open spec fn present(record: Json, name: Seq<char>) -> Option<Json> {
    match record.member(name) {
        Some(Json::Null) => None,
        other => other,
    }
}

/// A text column takes a text as it stands, and the empty text for anything else.
pub open spec fn text_of(record: Json, name: Seq<char>) -> Option<Seq<char>> {
    match present(record, name) {
        None => None,
        Some(Json::Text(text)) => Some(text@),
        Some(_) => Some(Seq::empty()),
    }
}

/// An integer column takes integers that fit 64 bits with a sign.
pub open spec fn int_of(record: Json, name: Seq<char>) -> Option<i64> {
    match present(record, name) {
        Some(Json::Number(number)) => number.int,
        _ => None,
    }
}

/// A number column takes numbers.
pub open spec fn bits_of(record: Json, name: Seq<char>) -> Option<u64> {
    match present(record, name) {
        Some(Json::Number(number)) => number.bits,
        _ => None,
    }
}

/// A truth column takes truth values.
pub open spec fn flag_of(record: Json, name: Seq<char>) -> Option<bool> {
    match present(record, name) {
        Some(Json::Bool(flag)) => Some(flag),
        _ => None,
    }
}

/// A timestamp column takes texts that read as an instant.
pub open spec fn timestamp_of(record: Json, name: Seq<char>) -> Option<i64> {
    match present(record, name) {
        Some(Json::Text(text)) => parsed_timestamp(text@),
        _ => None,
    }
}

/// A date column takes texts that read as a date, and counts days.
pub open spec fn date_of(record: Json, name: Seq<char>) -> Option<int> {
    match present(record, name) {
        Some(Json::Text(text)) => match parsed_date(DATE_FORMAT@, text@) {
            Some(date) => Some(epoch_days(date)),
            None => None,
        },
        _ => None,
    }
}

/// A time column takes texts that read as a time of day, and counts microseconds.
pub open spec fn time_of(record: Json, name: Seq<char>) -> Option<int> {
    match present(record, name) {
        Some(Json::Text(text)) => match parsed_time(text@) {
            Some(time) => Some(midnight_micros(time)),
            None => None,
        },
        _ => None,
    }
}

/// What a record holds under `name`, where that is a text.
pub open spec fn present_text(record: Json, name: Seq<char>) -> Option<Seq<char>> {
    match present(record, name) {
        Some(Json::Text(text)) => Some(text@),
        _ => None,
    }
}

/// Whether a date that is written out in full is taken by a date column as the count of
/// days to it.
pub open spec fn reads_dates(record: Json, name: Seq<char>) -> bool {
    forall|d: CivilDate|
        writable_date(d) && present_text(record, name) == Some(#[trigger] date_text(d)) ==> date_of(
            record,
            name,
        ) == Some(epoch_days(d))
}

/// Whether a time that is written out in full is taken by a time column as the count of
/// microseconds to it.
pub open spec fn reads_times(record: Json, name: Seq<char>) -> bool {
    forall|t: CivilTime|
        writable_time(t) && present_text(record, name) == Some(#[trigger] time_text(t)) ==> time_of(
            record,
            name,
        ) == Some(midnight_micros(t))
}

/// Whether a time that is written with milliseconds is taken by a time column as the count
/// of microseconds to it.
pub open spec fn reads_milli_times(record: Json, name: Seq<char>) -> bool {
    forall|t: CivilTime|
        writable_milli_time(t) && present_text(record, name) == Some(#[trigger] milli_time_text(t))
            ==> time_of(record, name) == Some(midnight_micros(t))
}

/// Whether an instant that is written out in full is taken by a timestamp column as the
/// count of microseconds to it.
pub open spec fn reads_instants(record: Json, name: Seq<char>) -> bool {
    forall|d: CivilDate, t: CivilTime|
        writable_instant(d, t) && present_text(record, name) == Some(#[trigger] instant_text(d, t))
            ==> widened(timestamp_of(record, name)) == Some(epoch_micros(d, t))
}

/// Whether an instant that is written as Salesforce does it, with milliseconds and an
/// offset, is taken by a timestamp column as the count of microseconds to it, seconds and
/// fraction kept.
pub open spec fn reads_offset_instants(record: Json, name: Seq<char>) -> bool {
    forall|d: CivilDate, t: CivilTime, offset: int|
        writable_offset_instant(d, t, offset) && present_text(record, name) == Some(
            #[trigger] offset_instant_text(d, t, offset),
        ) ==> widened(timestamp_of(record, name)) == Some(
            epoch_micros(d, t) - offset * 60_000_000,
        )
}

/// Whether a column of a type reads dates, times and instants that are written out in full
/// as what they are.
pub open spec fn reads_plain_texts(kind: ColumnKind, record: Json, name: Seq<char>) -> bool {
    match kind {
        ColumnKind::TimestampMicrosecond => reads_instants(record, name) && reads_offset_instants(
            record,
            name,
        ),
        ColumnKind::Date32 => reads_dates(record, name),
        ColumnKind::Time64Microsecond => reads_times(record, name) && reads_milli_times(
            record,
            name,
        ),
        _ => true,
    }
}

pub open spec fn text_cell(value: Option<Seq<char>>) -> Cell {
    match value {
        Some(text) => Cell::Text(text),
        None => Cell::Null,
    }
}

pub open spec fn integer_cell(value: Option<int>) -> Cell {
    match value {
        Some(n) => Cell::Integer(n),
        None => Cell::Null,
    }
}

pub open spec fn bits_cell(value: Option<u64>) -> Cell {
    match value {
        Some(bits) => Cell::Bits(bits),
        None => Cell::Null,
    }
}

pub open spec fn flag_cell(value: Option<bool>) -> Cell {
    match value {
        Some(flag) => Cell::Flag(flag),
        None => Cell::Null,
    }
}

/// A machine integer, taken as a number.
pub open spec fn widened(value: Option<i64>) -> Option<int> {
    match value {
        Some(n) => Some(n as int),
        None => None,
    }
}

/// A machine integer, taken as a number.
pub open spec fn widened32(value: Option<i32>) -> Option<int> {
    match value {
        Some(n) => Some(n as int),
        None => None,
    }
}

/// Whether a value can stand in a column of a type: a null, or a value of the type. Days are
/// counted in 32 bits, and times stay within a day.
pub open spec fn cell_fits(kind: ColumnKind, cell: Cell) -> bool {
    match cell {
        Cell::Null => true,
        Cell::Text(_) => kind == ColumnKind::Utf8,
        Cell::Integer(n) => match kind {
            ColumnKind::Int64 | ColumnKind::TimestampMicrosecond => i64::MIN <= n <= i64::MAX,
            ColumnKind::Date32 => i32::MIN <= n <= i32::MAX,
            ColumnKind::Time64Microsecond => 0 <= n < MICROS_PER_DAY,
            _ => false,
        },
        Cell::Bits(_) => kind == ColumnKind::Float64,
        Cell::Flag(_) => kind == ColumnKind::Boolean,
    }
}

/// Whether every value can stand in a column of a type.
pub open spec fn cells_fit(kind: ColumnKind, cells: Seq<Cell>) -> bool {
    forall|i: int| 0 <= i < cells.len() ==> cell_fits(kind, #[trigger] cells[i])
}

/// Whether every value of every column is of the column's type or null.
pub open spec fn columns_fit(columns: Seq<Column>) -> bool {
    forall|i: int|
        0 <= i < columns.len() ==> cells_fit((#[trigger] columns[i]).kind, columns[i].cells)
}

/// The value that a column of type `kind` takes from a record.
pub open spec fn cell_of(kind: ColumnKind, record: Json, name: Seq<char>) -> Cell {
    match kind {
        ColumnKind::Utf8 => text_cell(text_of(record, name)),
        ColumnKind::Int64 => integer_cell(widened(int_of(record, name))),
        ColumnKind::Float64 => bits_cell(bits_of(record, name)),
        ColumnKind::Boolean => flag_cell(flag_of(record, name)),
        ColumnKind::TimestampMicrosecond => integer_cell(widened(timestamp_of(record, name))),
        ColumnKind::Date32 => integer_cell(date_of(record, name)),
        ColumnKind::Time64Microsecond => integer_cell(time_of(record, name)),
    }
}

/// The values that a column takes from the records, one for each, in their order.
pub open spec fn column_cells(kind: ColumnKind, records: Seq<Json>, name: Seq<char>) -> Seq<Cell> {
    Seq::new(records.len(), |i: int| cell_of(kind, records[i], name))
}

/// The texts that a text column takes from the records.
pub open spec fn column_texts(records: Seq<Json>, name: Seq<char>) -> Seq<Option<Seq<char>>> {
    Seq::new(records.len(), |i: int| text_of(records[i], name))
}

/// The bytes that one text takes in UTF-8; a null takes none.
pub open spec fn text_len(value: Option<Seq<char>>) -> nat {
    match value {
        Some(text) => encode_utf8(text).len(),
        None => 0,
    }
}

/// The bytes that texts take in UTF-8, all together.
pub open spec fn total_text_len(values: Seq<Option<Seq<char>>>) -> nat
    decreases values.len(),
{
    if values.len() == 0 {
        0
    } else {
        total_text_len(values.drop_last()) + text_len(values.last())
    }
}

/// Whether the texts under `name` fit one text column.
pub open spec fn texts_fit(records: Seq<Json>, name: Seq<char>) -> bool {
    total_text_len(column_texts(records, name)) <= MAX_TEXT_BYTES
}

/// An Arrow array: one column's values.
#[verifier::external_body]
pub struct ArrowArray {
    pub array: arrow::array::ArrayRef,
}

/// An Arrow record batch: named columns of one length.
#[verifier::external_body]
pub struct ArrowBatch {
    pub batch: arrow::record_batch::RecordBatch,
}

#[verifier::external_type_specification]
#[verifier::external_body]
pub struct ExArrowError(arrow::error::ArrowError);

/// The values that an array holds, in order.
pub uninterp spec fn array_cells(array: ArrowArray) -> Seq<Cell>;

/// The type of an array.
pub uninterp spec fn array_kind(array: ArrowArray) -> ColumnKind;

/// The columns that a record batch holds, in order.
pub uninterp spec fn batch_columns(batch: ArrowBatch) -> Seq<Column>;

/// `arrow::array::StringArray::from`: a text array of the given values. It panics where
/// the texts take more bytes than a 32-bit offset can count.
#[verifier::external_body]
fn string_array(values: Vec<Option<String>>) -> (array: ArrowArray)
    requires
        total_text_len(values.deep_view()) <= MAX_TEXT_BYTES,
    ensures
        array_kind(array) == ColumnKind::Utf8,
        array_cells(array) == values.deep_view().map_values(|v: Option<Seq<char>>| text_cell(v)),
{
    ArrowArray { array: std::sync::Arc::new(arrow::array::StringArray::from(values)) }
}

/// `arrow::array::Int64Array::from`: an integer array of the given values.
#[verifier::external_body]
fn int64_array(values: Vec<Option<i64>>) -> (array: ArrowArray)
    ensures
        array_kind(array) == ColumnKind::Int64,
        array_cells(array) == values@.map_values(|v: Option<i64>| integer_cell(widened(v))),
{
    ArrowArray { array: std::sync::Arc::new(arrow::array::Int64Array::from(values)) }
}

/// `arrow::array::Float64Array::new`: an array of the double-precision numbers that have
/// the given bit patterns. `UInt64Array::from` lays the patterns out, 64 bits to a value,
/// and the number array takes over that memory and its record of the nulls.
#[verifier::external_body]
fn float64_array(values: Vec<Option<u64>>) -> (array: ArrowArray)
    ensures
        array_kind(array) == ColumnKind::Float64,
        array_cells(array) == values@.map_values(|v: Option<u64>| bits_cell(v)),
{
    let len = values.len();
    let (_, patterns, nulls) = arrow::array::UInt64Array::from(values).into_parts();
    let numbers = arrow::buffer::ScalarBuffer::new(patterns.into_inner(), 0, len);
    ArrowArray { array: std::sync::Arc::new(arrow::array::Float64Array::new(numbers, nulls)) }
}

/// `arrow::array::BooleanArray::from`: a truth array of the given values.
#[verifier::external_body]
fn boolean_array(values: Vec<Option<bool>>) -> (array: ArrowArray)
    ensures
        array_kind(array) == ColumnKind::Boolean,
        array_cells(array) == values@.map_values(|v: Option<bool>| flag_cell(v)),
{
    ArrowArray { array: std::sync::Arc::new(arrow::array::BooleanArray::from(values)) }
}

/// `arrow::array::TimestampMicrosecondArray::from`: a timestamp array, without a time
/// zone, of the given counts of microseconds.
#[verifier::external_body]
fn timestamp_array(values: Vec<Option<i64>>) -> (array: ArrowArray)
    ensures
        array_kind(array) == ColumnKind::TimestampMicrosecond,
        array_cells(array) == values@.map_values(|v: Option<i64>| integer_cell(widened(v))),
{
    ArrowArray { array: std::sync::Arc::new(arrow::array::TimestampMicrosecondArray::from(values)) }
}

/// `arrow::array::Date32Array::from`: a date array of the given counts of days.
#[verifier::external_body]
fn date32_array(values: Vec<Option<i32>>) -> (array: ArrowArray)
    ensures
        array_kind(array) == ColumnKind::Date32,
        array_cells(array) == values@.map_values(|v: Option<i32>| integer_cell(widened32(v))),
{
    ArrowArray { array: std::sync::Arc::new(arrow::array::Date32Array::from(values)) }
}

/// `arrow::array::Time64MicrosecondArray::from`: a time array of the given counts of
/// microseconds.
#[verifier::external_body]
fn time64_array(values: Vec<Option<i64>>) -> (array: ArrowArray)
    ensures
        array_kind(array) == ColumnKind::Time64Microsecond,
        array_cells(array) == values@.map_values(|v: Option<i64>| integer_cell(widened(v))),
{
    ArrowArray { array: std::sync::Arc::new(arrow::array::Time64MicrosecondArray::from(values)) }
}

/// The columns that arrays make under the given names, which all admit nulls or all do not.
pub open spec fn named_columns(
    names: Seq<String>,
    arrays: Seq<ArrowArray>,
    nullable: bool,
) -> Seq<Column> {
    Seq::new(
        arrays.len(),
        |i: int|
            Column {
                name: names[i]@,
                kind: array_kind(arrays[i]),
                nullable,
                cells: array_cells(arrays[i]),
            },
    )
}

/// Whether there is an array, and all hold equally many values.
pub open spec fn one_length(arrays: Seq<ArrowArray>) -> bool {
    &&& arrays.len() > 0
    &&& forall|i: int|
        0 <= i < arrays.len() ==> (#[trigger] array_cells(arrays[i])).len() == array_cells(
            arrays[0],
        ).len()
}

/// Whether no array holds a null.
pub open spec fn without_nulls(arrays: Seq<ArrowArray>) -> bool {
    forall|i: int, j: int|
        0 <= i < arrays.len() && 0 <= j < array_cells(arrays[i]).len() ==>
            #[trigger] array_cells(arrays[i])[j] !is Null
}

/// Whether arrays make up a batch whose columns admit nulls, or do not.
pub open spec fn makes_batch(arrays: Seq<ArrowArray>, nullable: bool) -> bool {
    one_length(arrays) && (nullable || without_nulls(arrays))
}

/// `arrow::record_batch::RecordBatch::try_new`, with a schema of one field for each array,
/// under its name, of its type, and nullable or not as `nullable` says. It succeeds where
/// there is an array, all have one length, and no null stands where none may; the batch then
/// holds the arrays in their order.
#[verifier::external_body]
fn record_batch(names: Vec<String>, arrays: Vec<ArrowArray>, nullable: bool) -> (batch: Result<
    ArrowBatch,
    arrow::error::ArrowError,
>)
    requires
        names.len() == arrays.len(),
    ensures
        batch is Ok <==> makes_batch(arrays@, nullable),
        batch matches Ok(b) ==> batch_columns(b) == named_columns(names@, arrays@, nullable),
{
    let columns: Vec<arrow::array::ArrayRef> = arrays.into_iter().map(|a| a.array).collect();
    let fields: Vec<arrow::datatypes::Field> = names.into_iter().zip(columns.iter()).map(
        |(n, c)| arrow::datatypes::Field::new(n, c.data_type().clone(), nullable),
    ).collect();
    let schema = std::sync::Arc::new(arrow::datatypes::Schema::new(fields));
    arrow::record_batch::RecordBatch::try_new(schema, columns).map(|batch| ArrowBatch { batch })
}

/// What a record holds under a name, where that is there and not null.
fn present_value<'a>(record: &'a Json, field_name: &str) -> (value: Option<&'a Json>)
    ensures
        match value {
            Some(v) => present(*record, field_name@) == Some(*v),
            None => present(*record, field_name@) is None,
        },
{
    match record.get(field_name) {
        Some(Json::Null) => None,
        other => other,
    }
}

/// The text that a text column takes from a record.
pub fn text_value(record: &Json, field_name: &str) -> (value: Option<String>)
    ensures
        value.deep_view() == text_of(*record, field_name@),
{
    match present_value(record, field_name) {
        None => None,
        Some(Json::Text(text)) => Some(text.clone()),
        Some(_) => Some(String::new()),
    }
}

/// The integer that an integer column takes from a record.
pub fn int_value(record: &Json, field_name: &str) -> (value: Option<i64>)
    ensures
        value == int_of(*record, field_name@),
{
    match present_value(record, field_name) {
        Some(Json::Number(number)) => number.int,
        _ => None,
    }
}

/// The bit pattern that a number column takes from a record.
pub fn bits_value(record: &Json, field_name: &str) -> (value: Option<u64>)
    ensures
        value == bits_of(*record, field_name@),
{
    match present_value(record, field_name) {
        Some(Json::Number(number)) => number.bits,
        _ => None,
    }
}

/// The truth value that a truth column takes from a record.
pub fn flag_value(record: &Json, field_name: &str) -> (value: Option<bool>)
    ensures
        value == flag_of(*record, field_name@),
{
    match present_value(record, field_name) {
        Some(Json::Bool(flag)) => Some(*flag),
        _ => None,
    }
}

/// The count of microseconds that a timestamp column takes from a record.
pub fn timestamp_value(record: &Json, field_name: &str) -> (value: Option<i64>)
    ensures
        value == timestamp_of(*record, field_name@),
        reads_instants(*record, field_name@),
        reads_offset_instants(*record, field_name@),
{
    match present_value(record, field_name) {
        Some(Json::Text(text)) => parse_timestamp(text.as_str()),
        _ => None,
    }
}

/// The count of days that a date column takes from a record.
pub fn date_value(record: &Json, field_name: &str) -> (value: Option<i32>)
    ensures
        widened32(value) == date_of(*record, field_name@),
        reads_dates(*record, field_name@),
{
    match present_value(record, field_name) {
        Some(Json::Text(text)) => match parse_date(DATE_FORMAT, text.as_str()) {
            Some(date) => Some(days_since_epoch(date)),
            None => None,
        },
        _ => None,
    }
}

/// The count of microseconds that a time column takes from a record.
pub fn time_value(record: &Json, field_name: &str) -> (value: Option<i64>)
    ensures
        widened(value) == time_of(*record, field_name@),
        value matches Some(micros) ==> 0 <= micros < MICROS_PER_DAY,
        reads_times(*record, field_name@),
        reads_milli_times(*record, field_name@),
{
    match present_value(record, field_name) {
        Some(Json::Text(text)) => match parse_time(text.as_str()) {
            Some(time) => Some(micros_since_midnight(time)),
            None => None,
        },
        _ => None,
    }
}

/// The records could not be made into a batch.
pub struct BatchError {
    pub cause: arrow::error::ArrowError,
}

/// The columns of an export: for each field, in order, the values that it takes from the
/// records.
pub open spec fn export_columns(
    field_types: Seq<(String, ColumnKind)>,
    records: Seq<Json>,
) -> Seq<Column> {
    Seq::new(
        field_types.len(),
        |i: int|
            Column {
                name: field_types[i].0@,
                kind: field_types[i].1,
                nullable: COLUMNS_NULLABLE,
                cells: column_cells(field_types[i].1, records, field_types[i].0@),
            },
    )
}

/// Whether the text of every text column fits.
pub open spec fn export_fits(field_types: Seq<(String, ColumnKind)>, records: Seq<Json>) -> bool {
    forall|i: int|
        0 <= i < field_types.len() && (#[trigger] field_types[i]).1 == ColumnKind::Utf8
            ==> texts_fit(records, field_types[i].0@)
}

fn text_values(field_name: &str, records: &[Json]) -> (values: Vec<Option<String>>)
    ensures
        values.deep_view() == column_texts(records@, field_name@),
{
    let mut values: Vec<Option<String>> = Vec::new();
    let mut i: usize = 0;
    while i < records.len()
        invariant
            i <= records.len(),
            values.len() == i,
            forall|j: int|
                0 <= j < i ==> (#[trigger] values@[j]).deep_view() == text_of(
                    records@[j],
                    field_name@,
                ),
        decreases records.len() - i,
    {
        values.push(text_value(&records[i], field_name));
        i = i + 1;
    }
    values
}

fn int_values(field_name: &str, records: &[Json]) -> (values: Vec<Option<i64>>)
    ensures
        values.len() == records.len(),
        forall|j: int|
            0 <= j < records.len() ==> #[trigger] values@[j] == int_of(records@[j], field_name@),
{
    let mut values: Vec<Option<i64>> = Vec::new();
    let mut i: usize = 0;
    while i < records.len()
        invariant
            i <= records.len(),
            values.len() == i,
            forall|j: int| 0 <= j < i ==> #[trigger] values@[j] == int_of(records@[j], field_name@),
        decreases records.len() - i,
    {
        values.push(int_value(&records[i], field_name));
        i = i + 1;
    }
    values
}

fn bits_values(field_name: &str, records: &[Json]) -> (values: Vec<Option<u64>>)
    ensures
        values.len() == records.len(),
        forall|j: int|
            0 <= j < records.len() ==> #[trigger] values@[j] == bits_of(records@[j], field_name@),
{
    let mut values: Vec<Option<u64>> = Vec::new();
    let mut i: usize = 0;
    while i < records.len()
        invariant
            i <= records.len(),
            values.len() == i,
            forall|j: int| 0 <= j < i ==> #[trigger] values@[j] == bits_of(records@[j], field_name@),
        decreases records.len() - i,
    {
        values.push(bits_value(&records[i], field_name));
        i = i + 1;
    }
    values
}

fn flag_values(field_name: &str, records: &[Json]) -> (values: Vec<Option<bool>>)
    ensures
        values.len() == records.len(),
        forall|j: int|
            0 <= j < records.len() ==> #[trigger] values@[j] == flag_of(records@[j], field_name@),
{
    let mut values: Vec<Option<bool>> = Vec::new();
    let mut i: usize = 0;
    while i < records.len()
        invariant
            i <= records.len(),
            values.len() == i,
            forall|j: int| 0 <= j < i ==> #[trigger] values@[j] == flag_of(records@[j], field_name@),
        decreases records.len() - i,
    {
        values.push(flag_value(&records[i], field_name));
        i = i + 1;
    }
    values
}

fn timestamp_values(field_name: &str, records: &[Json]) -> (values: Vec<Option<i64>>)
    ensures
        values.len() == records.len(),
        forall|j: int|
            0 <= j < records.len() ==> #[trigger] values@[j] == timestamp_of(
                records@[j],
                field_name@,
            ),
        forall|j: int|
            0 <= j < records.len() ==> reads_instants(#[trigger] records@[j], field_name@)
                && reads_offset_instants(records@[j], field_name@),
{
    let mut values: Vec<Option<i64>> = Vec::new();
    let mut i: usize = 0;
    while i < records.len()
        invariant
            i <= records.len(),
            values.len() == i,
            forall|j: int|
                0 <= j < i ==> #[trigger] values@[j] == timestamp_of(records@[j], field_name@),
            forall|j: int|
                0 <= j < i ==> reads_instants(#[trigger] records@[j], field_name@)
                    && reads_offset_instants(records@[j], field_name@),
        decreases records.len() - i,
    {
        values.push(timestamp_value(&records[i], field_name));
        i = i + 1;
    }
    values
}

fn date_values(field_name: &str, records: &[Json]) -> (values: Vec<Option<i32>>)
    ensures
        values.len() == records.len(),
        forall|j: int|
            0 <= j < records.len() ==> widened32(#[trigger] values@[j]) == date_of(
                records@[j],
                field_name@,
            ),
        forall|j: int|
            0 <= j < records.len() ==> reads_dates(#[trigger] records@[j], field_name@),
{
    let mut values: Vec<Option<i32>> = Vec::new();
    let mut i: usize = 0;
    while i < records.len()
        invariant
            i <= records.len(),
            values.len() == i,
            forall|j: int|
                0 <= j < i ==> widened32(#[trigger] values@[j]) == date_of(
                    records@[j],
                    field_name@,
                ),
            forall|j: int| 0 <= j < i ==> reads_dates(#[trigger] records@[j], field_name@),
        decreases records.len() - i,
    {
        values.push(date_value(&records[i], field_name));
        i = i + 1;
    }
    values
}

fn time_values(field_name: &str, records: &[Json]) -> (values: Vec<Option<i64>>)
    ensures
        values.len() == records.len(),
        forall|j: int|
            0 <= j < records.len() ==> widened(#[trigger] values@[j]) == time_of(
                records@[j],
                field_name@,
            ),
        forall|j: int|
            0 <= j < records.len() ==> (#[trigger] values@[j] matches Some(micros) ==> 0 <= micros
                < MICROS_PER_DAY),
        forall|j: int|
            0 <= j < records.len() ==> reads_times(#[trigger] records@[j], field_name@)
                && reads_milli_times(records@[j], field_name@),
{
    let mut values: Vec<Option<i64>> = Vec::new();
    let mut i: usize = 0;
    while i < records.len()
        invariant
            i <= records.len(),
            values.len() == i,
            forall|j: int|
                0 <= j < i ==> widened(#[trigger] values@[j]) == time_of(records@[j], field_name@),
            forall|j: int|
                0 <= j < i ==> (#[trigger] values@[j] matches Some(micros) ==> 0 <= micros
                    < MICROS_PER_DAY),
            forall|j: int|
                0 <= j < i ==> reads_times(#[trigger] records@[j], field_name@)
                    && reads_milli_times(records@[j], field_name@),
        decreases records.len() - i,
    {
        values.push(time_value(&records[i], field_name));
        i = i + 1;
    }
    values
}

/// Tells whether the texts under a name fit one text column.
pub fn field_text_fits(field_name: &str, records: &[Json]) -> (fits: bool)
    ensures
        fits == texts_fit(records@, field_name@),
{
    let ghost texts = column_texts(records@, field_name@);
    let mut total: usize = 0;
    let mut i: usize = 0;
    while i < records.len()
        invariant
            i <= records.len(),
            texts == column_texts(records@, field_name@),
            total == total_text_len(texts.take(i as int)),
            total <= MAX_TEXT_BYTES,
        decreases records.len() - i,
    {
        let width: usize = match present_value(&records[i], field_name) {
            Some(Json::Text(text)) => text.as_str().as_bytes().len(),
            _ => 0,
        };
        proof {
            assert(texts.take(i + 1).drop_last() =~= texts.take(i as int));
            assert(texts.take(i + 1).last() == texts[i as int]);
            assert(encode_utf8(Seq::<char>::empty()).len() == 0);
            assert(width == text_len(texts[i as int]));
            lemma_total_text_len_grows(texts, i + 1);
        }
        if width > MAX_TEXT_BYTES - total {
            return false;
        }
        total = total + width;
        i = i + 1;
    }
    assert(texts.take(records.len() as int) =~= texts);
    true
}

proof fn lemma_total_text_len_grows(values: Seq<Option<Seq<char>>>, n: int)
    requires
        0 <= n <= values.len(),
    ensures
        total_text_len(values.take(n)) <= total_text_len(values),
    decreases values.len(),
{
    if n < values.len() {
        lemma_total_text_len_grows(values.drop_last(), n);
        assert(values.drop_last().take(n) =~= values.take(n));
    } else {
        assert(values.take(n) =~= values);
    }
}

/// Tells whether the text of every text column fits.
pub fn export_text_fits(field_types: &[(String, ColumnKind)], records: &[Json]) -> (fits: bool)
    ensures
        fits == export_fits(field_types@, records@),
{
    let mut i: usize = 0;
    while i < field_types.len()
        invariant
            i <= field_types.len(),
            forall|j: int|
                0 <= j < i && (#[trigger] field_types@[j]).1 == ColumnKind::Utf8 ==> texts_fit(
                    records@,
                    field_types@[j].0@,
                ),
        decreases field_types.len() - i,
    {
        if field_types[i].1 == ColumnKind::Utf8 {
            if !field_text_fits(field_types[i].0.as_str(), records) {
                assert(field_types@[i as int].1 == ColumnKind::Utf8);
                return false;
            }
        }
        i = i + 1;
    }
    true
}

/// Builds the array of one field: for each record, in order, the value that a column of
/// the field's type takes from it, and null where it takes none.
pub fn build_arrow_array(field_name: &str, data_type: ColumnKind, records: &[Json]) -> (array:
    ArrowArray)
    requires
        data_type == ColumnKind::Utf8 ==> texts_fit(records@, field_name@),
    ensures
        array_kind(array) == data_type,
        array_cells(array) == column_cells(data_type, records@, field_name@),
        cells_fit(data_type, array_cells(array)),
        forall|i: int|
            0 <= i < records@.len() ==> reads_plain_texts(
                data_type,
                #[trigger] records@[i],
                field_name@,
            ),
{
    match data_type {
        ColumnKind::Utf8 => string_array(text_values(field_name, records)),
        ColumnKind::Int64 => int64_array(int_values(field_name, records)),
        ColumnKind::Float64 => float64_array(bits_values(field_name, records)),
        ColumnKind::Boolean => boolean_array(flag_values(field_name, records)),
        ColumnKind::TimestampMicrosecond => timestamp_array(timestamp_values(field_name, records)),
        ColumnKind::Date32 => date32_array(date_values(field_name, records)),
        ColumnKind::Time64Microsecond => time64_array(time_values(field_name, records)),
    }
}

/// Makes an array of a type that holds no value.
pub fn empty_array(data_type: ColumnKind) -> (array: ArrowArray)
    ensures
        array_kind(array) == data_type,
        array_cells(array) == Seq::<Cell>::empty(),
{
    match data_type {
        ColumnKind::Utf8 => string_array(Vec::new()),
        ColumnKind::Int64 => int64_array(Vec::new()),
        ColumnKind::Float64 => float64_array(Vec::new()),
        ColumnKind::Boolean => boolean_array(Vec::new()),
        ColumnKind::TimestampMicrosecond => timestamp_array(Vec::new()),
        ColumnKind::Date32 => date32_array(Vec::new()),
        ColumnKind::Time64Microsecond => time64_array(Vec::new()),
    }
}

/// Makes records into a batch of one column for each field. There must be a field: a
/// batch without columns is refused.
pub fn json_to_arrow(field_types: &[(String, ColumnKind)], records: &[Json]) -> (batch: Result<
    ArrowBatch,
    BatchError,
>)
    requires
        export_fits(field_types@, records@),
    ensures
        batch is Ok <==> field_types@.len() > 0,
        batch matches Ok(b) ==> batch_columns(b) == export_columns(field_types@, records@),
        columns_fit(export_columns(field_types@, records@)),
        forall|i: int, j: int|
            0 <= i < field_types@.len() && 0 <= j < records@.len() ==> reads_plain_texts(
                (#[trigger] field_types@[i]).1,
                #[trigger] records@[j],
                field_types@[i].0@,
            ),
{
    let mut names: Vec<String> = Vec::new();
    let mut arrays: Vec<ArrowArray> = Vec::new();
    let mut i: usize = 0;
    while i < field_types.len()
        invariant
            i <= field_types.len(),
            names.len() == i,
            arrays.len() == i,
            export_fits(field_types@, records@),
            forall|j: int| 0 <= j < i ==> (#[trigger] names@[j])@ == field_types@[j].0@,
            forall|j: int|
                0 <= j < i ==> array_kind(#[trigger] arrays@[j]) == field_types@[j].1
                    && array_cells(arrays@[j]) == column_cells(
                    field_types@[j].1,
                    records@,
                    field_types@[j].0@,
                ) && cells_fit(field_types@[j].1, array_cells(arrays@[j])),
            forall|k: int, j: int|
                0 <= k < i && 0 <= j < records@.len() ==> reads_plain_texts(
                    (#[trigger] field_types@[k]).1,
                    #[trigger] records@[j],
                    field_types@[k].0@,
                ),
        decreases field_types.len() - i,
    {
        let name: &String = &field_types[i].0;
        let data_type: ColumnKind = field_types[i].1;
        names.push(name.clone());
        if records.len() == 0 {
            let array: ArrowArray = empty_array(data_type);
            assert(array_cells(array) =~= column_cells(data_type, records@, name@));
            arrays.push(array);
        } else {
            arrays.push(build_arrow_array(name.as_str(), data_type, records));
        }
        i = i + 1;
    }
    proof {
        assert(named_columns(names@, arrays@, COLUMNS_NULLABLE) =~= export_columns(field_types@, records@));
        assert(arrays.len() > 0 ==> one_length(arrays@));
    }
    match record_batch(names, arrays, COLUMNS_NULLABLE) {
        Ok(batch) => Ok(batch),
        Err(cause) => Err(BatchError { cause }),
    }
}

/// A record that lacks a field, or holds null there, gives a null in a column of every type.
pub proof fn law_missing_or_null_gives_null(kind: ColumnKind, record: Json, name: Seq<char>)
    requires
        record.member(name) is None || record.member(name) == Some(Json::Null),
    ensures
        cell_of(kind, record, name) is Null,
{
}

/// A text column has a null only where the field is missing or null: a text is kept as it
/// stands, and any other value gives an empty one.
pub proof fn law_text_column_keeps_presence(record: Json, name: Seq<char>)
    ensures
        cell_of(ColumnKind::Utf8, record, name) is Null <==> (record.member(name) is None
            || record.member(name) == Some(Json::Null)),
        record.member(name) matches Some(Json::Text(text)) ==> cell_of(
            ColumnKind::Utf8,
            record,
            name,
        ) == Cell::Text(text@),
        record.member(name) matches Some(value) && !(value is Null) && !(value is Text) ==> cell_of(
            ColumnKind::Utf8,
            record,
            name,
        ) == Cell::Text(Seq::empty()),
        cell_of(ColumnKind::Utf8, record, name) == (match text_of(record, name) {
            Some(text) => Cell::Text(text),
            None => Cell::Null,
        }),
{
}

/// An integer column takes a number that is a 64-bit integer as that integer, and nothing
/// else.
pub proof fn law_integer_column_takes_integers(record: Json, name: Seq<char>)
    ensures
        int_of(record, name) == (match record.member(name) {
            Some(Json::Number(number)) => number.int,
            _ => None,
        }),
        cell_of(ColumnKind::Int64, record, name) == (match int_of(record, name) {
            Some(n) => Cell::Integer(n as int),
            None => Cell::Null,
        }),
{
}

/// A number column takes a number bit by bit, and nothing else.
pub proof fn law_number_column_takes_numbers(record: Json, name: Seq<char>)
    ensures
        bits_of(record, name) == (match record.member(name) {
            Some(Json::Number(number)) => number.bits,
            _ => None,
        }),
        cell_of(ColumnKind::Float64, record, name) == (match bits_of(record, name) {
            Some(bits) => Cell::Bits(bits),
            None => Cell::Null,
        }),
{
}

/// A truth column takes a truth value as it is, and nothing else.
pub proof fn law_truth_column_takes_truth_values(record: Json, name: Seq<char>)
    ensures
        flag_of(record, name) == (match record.member(name) {
            Some(Json::Bool(flag)) => Some(flag),
            _ => None,
        }),
        cell_of(ColumnKind::Boolean, record, name) == (match flag_of(record, name) {
            Some(flag) => Cell::Flag(flag),
            None => Cell::Null,
        }),
{
}

/// A timestamp column takes, of every text that reads as an instant, just that instant, and
/// of any other text or value a null.
pub proof fn law_timestamp_column_takes_the_instant_read(record: Json, name: Seq<char>)
    ensures
        record.member(name) matches Some(Json::Text(text)) ==> timestamp_of(record, name)
            == parsed_timestamp(text@) && cell_of(ColumnKind::TimestampMicrosecond, record, name)
            == (match parsed_timestamp(text@) {
            Some(micros) => Cell::Integer(micros as int),
            None => Cell::Null,
        }),
        !(record.member(name) matches Some(Json::Text(_))) ==> timestamp_of(record, name) is None
            && cell_of(ColumnKind::TimestampMicrosecond, record, name) is Null,
{
}

/// A date column takes, of every text that reads as a date in the layout year, month and
/// day, the count of days to just that date, and of any other text or value a null.
pub proof fn law_date_column_takes_the_date_read(record: Json, name: Seq<char>)
    ensures
        record.member(name) matches Some(Json::Text(text)) ==> cell_of(
            ColumnKind::Date32,
            record,
            name,
        ) == (match parsed_date("%Y-%m-%d"@, text@) {
            Some(date) => Cell::Integer(epoch_days(date)),
            None => Cell::Null,
        }),
        !(record.member(name) matches Some(Json::Text(_))) ==> cell_of(
            ColumnKind::Date32,
            record,
            name,
        ) is Null,
        cell_of(ColumnKind::Date32, record, name) == (match date_of(record, name) {
            Some(days) => Cell::Integer(days),
            None => Cell::Null,
        }),
{
}

/// A time column takes, of every text that reads as a time of day, the count of
/// microseconds to just that time, and of any other text or value a null.
pub proof fn law_time_column_takes_the_time_read(record: Json, name: Seq<char>)
    ensures
        record.member(name) matches Some(Json::Text(text)) ==> cell_of(
            ColumnKind::Time64Microsecond,
            record,
            name,
        ) == (match parsed_time(text@) {
            Some(time) => Cell::Integer(midnight_micros(time)),
            None => Cell::Null,
        }),
        !(record.member(name) matches Some(Json::Text(_))) ==> cell_of(
            ColumnKind::Time64Microsecond,
            record,
            name,
        ) is Null,
        cell_of(ColumnKind::Time64Microsecond, record, name) == (match time_of(record, name) {
            Some(micros) => Cell::Integer(micros),
            None => Cell::Null,
        }),
{
}

/// Two instants as Salesforce writes them are as far apart in a timestamp column as their
/// dates, times and offsets say, down to the millisecond.
pub proof fn law_timestamps_keep_distances(
    a: Json,
    b: Json,
    name: Seq<char>,
    date: CivilDate,
    first: CivilTime,
    second: CivilTime,
    first_offset: int,
    second_offset: int,
)
    requires
        reads_plain_texts(ColumnKind::TimestampMicrosecond, a, name),
        reads_plain_texts(ColumnKind::TimestampMicrosecond, b, name),
        writable_offset_instant(date, first, first_offset),
        writable_offset_instant(date, second, second_offset),
        a.member_text(name) == Some(offset_instant_text(date, first, first_offset)),
        b.member_text(name) == Some(offset_instant_text(date, second, second_offset)),
    ensures
        cell_of(ColumnKind::TimestampMicrosecond, a, name) matches Cell::Integer(m) && cell_of(
            ColumnKind::TimestampMicrosecond,
            b,
            name,
        ) matches Cell::Integer(n) && n - m == 3_600_000_000 * (second.hour - first.hour)
            + 60_000_000 * (second.minute - first.minute) + 1_000_000 * (second.second
            - first.second) + 1000 * (second.subsec_nanosecond as int / 1_000_000
            - first.subsec_nanosecond as int / 1_000_000) - 60_000_000 * (second_offset
            - first_offset),
{
    lemma_milli_time_micros(first);
    lemma_milli_time_micros(second);
    assert(present_text(a, name) == Some(offset_instant_text(date, first, first_offset)));
    assert(present_text(b, name) == Some(offset_instant_text(date, second, second_offset)));
    let m = epoch_micros(date, first) - first_offset * 60_000_000;
    let n = epoch_micros(date, second) - second_offset * 60_000_000;
    assert(widened(timestamp_of(a, name)) == Some(m));
    assert(widened(timestamp_of(b, name)) == Some(n));
    assert(n - m == midnight_micros(second) - midnight_micros(first) - (second_offset
        - first_offset) * 60_000_000);
}

/// The Salesforce types that are supported, each with the one column type that it is
/// exported as.
pub proof fn law_types_have_their_columns(sf_type: Seq<char>)
    ensures
        kind_of_type(sf_type) == Some(ColumnKind::Utf8) <==> seq![
            "id"@,
            "string"@,
            "textarea"@,
            "url"@,
            "email"@,
            "phone"@,
            "picklist"@,
            "multipicklist"@,
            "combobox"@,
            "reference"@,
            "encryptedstring"@,
        ].contains(sf_type),
        kind_of_type(sf_type) == Some(ColumnKind::Int64) <==> sf_type == "int"@,
        kind_of_type(sf_type) == Some(ColumnKind::Float64) <==> seq![
            "double"@,
            "currency"@,
            "percent"@,
        ].contains(sf_type),
        kind_of_type(sf_type) == Some(ColumnKind::Boolean) <==> sf_type == "boolean"@,
        kind_of_type(sf_type) == Some(ColumnKind::TimestampMicrosecond) <==> sf_type
            == "datetime"@,
        kind_of_type(sf_type) == Some(ColumnKind::Date32) <==> sf_type == "date"@,
        kind_of_type(sf_type) == Some(ColumnKind::Time64Microsecond) <==> sf_type == "time"@,
{
    let texts = seq![
        "id"@,
        "string"@,
        "textarea"@,
        "url"@,
        "email"@,
        "phone"@,
        "picklist"@,
        "multipicklist"@,
        "combobox"@,
        "reference"@,
        "encryptedstring"@,
    ];
    let numbers = seq!["double"@, "currency"@, "percent"@];
    reveal_strlit("id");
    reveal_strlit("string");
    reveal_strlit("textarea");
    reveal_strlit("url");
    reveal_strlit("email");
    reveal_strlit("phone");
    reveal_strlit("picklist");
    reveal_strlit("multipicklist");
    reveal_strlit("combobox");
    reveal_strlit("reference");
    reveal_strlit("encryptedstring");
    reveal_strlit("int");
    reveal_strlit("double");
    reveal_strlit("currency");
    reveal_strlit("percent");
    reveal_strlit("boolean");
    reveal_strlit("datetime");
    reveal_strlit("date");
    reveal_strlit("time");
    assert(texts[0] == "id"@ && texts[1] == "string"@ && texts[2] == "textarea"@ && texts[3]
        == "url"@ && texts[4] == "email"@ && texts[5] == "phone"@);
    assert(texts[6] == "picklist"@ && texts[7] == "multipicklist"@ && texts[8] == "combobox"@
        && texts[9] == "reference"@ && texts[10] == "encryptedstring"@);
    assert(numbers[0] == "double"@ && numbers[1] == "currency"@ && numbers[2] == "percent"@);
    assert("int"@[0] == 'i' && "url"@[0] == 'u' && "double"@[0] == 'd' && "string"@[0] == 's');
    assert("currency"@[0] == 'c' && "combobox"@[1] == 'o' && "currency"@[1] == 'u');
    assert("combobox"@[0] == 'c' && "date"@.len() == 4 && "time"@.len() == 4);
    assert("picklist"@[0] == 'p' && "textarea"@[0] == 't' && "datetime"@[0] == 'd');
    if sf_type == "datetime"@ {
        assert(sf_type.len() == 8 && sf_type[0] == 'd');
        assert(!is_text_type(sf_type));
        assert(sf_type != "currency"@);
    }
    assert("date"@[0] == 'd' && "time"@[0] == 't' && "boolean"@[0] == 'b' && "percent"@[0] == 'p');
}

/// The texts of records that are put together take as many bytes as those of the parts, and
/// a text takes the bytes of its UTF-8 form.
pub proof fn law_text_sizes_add_up(
    front: Seq<Option<Seq<char>>>,
    back: Seq<Option<Seq<char>>>,
    text: Seq<char>,
)
    ensures
        total_text_len(Seq::empty()) == 0,
        total_text_len(seq![None]) == 0,
        total_text_len(seq![Some(text)]) == encode_utf8(text).len(),
        total_text_len(front + back) == total_text_len(front) + total_text_len(back),
    decreases back.len(),
{
    assert(seq![None::<Seq<char>>].drop_last() =~= Seq::empty());
    assert(seq![Some(text)].drop_last() =~= Seq::empty());
    assert(total_text_len(Seq::empty()) == 0);
    if back.len() == 0 {
        assert(front + back =~= front);
    } else {
        assert((front + back).drop_last() =~= front + back.drop_last());
        assert((front + back).last() == back.last());
        law_text_sizes_add_up(front, back.drop_last(), text);
    }
}

/// An export fits exactly if the texts of each of its text columns take no more bytes than a
/// 32-bit offset can count.
pub proof fn law_export_fits_up_to_two_gigabytes(
    field_types: Seq<(String, ColumnKind)>,
    records: Seq<Json>,
)
    ensures
        export_fits(field_types, records) <==> forall|i: int|
            0 <= i < field_types.len() && (#[trigger] field_types[i]).1 == ColumnKind::Utf8
                ==> total_text_len(
                Seq::new(records.len(), |j: int| text_of(records[j], field_types[i].0@)),
            ) <= 2_147_483_647,
{
    assert forall|i: int| 0 <= i < field_types.len() implies column_texts(
        records,
        (#[trigger] field_types[i]).0@,
    ) == Seq::new(records.len(), |j: int| text_of(records[j], field_types[i].0@)) by {
        assert(column_texts(records, field_types[i].0@) =~= Seq::new(
            records.len(),
            |j: int| text_of(records[j], field_types[i].0@),
        ));
    }
}

/// Rows stand for records one by one: the column of records that are put together is the
/// columns of the parts put together, and a column has a value for each record.
pub proof fn law_rows_follow_records(
    kind: ColumnKind,
    front: Seq<Json>,
    back: Seq<Json>,
    name: Seq<char>,
)
    ensures
        column_cells(kind, front, name).len() == front.len(),
        forall|i: int|
            0 <= i < front.len() ==> #[trigger] column_cells(kind, front, name)[i] == cell_of(
                kind,
                front[i],
                name,
            ),
        column_cells(kind, front + back, name) == column_cells(kind, front, name) + column_cells(
            kind,
            back,
            name,
        ),
{
    assert(column_cells(kind, front + back, name) =~= column_cells(kind, front, name)
        + column_cells(kind, back, name));
}

/// The columns of an export follow its fields one by one, each under the field's name and
/// of its type, and in the place of each record stands the value that the column takes from
/// it.
pub proof fn law_columns_follow_fields(
    field_types: Seq<(String, ColumnKind)>,
    records: Seq<Json>,
    i: int,
)
    requires
        0 <= i < field_types.len(),
    ensures
        export_columns(field_types, records).len() == field_types.len(),
        export_columns(field_types, records)[i].name == field_types[i].0@,
        export_columns(field_types, records)[i].kind == field_types[i].1,
        export_columns(field_types, records)[i].nullable,
        export_columns(field_types, records)[i].cells.len() == records.len(),
        forall|j: int|
            0 <= j < records.len() ==> #[trigger] export_columns(field_types, records)[i].cells[j]
                == cell_of(field_types[i].1, records[j], field_types[i].0@),
{
}

} // verus!
