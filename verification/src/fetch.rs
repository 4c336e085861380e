//! Fetching an object: its query, the records that this brings, and the batch of them.
use crate::columns::{
    batch_columns, columns_fit, export_columns, export_fits, export_text_fits, json_to_arrow, reads_plain_texts,
    ArrowBatch, BatchError, ColumnKind,
};
use crate::fields::{
    ascii_names_lowered, export_fields, resolve_export_fields, FieldError, FieldErrorView,
};
use crate::json::Json;
use crate::text::{
    decimal, decimal_text, join_texts, joined, law_decimal_reads_back,
    law_joining_goes_part_by_part, number_read,
};
use vstd::prelude::*;
use vstd::string::*;

verus! {

/// Seconds between two reports of progress.
pub const REPORT_INTERVAL_SECS: u64 = 5;

/// The names of fields, in order.
pub open spec fn field_names(fields: Seq<(String, ColumnKind)>) -> Seq<Seq<char>> {
    Seq::new(fields.len(), |i: int| fields[i].0@)
}

/// Fields with their column types, as text.
pub open spec fn typed_names(fields: Seq<(String, ColumnKind)>) -> Seq<(Seq<char>, ColumnKind)> {
    Seq::new(fields.len(), |i: int| (fields[i].0@, fields[i].1))
}

/// A limit on rows, as a number.
pub open spec fn row_limit(limit: Option<usize>) -> Option<nat> {
    match limit {
        Some(n) => Some(n as nat),
        None => None,
    }
}

/// The query for the named fields of a table, of all rows or of the first `limit`.
pub open spec fn query_text(names: Seq<Seq<char>>, table: Seq<char>, limit: Option<nat>) -> Seq<
    char,
> {
    let select = "SELECT "@ + joined(names, ", "@) + " FROM "@ + table;
    match limit {
        Some(n) => select + " LIMIT "@ + decimal(n),
        None => select,
    }
}

/// Writes the query for the fields of a table.
pub fn export_query(
    table_name: &str,
    field_types: &Vec<(String, ColumnKind)>,
    limit: Option<usize>,
) -> (query: String)
    ensures
        query@ == query_text(field_names(field_types@), table_name@, row_limit(limit)),
{
    let mut names: Vec<String> = Vec::new();
    let mut i: usize = 0;
    while i < field_types.len()
        invariant
            i <= field_types.len(),
            names.len() == i,
            forall|j: int| 0 <= j < i ==> (#[trigger] names@[j])@ == field_types@[j].0@,
        decreases field_types.len() - i,
    {
        names.push(field_types[i].0.clone());
        i = i + 1;
    }
    assert(names.deep_view() =~= field_names(field_types@));
    let fields: String = join_texts(&names, ", ");
    let query: String = "SELECT ".to_owned().concat(fields.as_str()).concat(" FROM ").concat(
        table_name,
    );
    match limit {
        Some(n) => query.concat(" LIMIT ").concat(decimal_text(n).as_str()),
        None => query,
    }
}

/// What there is to say of an item that a query brought.
#[derive(Debug)]
pub enum FetchNote {
    /// Nothing.
    Quiet,
    /// So many records have come by now.
    Progress { count: usize },
    /// The item was an error, and was left out.
    Skipped { message: String },
}

/// An object that is being fetched.
pub struct TableFetch {
    field_types: Vec<(String, ColumnKind)>,
    query: String,
    records: Vec<Json>,
}

/// The records among the items that a query brought, in order.
pub open spec fn collected(items: Seq<Result<Json, String>>) -> Seq<Json>
    decreases items.len(),
{
    if items.len() == 0 {
        Seq::empty()
    } else {
        match items.last() {
            Ok(record) => collected(items.drop_last()).push(record),
            Err(_) => collected(items.drop_last()),
        }
    }
}

impl TableFetch {
    /// The fields to fetch, with their column types.
    pub closed spec fn fields(self) -> Seq<(String, ColumnKind)> {
        self.field_types@
    }

    /// The query that brings the records.
    pub closed spec fn query_view(self) -> Seq<char> {
        self.query@
    }

    /// The records that have come so far.
    pub closed spec fn fetched(self) -> Seq<Json> {
        self.records@
    }

    /// There is a field to fetch.
    #[verifier::type_invariant]
    spec fn well_formed(self) -> bool {
        self.field_types@.len() > 0
    }

    /// Prepares to fetch an object with the given description: resolves the fields and
    /// writes the query.
    pub fn begin(
        describe: &Json,
        table_name: &str,
        limit: Option<usize>,
        requested_fields: Option<Vec<String>>,
    ) -> (fetch: Result<TableFetch, FieldError>)
        ensures
            match fetch {
                Ok(fetch) => {
                    &&& export_fields(*describe, requested_fields.deep_view(), table_name@) == Ok::<
                        _,
                        FieldErrorView,
                    >(typed_names(fetch.fields()))
                    &&& fetch.query_view() == query_text(
                        field_names(fetch.fields()),
                        table_name@,
                        row_limit(limit),
                    )
                    &&& fetch.fetched() == Seq::<Json>::empty()
                    &&& fetch.fields().len() > 0
                },
                Err(error) => export_fields(
                    *describe,
                    requested_fields.deep_view(),
                    table_name@,
                ) == Err::<Seq<(Seq<char>, ColumnKind)>, _>(error@),
            },
            ascii_names_lowered(*describe, requested_fields.deep_view()),
    {
        match resolve_export_fields(describe, table_name, requested_fields) {
            Err(error) => Err(error),
            Ok(field_types) => {
                let query: String = export_query(table_name, &field_types, limit);
                let fetch = TableFetch { field_types, query, records: Vec::new() };
                assert(fetch.field_types.deep_view() =~= typed_names(fetch.fields()));
                Ok(fetch)
            },
        }
    }

    /// The query that brings the records.
    pub fn query(&self) -> (query: &str)
        ensures
            query@ == self.query_view(),
    {
        self.query.as_str()
    }

    /// How many fields are fetched.
    pub fn field_count(&self) -> (n: usize)
        ensures
            n == self.fields().len(),
    {
        self.field_types.len()
    }

    /// How many records have come so far.
    pub fn record_count(&self) -> (n: usize)
        ensures
            n == self.fetched().len(),
    {
        self.records.len()
    }

    /// Takes the next item that the query brings: a record is kept, an error is passed over
    /// with a note. A record calls for a report of progress where the last one is five
    /// seconds old.
    pub fn receive(&mut self, item: Result<Json, String>, secs_since_report: u64) -> (note:
        FetchNote)
        ensures
            final(self).fields() == old(self).fields(),
            final(self).query_view() == old(self).query_view(),
            final(self).fetched() == (match item {
                Ok(record) => old(self).fetched().push(record),
                Err(_) => old(self).fetched(),
            }),
            match item {
                Ok(_) => if secs_since_report >= REPORT_INTERVAL_SECS {
                    note matches FetchNote::Progress { count } && count
                        == final(self).fetched().len()
                } else {
                    note is Quiet
                },
                Err(error) => note matches FetchNote::Skipped { message } && message@
                    == "Error fetching record: "@ + error@,
            },
            note is Progress <==> item is Ok && secs_since_report >= 5,
    {
        proof {
            use_type_invariant(&*self);
        }
        match item {
            Ok(record) => {
                let mut records: Vec<Json> = Vec::new();
                std::mem::swap(&mut self.records, &mut records);
                records.push(record);
                self.records = records;
                if secs_since_report >= REPORT_INTERVAL_SECS {
                    FetchNote::Progress { count: self.records.len() }
                } else {
                    FetchNote::Quiet
                }
            },
            Err(error) => {
                FetchNote::Skipped {
                    message: "Error fetching record: ".to_owned().concat(error.as_str()),
                }
            },
        }
    }

    /// Tells whether the records can be made into a batch: the text of each text column
    /// fits.
    pub fn fits(&self) -> (fits: bool)
        ensures
            fits == export_fits(self.fields(), self.fetched()),
    {
        export_text_fits(self.field_types.as_slice(), self.records.as_slice())
    }

    /// Makes the records into a batch.
    pub fn finish(&self) -> (batch: Result<ArrowBatch, BatchError>)
        requires
            export_fits(self.fields(), self.fetched()),
        ensures
            batch matches Ok(b) && batch_columns(b) == export_columns(
                self.fields(),
                self.fetched(),
            ),
            columns_fit(export_columns(self.fields(), self.fetched())),
            forall|i: int, j: int|
                0 <= i < self.fields().len() && 0 <= j < self.fetched().len() ==> reads_plain_texts(
                    (#[trigger] self.fields()[i]).1,
                    #[trigger] self.fetched()[j],
                    self.fields()[i].0@,
                ),
    {
        proof {
            use_type_invariant(self);
        }
        json_to_arrow(self.field_types.as_slice(), self.records.as_slice())
    }
}

/// Once every item of a query is taken, the records among the items have been kept, in
/// order: what is kept after one more item is what those items bring.
pub proof fn law_records_are_kept_in_order(
    items: Seq<Result<Json, String>>,
    item: Result<Json, String>,
    kept: Seq<Json>,
)
    requires
        kept == collected(items),
    ensures
        collected(items.push(item)) == (match item {
            Ok(record) => kept.push(record),
            Err(_) => kept,
        }),
{
    assert(items.push(item).drop_last() =~= items);
}

/// Errors among the items of a query cost only themselves: the items from either side of an
/// error bring what they would bring without it.
pub proof fn law_error_costs_no_record(
    front: Seq<Result<Json, String>>,
    error: String,
    back: Seq<Result<Json, String>>,
)
    ensures
        collected(front.push(Err(error)) + back) == collected(front + back),
        collected(front + back) == collected(front) + collected(back),
    decreases back.len(),
{
    let with = front.push(Err(error)) + back;
    if back.len() == 0 {
        assert(with =~= front.push(Err(error)));
        assert(front + back =~= front);
        assert(front.push(Err(error)).drop_last() =~= front);
        assert(collected(front) + collected(back) =~= collected(front));
    } else {
        assert(with.drop_last() =~= front.push(Err(error)) + back.drop_last());
        assert((front + back).drop_last() =~= front + back.drop_last());
        assert(with.last() == back.last());
        assert((front + back).last() == back.last());
        law_error_costs_no_record(front, error, back.drop_last());
        if let Ok(record) = back.last() {
            assert(collected(front) + collected(back.drop_last()).push(record) =~= (collected(front)
                + collected(back.drop_last())).push(record));
        }
    }
}

/// A query without a limit is made of the names of the fields and the table, and a limit
/// adds to it the word and the number, which reads back as the limit that was asked for.
pub proof fn law_query_asks_for_what_was_asked(
    field_types: Seq<(String, ColumnKind)>,
    table: Seq<char>,
    limit: usize,
)
    ensures
        ({
            let names = field_names(field_types);
            let all = query_text(names, table, row_limit(None));
            let limited = query_text(names, table, row_limit(Some(limit)));
            let tail = limited.skip((all.len() + 7) as int);
            &&& names.len() == field_types.len()
            &&& forall|i: int|
                0 <= i < names.len() ==> #[trigger] names[i] == field_types[i].0@
            &&& all == "SELECT "@ + joined(names, ", "@) + " FROM "@ + table
            &&& limited.take((all.len() + 7) as int) == all + " LIMIT "@
            &&& tail.len() > 0
            &&& forall|i: int| 0 <= i < tail.len() ==> '0' <= #[trigger] tail[i] <= '9'
            &&& number_read(tail) == limit
            &&& tail.len() > 1 ==> tail[0] != '0'
        }),
{
    let names = field_names(field_types);
    let all = query_text(names, table, None);
    let limited = query_text(names, table, Some(limit as nat));
    reveal_strlit(" LIMIT ");
    law_decimal_reads_back(limit as nat);
    assert(limited.take((all.len() + 7) as int) =~= all + " LIMIT "@);
    assert(limited.skip((all.len() + 7) as int) =~= decimal(limit as nat));
}

/// Queries of the same fields and table are the same only where the limits are.
pub proof fn law_limits_tell_queries_apart(
    names: Seq<Seq<char>>,
    table: Seq<char>,
    a: Option<usize>,
    b: Option<usize>,
)
    ensures
        query_text(names, table, row_limit(a)) == query_text(names, table, row_limit(b)) <==> a == b,
{
    let all = query_text(names, table, None);
    reveal_strlit(" LIMIT ");
    if let Some(m) = a {
        let left = query_text(names, table, Some(m as nat));
        assert(left.skip((all.len() + 7) as int) =~= decimal(m as nat));
        law_decimal_reads_back(m as nat);
    }
    if let Some(n) = b {
        let right = query_text(names, table, Some(n as nat));
        assert(right.skip((all.len() + 7) as int) =~= decimal(n as nat));
        law_decimal_reads_back(n as nat);
    }
}

/// The list of fields in a query names each field once, in order, with a comma and a space
/// between each two.
pub proof fn law_query_lists_fields_in_order(
    front: Seq<(String, ColumnKind)>,
    back: Seq<(String, ColumnKind)>,
    field: (String, ColumnKind),
)
    requires
        front.len() > 0,
        back.len() > 0,
    ensures
        joined(field_names(seq![field]), ", "@) == field.0@,
        joined(field_names(front + back), ", "@) == joined(field_names(front), ", "@) + ", "@
            + joined(field_names(back), ", "@),
{
    assert(field_names(seq![field]) =~= seq![field.0@]);
    assert(field_names(front + back) =~= field_names(front) + field_names(back));
    law_joining_goes_part_by_part(field_names(front), field_names(back), field.0@, ", "@);
}

/// The fields to fetch are told field by field, each by its name and its column type.
pub proof fn law_typed_names_follow_fields(fields: Seq<(String, ColumnKind)>, i: int)
    requires
        0 <= i < fields.len(),
    ensures
        typed_names(fields).len() == fields.len(),
        typed_names(fields)[i] == (fields[i].0@, fields[i].1),
{
}

/// A record that a query brings is kept as it is, and an error leaves nothing.
pub proof fn law_item_alone_is_kept_or_left(record: Json, error: String)
    ensures
        collected(Seq::empty()) == Seq::<Json>::empty(),
        collected(seq![Ok(record)]) == seq![record],
        collected(seq![Err(error)]) == Seq::<Json>::empty(),
{
    let kept: Seq<Result<Json, String>> = seq![Ok(record)];
    let left: Seq<Result<Json, String>> = seq![Err(error)];
    assert(kept.drop_last() =~= Seq::empty());
    assert(left.drop_last() =~= Seq::empty());
    assert(collected(Seq::empty()) =~= Seq::<Json>::empty());
    assert(collected(kept) =~= seq![record]);
}

} // verus!
