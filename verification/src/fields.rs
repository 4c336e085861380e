//! Which fields of an object are exported, and as what.
use crate::columns::{kind_of_type, salesforce_type_to_arrow, ColumnKind};
use crate::json::Json;
use crate::text::{lookup_key, lowercase, lowers_ascii, trimmed};
use vstd::prelude::*;
use vstd::string::*;

verus! {

/// A field as an object's description gives it.
#[derive(Debug)]
pub struct DescribedField {
    pub name: String,
    /// The Salesforce type.
    pub sf_type: String,
}

/// A field as an object's description gives it, as text.
pub struct FieldView {
    pub name: Seq<char>,
    pub sf_type: Seq<char>,
}

impl View for DescribedField {
    type V = FieldView;

    open spec fn view(&self) -> FieldView {
        FieldView { name: self.name@, sf_type: self.sf_type@ }
    }
}

impl DeepView for DescribedField {
    type V = FieldView;

    open spec fn deep_view(&self) -> FieldView {
        self@
    }
}

/// A field that was asked for, and the key that it is looked up by.
#[derive(Debug)]
pub struct RequestedField {
    pub given: String,
    pub key: String,
}

/// A field that was asked for, as text.
pub struct RequestView {
    pub given: Seq<char>,
    pub key: Seq<char>,
}

impl View for RequestedField {
    type V = RequestView;

    open spec fn view(&self) -> RequestView {
        RequestView { given: self.given@, key: self.key@ }
    }
}

impl DeepView for RequestedField {
    type V = RequestView;

    open spec fn deep_view(&self) -> RequestView {
        self@
    }
}

/// Why an object cannot be exported.
#[derive(Debug)]
pub enum FieldError {
    /// The description lists no field.
    NoFields { table: String },
    /// A field that was asked for is not there.
    NotFound { field: String, table: String },
    /// A field that was asked for has a type that is not supported.
    UnsupportedRequest { name: String, sf_type: String },
    /// All fields are to be exported and one has a type that is not supported.
    UnsupportedField { name: String, sf_type: String },
    /// Fields were asked for, but none was named.
    NothingToExport { table: String },
}

/// Why an object cannot be exported, as text.
pub enum FieldErrorView {
    NoFields { table: Seq<char> },
    NotFound { field: Seq<char>, table: Seq<char> },
    UnsupportedRequest { name: Seq<char>, sf_type: Seq<char> },
    UnsupportedField { name: Seq<char>, sf_type: Seq<char> },
    NothingToExport { table: Seq<char> },
}

impl View for FieldError {
    type V = FieldErrorView;

    open spec fn view(&self) -> FieldErrorView {
        match self {
            FieldError::NoFields { table } => FieldErrorView::NoFields { table: table@ },
            FieldError::NotFound { field, table } => FieldErrorView::NotFound {
                field: field@,
                table: table@,
            },
            FieldError::UnsupportedRequest { name, sf_type } => FieldErrorView::UnsupportedRequest {
                name: name@,
                sf_type: sf_type@,
            },
            FieldError::UnsupportedField { name, sf_type } => FieldErrorView::UnsupportedField {
                name: name@,
                sf_type: sf_type@,
            },
            FieldError::NothingToExport { table } => FieldErrorView::NothingToExport {
                table: table@,
            },
        }
    }
}

impl FieldErrorView {
    /// The error in words.
    pub open spec fn message(self) -> Seq<char> {
        match self {
            FieldErrorView::NoFields { table } => "No fields found for table "@ + table,
            FieldErrorView::NotFound { field, table } => "Field '"@ + field
                + "' not found on object '"@ + table + "'"@,
            FieldErrorView::UnsupportedRequest { name, sf_type } => "Field '"@ + name
                + "' has unsupported Salesforce type '"@ + sf_type + "'"@,
            FieldErrorView::UnsupportedField { name, sf_type } => "Field '"@ + name
                + "' has unsupported Salesforce type '"@ + sf_type
                + "'. Use --fields to select only supported fields."@,
            FieldErrorView::NothingToExport { table } => "No fields to export for table "@ + table,
        }
    }
}

impl FieldError {
    /// Puts the error in words.
    pub fn message(&self) -> (text: String)
        ensures
            text@ == self@.message(),
    {
        match self {
            FieldError::NoFields { table } => "No fields found for table ".to_owned().concat(
                table.as_str(),
            ),
            FieldError::NotFound { field, table } => "Field '".to_owned().concat(
                field.as_str(),
            ).concat("' not found on object '").concat(table.as_str()).concat("'"),
            FieldError::UnsupportedRequest { name, sf_type } => "Field '".to_owned().concat(
                name.as_str(),
            ).concat("' has unsupported Salesforce type '").concat(sf_type.as_str()).concat("'"),
            FieldError::UnsupportedField { name, sf_type } => "Field '".to_owned().concat(
                name.as_str(),
            ).concat("' has unsupported Salesforce type '").concat(sf_type.as_str()).concat(
                "'. Use --fields to select only supported fields.",
            ),
            FieldError::NothingToExport { table } => "No fields to export for table ".to_owned().concat(
                table.as_str(),
            ),
        }
    }
}

/// An entry of a field map: a key and the field that stands under it.
pub type EntryView = (Seq<char>, FieldView);

/// The place of the first entry under `key`; past the end where there is none.
pub open spec fn key_position(entries: Seq<EntryView>, key: Seq<char>) -> int
    decreases entries.len(),
{
    if entries.len() == 0 {
        0
    } else if entries[0].0 == key {
        0
    } else {
        1 + key_position(entries.drop_first(), key)
    }
}

/// The field under `key`.
pub open spec fn find_field(entries: Seq<EntryView>, key: Seq<char>) -> Option<FieldView> {
    let at = key_position(entries, key);
    if at < entries.len() {
        Some(entries[at].1)
    } else {
        None
    }
}

/// The entries with `field` put under `key`: in place of the field that stood there, or
/// else at the end.
pub open spec fn put_field(entries: Seq<EntryView>, key: Seq<char>, field: FieldView) -> Seq<
    EntryView,
> {
    let at = key_position(entries, key);
    if at < entries.len() {
        entries.update(at, (key, field))
    } else {
        entries.push((key, field))
    }
}

/// No key stands twice.
pub open spec fn unique_keys(entries: Seq<EntryView>) -> bool {
    forall|i: int, j: int|
        0 <= i < j < entries.len() ==> (#[trigger] entries[i]).0 != (#[trigger] entries[j]).0
}

/// The fields of an object by key, in the order in which the keys first came.
#[derive(Debug)]
pub struct FieldMap {
    entries: Vec<(String, DescribedField)>,
}

impl View for FieldMap {
    type V = Seq<EntryView>;

    closed spec fn view(&self) -> Seq<EntryView> {
        self.entries.deep_view()
    }
}

proof fn lemma_key_position(entries: Seq<EntryView>, key: Seq<char>)
    ensures
        0 <= key_position(entries, key) <= entries.len(),
        key_position(entries, key) < entries.len() ==> entries[key_position(entries, key)].0 == key,
        forall|i: int| 0 <= i < key_position(entries, key) ==> (#[trigger] entries[i]).0 != key,
    decreases entries.len(),
{
    if entries.len() > 0 && entries[0].0 != key {
        let rest = entries.drop_first();
        lemma_key_position(rest, key);
        assert forall|i: int| 0 <= i < key_position(entries, key) implies (#[trigger] entries[i]).0
            != key by {
            if i > 0 {
                assert(rest[i - 1] == entries[i]);
            }
        }
        let at = key_position(rest, key);
        if at < rest.len() {
            assert(rest[at] == entries[at + 1]);
        }
    }
}

/// An entry with the key, before which no entry has it, is the first one.
proof fn lemma_first_position(entries: Seq<EntryView>, key: Seq<char>, at: int)
    requires
        0 <= at < entries.len(),
        entries[at].0 == key,
        forall|i: int| 0 <= i < at ==> (#[trigger] entries[i]).0 != key,
    ensures
        key_position(entries, key) == at,
{
    lemma_key_position(entries, key);
    let found = key_position(entries, key);
    if found < at {
        assert(entries[found].0 != key);
    } else if found > at {
        assert(entries[at].0 != key);
    }
}

proof fn lemma_no_position(entries: Seq<EntryView>, key: Seq<char>)
    requires
        forall|i: int| 0 <= i < entries.len() ==> (#[trigger] entries[i]).0 != key,
    ensures
        key_position(entries, key) == entries.len(),
{
    lemma_key_position(entries, key);
}

impl FieldMap {
    /// A map without fields.
    pub fn new() -> (map: FieldMap)
        ensures
            map@ == Seq::<EntryView>::empty(),
    {
        let map = FieldMap { entries: Vec::new() };
        assert(map@ =~= Seq::<EntryView>::empty());
        map
    }

    /// How many fields the map holds.
    pub fn len(&self) -> (n: usize)
        ensures
            n == self@.len(),
    {
        self.entries.len()
    }

    fn position(&self, key: &String) -> (at: usize)
        ensures
            at == key_position(self@, key@),
            at <= self@.len(),
    {
        let mut i: usize = 0;
        while i < self.entries.len()
            invariant
                i <= self.entries.len(),
                forall|j: int| 0 <= j < i ==> (#[trigger] self@[j]).0 != key@,
            decreases self.entries.len() - i,
        {
            assert(self@[i as int].0 == self.entries@[i as int].0@);
            if self.entries[i].0 == *key {
                proof {
                    lemma_first_position(self@, key@, i as int);
                }
                return i;
            }
            i = i + 1;
        }
        proof {
            lemma_no_position(self@, key@);
        }
        i
    }

    /// The field under a key.
    pub fn get(&self, key: &String) -> (field: Option<&DescribedField>)
        ensures
            match field {
                Some(f) => find_field(self@, key@) == Some(f@),
                None => find_field(self@, key@) is None,
            },
    {
        let at: usize = self.position(key);
        if at < self.entries.len() {
            assert(self@[at as int].1 == self.entries@[at as int].1@);
            Some(&self.entries[at].1)
        } else {
            None
        }
    }

    /// Puts a field under a key, in place of the one that stood there if any did.
    pub fn insert(&mut self, key: String, field: DescribedField)
        ensures
            final(self)@ == put_field(old(self)@, key@, field@),
            unique_keys(old(self)@) ==> unique_keys(final(self)@),
    {
        proof {
            if unique_keys(self@) {
                law_put_field_keeps_keys_unique(self@, key@, field@);
            }
        }
        let at: usize = self.position(&key);
        let ghost before = self@;
        if at < self.entries.len() {
            self.entries.set(at, (key, field));
            assert(self@ =~= before.update(at as int, (key@, field@)));
        } else {
            self.entries.push((key, field));
            assert(self@ =~= before.push((key@, field@)));
        }
    }
}

/// Putting a field under a key keeps the keys unique.
pub proof fn law_put_field_keeps_keys_unique(
    entries: Seq<EntryView>,
    key: Seq<char>,
    field: FieldView,
)
    requires
        unique_keys(entries),
    ensures
        unique_keys(put_field(entries, key, field)),
{
    lemma_key_position(entries, key);
    let at = key_position(entries, key);
    let after = put_field(entries, key, field);
    assert forall|i: int, j: int| 0 <= i < j < after.len() implies (#[trigger] after[i]).0 != (
    #[trigger] after[j]).0 by {
        if at < entries.len() {
            assert(after[i].0 == entries[i].0);
            assert(after[j].0 == entries[j].0);
        } else if j == entries.len() {
            assert(after[i] == entries[i]);
        } else {
            assert(after[i] == entries[i]);
            assert(after[j] == entries[j]);
        }
    }
}

/// What was put under a key is found under it, and every other key is left as it was: of
/// two fields with one key, the later one counts.
pub proof fn law_put_field_then_find(
    entries: Seq<EntryView>,
    key: Seq<char>,
    field: FieldView,
    other: Seq<char>,
)
    ensures
        find_field(put_field(entries, key, field), key) == Some(field),
        other != key ==> find_field(put_field(entries, key, field), other) == find_field(
            entries,
            other,
        ),
{
    lemma_key_position(entries, key);
    lemma_key_position(entries, other);
    let at = key_position(entries, key);
    let after = put_field(entries, key, field);
    assert forall|i: int| 0 <= i < at implies (#[trigger] after[i]).0 != key by {
        assert(after[i] == entries[i]);
    }
    lemma_first_position(after, key, at);
    if other != key {
        let there = key_position(entries, other);
        assert forall|i: int| 0 <= i < there && i < after.len() implies (#[trigger] after[i]).0
            != other by {
            if i < entries.len() && i != at {
                assert(after[i] == entries[i]);
            }
        }
        if there < entries.len() {
            assert(after[there] == entries[there]);
            lemma_first_position(after, other, there);
        } else {
            assert forall|i: int| 0 <= i < after.len() implies (#[trigger] after[i]).0 != other by {
                if i < entries.len() {
                } else {
                    assert(after[i].0 == key);
                }
            }
            lemma_no_position(after, other);
        }
    }
}

/// The field that an item of a description describes: one with a name and a type, both
/// text.
pub open spec fn described_field(item: Json) -> Option<FieldView> {
    match (item.member_text("name"@), item.member_text("type"@)) {
        (Some(name), Some(sf_type)) => Some(FieldView { name, sf_type }),
        _ => None,
    }
}

/// The fields that the items describe, in order; items that describe none are passed over.
pub open spec fn described_items(items: Seq<Json>) -> Seq<FieldView>
    decreases items.len(),
{
    if items.len() == 0 {
        Seq::empty()
    } else {
        match described_field(items.last()) {
            Some(field) => described_items(items.drop_last()).push(field),
            None => described_items(items.drop_last()),
        }
    }
}

/// The fields that an object's description lists.
pub open spec fn described_fields(describe: Json) -> Seq<FieldView> {
    match describe.member("fields"@) {
        Some(Json::Array(items)) => described_items(items@),
        _ => Seq::empty(),
    }
}

/// The map of fields under the keys that go with them. A later field takes the place of an
/// earlier one with its key.
pub open spec fn field_entries(fields: Seq<FieldView>, keys: Seq<Seq<char>>) -> Seq<EntryView>
    decreases fields.len(),
{
    if fields.len() == 0 {
        Seq::empty()
    } else {
        put_field(field_entries(fields.drop_last(), keys), keys[fields.len() - 1], fields.last())
    }
}

/// The keys that an object's fields stand under: their names in lower case.
pub open spec fn name_keys(fields: Seq<FieldView>) -> Seq<Seq<char>> {
    Seq::new(fields.len(), |i: int| lowercase(fields[i].name))
}

/// The outcome of selecting fields: each with its column type, or why not.
pub type Selection = Result<Seq<(Seq<char>, ColumnKind)>, FieldErrorView>;

/// The outcome for one field that was asked for.
pub open spec fn select_one(
    entries: Seq<EntryView>,
    request: RequestView,
    table: Seq<char>,
) -> Result<(Seq<char>, ColumnKind), FieldErrorView> {
    match find_field(entries, request.key) {
        None => Err(FieldErrorView::NotFound { field: request.given, table }),
        Some(field) => match kind_of_type(field.sf_type) {
            None => Err(
                FieldErrorView::UnsupportedRequest { name: field.name, sf_type: field.sf_type },
            ),
            Some(kind) => Ok((field.name, kind)),
        },
    }
}

/// The outcome for the fields that were asked for, in the order in which they were: the
/// first that cannot be had decides.
pub open spec fn select_requested(
    entries: Seq<EntryView>,
    requests: Seq<RequestView>,
    table: Seq<char>,
) -> Selection
    decreases requests.len(),
{
    if requests.len() == 0 {
        Ok(Seq::empty())
    } else {
        match select_requested(entries, requests.drop_last(), table) {
            Err(error) => Err(error),
            Ok(before) => match select_one(entries, requests.last(), table) {
                Err(error) => Err(error),
                Ok(field) => Ok(before.push(field)),
            },
        }
    }
}

/// The outcome where all fields are exported: the first whose type is not supported
/// decides.
pub open spec fn select_all(entries: Seq<EntryView>) -> Selection
    decreases entries.len(),
{
    if entries.len() == 0 {
        Ok(Seq::empty())
    } else {
        let field = entries.last().1;
        match select_all(entries.drop_last()) {
            Err(error) => Err(error),
            Ok(before) => match kind_of_type(field.sf_type) {
                None => Err(
                    FieldErrorView::UnsupportedField { name: field.name, sf_type: field.sf_type },
                ),
                Some(kind) => Ok(before.push((field.name, kind))),
            },
        }
    }
}

/// The fields to export of an object whose fields are `entries`.
pub open spec fn selected_fields(
    entries: Seq<EntryView>,
    requests: Option<Seq<RequestView>>,
    table: Seq<char>,
) -> Selection {
    if entries.len() == 0 {
        Err(FieldErrorView::NoFields { table })
    } else {
        let selection = match requests {
            Some(requests) => select_requested(entries, requests, table),
            None => select_all(entries),
        };
        match selection {
            Err(error) => Err(error),
            Ok(fields) => if fields.len() == 0 {
                Err(FieldErrorView::NothingToExport { table })
            } else {
                Ok(fields)
            },
        }
    }
}

/// The requests for fields by the given names: each is looked up by its name, trimmed and
/// in lower case.
pub open spec fn requests_for(names: Seq<Seq<char>>) -> Seq<RequestView> {
    Seq::new(
        names.len(),
        |i: int| RequestView { given: names[i], key: lowercase(trimmed(names[i])) },
    )
}

/// The fields to export of an object with the given description.
pub open spec fn export_fields(
    describe: Json,
    names: Option<Seq<Seq<char>>>,
    table: Seq<char>,
) -> Selection {
    let fields = described_fields(describe);
    selected_fields(
        field_entries(fields, name_keys(fields)),
        match names {
            Some(names) => Some(requests_for(names)),
            None => None,
        },
        table,
    )
}

/// Whether lower case is known for the names of the fields that a description lists and of
/// those that are asked for, where they are ASCII.
pub open spec fn ascii_names_lowered(describe: Json, names: Option<Seq<Seq<char>>>) -> bool {
    &&& forall|i: int|
        0 <= i < described_fields(describe).len() ==> lowers_ascii(
            (#[trigger] described_fields(describe)[i]).name,
        )
    &&& names matches Some(names) ==> forall|i: int|
        0 <= i < names.len() ==> lowers_ascii(trimmed(#[trigger] names[i]))
}

/// The outcome of a selection, as text.
pub open spec fn selection_view(
    selection: Result<Vec<(String, ColumnKind)>, FieldError>,
) -> Selection {
    match selection {
        Ok(fields) => Ok(fields.deep_view()),
        Err(error) => Err(error@),
    }
}

/// Reads an item of a description.
pub fn read_field(item: &Json) -> (field: Option<DescribedField>)
    ensures
        field.deep_view() == described_field(*item),
{
    if let Some(Json::Text(name)) = item.get("name") {
        if let Some(Json::Text(sf_type)) = item.get("type") {
            return Some(DescribedField { name: name.clone(), sf_type: sf_type.clone() });
        }
    }
    None
}

/// Reads the fields off an object's description.
pub fn read_fields(describe: &Json) -> (fields: Vec<DescribedField>)
    ensures
        fields.deep_view() == described_fields(*describe),
{
    let mut fields: Vec<DescribedField> = Vec::new();
    assert(fields.deep_view() =~= Seq::<FieldView>::empty());
    if let Some(Json::Array(items)) = describe.get("fields") {
        let mut i: usize = 0;
        while i < items.len()
            invariant
                i <= items.len(),
                fields.deep_view() == described_items(items@.take(i as int)),
            decreases items.len() - i,
        {
            proof {
                assert(items@.take(i + 1).drop_last() =~= items@.take(i as int));
                assert(items@.take(i + 1).last() == items@[i as int]);
            }
            let ghost before = fields.deep_view();
            if let Some(field) = read_field(&items[i]) {
                fields.push(field);
                assert(fields.deep_view() =~= before.push(field@));
            }
            i = i + 1;
        }
        assert(items@.take(items.len() as int) =~= items@);
    }
    fields
}

/// Makes the map of fields under the keys that go with them.
pub fn map_fields(fields: Vec<DescribedField>, keys: Vec<String>) -> (map: FieldMap)
    requires
        fields.len() == keys.len(),
    ensures
        map@ == field_entries(fields.deep_view(), keys.deep_view()),
        unique_keys(map@),
{
    let ghost views = fields.deep_view();
    let ghost key_views = keys.deep_view();
    let mut map: FieldMap = FieldMap::new();
    let mut i: usize = 0;
    while i < fields.len()
        invariant
            i <= fields.len(),
            fields.len() == keys.len(),
            views == fields.deep_view(),
            key_views == keys.deep_view(),
            map@ == field_entries(views.take(i as int), key_views),
            unique_keys(map@),
        decreases fields.len() - i,
    {
        proof {
            assert(views.take(i + 1).drop_last() =~= views.take(i as int));
            assert(views.take(i + 1).last() == fields@[i as int]@);
            assert(key_views[i as int] == keys@[i as int]@);
        }
        let field: &DescribedField = &fields[i];
        map.insert(
            keys[i].clone(),
            DescribedField { name: field.name.clone(), sf_type: field.sf_type.clone() },
        );
        i = i + 1;
    }
    assert(views.take(fields.len() as int) =~= views);
    map
}

fn select_requested_fields(map: &FieldMap, requests: &Vec<RequestedField>, table_name: &str) -> (
selection: Result<Vec<(String, ColumnKind)>, FieldError>)
    ensures
        selection_view(selection) == select_requested(map@, requests.deep_view(), table_name@),
{
    let ghost views = requests.deep_view();
    let mut fields: Vec<(String, ColumnKind)> = Vec::new();
    assert(fields.deep_view() =~= Seq::<(Seq<char>, ColumnKind)>::empty());
    let mut i: usize = 0;
    while i < requests.len()
        invariant
            i <= requests.len(),
            views == requests.deep_view(),
            select_requested(map@, views.take(i as int), table_name@) == Ok::<
                _,
                FieldErrorView,
            >(fields.deep_view()),
        decreases requests.len() - i,
    {
        let request: &RequestedField = &requests[i];
        proof {
            assert(views.take(i + 1).drop_last() =~= views.take(i as int));
            assert(views.take(i + 1).last() == request@);
        }
        let ghost before = fields.deep_view();
        match map.get(&request.key) {
            None => {
                proof {
                    lemma_requested_error(map@, views, table_name@, i + 1);
                }
                return Err(
                    FieldError::NotFound {
                        field: request.given.clone(),
                        table: table_name.to_owned(),
                    },
                );
            },
            Some(field) => {
                match salesforce_type_to_arrow(field.sf_type.as_str()) {
                    None => {
                        proof {
                            lemma_requested_error(map@, views, table_name@, i + 1);
                        }
                        return Err(
                            FieldError::UnsupportedRequest {
                                name: field.name.clone(),
                                sf_type: field.sf_type.clone(),
                            },
                        );
                    },
                    Some(kind) => {
                        fields.push((field.name.clone(), kind));
                        assert(fields.deep_view() =~= before.push((field.name@, kind)));
                    },
                }
            },
        }
        i = i + 1;
    }
    assert(views.take(requests.len() as int) =~= views);
    Ok(fields)
}

/// The first request that cannot be met decides, whatever follows it.
proof fn lemma_requested_error(
    entries: Seq<EntryView>,
    requests: Seq<RequestView>,
    table: Seq<char>,
    n: int,
)
    requires
        0 <= n <= requests.len(),
        select_requested(entries, requests.take(n), table) is Err,
    ensures
        select_requested(entries, requests, table) == select_requested(
            entries,
            requests.take(n),
            table,
        ),
    decreases requests.len(),
{
    if n < requests.len() {
        assert(requests.drop_last().take(n) =~= requests.take(n));
        lemma_requested_error(entries, requests.drop_last(), table, n);
    } else {
        assert(requests.take(n) =~= requests);
    }
}

fn select_all_fields(map: &FieldMap) -> (selection: Result<Vec<(String, ColumnKind)>, FieldError>)
    ensures
        selection_view(selection) == select_all(map@),
{
    let ghost views = map@;
    let mut fields: Vec<(String, ColumnKind)> = Vec::new();
    assert(fields.deep_view() =~= Seq::<(Seq<char>, ColumnKind)>::empty());
    let mut i: usize = 0;
    while i < map.entries.len()
        invariant
            i <= map.entries.len(),
            views == map@,
            select_all(views.take(i as int)) == Ok::<_, FieldErrorView>(fields.deep_view()),
        decreases map.entries.len() - i,
    {
        let field: &DescribedField = &map.entries[i].1;
        proof {
            assert(views.take(i + 1).drop_last() =~= views.take(i as int));
            assert(views.take(i + 1).last().1 == field@);
        }
        let ghost before = fields.deep_view();
        match salesforce_type_to_arrow(field.sf_type.as_str()) {
            None => {
                proof {
                    lemma_all_error(views, i + 1);
                }
                return Err(
                    FieldError::UnsupportedField {
                        name: field.name.clone(),
                        sf_type: field.sf_type.clone(),
                    },
                );
            },
            Some(kind) => {
                fields.push((field.name.clone(), kind));
                assert(fields.deep_view() =~= before.push((field.name@, kind)));
            },
        }
        i = i + 1;
    }
    assert(views.take(map.entries.len() as int) =~= views);
    Ok(fields)
}

/// The first field that is not supported decides, whatever follows it.
proof fn lemma_all_error(entries: Seq<EntryView>, n: int)
    requires
        0 <= n <= entries.len(),
        select_all(entries.take(n)) is Err,
    ensures
        select_all(entries) == select_all(entries.take(n)),
    decreases entries.len(),
{
    if n < entries.len() {
        assert(entries.drop_last().take(n) =~= entries.take(n));
        lemma_all_error(entries.drop_last(), n);
    } else {
        assert(entries.take(n) =~= entries);
    }
}

/// Selects the fields to export of an object whose fields are in `map`.
pub fn select_fields(
    map: &FieldMap,
    requests: Option<Vec<RequestedField>>,
    table_name: &str,
) -> (selection: Result<Vec<(String, ColumnKind)>, FieldError>)
    ensures
        selection_view(selection) == selected_fields(map@, requests.deep_view(), table_name@),
{
    if map.len() == 0 {
        return Err(FieldError::NoFields { table: table_name.to_owned() });
    }
    let selection: Result<Vec<(String, ColumnKind)>, FieldError> = match requests {
        Some(requests) => select_requested_fields(map, &requests, table_name),
        None => select_all_fields(map),
    };
    match selection {
        Ok(fields) => if fields.len() == 0 {
            Err(FieldError::NothingToExport { table: table_name.to_owned() })
        } else {
            Ok(fields)
        },
        Err(error) => Err(error),
    }
}

/// Resolves which fields of an object to export, and as what, from the object's
/// description. A field that is asked for is matched without regard to case or to white
/// space round it; it is an error if the object lacks it or its type is not supported.
/// Where no fields are asked for, all are exported, in the order of the description, and
/// any type that is not supported is an error.
pub fn resolve_export_fields(
    describe: &Json,
    table_name: &str,
    requested_fields: Option<Vec<String>>,
) -> (selection: Result<Vec<(String, ColumnKind)>, FieldError>)
    ensures
        selection_view(selection) == export_fields(
            *describe,
            requested_fields.deep_view(),
            table_name@,
        ),
        ascii_names_lowered(*describe, requested_fields.deep_view()),
{
    let fields: Vec<DescribedField> = read_fields(describe);
    let mut keys: Vec<String> = Vec::new();
    let mut i: usize = 0;
    while i < fields.len()
        invariant
            i <= fields.len(),
            keys.len() == i,
            forall|j: int| 0 <= j < i ==> (#[trigger] keys@[j])@ == lowercase(fields@[j].name@),
            forall|j: int| 0 <= j < i ==> lowers_ascii((#[trigger] fields@[j]).name@),
        decreases fields.len() - i,
    {
        keys.push(fields[i].name.as_str().to_lowercase());
        i = i + 1;
    }
    assert(keys.deep_view() =~= name_keys(fields.deep_view()));
    assert forall|j: int| 0 <= j < described_fields(*describe).len() implies lowers_ascii(
        (#[trigger] described_fields(*describe)[j]).name,
    ) by {
        assert(lowers_ascii(fields@[j].name@));
    }
    let map: FieldMap = map_fields(fields, keys);
    let requests: Option<Vec<RequestedField>> = match requested_fields {
        None => None,
        Some(names) => {
            let mut requests: Vec<RequestedField> = Vec::new();
            let mut k: usize = 0;
            while k < names.len()
                invariant
                    k <= names.len(),
                    requests.len() == k,
                    forall|j: int|
                        0 <= j < k ==> (#[trigger] requests@[j])@ == (RequestView {
                            given: names@[j]@,
                            key: lowercase(trimmed(names@[j]@)),
                        }),
                    forall|j: int| 0 <= j < k ==> lowers_ascii(trimmed((#[trigger] names@[j])@)),
                decreases names.len() - k,
            {
                requests.push(
                    RequestedField { given: names[k].clone(), key: lookup_key(names[k].as_str()) },
                );
                k = k + 1;
            }
            assert(requests.deep_view() =~= requests_for(names.deep_view()));
            assert forall|j: int| 0 <= j < names.deep_view().len() implies lowers_ascii(
                trimmed(#[trigger] names.deep_view()[j]),
            ) by {
                assert(lowers_ascii(trimmed(names@[j]@)));
            }
            Some(requests)
        },
    };
    select_fields(&map, requests, table_name)
}

/// Under a key stands the last field of that key; where no field has it, nothing does.
pub proof fn law_field_entries_find(
    fields: Seq<FieldView>,
    keys: Seq<Seq<char>>,
    key: Seq<char>,
    at: int,
)
    requires
        fields.len() == keys.len(),
    ensures
        unique_keys(field_entries(fields, keys)),
        (0 <= at < fields.len() && keys[at] == key && forall|j: int|
            at < j < fields.len() ==> (#[trigger] keys[j]) != key) ==> find_field(
            field_entries(fields, keys),
            key,
        ) == Some(fields[at]),
        (forall|j: int| 0 <= j < fields.len() ==> (#[trigger] keys[j]) != key) ==> find_field(
            field_entries(fields, keys),
            key,
        ) is None,
    decreases fields.len(),
{
    if fields.len() > 0 {
        let n = fields.len() - 1;
        let front = fields.drop_last();
        let before = field_entries(front, keys);
        lemma_entries_of_front(front, keys, keys.drop_last());
        law_field_entries_find(front, keys.drop_last(), key, at);
        law_put_field_keeps_keys_unique(before, keys[n], fields.last());
        law_put_field_then_find(before, keys[n], fields.last(), key);
        assert(forall|j: int| 0 <= j < n ==> (#[trigger] keys.drop_last()[j]) == keys[j]);
        if 0 <= at < n && keys[at] == key && (forall|j: int|
            at < j < fields.len() ==> (#[trigger] keys[j]) != key) {
            assert(keys[n] != key);
            assert(keys.drop_last()[at] == key);
        }
        if forall|j: int| 0 <= j < fields.len() ==> (#[trigger] keys[j]) != key {
            assert(keys[n] != key);
        }
    }
}

proof fn lemma_entries_of_front(fields: Seq<FieldView>, a: Seq<Seq<char>>, b: Seq<Seq<char>>)
    requires
        fields.len() <= a.len(),
        fields.len() <= b.len(),
        forall|j: int| 0 <= j < fields.len() ==> a[j] == b[j],
    ensures
        field_entries(fields, a) == field_entries(fields, b),
    decreases fields.len(),
{
    if fields.len() > 0 {
        lemma_entries_of_front(fields.drop_last(), a, b);
    }
}

/// Fields that are asked for come out in the order in which they were asked for, one for
/// each request, and selecting them succeeds exactly if each one can be had.
pub proof fn law_requested_fields_in_order(
    entries: Seq<EntryView>,
    requests: Seq<RequestView>,
    table: Seq<char>,
)
    ensures
        select_requested(entries, requests, table) is Ok <==> (forall|i: int|
            0 <= i < requests.len() ==> select_one(entries, #[trigger] requests[i], table) is Ok),
        select_requested(entries, requests, table) matches Ok(fields) ==> fields.len()
            == requests.len() && forall|i: int|
            0 <= i < requests.len() ==> select_one(entries, #[trigger] requests[i], table) == Ok::<
                _,
                FieldErrorView,
            >(fields[i]),
    decreases requests.len(),
{
    if requests.len() > 0 {
        let front = requests.drop_last();
        law_requested_fields_in_order(entries, front, table);
        assert(forall|i: int| 0 <= i < front.len() ==> (#[trigger] front[i]) == requests[i]);
        assert(requests.last() == requests[requests.len() - 1]);
        if forall|i: int|
            0 <= i < requests.len() ==> select_one(entries, #[trigger] requests[i], table) is Ok {
            assert forall|i: int| 0 <= i < front.len() implies select_one(
                entries,
                #[trigger] front[i],
                table,
            ) is Ok by {
                assert(select_one(entries, requests[i], table) is Ok);
            }
        }
        if select_requested(entries, requests, table) is Ok {
            let fields = select_requested(entries, requests, table)->Ok_0;
            let before = select_requested(entries, front, table)->Ok_0;
            assert forall|i: int| 0 <= i < requests.len() implies select_one(
                entries,
                #[trigger] requests[i],
                table,
            ) == Ok::<_, FieldErrorView>(fields[i]) by {
                if i < front.len() {
                    assert(select_one(entries, front[i], table) == Ok::<_, FieldErrorView>(
                        before[i],
                    ));
                }
            }
        }
    }
}

/// Where no fields are asked for, every field comes out, in order and under its own name,
/// and selecting them succeeds exactly if the type of each is supported.
pub proof fn law_all_fields_come_out(entries: Seq<EntryView>)
    ensures
        select_all(entries) is Ok <==> (forall|i: int|
            0 <= i < entries.len() ==> kind_of_type((#[trigger] entries[i]).1.sf_type) is Some),
        select_all(entries) matches Ok(fields) ==> fields.len() == entries.len() && forall|i: int|
            0 <= i < entries.len() ==> fields[i].0 == (#[trigger] entries[i]).1.name && kind_of_type(
                entries[i].1.sf_type,
            ) == Some(fields[i].1),
    decreases entries.len(),
{
    if entries.len() > 0 {
        let front = entries.drop_last();
        law_all_fields_come_out(front);
        assert(forall|i: int| 0 <= i < front.len() ==> (#[trigger] front[i]) == entries[i]);
        assert(entries.last() == entries[entries.len() - 1]);
        if forall|i: int|
            0 <= i < entries.len() ==> kind_of_type((#[trigger] entries[i]).1.sf_type) is Some {
            assert forall|i: int| 0 <= i < front.len() implies kind_of_type(
                (#[trigger] front[i]).1.sf_type,
            ) is Some by {
                assert(kind_of_type(entries[i].1.sf_type) is Some);
            }
        }
        if select_all(entries) is Ok {
            let fields = select_all(entries)->Ok_0;
            let before = select_all(front)->Ok_0;
            assert forall|i: int| 0 <= i < entries.len() implies fields[i].0 == (
            #[trigger] entries[i]).1.name && kind_of_type(entries[i].1.sf_type) == Some(
                fields[i].1,
            ) by {
                if i < front.len() {
                    assert(front[i] == entries[i]);
                    assert(fields[i] == before[i]);
                }
            }
        }
    }
}

/// An export always has a field: where the fields are resolved there is at least one.
pub proof fn law_resolved_fields_are_not_empty(
    describe: Json,
    names: Option<Seq<Seq<char>>>,
    table: Seq<char>,
)
    ensures
        export_fields(describe, names, table) matches Ok(fields) ==> fields.len() > 0,
{
}

/// Every field that is resolved is one that the description lists, under its own name and
/// with the column type of its own Salesforce type.
pub proof fn law_resolved_fields_are_described(
    describe: Json,
    names: Option<Seq<Seq<char>>>,
    table: Seq<char>,
)
    ensures
        export_fields(describe, names, table) matches Ok(fields) ==> forall|i: int|
            0 <= i < fields.len() ==> exists|j: int|
                0 <= j < described_fields(describe).len() && is_field_as(
                    #[trigger] described_fields(describe)[j],
                    #[trigger] fields[i],
                ),
{
    let listed = described_fields(describe);
    let entries = field_entries(listed, name_keys(listed));
    lemma_entries_are_fields(listed, name_keys(listed));
    if export_fields(describe, names, table) is Ok {
        let fields = export_fields(describe, names, table)->Ok_0;
        assert forall|i: int| 0 <= i < fields.len() implies exists|j: int|
            0 <= j < listed.len() && is_field_as(#[trigger] listed[j], #[trigger] fields[i]) by {
            let at = match names {
                Some(names) => {
                    let requests = requests_for(names);
                    law_requested_fields_in_order(entries, requests, table);
                    assert(select_one(entries, requests[i], table) == Ok::<_, FieldErrorView>(
                        fields[i],
                    ));
                    lemma_key_position(entries, requests[i].key);
                    key_position(entries, requests[i].key)
                },
                None => {
                    law_all_fields_come_out(entries);
                    i
                },
            };
            assert(is_field_as(entries[at].1, fields[i]));
            let j = choose|j: int| 0 <= j < listed.len() && listed[j] == entries[at].1;
            assert(is_field_as(listed[j], fields[i]));
        }
    }
}

/// Whether an exported field is the given one.
pub open spec fn is_field_as(field: FieldView, exported: (Seq<char>, ColumnKind)) -> bool {
    exported.0 == field.name && kind_of_type(field.sf_type) == Some(exported.1)
}

proof fn lemma_entries_are_fields(fields: Seq<FieldView>, keys: Seq<Seq<char>>)
    ensures
        forall|i: int|
            0 <= i < field_entries(fields, keys).len() ==> exists|j: int|
                0 <= j < fields.len() && fields[j] == (#[trigger] field_entries(fields, keys)[i]).1,
    decreases fields.len(),
{
    if fields.len() > 0 {
        let front = fields.drop_last();
        let before = field_entries(front, keys);
        let after = field_entries(fields, keys);
        let key = keys[fields.len() - 1];
        lemma_entries_are_fields(front, keys);
        lemma_key_position(before, key);
        assert forall|i: int| 0 <= i < after.len() implies exists|j: int|
            0 <= j < fields.len() && fields[j] == (#[trigger] after[i]).1 by {
            if i == key_position(before, key) {
                assert(fields[fields.len() - 1] == after[i].1);
            } else {
                assert(after[i] == before[i]);
                let j = choose|j: int| 0 <= j < front.len() && front[j] == before[i].1;
                assert(fields[j] == after[i].1);
            }
        }
    }
}

/// How a field's name is written in a request makes no difference to what is selected, as
/// long as it is the same without white space round it and in lower case.
pub proof fn law_request_ignores_case_and_white_space(
    entries: Seq<EntryView>,
    a: Seq<char>,
    b: Seq<char>,
    table: Seq<char>,
)
    requires
        lowercase(trimmed(a)) == lowercase(trimmed(b)),
    ensures
        ({
            let first = select_one(entries, requests_for(seq![a])[0], table);
            let second = select_one(entries, requests_for(seq![b])[0], table);
            &&& first is Ok <==> second is Ok
            &&& first is Ok ==> first == second
        }),
{
}

/// An item of a description describes a field exactly if it has a text for a name and a text
/// for a type, whatever else it holds, and the field has just these.
pub proof fn law_name_and_type_make_a_field(item: Json)
    ensures
        match (item.member("name"@), item.member("type"@)) {
            (Some(Json::Text(name)), Some(Json::Text(sf_type))) => described_field(item) == Some(
                FieldView { name: name@, sf_type: sf_type@ },
            ),
            _ => described_field(item) is None,
        },
{
}

/// A description lists the fields of its items item by item, in order: none that an item
/// describes is left out, and an item that describes none changes nothing.
pub proof fn law_items_are_read_one_by_one(front: Seq<Json>, back: Seq<Json>, item: Json)
    ensures
        described_items(Seq::empty()) == Seq::<FieldView>::empty(),
        described_items(seq![item]) == (match (item.member("name"@), item.member("type"@)) {
            (Some(Json::Text(name)), Some(Json::Text(sf_type))) => seq![
                FieldView { name: name@, sf_type: sf_type@ },
            ],
            _ => Seq::empty(),
        }),
        described_items(front + back) == described_items(front) + described_items(back),
    decreases back.len(),
{
    law_name_and_type_make_a_field(item);
    assert(described_items(Seq::empty()) =~= Seq::<FieldView>::empty());
    assert(seq![item].drop_last() =~= Seq::<Json>::empty());
    assert(described_items(seq![item]) =~= (match described_field(item) {
        Some(field) => seq![field],
        None => Seq::empty(),
    }));
    if back.len() == 0 {
        assert(front + back =~= front);
        assert(described_items(front) + described_items(back) =~= described_items(front));
    } else {
        assert((front + back).drop_last() =~= front + back.drop_last());
        assert((front + back).last() == back.last());
        law_items_are_read_one_by_one(front, back.drop_last(), item);
        if let Some(field) = described_field(back.last()) {
            assert(described_items(front) + described_items(back.drop_last()).push(field) =~= (
            described_items(front) + described_items(back.drop_last())).push(field));
        }
    }
}

/// The fields of a description are those of the items in its list of fields; without such a
/// list it has none.
pub proof fn law_description_lists_its_fields(describe: Json)
    ensures
        describe.member("fields"@) matches Some(Json::Array(items)) ==> described_fields(describe)
            == described_items(items@),
        !(describe.member("fields"@) matches Some(Json::Array(_))) ==> described_fields(
            describe,
        ).len() == 0,
{
}

/// Where no fields are asked for and no two names are the same in lower case, every field of
/// the description is exported, one for one and in order, as its own type says. A type that
/// is not supported is an error, which names the first field that has one.
pub proof fn law_all_described_fields_are_exported(describe: Json, table: Seq<char>)
    requires
        described_fields(describe).len() > 0,
        forall|i: int, j: int|
            0 <= i < j < described_fields(describe).len() ==> lowercase(
                (#[trigger] described_fields(describe)[i]).name,
            ) != lowercase((#[trigger] described_fields(describe)[j]).name),
    ensures
        (forall|i: int|
            0 <= i < described_fields(describe).len() ==> kind_of_type(
                (#[trigger] described_fields(describe)[i]).sf_type,
            ) is Some) ==> (export_fields(describe, None, table) matches Ok(fields) && fields.len()
            == described_fields(describe).len() && forall|i: int|
            0 <= i < fields.len() ==> (#[trigger] fields[i]).0 == described_fields(describe)[i].name
                && kind_of_type(described_fields(describe)[i].sf_type) == Some(fields[i].1)),
        forall|at: int|
            0 <= at < described_fields(describe).len() && kind_of_type(
                (#[trigger] described_fields(describe)[at]).sf_type,
            ) is None && (forall|j: int|
                0 <= j < at ==> kind_of_type((#[trigger] described_fields(describe)[j]).sf_type)
                    is Some) ==> export_fields(describe, None, table) == Err::<
                Seq<(Seq<char>, ColumnKind)>,
                _,
            >(
                FieldErrorView::UnsupportedField {
                    name: described_fields(describe)[at].name,
                    sf_type: described_fields(describe)[at].sf_type,
                },
            ),
{
    let listed = described_fields(describe);
    let keys = name_keys(listed);
    let entries = field_entries(listed, keys);
    lemma_distinct_entries(listed, keys);
    law_all_fields_come_out(entries);
    if forall|i: int|
        0 <= i < listed.len() ==> kind_of_type((#[trigger] listed[i]).sf_type) is Some {
        assert forall|i: int| 0 <= i < entries.len() implies kind_of_type(
            (#[trigger] entries[i]).1.sf_type,
        ) is Some by {
            assert(kind_of_type(listed[i].sf_type) is Some);
        }
        let fields = select_all(entries)->Ok_0;
        assert forall|i: int| 0 <= i < fields.len() implies (#[trigger] fields[i]).0
            == listed[i].name && kind_of_type(listed[i].sf_type) == Some(fields[i].1) by {
            assert(entries[i].1 == listed[i]);
        }
    }
    assert forall|at: int|
        0 <= at < listed.len() && kind_of_type((#[trigger] listed[at]).sf_type) is None && (forall|
            j: int,
        |
            0 <= j < at ==> kind_of_type((#[trigger] listed[j]).sf_type) is Some) implies
        export_fields(describe, None, table) == Err::<Seq<(Seq<char>, ColumnKind)>, _>(
        FieldErrorView::UnsupportedField { name: listed[at].name, sf_type: listed[at].sf_type },
    ) by {
        let front = entries.take(at);
        law_all_fields_come_out(front);
        assert forall|j: int| 0 <= j < front.len() implies kind_of_type(
            (#[trigger] front[j]).1.sf_type,
        ) is Some by {
            assert(front[j].1 == listed[j]);
        }
        assert(entries.take(at + 1).drop_last() =~= front);
        assert(entries.take(at + 1).last().1 == listed[at]);
        lemma_all_error(entries, at + 1);
    }
}

/// Where no fields are asked for and all types are supported, the export succeeds, no two of
/// its fields have the same name in lower case, and of the fields that do in the description
/// the last is exported.
pub proof fn law_last_field_of_a_name_is_exported(describe: Json, table: Seq<char>, at: int)
    requires
        0 <= at < described_fields(describe).len(),
        forall|j: int|
            at < j < described_fields(describe).len() ==> lowercase(
                (#[trigger] described_fields(describe)[j]).name,
            ) != lowercase(described_fields(describe)[at].name),
    ensures
        (forall|i: int|
            0 <= i < described_fields(describe).len() ==> kind_of_type(
                (#[trigger] described_fields(describe)[i]).sf_type,
            ) is Some) ==> export_fields(describe, None, table) is Ok,
        kind_of_type(described_fields(describe)[at].sf_type) is None ==> export_fields(
            describe,
            None,
            table,
        ) is Err,
        export_fields(describe, None, table) matches Ok(fields) ==> {
            &&& exists|i: int|
                0 <= i < fields.len() && is_field_as(
                    described_fields(describe)[at],
                    #[trigger] fields[i],
                )
            &&& forall|i: int, j: int|
                0 <= i < j < fields.len() ==> lowercase((#[trigger] fields[i]).0) != lowercase(
                    (#[trigger] fields[j]).0,
                )
        },
{
    let listed = described_fields(describe);
    let keys = name_keys(listed);
    let entries = field_entries(listed, keys);
    let key = lowercase(listed[at].name);
    assert(keys[at] == key);
    assert forall|j: int| at < j < listed.len() implies (#[trigger] keys[j]) != key by {
        assert(keys[j] == lowercase(listed[j].name));
    }
    law_field_entries_find(listed, keys, key, at);
    let place = key_position(entries, key);
    lemma_key_position(entries, key);
    assert(entries[place].1 == listed[at]);
    lemma_entries_are_fields(listed, keys);
    lemma_entries_under_their_names(listed, keys);
    law_all_fields_come_out(entries);
    if forall|i: int|
        0 <= i < listed.len() ==> kind_of_type((#[trigger] listed[i]).sf_type) is Some {
        assert forall|i: int| 0 <= i < entries.len() implies kind_of_type(
            (#[trigger] entries[i]).1.sf_type,
        ) is Some by {
            let j = choose|j: int| 0 <= j < listed.len() && listed[j] == entries[i].1;
            assert(kind_of_type(listed[j].sf_type) is Some);
        }
    }
    if export_fields(describe, None, table) is Ok {
        let fields = export_fields(describe, None, table)->Ok_0;
        assert(is_field_as(listed[at], fields[place]));
        assert forall|i: int, j: int| 0 <= i < j < fields.len() implies lowercase(
            (#[trigger] fields[i]).0,
        ) != lowercase((#[trigger] fields[j]).0) by {
            assert(entries[i].0 != entries[j].0);
        }
    }
}

proof fn lemma_entries_under_their_names(fields: Seq<FieldView>, keys: Seq<Seq<char>>)
    requires
        fields.len() <= keys.len(),
        forall|i: int| 0 <= i < fields.len() ==> #[trigger] keys[i] == lowercase(fields[i].name),
    ensures
        forall|i: int|
            0 <= i < field_entries(fields, keys).len() ==> (#[trigger] field_entries(
                fields,
                keys,
            )[i]).0 == lowercase(field_entries(fields, keys)[i].1.name),
    decreases fields.len(),
{
    if fields.len() > 0 {
        let n = fields.len() - 1;
        let before = field_entries(fields.drop_last(), keys);
        lemma_entries_under_their_names(fields.drop_last(), keys);
        lemma_key_position(before, keys[n]);
        assert forall|i: int| 0 <= i < field_entries(fields, keys).len() implies (
        #[trigger] field_entries(fields, keys)[i]).0 == lowercase(
            field_entries(fields, keys)[i].1.name,
        ) by {
            if i != key_position(before, keys[n]) {
                assert(field_entries(fields, keys)[i] == before[i]);
            }
        }
    }
}

/// A description whose items all have a name and a type, with no two names the same in lower
/// case and every type supported, is exported item by item, whatever else the items hold.
pub proof fn law_every_described_item_is_exported(
    describe: Json,
    items: Vec<Json>,
    names: Seq<Seq<char>>,
    types: Seq<Seq<char>>,
    table: Seq<char>,
)
    requires
        describe.member("fields"@) == Some(Json::Array(items)),
        items.len() > 0,
        names.len() == items.len(),
        types.len() == items.len(),
        forall|i: int|
            0 <= i < items.len() ==> ((#[trigger] items@[i]).member("name"@) matches Some(
                Json::Text(name),
            ) && name@ == names[i]),
        forall|i: int|
            0 <= i < items.len() ==> ((#[trigger] items@[i]).member("type"@) matches Some(
                Json::Text(sf_type),
            ) && sf_type@ == types[i]),
        forall|i: int, j: int|
            0 <= i < j < names.len() ==> lowercase(#[trigger] names[i]) != lowercase(
                #[trigger] names[j],
            ),
        forall|i: int| 0 <= i < types.len() ==> kind_of_type(#[trigger] types[i]) is Some,
    ensures
        export_fields(describe, None, table) matches Ok(fields) && fields.len() == items.len()
            && forall|i: int|
            0 <= i < fields.len() ==> (#[trigger] fields[i]).0 == names[i] && kind_of_type(types[i])
                == Some(fields[i].1),
{
    lemma_items_described(items@, names, types);
    law_all_described_fields_are_exported(describe, table);
}

/// A request for a field that the description lists gives that field as its own type says,
/// or the error that its type is not supported: whatever the case of the name, and with or
/// without white space round it. Of several fields with one name the last counts.
pub proof fn law_request_gives_the_described_field(
    describe: Json,
    at: int,
    given: Seq<char>,
    table: Seq<char>,
)
    requires
        0 <= at < described_fields(describe).len(),
        lowercase(trimmed(given)) == lowercase(described_fields(describe)[at].name),
        forall|j: int|
            at < j < described_fields(describe).len() ==> lowercase(
                (#[trigger] described_fields(describe)[j]).name,
            ) != lowercase(trimmed(given)),
    ensures
        match kind_of_type(described_fields(describe)[at].sf_type) {
            Some(kind) => export_fields(describe, Some(seq![given]), table) == Ok::<
                _,
                FieldErrorView,
            >(seq![(described_fields(describe)[at].name, kind)]),
            None => export_fields(describe, Some(seq![given]), table) == Err::<
                Seq<(Seq<char>, ColumnKind)>,
                _,
            >(
                FieldErrorView::UnsupportedRequest {
                    name: described_fields(describe)[at].name,
                    sf_type: described_fields(describe)[at].sf_type,
                },
            ),
        },
{
    let listed = described_fields(describe);
    let keys = name_keys(listed);
    let key = lowercase(trimmed(given));
    assert(keys[at] == key);
    assert forall|j: int| at < j < listed.len() implies (#[trigger] keys[j]) != key by {
        assert(keys[j] == lowercase(listed[j].name));
    }
    law_field_entries_find(listed, keys, key, at);
    lemma_single_request(field_entries(listed, keys), given, table);
}

/// A request for a field that the description does not list is an error, which names the
/// field as it was asked for.
pub proof fn law_request_for_a_missing_field_fails(
    describe: Json,
    given: Seq<char>,
    table: Seq<char>,
)
    requires
        described_fields(describe).len() > 0,
        forall|j: int|
            0 <= j < described_fields(describe).len() ==> lowercase(
                (#[trigger] described_fields(describe)[j]).name,
            ) != lowercase(trimmed(given)),
    ensures
        export_fields(describe, Some(seq![given]), table) == Err::<
            Seq<(Seq<char>, ColumnKind)>,
            _,
        >(FieldErrorView::NotFound { field: given, table }),
{
    let listed = described_fields(describe);
    let keys = name_keys(listed);
    let key = lowercase(trimmed(given));
    assert forall|j: int| 0 <= j < listed.len() implies (#[trigger] keys[j]) != key by {
        assert(keys[j] == lowercase(listed[j].name));
    }
    law_field_entries_find(listed, keys, key, 0);
    lemma_entries_not_empty(listed, keys);
    lemma_single_request(field_entries(listed, keys), given, table);
}

/// Requests are met one after the other: what two lists of them give together is what the
/// one gives and then what the other gives, and the first that cannot be met decides.
pub proof fn law_requests_are_met_one_by_one(
    describe: Json,
    front: Seq<Seq<char>>,
    back: Seq<Seq<char>>,
    table: Seq<char>,
)
    requires
        front.len() > 0,
        back.len() > 0,
    ensures
        ({
            let first = export_fields(describe, Some(front), table);
            let second = export_fields(describe, Some(back), table);
            let both = export_fields(describe, Some(front + back), table);
            match (first, second) {
                (Err(error), _) => both == Err::<Seq<(Seq<char>, ColumnKind)>, _>(error),
                (Ok(_), Err(error)) => both == Err::<Seq<(Seq<char>, ColumnKind)>, _>(error),
                (Ok(a), Ok(b)) => both == Ok::<_, FieldErrorView>(a + b),
            }
        }),
{
    let listed = described_fields(describe);
    let entries = field_entries(listed, name_keys(listed));
    assert(requests_for(front + back) =~= requests_for(front) + requests_for(back));
    lemma_requests_split(entries, requests_for(front), requests_for(back), table);
    law_requested_fields_in_order(entries, requests_for(front), table);
    law_requested_fields_in_order(entries, requests_for(back), table);
    law_requested_fields_in_order(entries, requests_for(front + back), table);
}

/// An object without fields cannot be exported, whatever is asked for, and one with fields
/// cannot be exported for a request that names none.
pub proof fn law_nothing_gives_no_export(
    describe: Json,
    names: Option<Seq<Seq<char>>>,
    table: Seq<char>,
)
    ensures
        described_fields(describe).len() == 0 ==> export_fields(describe, names, table) == Err::<
            Seq<(Seq<char>, ColumnKind)>,
            _,
        >(FieldErrorView::NoFields { table }),
        described_fields(describe).len() > 0 ==> export_fields(describe, Some(Seq::empty()), table)
            == Err::<Seq<(Seq<char>, ColumnKind)>, _>(FieldErrorView::NothingToExport { table }),
{
    let listed = described_fields(describe);
    lemma_entries_not_empty(listed, name_keys(listed));
    assert(requests_for(Seq::empty()).len() == 0);
}

/// The errors in words name the field, its type and the object that they are about.
pub proof fn law_errors_name_what_they_are_about(error: FieldErrorView)
    ensures
        error matches FieldErrorView::NoFields { table } ==> error.message()
            == "No fields found for table "@ + table,
        error matches FieldErrorView::NotFound { field, table } ==> error.message() == "Field '"@
            + field + "' not found on object '"@ + table + "'"@,
        error matches FieldErrorView::UnsupportedRequest { name, sf_type } ==> error.message()
            == "Field '"@ + name + "' has unsupported Salesforce type '"@ + sf_type + "'"@,
        error matches FieldErrorView::UnsupportedField { name, sf_type } ==> error.message()
            == "Field '"@ + name + "' has unsupported Salesforce type '"@ + sf_type
            + "'. Use --fields to select only supported fields."@,
        error matches FieldErrorView::NothingToExport { table } ==> error.message()
            == "No fields to export for table "@ + table,
{
}

proof fn lemma_items_described(items: Seq<Json>, names: Seq<Seq<char>>, types: Seq<Seq<char>>)
    requires
        names.len() == items.len(),
        types.len() == items.len(),
        forall|i: int|
            0 <= i < items.len() ==> ((#[trigger] items[i]).member("name"@) matches Some(
                Json::Text(name),
            ) && name@ == names[i]),
        forall|i: int|
            0 <= i < items.len() ==> ((#[trigger] items[i]).member("type"@) matches Some(
                Json::Text(sf_type),
            ) && sf_type@ == types[i]),
    ensures
        described_items(items).len() == items.len(),
        forall|i: int|
            0 <= i < items.len() ==> #[trigger] described_items(items)[i] == (FieldView {
                name: names[i],
                sf_type: types[i],
            }),
    decreases items.len(),
{
    if items.len() > 0 {
        let front = items.drop_last();
        assert(forall|i: int| 0 <= i < front.len() ==> (#[trigger] front[i]) == items[i]);
        lemma_items_described(front, names.drop_last(), types.drop_last());
        assert(items.last() == items[items.len() - 1]);
        law_name_and_type_make_a_field(items.last());
    }
}

/// Under keys that all differ, the fields stand as they came.
proof fn lemma_distinct_entries(fields: Seq<FieldView>, keys: Seq<Seq<char>>)
    requires
        fields.len() <= keys.len(),
        forall|i: int, j: int|
            0 <= i < j < fields.len() ==> (#[trigger] keys[i]) != (#[trigger] keys[j]),
    ensures
        field_entries(fields, keys).len() == fields.len(),
        forall|i: int|
            0 <= i < fields.len() ==> #[trigger] field_entries(fields, keys)[i] == (
                keys[i],
                fields[i],
            ),
    decreases fields.len(),
{
    if fields.len() > 0 {
        let n = fields.len() - 1;
        let before = field_entries(fields.drop_last(), keys);
        lemma_distinct_entries(fields.drop_last(), keys);
        assert forall|i: int| 0 <= i < before.len() implies (#[trigger] before[i]).0
            != keys[n] by {
            assert(before[i].0 == keys[i]);
        }
        lemma_no_position(before, keys[n]);
    }
}

proof fn lemma_entries_not_empty(fields: Seq<FieldView>, keys: Seq<Seq<char>>)
    ensures
        field_entries(fields, keys).len() == 0 <==> fields.len() == 0,
{
    if fields.len() > 0 {
        lemma_key_position(
            field_entries(fields.drop_last(), keys),
            keys[fields.len() - 1],
        );
    }
}

/// The outcome of a request alone is that of its field.
proof fn lemma_single_request(entries: Seq<EntryView>, given: Seq<char>, table: Seq<char>)
    ensures
        requests_for(seq![given]).len() == 1,
        select_requested(entries, requests_for(seq![given]), table) == (match select_one(
            entries,
            RequestView { given, key: lowercase(trimmed(given)) },
            table,
        ) {
            Ok(field) => Ok::<_, FieldErrorView>(seq![field]),
            Err(error) => Err(error),
        }),
{
    let requests = requests_for(seq![given]);
    let none = requests.drop_last();
    assert(none.len() == 0);
    assert(select_requested(entries, none, table) == Ok::<_, FieldErrorView>(
        Seq::<(Seq<char>, ColumnKind)>::empty(),
    ));
    assert(requests.last() == RequestView { given, key: lowercase(trimmed(given)) });
    if let Ok(field) = select_one(entries, requests.last(), table) {
        assert(Seq::<(Seq<char>, ColumnKind)>::empty().push(field) =~= seq![field]);
    }
}

proof fn lemma_requests_split(
    entries: Seq<EntryView>,
    front: Seq<RequestView>,
    back: Seq<RequestView>,
    table: Seq<char>,
)
    ensures
        select_requested(entries, front + back, table) == (match (
            select_requested(entries, front, table),
            select_requested(entries, back, table),
        ) {
            (Err(error), _) => Err(error),
            (Ok(_), Err(error)) => Err(error),
            (Ok(a), Ok(b)) => Ok::<_, FieldErrorView>(a + b),
        }),
    decreases back.len(),
{
    if back.len() == 0 {
        assert(front + back =~= front);
        if let Ok(a) = select_requested(entries, front, table) {
            assert(a + Seq::empty() =~= a);
        }
    } else {
        assert((front + back).drop_last() =~= front + back.drop_last());
        assert((front + back).last() == back.last());
        lemma_requests_split(entries, front, back.drop_last(), table);
        if let (Ok(a), Ok(b)) = (
            select_requested(entries, front, table),
            select_requested(entries, back.drop_last(), table),
        ) {
            if let Ok(field) = select_one(entries, back.last(), table) {
                assert((a + b).push(field) =~= a + b.push(field));
            }
        }
    }
}

} // verus!
