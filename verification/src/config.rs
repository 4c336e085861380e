//! What a batch export is asked to do.
use crate::text::copy_texts;
use vstd::prelude::*;
use vstd::string::*;

verus! {

/// A batch export: defaults and the objects to export, in order.
#[derive(Debug)]
pub struct ExportSpec {
    /// Where files go, for an item that does not say.
    pub output_dir: Option<String>,
    /// The most rows to fetch, for an item that does not say.
    pub limit: Option<usize>,
    pub export: Vec<ExportItem>,
}

/// One object of a batch export.
#[derive(Debug)]
pub struct ExportItem {
    /// API name of the object.
    pub object: String,
    /// The fields to export; all of them if absent.
    pub fields: Option<Vec<String>>,
    /// The most rows to fetch.
    pub limit: Option<usize>,
    /// A file or a directory to write to.
    pub output: Option<String>,
}

impl ExportSpec {
    /// The most rows to fetch for an item: what it says itself, or else the default.
    pub open spec fn item_limit(self, item: ExportItem) -> Option<usize> {
        match item.limit {
            Some(n) => Some(n),
            None => self.limit,
        }
    }

    /// Where an item is written: what it says itself, or else the default.
    pub open spec fn item_output(self, item: ExportItem) -> Option<Seq<char>> {
        match item.output {
            Some(path) => Some(path@),
            None => self.output_dir.deep_view(),
        }
    }

    /// The most rows to fetch for an item.
    pub fn effective_limit(&self, item: &ExportItem) -> (limit: Option<usize>)
        ensures
            limit == self.item_limit(*item),
    {
        match item.limit {
            Some(n) => Some(n),
            None => self.limit,
        }
    }

    /// Where an item is written.
    pub fn effective_output(&self, item: &ExportItem) -> (output: Option<String>)
        ensures
            output.deep_view() == self.item_output(*item),
    {
        match &item.output {
            Some(path) => Some(path.clone()),
            None => match &self.output_dir {
                Some(path) => Some(path.clone()),
                None => None,
            },
        }
    }
}

impl ExportItem {
    /// The fields to export of an item.
    pub fn effective_fields(&self) -> (fields: Option<Vec<String>>)
        ensures
            fields.deep_view() == self.fields.deep_view(),
    {
        match &self.fields {
            Some(fields) => Some(copy_texts(fields)),
            None => None,
        }
    }
}

/// What an item says for itself goes before the defaults of the batch, whatever they are,
/// and the defaults count where it says nothing.
pub proof fn law_item_goes_before_defaults(spec: ExportSpec, item: ExportItem)
    ensures
        item.limit is Some ==> spec.item_limit(item) == item.limit,
        item.limit is None ==> spec.item_limit(item) == spec.limit,
        item.output matches Some(path) ==> spec.item_output(item) == Some(path@),
        item.output is None && spec.output_dir is None ==> spec.item_output(item) is None,
        item.output is None ==> (spec.output_dir matches Some(path) ==> spec.item_output(item)
            == Some(path@)),
{
}

} // verus!
