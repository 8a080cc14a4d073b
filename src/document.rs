use vstd::prelude::*;

use crate::record::{Record, RecordModel};

verus! {

/// The persisted aggregate: three independently replaceable collections.
/// `stock_out` is kept most-recent-first.
#[derive(Clone, Debug, PartialEq, Eq)]
pub struct Document {
    pub stock_in: Vec<Record>,
    pub stock_out: Vec<Record>,
    pub system_list: Vec<Record>,
}

pub struct DocumentModel {
    pub stock_in: Seq<RecordModel>,
    pub stock_out: Seq<RecordModel>,
    pub system_list: Seq<RecordModel>,
}

pub open spec fn records_view(v: Seq<Record>) -> Seq<RecordModel> {
    v.map_values(|r: Record| r@)
}

impl View for Document {
    type V = DocumentModel;

    open spec fn view(&self) -> DocumentModel {
        DocumentModel {
            stock_in: records_view(self.stock_in@),
            stock_out: records_view(self.stock_out@),
            system_list: records_view(self.system_list@),
        }
    }
}

/// The three collections of a document, by their persisted names.
#[derive(PartialEq, Eq, Structural, Clone, Copy, Debug)]
pub enum Collection {
    StockIn,
    StockOut,
    SystemList,
}

pub open spec fn collection_named(name: Seq<char>) -> Option<Collection> {
    if name == "stockIn"@ {
        Some(Collection::StockIn)
    } else if name == "stockOut"@ {
        Some(Collection::StockOut)
    } else if name == "systemList"@ {
        Some(Collection::SystemList)
    } else {
        None
    }
}

/// The document after `c` is replaced wholesale by `items`.
pub open spec fn with_collection(
    d: DocumentModel,
    c: Collection,
    items: Seq<RecordModel>,
) -> DocumentModel {
    match c {
        Collection::StockIn => DocumentModel { stock_in: items, ..d },
        Collection::StockOut => DocumentModel { stock_out: items, ..d },
        Collection::SystemList => DocumentModel { system_list: items, ..d },
    }
}

#[derive(PartialEq, Eq, Structural, Clone, Copy, Debug)]
pub enum ImportError {
    UnknownCollection,
}

impl Collection {
    /// The collection with the persisted name `name`, if there is one.
    pub fn from_name(name: &str) -> (r: Option<Collection>)
        ensures
            r == collection_named(name@),
    {
        let n = name.to_string();
        if n == "stockIn".to_string() {
            Some(Collection::StockIn)
        } else if n == "stockOut".to_string() {
            Some(Collection::StockOut)
        } else if n == "systemList".to_string() {
            Some(Collection::SystemList)
        } else {
            None
        }
    }
}

impl Document {
    /// The default document: three empty collections.
    pub fn new() -> (d: Document)
        ensures
            d@.stock_in.len() == 0,
            d@.stock_out.len() == 0,
            d@.system_list.len() == 0,
    {
        Document { stock_in: Vec::new(), stock_out: Vec::new(), system_list: Vec::new() }
    }

    /// Replaces exactly one collection with `items`, leaving the others as
    /// they are; returns how many items it now holds.
    pub fn replace_collection(&mut self, c: Collection, items: Vec<Record>) -> (n: usize)
        ensures
            final(self)@ == with_collection(old(self)@, c, records_view(items@)),
            n == items@.len(),
    {
        let n = items.len();
        match c {
            Collection::StockIn => {
                self.stock_in = items;
            },
            Collection::StockOut => {
                self.stock_out = items;
            },
            Collection::SystemList => {
                self.system_list = items;
            },
        }
        n
    }

    /// Bulk import: replaces the collection called `name`, and rejects an
    /// unknown name without touching the document.
    pub fn import_data(&mut self, name: &str, items: Vec<Record>) -> (r: Result<usize, ImportError>)
        ensures
            match collection_named(name@) {
                Some(c) => r == Ok::<usize, ImportError>(items@.len() as usize)
                    && final(self)@ == with_collection(old(self)@, c, records_view(items@)),
                None => r == Err::<usize, ImportError>(ImportError::UnknownCollection)
                    && final(self)@ == old(self)@,
            },
    {
        match Collection::from_name(name) {
            Some(c) => Ok(self.replace_collection(c, items)),
            None => Err(ImportError::UnknownCollection),
        }
    }
}

} // verus!
