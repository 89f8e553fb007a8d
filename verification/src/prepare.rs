//! Preparing records for storage: a record with a string identifier becomes
//! a document, a record without one is dropped.

use vstd::prelude::*;

use crate::record::{text_under, JsonValue, Record};

verus! {

/// A record wrapped for storage.
#[derive(Debug, PartialEq, Eq)]
pub struct PreparedDocument {
    /// The identifier taken from the record: the document's unique key.
    pub id: String,
    /// The record as it was submitted, identifier field included.
    pub data: Record,
    /// When the batch was accepted, in milliseconds since the Unix epoch.
    pub created_at: i64,
}

/// The mathematical content of a [`PreparedDocument`].
pub struct DocumentView {
    pub id: Seq<char>,
    pub data: Map<Seq<char>, JsonValue>,
    pub created_at: i64,
}

impl View for PreparedDocument {
    type V = DocumentView;

    open spec fn view(&self) -> DocumentView {
        DocumentView { id: self.id@, data: self.data@, created_at: self.created_at }
    }
}

/// The records of a batch, each by its view.
pub open spec fn record_views(records: Seq<Record>) -> Seq<Map<Seq<char>, JsonValue>> {
    records.map_values(|record: Record| record@)
}

/// The documents of a batch, each by its view.
pub open spec fn document_views(documents: Seq<PreparedDocument>) -> Seq<DocumentView> {
    documents.map_values(|document: PreparedDocument| document@)
}

/// The document that a record becomes, if the record is eligible: it holds a
/// string under `id_field`.
pub open spec fn prepared(
    record: Map<Seq<char>, JsonValue>,
    id_field: Seq<char>,
    created_at: i64,
) -> Option<DocumentView> {
    match text_under(record, id_field) {
        Some(id) => Some(DocumentView { id, data: record, created_at }),
        None => None,
    }
}

/// The documents that a batch of records becomes: one for each eligible
/// record, in the order of the records, all with the same timestamp.
pub open spec fn prepared_documents(
    records: Seq<Map<Seq<char>, JsonValue>>,
    id_field: Seq<char>,
    created_at: i64,
) -> Seq<DocumentView> {
    records.filter_map(
        |record: Map<Seq<char>, JsonValue>| prepared(record, id_field, created_at),
    )
}

/// Wraps a record for storage, or gives it back where it holds no string
/// under `id_field`.
pub fn prepare_record(record: Record, id_field: &str, created_at: i64) -> (document: Result<
    PreparedDocument,
    Record,
>)
    ensures
        match document {
            Ok(document) => prepared(record@, id_field@, created_at) == Some(document@),
            Err(dropped) => prepared(record@, id_field@, created_at) is None && dropped == record,
        },
{
    match record.text_of(id_field) {
        Some(id) => Ok(PreparedDocument { id, data: record, created_at }),
        None => Err(record),
    }
}

/// Wraps each eligible record of a batch for storage and drops the others.
pub fn prepare_records(records: Vec<Record>, id_field: &str, created_at: i64) -> (documents: Vec<
    PreparedDocument,
>)
    ensures
        document_views(documents@) == prepared_documents(
            record_views(records@),
            id_field@,
            created_at,
        ),
{
    let ghost all = record_views(records@);
    let ghost wrap = |record: Map<Seq<char>, JsonValue>| prepared(record, id_field@, created_at);
    let mut documents: Vec<PreparedDocument> = Vec::new();
    assert(all.take(0).filter_map(wrap) =~= Seq::<DocumentView>::empty());
    for record in it: records
        invariant
            it.seq() == records@,
            all == record_views(records@),
            wrap == |record: Map<Seq<char>, JsonValue>| prepared(record, id_field@, created_at),
            document_views(documents@) == all.take(it.index()).filter_map(wrap),
    {
        proof {
            all.lemma_filter_map_take_succ(wrap, it.index());
        }
        match prepare_record(record, id_field, created_at) {
            Ok(document) => {
                documents.push(document);
            },
            Err(_) => {},
        }
        assert(document_views(documents@) =~= all.take(it.index() + 1).filter_map(wrap));
    }
    assert(all.take(all.len() as int) =~= all);
    documents
}

} // verus!
