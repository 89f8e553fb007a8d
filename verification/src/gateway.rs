//! The write pipeline: authorization and preparation before the bulk insert,
//! reconciliation and the response after it.
//!
//! The gateway itself never talks to the store. `start_write` says whether a
//! batch is to be submitted at all, the caller submits it as one unordered
//! bulk insert, and `finish_write` turns the store's reply into the response.

use vstd::prelude::*;

use crate::auth::{authorization, authorize, ConfigView, GatewayConfig};
use crate::clock::current_millis;
use crate::prepare::{
    document_views, prepare_records, prepared_documents, record_views, DocumentView,
    PreparedDocument,
};
use crate::reconcile::{
    ascending, index_set, is_benign, outcome_of, position_set, reconcile, reply_view, FailureView,
    OutcomeView, WriteFailure, WriteOutcome,
};
use crate::record::{JsonValue, Record};
use crate::response::{
    auth_failure_response, success_response, write_failed_response, Response, ResponseView,
};

verus! {

broadcast use vstd::std_specs::hash::group_hash_axioms;

/// A request to write a batch of records.
#[derive(Debug, PartialEq, Eq)]
pub struct WriteRequest {
    /// The collection the records are meant for.
    pub target_collection: String,
    /// The token the caller presents.
    pub token: String,
    /// The field that holds each record's identifier.
    pub id_field: String,
    /// The records, in the caller's order. May be empty.
    pub records: Vec<Record>,
}

/// The mathematical content of a [`WriteRequest`].
pub struct RequestView {
    pub target_collection: Seq<char>,
    pub token: Seq<char>,
    pub id_field: Seq<char>,
    pub records: Seq<Map<Seq<char>, JsonValue>>,
}

impl View for WriteRequest {
    type V = RequestView;

    open spec fn view(&self) -> RequestView {
        RequestView {
            target_collection: self.target_collection@,
            token: self.token@,
            id_field: self.id_field@,
            records: record_views(self.records@),
        }
    }
}

/// The documents to submit, as one unordered bulk insert, to one collection.
#[derive(Debug, PartialEq, Eq)]
pub struct WriteBatch {
    pub collection: String,
    pub documents: Vec<PreparedDocument>,
    /// Whether the store is to stop at the first document that fails. The
    /// gateway always asks for an unordered insert: the store must try every
    /// document, or a conflict would hide what became of the documents behind it.
    pub ordered: bool,
}

/// The mathematical content of a [`WriteBatch`].
pub struct BatchView {
    pub collection: Seq<char>,
    pub documents: Seq<DocumentView>,
    pub ordered: bool,
}

impl View for WriteBatch {
    type V = BatchView;

    open spec fn view(&self) -> BatchView {
        BatchView {
            collection: self.collection@,
            documents: document_views(self.documents@),
            ordered: self.ordered,
        }
    }
}

/// What is to be done with a request once it has been looked at.
#[derive(Debug, PartialEq, Eq)]
pub enum Step {
    /// Answer at once; the store is not to be touched.
    Respond(Response),
    /// Submit the batch, then call `finish_write` with the store's reply.
    Submit(WriteBatch),
}

/// The mathematical content of a [`Step`].
pub enum StepView {
    Respond(ResponseView),
    Submit(BatchView),
}

impl View for Step {
    type V = StepView;

    open spec fn view(&self) -> StepView {
        match self {
            Step::Respond(response) => StepView::Respond(response@),
            Step::Submit(batch) => StepView::Submit(batch@),
        }
    }
}

/// The response to a submitted batch, with the cause where it was rejected.
#[derive(Debug, PartialEq, Eq)]
pub struct Completion {
    pub response: Response,
    /// The failure behind a rejection, for the diagnostic log. The response
    /// itself does not disclose it.
    pub cause: Option<WriteFailure>,
}

/// The first step on a request accepted at time `created_at`: a wrong token or
/// a foreign collection is answered at once, anything else is prepared and
/// submitted.
pub open spec fn first_step(config: ConfigView, request: RequestView, created_at: i64) -> StepView {
    match authorization(config, request.token, request.target_collection) {
        Err(error) => StepView::Respond(auth_failure_response(error)),
        Ok(_) => StepView::Submit(
            BatchView {
                collection: request.target_collection,
                documents: prepared_documents(request.records, request.id_field, created_at),
                ordered: false,
            },
        ),
    }
}

/// The records of the documents at the given positions, in that order.
pub open spec fn records_at(documents: Seq<DocumentView>, at: Seq<int>) -> Seq<
    Map<Seq<char>, JsonValue>,
> {
    at.map_values(|position: int| documents[position].data)
}

/// The response to a batch of documents with the given outcome: the written
/// records by ascending position, or the rejection.
pub open spec fn response_for(documents: Seq<DocumentView>, outcome: OutcomeView) -> ResponseView {
    match outcome {
        OutcomeView::AllInserted => success_response(
            documents.map_values(|document: DocumentView| document.data),
        ),
        OutcomeView::PartiallyInserted(inserted) => success_response(
            records_at(documents, ascending(documents.len(), inserted.to_set())),
        ),
        OutcomeView::Rejected(_) => write_failed_response(),
    }
}

/// The response to a submitted batch to which the store gave `reply`.
pub open spec fn final_response(batch: BatchView, reply: Result<(), FailureView>) -> ResponseView {
    response_for(batch.documents, outcome_of(batch.documents.len(), reply))
}

/// The response to a request accepted at time `created_at`, where the store,
/// if it is asked, gives `reply`.
pub open spec fn response_to(
    config: ConfigView,
    request: RequestView,
    created_at: i64,
    reply: Result<(), FailureView>,
) -> ResponseView {
    match first_step(config, request, created_at) {
        StepView::Respond(response) => response,
        StepView::Submit(batch) => final_response(batch, reply),
    }
}

/// Looks at a request that was accepted at time `created_at`.
pub fn start_write_at(config: &GatewayConfig, request: WriteRequest, created_at: i64) -> (step:
    Step)
    ensures
        step@ == first_step(config@, request@, created_at),
{
    match authorize(config, request.token.as_str(), request.target_collection.as_str()) {
        Err(error) => Step::Respond(Response::auth_failure(error)),
        Ok(_) => {
            let documents = prepare_records(request.records, request.id_field.as_str(), created_at);
            Step::Submit(
                WriteBatch { collection: request.target_collection, documents, ordered: false },
            )
        },
    }
}

/// Looks at a request now. The clock is read once, and only for a request
/// that passed authorization: every document of the batch carries that time.
pub fn start_write(config: &GatewayConfig, request: WriteRequest) -> (step: Step)
    ensures
        exists|created_at: i64| step@ == #[trigger] first_step(config@, request@, created_at),
{
    match authorize(config, request.token.as_str(), request.target_collection.as_str()) {
        Err(error) => {
            let step = Step::Respond(Response::auth_failure(error));
            assert(step@ == first_step(config@, request@, 0));
            step
        },
        Ok(_) => {
            let created_at: i64 = current_millis();
            let step = start_write_at(config, request, created_at);
            assert(step@ == first_step(config@, request@, created_at));
            step
        },
    }
}

/// Takes the record out of every document.
fn all_records(documents: Vec<PreparedDocument>) -> (data: Vec<Record>)
    ensures
        record_views(data@) == document_views(documents@).map_values(
            |document: DocumentView| document.data,
        ),
{
    let mut data: Vec<Record> = Vec::new();
    for document in it: documents
        invariant
            it.seq() == documents@,
            data@.len() == it.index(),
            forall|i: int| 0 <= i < data@.len() ==> (#[trigger] data@[i])@ == documents@[i].data@,
    {
        data.push(document.data);
    }
    assert(record_views(data@) =~= document_views(documents@).map_values(
        |document: DocumentView| document.data,
    ));
    data
}

/// Takes the record out of every document whose position is among `inserted`.
fn records_among(documents: Vec<PreparedDocument>, inserted: &Vec<usize>) -> (data: Vec<Record>)
    ensures
        record_views(data@) == records_at(
            document_views(documents@),
            ascending(documents@.len(), position_set(inserted@)),
        ),
{
    let chosen = index_set(inserted);
    let ghost members = position_set(inserted@);
    let ghost all = document_views(documents@);
    let count: usize = documents.len();
    let mut data: Vec<Record> = Vec::new();
    let mut position: usize = 0;
    for document in it: documents
        invariant
            it.seq() == documents@,
            documents@.len() == count,
            position == it.index(),
            all == document_views(documents@),
            members == position_set(inserted@),
            forall|p: usize| chosen@.contains(p) <==> members.contains(p as int),
            record_views(data@) == records_at(all, ascending(position as nat, members)),
    {
        let ghost before = ascending(position as nat, members);
        let ghost echoed = record_views(data@);
        assert(all[position as int] == document@);
        if chosen.contains(&position) {
            data.push(document.data);
            assert(record_views(data@) =~= echoed.push(document@.data));
            assert(records_at(all, before.push(position as int)) =~= records_at(
                all,
                before,
            ).push(all[position as int].data));
        }
        position += 1;
    }
    data
}

/// Shapes the response to a batch of documents with the given outcome.
pub fn compose(documents: Vec<PreparedDocument>, outcome: &WriteOutcome) -> (response: Response)
    ensures
        response@ == response_for(document_views(documents@), outcome@),
{
    match outcome {
        WriteOutcome::AllInserted => Response::success(all_records(documents)),
        WriteOutcome::PartiallyInserted(inserted) => Response::success(
            records_among(documents, inserted),
        ),
        WriteOutcome::Rejected(_) => Response::write_failed(),
    }
}

/// Turns the store's reply to a submitted batch into the response.
pub fn finish_write(batch: WriteBatch, reply: Result<(), WriteFailure>) -> (done: Completion)
    ensures
        done.response@ == final_response(batch@, reply_view(reply)),
        match reply {
            Err(failure) if !is_benign(failure@) => done.cause == Some(failure),
            _ => done.cause is None,
        },
{
    let outcome = reconcile(batch.documents.len(), reply);
    let response = compose(batch.documents, &outcome);
    match outcome {
        WriteOutcome::Rejected(cause) => Completion { response, cause: Some(cause) },
        _ => Completion { response, cause: None },
    }
}

} // verus!
