//! What the pipeline guarantees, stated over the models of its parts.

use vstd::prelude::*;

use crate::auth::ConfigView;
use crate::gateway::{
    final_response, first_step, records_at, response_to, BatchView, RequestView, StepView,
};
use crate::prepare::{prepared, prepared_documents, DocumentView};
use crate::reconcile::{
    ascending, failed_indexes, inserted_positions, is_benign, is_conflict, lemma_ascending,
    lemma_ascending_again, lemma_ascending_all, lemma_ascending_none, outcome_of, position_set,
    FailureView, ItemFailure, OutcomeView,
};
use crate::record::{text_under, JsonValue};
use crate::response::{
    forbidden_response, success_response, unauthorized_response, write_failed_response, BodyView,
    STATUS_BAD_REQUEST, STATUS_OK, STATUS_UNAUTHORIZED, STATUS_WRITE_FAILED,
};

verus! {

/// A request with a wrong token is answered as unauthorized at once, whatever
/// its collection and its records are: nothing is submitted to the store, and
/// no reply of the store could change the answer.
pub proof fn lemma_wrong_token_is_unauthorized(
    config: ConfigView,
    request: RequestView,
    created_at: i64,
    reply: Result<(), FailureView>,
)
    requires
        request.token != config.access_token,
    ensures
        first_step(config, request, created_at) == StepView::Respond(unauthorized_response()),
        response_to(config, request, created_at, reply) == unauthorized_response(),
        response_to(config, request, created_at, reply).status == STATUS_UNAUTHORIZED,
{
}

/// A request with the right token for a collection whose name does not start
/// with the configured prefix is answered as a bad request at once: nothing
/// is submitted to the store.
pub proof fn lemma_foreign_collection_is_refused(
    config: ConfigView,
    request: RequestView,
    created_at: i64,
    reply: Result<(), FailureView>,
)
    requires
        request.token == config.access_token,
        !config.collection_prefix.is_prefix_of(request.target_collection),
    ensures
        first_step(config, request, created_at) == StepView::Respond(forbidden_response()),
        response_to(config, request, created_at, reply) == forbidden_response(),
        response_to(config, request, created_at, reply).status == STATUS_BAD_REQUEST,
{
}

/// The documents of a batch are exactly its eligible records: each document
/// wraps a record of the batch under the string that the record holds in the
/// identifier field, and each record that holds such a string is wrapped. A
/// record without a string identifier is in no document.
pub proof fn lemma_documents_are_the_eligible_records(
    records: Seq<Map<Seq<char>, JsonValue>>,
    id_field: Seq<char>,
    created_at: i64,
)
    ensures
        forall|i: int|
            0 <= i < prepared_documents(records, id_field, created_at).len() ==> {
                let document = #[trigger] prepared_documents(records, id_field, created_at)[i];
                &&& records.contains(document.data)
                &&& text_under(document.data, id_field) == Some(document.id)
                &&& document.created_at == created_at
            },
        forall|j: int|
            0 <= j < records.len() && text_under(#[trigger] records[j], id_field) is Some
                ==> prepared_documents(records, id_field, created_at).contains(
                prepared(records[j], id_field, created_at).unwrap(),
            ),
        forall|record: Map<Seq<char>, JsonValue>|
            #[trigger] text_under(record, id_field) is None ==> forall|i: int|
                0 <= i < prepared_documents(records, id_field, created_at).len() ==> (
                #[trigger] prepared_documents(records, id_field, created_at)[i]).data != record,
    decreases records.len(),
{
    let wrap = |record: Map<Seq<char>, JsonValue>| prepared(record, id_field, created_at);
    let documents = records.filter_map(wrap);
    if records.len() > 0 {
        let earlier = records.drop_last();
        let last = records.last();
        lemma_documents_are_the_eligible_records(earlier, id_field, created_at);
        let before = earlier.filter_map(wrap);
        assert(before == prepared_documents(earlier, id_field, created_at));
        assert(documents == match wrap(last) {
            Some(document) => before + seq![document],
            None => before,
        });
        assert forall|i: int| 0 <= i < documents.len() implies {
            let document = #[trigger] documents[i];
            &&& records.contains(document.data)
            &&& text_under(document.data, id_field) == Some(document.id)
            &&& document.created_at == created_at
        } by {
            if i < before.len() {
                assert(documents[i] == before[i]);
                let at = choose|at: int| 0 <= at < earlier.len() && earlier[at] == before[i].data;
                assert(records[at] == earlier[at]);
            } else {
                assert(records[records.len() - 1] == last);
            }
        }
        assert forall|j: int|
            0 <= j < records.len() && text_under(
                #[trigger] records[j],
                id_field,
            ) is Some implies documents.contains(
            prepared(records[j], id_field, created_at).unwrap(),
        ) by {
            if j < earlier.len() {
                assert(earlier[j] == records[j]);
                let wrapped = prepared(earlier[j], id_field, created_at).unwrap();
                let at = choose|at: int| 0 <= at < before.len() && before[at] == wrapped;
                assert(documents[at] == wrapped);
            } else {
                assert(documents[before.len() as int] == wrap(last).unwrap());
            }
        }
    }
}

/// Whatever the store replies, a success response echoes only records of the
/// request that hold a string in the identifier field: a record without one
/// is absent from it.
pub proof fn lemma_only_eligible_records_are_echoed(
    config: ConfigView,
    request: RequestView,
    created_at: i64,
    reply: Result<(), FailureView>,
)
    ensures
        response_to(config, request, created_at, reply).body matches BodyView::Success { data }
            ==> forall|i: int|
            0 <= i < data.len() ==> request.records.contains(#[trigger] data[i]) && text_under(
                data[i],
                request.id_field,
            ) is Some,
        response_to(config, request, created_at, reply).body matches BodyView::Success { data }
            ==> forall|record: Map<Seq<char>, JsonValue>|
            #[trigger] text_under(record, request.id_field) is None ==> !data.contains(record),
{
    let documents = prepared_documents(request.records, request.id_field, created_at);
    lemma_documents_are_the_eligible_records(request.records, request.id_field, created_at);
    if let StepView::Submit(batch) = first_step(config, request, created_at) {
        assert(batch.documents == documents);
        let count = documents.len();
        match outcome_of(count, reply) {
            OutcomeView::AllInserted => {
                let data = documents.map_values(|document: DocumentView| document.data);
                assert forall|i: int| 0 <= i < data.len() implies request.records.contains(
                    #[trigger] data[i],
                ) && text_under(data[i], request.id_field) is Some by {
                    assert(data[i] == documents[i].data);
                }
            },
            OutcomeView::PartiallyInserted(inserted) => {
                let listed = ascending(count, inserted.to_set());
                lemma_ascending(count, inserted.to_set());
                let data = records_at(documents, listed);
                assert forall|i: int| 0 <= i < data.len() implies request.records.contains(
                    #[trigger] data[i],
                ) && text_under(data[i], request.id_field) is Some by {
                    assert(listed.contains(listed[i]));
                    assert(data[i] == documents[listed[i]].data);
                }
            },
            OutcomeView::Rejected(_) => {},
        }
    }
}

/// Where every failure of a submitted batch is a uniqueness conflict, the
/// response is a success that echoes exactly the records whose positions no
/// failure names, each once, by ascending position.
pub proof fn lemma_conflicts_are_tolerated(
    batch: BatchView,
    errors: Seq<ItemFailure>,
    description: Seq<char>,
)
    requires
        forall|i: int| 0 <= i < errors.len() ==> is_conflict((#[trigger] errors[i]).code),
    ensures
        ({
            let failure = FailureView { write_errors: Some(errors), description };
            let written = ascending(
                batch.documents.len(),
                inserted_positions(batch.documents.len(), position_set(failed_indexes(errors))),
            );
            &&& final_response(batch, Err(failure)) == success_response(
                records_at(batch.documents, written),
            )
            &&& final_response(batch, Err(failure)).status == STATUS_OK
            &&& forall|position: int|
                #![trigger written.contains(position)]
                written.contains(position) <==> (0 <= position < batch.documents.len()
                    && forall|i: int|
                    0 <= i < errors.len() ==> (#[trigger] errors[i]).index != position)
            &&& forall|i: int, j: int| 0 <= i < j < written.len() ==> written[i] < written[j]
        }),
{
    let count = batch.documents.len();
    let failed = position_set(failed_indexes(errors));
    let members = inserted_positions(count, failed);
    let written = ascending(count, members);
    lemma_ascending(count, members);
    lemma_ascending_again(count, members);
    assert forall|position: int|
        #![trigger written.contains(position)]
        written.contains(position) <==> (0 <= position < count && forall|i: int|
            0 <= i < errors.len() ==> (#[trigger] errors[i]).index != position) by {
        let named = failed_indexes(errors).map_values(|index: usize| index as int);
        if failed.contains(position) {
            let at = choose|at: int| 0 <= at < named.len() && named[at] == position;
            assert(errors[at].index == position);
        } else {
            assert forall|i: int| 0 <= i < errors.len() implies (#[trigger] errors[i]).index
                != position by {
                assert(named[i] == errors[i].index);
                assert(named.contains(named[i]));
            }
        }
    }
}

/// Where a failure of a submitted batch is not a uniqueness conflict, or the
/// failure is not attributed to single documents at all, the response is the
/// write failure and echoes no record, even if other documents were written.
pub proof fn lemma_other_failures_reject(batch: BatchView, failure: FailureView)
    requires
        match failure.write_errors {
            Some(errors) => exists|i: int|
                0 <= i < errors.len() && !is_conflict((#[trigger] errors[i]).code),
            None => true,
        },
    ensures
        !is_benign(failure),
        final_response(batch, Err(failure)) == write_failed_response(),
        final_response(batch, Err(failure)).status == STATUS_WRITE_FAILED,
        final_response(batch, Err(failure)).body is Error,
{
}

/// Where every document of a submitted batch fails on a uniqueness conflict,
/// as when a batch that was written in full is submitted again, the response
/// is a success with no record.
pub proof fn lemma_resubmission_echoes_nothing(
    batch: BatchView,
    errors: Seq<ItemFailure>,
    description: Seq<char>,
)
    requires
        forall|i: int| 0 <= i < errors.len() ==> is_conflict((#[trigger] errors[i]).code),
        forall|position: int|
            0 <= position < batch.documents.len() ==> #[trigger] position_set(
                failed_indexes(errors),
            ).contains(position),
    ensures
        final_response(batch, Err(FailureView { write_errors: Some(errors), description }))
            == success_response(Seq::empty()),
{
    let count = batch.documents.len();
    let failed = position_set(failed_indexes(errors));
    let members = inserted_positions(count, failed);
    assert forall|position: int| 0 <= position < count implies !members.contains(position) by {
        assert(failed.contains(position));
    }
    lemma_ascending_none(count, members);
    lemma_ascending_again(count, members);
    assert(records_at(batch.documents, Seq::<int>::empty()) =~= Seq::empty());
}

/// Where the failures of a submitted batch are uniqueness conflicts that name
/// no position of the batch, as where the store lists no single failure, the
/// response echoes the record of every document, as for an accepted batch.
pub proof fn lemma_conflicts_elsewhere_echo_everything(
    batch: BatchView,
    errors: Seq<ItemFailure>,
    description: Seq<char>,
)
    requires
        forall|i: int| 0 <= i < errors.len() ==> is_conflict((#[trigger] errors[i]).code),
        forall|position: int|
            0 <= position < batch.documents.len() ==> !(#[trigger] position_set(
                failed_indexes(errors),
            ).contains(position)),
    ensures
        final_response(batch, Err(FailureView { write_errors: Some(errors), description }))
            == success_response(
            batch.documents.map_values(|document: DocumentView| document.data),
        ),
        final_response(batch, Err(FailureView { write_errors: Some(errors), description }))
            == final_response(batch, Ok(())),
{
    let count = batch.documents.len();
    let failed = position_set(failed_indexes(errors));
    let members = inserted_positions(count, failed);
    assert forall|position: int| 0 <= position < count implies members.contains(position) by {
        assert(!failed.contains(position));
    }
    lemma_ascending_all(count, members);
    lemma_ascending_again(count, members);
    assert(records_at(batch.documents, Seq::new(count, |position: int| position))
        =~= batch.documents.map_values(|document: DocumentView| document.data));
}

/// Where the store accepts a submitted batch, the response is a success that
/// echoes the record of every document, in order.
pub proof fn lemma_accepted_batch_is_echoed(batch: BatchView)
    ensures
        final_response(batch, Ok(())) == success_response(
            batch.documents.map_values(|document: DocumentView| document.data),
        ),
        final_response(batch, Ok(())).status == STATUS_OK,
{
}

} // verus!
