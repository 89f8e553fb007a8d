//! Reconciling the store's answer to an unordered bulk insert.
//!
//! The store enforces uniqueness on the identifier of each document, so a
//! batch may fail in part only because some of its documents were stored
//! before. Such a failure is benign: the documents at the other positions
//! were written. Any other failure rejects the whole batch.

use std::collections::HashSet;
use vstd::prelude::*;

verus! {

broadcast use vstd::std_specs::hash::group_hash_axioms;

/// The code by which the store reports that an identifier is taken.
pub const DUPLICATE_KEY_CODE: i32 = 11000;

/// The failure of one document of a batch.
#[derive(Clone, Copy, Debug, PartialEq, Eq, Structural)]
pub struct ItemFailure {
    /// The position of the document among those submitted.
    pub index: usize,
    /// The store's code for the cause.
    pub code: i32,
}

/// A failed bulk insert, as the store client reports it.
#[derive(Debug, PartialEq, Eq)]
pub struct WriteFailure {
    /// The per-document failures, where the store reported any. `None` for a
    /// failure that is not attributed to single documents, such as a lost
    /// connection or a timeout.
    pub write_errors: Option<Vec<ItemFailure>>,
    /// The underlying cause in words, for the diagnostic log.
    pub description: String,
}

/// The mathematical content of a [`WriteFailure`].
pub struct FailureView {
    pub write_errors: Option<Seq<ItemFailure>>,
    pub description: Seq<char>,
}

impl View for WriteFailure {
    type V = FailureView;

    open spec fn view(&self) -> FailureView {
        FailureView {
            write_errors: match self.write_errors {
                Some(errors) => Some(errors@),
                None => None,
            },
            description: self.description@,
        }
    }
}

/// What became of a submitted batch.
#[derive(Debug, PartialEq, Eq)]
pub enum WriteOutcome {
    /// Every submitted document was written.
    AllInserted,
    /// The documents at these positions were written, the others were stored
    /// before. Positions count the submitted documents and ascend.
    PartiallyInserted(Vec<usize>),
    /// The batch failed for a cause other than uniqueness.
    Rejected(WriteFailure),
}

/// The mathematical content of a [`WriteOutcome`].
pub enum OutcomeView {
    AllInserted,
    PartiallyInserted(Seq<int>),
    Rejected(FailureView),
}

/// Positions as mathematical integers.
pub open spec fn positions(indexes: Seq<usize>) -> Seq<int> {
    indexes.map_values(|index: usize| index as int)
}

impl View for WriteOutcome {
    type V = OutcomeView;

    open spec fn view(&self) -> OutcomeView {
        match self {
            WriteOutcome::AllInserted => OutcomeView::AllInserted,
            WriteOutcome::PartiallyInserted(indexes) => OutcomeView::PartiallyInserted(
                positions(indexes@),
            ),
            WriteOutcome::Rejected(failure) => OutcomeView::Rejected(failure@),
        }
    }
}

/// Whether a cause code reports a uniqueness conflict.
pub open spec fn is_conflict(code: i32) -> bool {
    code == DUPLICATE_KEY_CODE
}

/// Whether every one of the failures is a uniqueness conflict.
pub open spec fn only_conflicts(errors: Seq<ItemFailure>) -> bool {
    forall|i: int| 0 <= i < errors.len() ==> is_conflict((#[trigger] errors[i]).code)
}

/// Whether a failure is benign: it is attributed to single documents, and
/// each of them failed on a uniqueness conflict.
pub open spec fn is_benign(failure: FailureView) -> bool {
    failure.write_errors matches Some(errors) && only_conflicts(errors)
}

/// The positions that the failures name, in the order of the failures.
pub open spec fn failed_indexes(errors: Seq<ItemFailure>) -> Seq<usize> {
    errors.map_values(|error: ItemFailure| error.index)
}

/// The set of positions that occur in `indexes`.
pub open spec fn position_set(indexes: Seq<usize>) -> Set<int> {
    positions(indexes).to_set()
}

/// The positions of a batch of `count` documents: the range `[0, count)`.
pub open spec fn all_positions(count: nat) -> Set<int> {
    Set::new(|position: int| 0 <= position < count)
}

/// The positions that were written, given the size of the batch and the
/// positions that were not: the difference of the two sets.
pub open spec fn inserted_positions(submitted: nat, not_inserted: Set<int>) -> Set<int> {
    all_positions(submitted).difference(not_inserted)
}

/// The members of `members` below `count`, each once, in ascending order.
pub open spec fn ascending(count: nat, members: Set<int>) -> Seq<int>
    decreases count,
{
    if count == 0 {
        Seq::empty()
    } else {
        let earlier = ascending((count - 1) as nat, members);
        if members.contains(count - 1) {
            earlier.push(count - 1)
        } else {
            earlier
        }
    }
}

/// The outcome of a batch of `submitted` documents to which the store gave
/// `reply`.
pub open spec fn outcome_of(submitted: nat, reply: Result<(), FailureView>) -> OutcomeView {
    match reply {
        Ok(_) => OutcomeView::AllInserted,
        Err(failure) => if is_benign(failure) {
            OutcomeView::PartiallyInserted(
                ascending(
                    submitted,
                    inserted_positions(
                        submitted,
                        position_set(failed_indexes(failure.write_errors.unwrap())),
                    ),
                ),
            )
        } else {
            OutcomeView::Rejected(failure)
        },
    }
}

/// The store's reply with the failure, if any, taken by its view.
pub open spec fn reply_view(reply: Result<(), WriteFailure>) -> Result<(), FailureView> {
    match reply {
        Ok(_) => Ok(()),
        Err(failure) => Err(failure@),
    }
}

/// `ascending` holds exactly the members below `count`, each once and in
/// ascending order.
pub proof fn lemma_ascending(count: nat, members: Set<int>)
    ensures
        ascending(count, members).len() <= count,
        forall|position: int|
            #![trigger ascending(count, members).contains(position)]
            ascending(count, members).contains(position) <==> (0 <= position < count
                && members.contains(position)),
        forall|i: int, j: int|
            0 <= i < j < ascending(count, members).len() ==> ascending(count, members)[i]
                < ascending(count, members)[j],
    decreases count,
{
    if count > 0 {
        let earlier = ascending((count - 1) as nat, members);
        let last = count - 1;
        lemma_ascending((count - 1) as nat, members);
        let listed = ascending(count, members);
        assert(listed == if members.contains(last) {
            earlier.push(last)
        } else {
            earlier
        });
        assert forall|position: int| listed.contains(position) <==> (0 <= position < count
            && members.contains(position)) by {
            if listed.contains(position) {
                let at = choose|at: int| 0 <= at < listed.len() && listed[at] == position;
                if at < earlier.len() {
                    assert(earlier[at] == position);
                    assert(earlier.contains(position));
                }
            }
            if 0 <= position < count && members.contains(position) {
                if position < last {
                    assert(earlier.contains(position));
                    let at = choose|at: int| 0 <= at < earlier.len() && earlier[at] == position;
                    assert(listed[at] == position);
                } else {
                    assert(listed[earlier.len() as int] == position);
                }
            }
        }
        assert forall|i: int, j: int| 0 <= i < j < listed.len() implies listed[i] < listed[j] by {
            assert(listed[i] == earlier[i]);
            assert(earlier.contains(earlier[i]));
            if j < earlier.len() {
                assert(listed[j] == earlier[j]);
            }
        }
    }
}

/// Only the members below `count` matter to `ascending`.
pub proof fn lemma_ascending_within(count: nat, left: Set<int>, right: Set<int>)
    requires
        forall|position: int|
            0 <= position < count ==> (left.contains(position) <==> right.contains(position)),
    ensures
        ascending(count, left) == ascending(count, right),
    decreases count,
{
    if count > 0 {
        lemma_ascending_within((count - 1) as nat, left, right);
    }
}

/// Listing a set in ascending order and gathering the list into a set again
/// changes nothing below `count`.
pub proof fn lemma_ascending_again(count: nat, members: Set<int>)
    ensures
        ascending(count, ascending(count, members).to_set()) == ascending(count, members),
{
    lemma_ascending(count, members);
    lemma_ascending_within(count, ascending(count, members).to_set(), members);
}

/// Where no member lies below `count`, the list is empty.
pub proof fn lemma_ascending_none(count: nat, members: Set<int>)
    requires
        forall|position: int| 0 <= position < count ==> !members.contains(position),
    ensures
        ascending(count, members) == Seq::<int>::empty(),
    decreases count,
{
    if count > 0 {
        lemma_ascending_none((count - 1) as nat, members);
    }
}

/// Where every position below `count` is a member, the list is the range.
pub proof fn lemma_ascending_all(count: nat, members: Set<int>)
    requires
        forall|position: int| 0 <= position < count ==> members.contains(position),
    ensures
        ascending(count, members) == Seq::new(count, |position: int| position),
    decreases count,
{
    if count > 0 {
        lemma_ascending_all((count - 1) as nat, members);
    }
    assert(ascending(count, members) =~= Seq::new(count, |position: int| position));
}

impl ItemFailure {
    /// Whether this document failed because its identifier was taken.
    pub fn is_conflict(&self) -> (conflict: bool)
        ensures
            conflict == is_conflict(self.code),
    {
        self.code == DUPLICATE_KEY_CODE
    }
}

/// Tells a benign failure from a real one. Where every failed document
/// failed on a uniqueness conflict, the positions of the failed documents are
/// recovered, in the order of the failures. Otherwise the failure comes back
/// unchanged.
pub fn recover_not_inserted_indexes(failure: WriteFailure) -> (recovered: Result<
    Vec<usize>,
    WriteFailure,
>)
    ensures
        match recovered {
            Ok(indexes) => is_benign(failure@) && indexes@ == failed_indexes(
                failure@.write_errors.unwrap(),
            ),
            Err(cause) => !is_benign(failure@) && cause == failure,
        },
{
    let indexes: Option<Vec<usize>> = match &failure.write_errors {
        Some(errors) => {
            let mut indexes: Vec<usize> = Vec::new();
            let mut benign = true;
            let mut i: usize = 0;
            while i < errors.len()
                invariant
                    i <= errors@.len(),
                    benign == only_conflicts(errors@.take(i as int)),
                    benign ==> indexes@ == failed_indexes(errors@.take(i as int)),
                decreases errors@.len() - i,
            {
                let ghost seen = errors@.take(i as int);
                let ghost next = errors@.take(i + 1);
                assert(next.drop_last() =~= seen);
                assert(next[i as int] == errors@[i as int]);
                if benign {
                    if errors[i].is_conflict() {
                        indexes.push(errors[i].index);
                        assert(indexes@ =~= failed_indexes(next));
                        assert forall|j: int| 0 <= j < next.len() implies is_conflict(
                            (#[trigger] next[j]).code,
                        ) by {
                            if j < i {
                                assert(seen[j] == next[j]);
                            }
                        }
                    } else {
                        benign = false;
                    }
                } else {
                    proof {
                        let j = choose|j: int|
                            0 <= j < seen.len() && !is_conflict((#[trigger] seen[j]).code);
                        assert(next[j] == seen[j]);
                    }
                }
                i += 1;
            }
            assert(errors@.take(i as int) =~= errors@);
            if benign {
                Some(indexes)
            } else {
                None
            }
        },
        None => None,
    };
    match indexes {
        Some(indexes) => Ok(indexes),
        None => Err(failure),
    }
}

/// Gathers positions into a set, for the membership tests of a pass over
/// the submitted documents.
pub(crate) fn index_set(indexes: &Vec<usize>) -> (gathered: HashSet<usize>)
    ensures
        forall|position: usize|
            gathered@.contains(position) <==> position_set(indexes@).contains(position as int),
{
    let mut gathered: HashSet<usize> = HashSet::new();
    let mut i: usize = 0;
    while i < indexes.len()
        invariant
            i <= indexes@.len(),
            forall|position: usize|
                gathered@.contains(position) <==> position_set(indexes@.take(i as int)).contains(
                    position as int,
                ),
        decreases indexes@.len() - i,
    {
        let ghost seen = positions(indexes@.take(i as int));
        let ghost next = positions(indexes@.take(i + 1));
        let ghost before = gathered@;
        gathered.insert(indexes[i]);
        proof {
            assert(next[i as int] == indexes@[i as int]);
            assert forall|position: usize| gathered@.contains(position) implies next.contains(
                position as int,
            ) by {
                if before.contains(position) {
                    let at = choose|at: int| 0 <= at < seen.len() && seen[at] == position as int;
                    assert(next[at] == seen[at]);
                }
            }
            assert forall|position: usize|
                next.contains(position as int) implies gathered@.contains(position) by {
                let at = choose|at: int| 0 <= at < next.len() && next[at] == position as int;
                if at < i {
                    assert(seen[at] == next[at]);
                    assert(seen.contains(position as int));
                }
            }
        }
        i += 1;
    }
    assert(indexes@.take(i as int) =~= indexes@);
    gathered
}

/// The positions of the documents that were written, given those that were
/// not: the difference of the range `[0, submitted)` and `not_inserted`,
/// ascending. Positions in `not_inserted` at or above `submitted`, and
/// repetitions, count for nothing.
pub fn inserted_indexes(submitted: usize, not_inserted: &Vec<usize>) -> (inserted: Vec<usize>)
    ensures
        positions(inserted@) == ascending(
            submitted as nat,
            inserted_positions(submitted as nat, position_set(not_inserted@)),
        ),
{
    let failed = index_set(not_inserted);
    let ghost written = inserted_positions(submitted as nat, position_set(not_inserted@));
    let mut inserted: Vec<usize> = Vec::new();
    let mut position: usize = 0;
    while position < submitted
        invariant
            position <= submitted,
            written == inserted_positions(submitted as nat, position_set(not_inserted@)),
            forall|p: usize|
                failed@.contains(p) <==> position_set(not_inserted@).contains(p as int),
            positions(inserted@) == ascending(position as nat, written),
        decreases submitted - position,
    {
        if !failed.contains(&position) {
            inserted.push(position);
        }
        position += 1;
        assert(positions(inserted@) =~= ascending(position as nat, written));
    }
    inserted
}

/// Decides what became of a batch of `submitted` documents from the store's
/// reply: everything was written, or all but the conflicting documents, or
/// the batch is rejected with its cause.
pub fn reconcile(submitted: usize, reply: Result<(), WriteFailure>) -> (outcome: WriteOutcome)
    ensures
        outcome@ == outcome_of(submitted as nat, reply_view(reply)),
        outcome matches WriteOutcome::Rejected(cause) ==> reply == Err::<(), WriteFailure>(cause),
{
    match reply {
        Ok(_) => WriteOutcome::AllInserted,
        Err(failure) => match recover_not_inserted_indexes(failure) {
            Ok(not_inserted) => WriteOutcome::PartiallyInserted(
                inserted_indexes(submitted, &not_inserted),
            ),
            Err(cause) => WriteOutcome::Rejected(cause),
        },
    }
}

} // verus!
