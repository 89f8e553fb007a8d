use json_updates::reconcile::{
    inserted_indexes, reconcile, recover_not_inserted_indexes, ItemFailure, WriteFailure,
    WriteOutcome, DUPLICATE_KEY_CODE,
};

fn failure(errors: Option<Vec<(usize, i32)>>) -> WriteFailure {
    WriteFailure {
        write_errors: errors.map(|errors| {
            errors.into_iter().map(|(index, code)| ItemFailure { index, code }).collect()
        }),
        description: "bulk write failed".to_string(),
    }
}

#[test]
fn conflict_code_is_the_duplicate_key_code() {
    assert_eq!(DUPLICATE_KEY_CODE, 11000);
    assert!(ItemFailure { index: 0, code: 11000 }.is_conflict());
    assert!(!ItemFailure { index: 0, code: 11001 }.is_conflict());
    assert!(!ItemFailure { index: 11000, code: 0 }.is_conflict());
    assert!(!ItemFailure { index: 0, code: -11000 }.is_conflict());
}

#[test]
fn conflicts_give_the_failed_positions_in_order() {
    let conflicts = failure(Some(vec![(2, 11000), (0, 11000), (2, 11000)]));
    assert_eq!(recover_not_inserted_indexes(conflicts), Ok(vec![2, 0, 2]));
}

#[test]
fn no_single_failure_gives_no_position() {
    assert_eq!(recover_not_inserted_indexes(failure(Some(vec![]))), Ok(vec![]));
}

#[test]
fn one_other_cause_gives_the_failure_back() {
    let mixed = || failure(Some(vec![(0, 11000), (1, 121), (2, 11000)]));
    assert_eq!(recover_not_inserted_indexes(mixed()), Err(mixed()));
}

#[test]
fn other_cause_in_first_place_gives_the_failure_back() {
    let recovered = recover_not_inserted_indexes(failure(Some(vec![(4, 10334)])));
    assert_eq!(recovered, Err(failure(Some(vec![(4, 10334)]))));
}

#[test]
fn failure_without_single_errors_comes_back() {
    assert_eq!(recover_not_inserted_indexes(failure(None)), Err(failure(None)));
}

#[test]
fn inserted_are_the_positions_that_did_not_fail() {
    assert_eq!(inserted_indexes(5, &vec![3, 1]), vec![0, 2, 4]);
}

#[test]
fn inserted_positions_ascend_whatever_the_order_of_failures() {
    assert_eq!(inserted_indexes(6, &vec![5, 0, 3, 0, 5]), vec![1, 2, 4]);
}

#[test]
fn nothing_failed_everything_inserted() {
    assert_eq!(inserted_indexes(3, &vec![]), vec![0, 1, 2]);
}

#[test]
fn everything_failed_nothing_inserted() {
    assert_eq!(inserted_indexes(3, &vec![0, 1, 2]), Vec::<usize>::new());
}

#[test]
fn failed_positions_beyond_the_batch_count_for_nothing() {
    assert_eq!(inserted_indexes(2, &vec![2, 7, usize::MAX]), vec![0, 1]);
}

#[test]
fn empty_batch_has_no_inserted_position() {
    assert_eq!(inserted_indexes(0, &vec![0, 1]), Vec::<usize>::new());
}

#[test]
fn accepted_batch_is_all_inserted() {
    assert_eq!(reconcile(3, Ok(())), WriteOutcome::AllInserted);
    assert_eq!(reconcile(0, Ok(())), WriteOutcome::AllInserted);
}

#[test]
fn conflicting_batch_is_partially_inserted() {
    assert_eq!(
        reconcile(4, Err(failure(Some(vec![(1, 11000), (3, 11000)])))),
        WriteOutcome::PartiallyInserted(vec![0, 2])
    );
}

#[test]
fn fully_conflicting_batch_has_no_inserted_position() {
    assert_eq!(
        reconcile(2, Err(failure(Some(vec![(0, 11000), (1, 11000)])))),
        WriteOutcome::PartiallyInserted(vec![])
    );
}

#[test]
fn failure_with_no_single_error_leaves_every_position() {
    assert_eq!(
        reconcile(2, Err(failure(Some(vec![])))),
        WriteOutcome::PartiallyInserted(vec![0, 1])
    );
}

#[test]
fn mixed_failure_is_rejected_with_its_cause() {
    assert_eq!(
        reconcile(3, Err(failure(Some(vec![(0, 11000), (2, 2)])))),
        WriteOutcome::Rejected(failure(Some(vec![(0, 11000), (2, 2)])))
    );
}

#[test]
fn unattributed_failure_is_rejected_with_its_cause() {
    assert_eq!(reconcile(3, Err(failure(None))), WriteOutcome::Rejected(failure(None)));
}
