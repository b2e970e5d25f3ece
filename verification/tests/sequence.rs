use e2e_test_framework::sequence::{NextStep, Sequence};

#[test]
fn steps_are_taken_in_order() {
    let mut sequence = Sequence::new(2);
    assert!(matches!(sequence.next(), NextStep::Take(0)));
    sequence.record(Ok(()));
    assert!(matches!(sequence.next(), NextStep::Take(1)));
    sequence.record(Ok(()));
    assert!(matches!(sequence.next(), NextStep::Done));
    sequence.record(Err("late".to_string()));
    assert!(matches!(sequence.next(), NextStep::Done));
}

#[test]
fn the_first_failure_ends_the_steps() {
    let mut sequence = Sequence::new(3);
    sequence.record(Ok(()));
    sequence.record(Err("first".to_string()));
    sequence.record(Err("second".to_string()));
    match sequence.next() {
        NextStep::Failed(message) => assert_eq!(message, "first"),
        other => panic!("a failure was expected: {other:?}"),
    }
    assert!(matches!(Sequence::new(0).next(), NextStep::Done));
}
