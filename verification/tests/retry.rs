use quittance::retry::{Backoff, RetryAction, RetryPolicy};

#[test]
fn standard_policy_waits_two_seconds_first_and_thirty_at_most() {
    let policy = RetryPolicy::standard();
    assert_eq!(policy, RetryPolicy { max_attempts: 10, initial_delay: 2, max_delay: 30 });
    assert_eq!(policy.schedule(), vec![2, 4, 8, 16, 30, 30, 30, 30, 30]);
}

#[test]
fn run_gives_up_at_the_tenth_failure() {
    let mut state = Backoff::start(RetryPolicy::standard());
    let mut failures = 0;
    let mut waited = 0;
    loop {
        failures += 1;
        match state.on_failure() {
            RetryAction::GiveUp => break,
            RetryAction::WaitThenRetry { delay, next } => {
                waited += delay;
                assert_eq!(next.failures, failures);
                state = next;
            }
        }
    }
    assert_eq!(failures, 10);
    assert_eq!(waited, 2 + 4 + 8 + 16 + 30 * 5);
}

#[test]
fn single_attempt_never_waits() {
    let policy = RetryPolicy::new(1, 5, 5).unwrap();
    assert!(policy.schedule().is_empty());
    assert_eq!(Backoff::start(policy).on_failure(), RetryAction::GiveUp);
}

#[test]
fn policy_needs_an_attempt_and_a_cap_above_the_first_wait() {
    assert_eq!(RetryPolicy::new(0, 1, 2), None);
    assert_eq!(RetryPolicy::new(3, 5, 4), None);
    assert_eq!(
        RetryPolicy::new(3, 4, 4),
        Some(RetryPolicy { max_attempts: 3, initial_delay: 4, max_delay: 4 })
    );
}

#[test]
fn doubling_stops_at_the_cap() {
    let policy = RetryPolicy::new(6, 3, 20).unwrap();
    assert_eq!(policy.schedule(), vec![3, 6, 12, 20, 20]);
    let policy = RetryPolicy::new(4, 0, 9).unwrap();
    assert_eq!(policy.schedule(), vec![0, 0, 0]);
}

#[test]
fn doubling_does_not_overflow() {
    let policy = RetryPolicy::new(5, u64::MAX / 2 + 1, u64::MAX).unwrap();
    assert_eq!(
        policy.schedule(),
        vec![u64::MAX / 2 + 1, u64::MAX, u64::MAX, u64::MAX]
    );
}

#[test]
fn first_state_waits_the_initial_delay() {
    let state = Backoff::start(RetryPolicy::standard());
    assert_eq!(state.failures, 0);
    assert_eq!(state.delay, 2);
    match state.on_failure() {
        RetryAction::WaitThenRetry { delay, next } => {
            assert_eq!(delay, 2);
            assert_eq!(next.delay, 4);
            assert_eq!(next.failures, 1);
            assert_eq!(next.policy, RetryPolicy::standard());
        }
        RetryAction::GiveUp => panic!("gave up at the first failure"),
    }
}
