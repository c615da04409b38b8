use sheepnet::fetch::status_is_success;
use sheepnet::fetch::FetchFailure;
use sheepnet::fetch::FetchOutcome;
use sheepnet::fetch::FetchStep;
use sheepnet::fetch::Fetcher;
use sheepnet::fetch::RetryPolicy;
use sheepnet::fetch::INITIAL_BACKOFF_SECONDS;
use sheepnet::fetch::MAX_BACKOFF_SECONDS;

fn wait_after(fetcher: &mut Fetcher, outcome: FetchOutcome) -> u64 {
    match fetcher.on_outcome(outcome) {
        FetchStep::RetryAfter { seconds, .. } => seconds,
        FetchStep::Deliver(_) => panic!("a failure was delivered"),
    }
}

#[test]
fn standard_backoff_doubles_up_to_five_minutes() {
    assert_eq!(INITIAL_BACKOFF_SECONDS, 1);
    assert_eq!(MAX_BACKOFF_SECONDS, 300);
    let mut fetcher = Fetcher::new(RetryPolicy::standard());
    let mut waits = Vec::new();
    for _ in 0..14 {
        waits.push(wait_after(&mut fetcher, FetchOutcome::Unreachable));
    }
    assert_eq!(waits, vec![1, 2, 4, 8, 16, 32, 64, 128, 256, 300, 300, 300, 300, 300]);
}

#[test]
fn backoff_never_shrinks_and_never_passes_the_cap() {
    let policy = RetryPolicy::new(3, 100).unwrap();
    let mut fetcher = Fetcher::new(policy);
    let mut last = 0;
    let mut waits = Vec::new();
    for _ in 0..10 {
        let wait = wait_after(&mut fetcher, FetchOutcome::Response { status: 503, body: None });
        assert!(wait >= last);
        assert!(wait <= 100);
        last = wait;
        waits.push(wait);
    }
    assert_eq!(waits, vec![3, 6, 12, 24, 48, 96, 100, 100, 100, 100]);
}

#[test]
fn backoff_does_not_overflow_near_the_largest_cap() {
    let policy = RetryPolicy::new(u64::MAX / 2 + 7, u64::MAX).unwrap();
    let mut fetcher = Fetcher::new(policy);
    assert_eq!(wait_after(&mut fetcher, FetchOutcome::Unreachable), u64::MAX / 2 + 7);
    assert_eq!(wait_after(&mut fetcher, FetchOutcome::Unreachable), u64::MAX);
    assert_eq!(wait_after(&mut fetcher, FetchOutcome::Unreachable), u64::MAX);
    assert_eq!(policy.next_delay(u64::MAX / 2), u64::MAX - 1);
}

#[test]
fn a_policy_needs_a_first_wait_within_its_cap() {
    assert!(RetryPolicy::new(0, 300).is_none());
    assert!(RetryPolicy::new(301, 300).is_none());
    assert!(RetryPolicy::new(300, 300).is_some());
    assert!(RetryPolicy::new(1, 1).is_some());
}

#[test]
fn a_new_fetch_starts_the_backoff_over() {
    let mut first = Fetcher::new(RetryPolicy::standard());
    for _ in 0..5 {
        wait_after(&mut first, FetchOutcome::Unreachable);
    }
    let mut second = Fetcher::new(RetryPolicy::standard());
    assert_eq!(wait_after(&mut second, FetchOutcome::Unreachable), 1);
}

#[test]
fn only_a_body_from_a_successful_response_is_delivered() {
    let mut fetcher = Fetcher::new(RetryPolicy::standard());
    let step = fetcher.on_outcome(FetchOutcome::Response {
        status: 200,
        body: Some("<html></html>".to_string()),
    });
    match step {
        FetchStep::Deliver(body) => assert_eq!(body, "<html></html>"),
        FetchStep::RetryAfter { .. } => panic!("a page was not delivered"),
    }
    assert_eq!(wait_after(&mut fetcher, FetchOutcome::Unreachable), 1);
}

#[test]
fn every_kind_of_failure_is_told_apart() {
    let mut fetcher = Fetcher::new(RetryPolicy::standard());
    match fetcher.on_outcome(FetchOutcome::Unreachable) {
        FetchStep::RetryAfter { seconds, failure } => {
            assert_eq!(seconds, 1);
            assert_eq!(failure, FetchFailure::Unreachable);
        }
        FetchStep::Deliver(_) => panic!("a failure was delivered"),
    }
    match fetcher.on_outcome(FetchOutcome::Response {
        status: 404,
        body: Some("not here".to_string()),
    }) {
        FetchStep::RetryAfter { seconds, failure } => {
            assert_eq!(seconds, 2);
            assert_eq!(failure, FetchFailure::Status(404));
        }
        FetchStep::Deliver(_) => panic!("a failure was delivered"),
    }
    match fetcher.on_outcome(FetchOutcome::Response { status: 200, body: None }) {
        FetchStep::RetryAfter { seconds, failure } => {
            assert_eq!(seconds, 4);
            assert_eq!(failure, FetchFailure::Unreadable);
        }
        FetchStep::Deliver(_) => panic!("a failure was delivered"),
    }
}

#[test]
fn success_is_two_hundred_to_two_ninety_nine() {
    assert!(!status_is_success(199));
    assert!(status_is_success(200));
    assert!(status_is_success(204));
    assert!(status_is_success(299));
    assert!(!status_is_success(300));
    assert!(!status_is_success(500));
    assert!(!status_is_success(0));
}
