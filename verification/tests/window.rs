use npm_package_age::reduce::RegistryEntry;
use npm_package_age::schedule::{FetchCause, FetchError, FetchOutcome, Scheduler};

fn ids(n: usize) -> Vec<String> {
    (0..n).map(|i| format!("pkg-{i}")).collect()
}

fn dummy_outcome(id: String) -> FetchOutcome {
    FetchOutcome::Failure(FetchError {
        identifier: id,
        cause: FetchCause::Network,
    })
}

/// Drives a scheduler to completion, recording the largest number of
/// requests ever in flight, completing in an order that drains the window
/// out of dispatch order.
fn drive(n: usize, limit: usize) -> (usize, Vec<FetchOutcome>) {
    let mut sched = Scheduler::new(ids(n), limit);
    let mut in_flight: Vec<String> = Vec::new();
    let mut high_water = 0;
    while !sched.is_done() {
        while sched.can_dispatch() {
            in_flight.push(sched.dispatch());
            high_water = high_water.max(in_flight.len());
        }
        assert!(sched.must_wait());
        // completions arrive in no particular order; take the oldest but one
        let pick = if in_flight.len() > 1 { 1 } else { 0 };
        let done = in_flight.remove(pick);
        sched.complete(dummy_outcome(done));
    }
    assert!(in_flight.is_empty());
    (high_water, sched.into_results())
}

#[test]
fn window_is_respected_far_beyond_the_limit() {
    let (high_water, results) = drive(97, 20);
    assert!(high_water <= 20);
    assert_eq!(results.len(), 97);
}

#[test]
fn small_input_does_not_stall() {
    let (high_water, results) = drive(3, 20);
    assert_eq!(high_water, 3);
    assert_eq!(results.len(), 3);
}

#[test]
fn count_not_a_multiple_of_the_window_loses_nothing() {
    let (_, results) = drive(45, 20);
    assert_eq!(results.len(), 45);
    let mut seen: Vec<String> = results
        .iter()
        .map(|o| match o {
            FetchOutcome::Failure(f) => f.identifier.clone(),
            FetchOutcome::Success(_) => unreachable!(),
        })
        .collect();
    seen.sort();
    let mut expected = ids(45);
    expected.sort();
    assert_eq!(seen, expected);
}

#[test]
fn dispatch_follows_identifier_order() {
    let mut sched = Scheduler::new(ids(5), 2);
    assert!(sched.can_dispatch());
    assert_eq!(sched.dispatch(), "pkg-0");
    assert_eq!(sched.dispatch(), "pkg-1");
    assert!(!sched.can_dispatch());
    assert!(sched.must_wait());
    sched.complete(dummy_outcome("pkg-0".to_string()));
    assert!(sched.can_dispatch());
    assert_eq!(sched.dispatch(), "pkg-2");
}

#[test]
fn success_outcomes_carry_their_entries() {
    let mut sched = Scheduler::new(ids(1), 20);
    let id = sched.dispatch();
    assert_eq!(id, "pkg-0");
    sched.complete(FetchOutcome::Success(RegistryEntry {
        name: id,
        times: vec![("1.0.0".to_string(), Some("2020-01-01T00:00:00Z".to_string()))],
    }));
    assert!(sched.is_done());
    let results = sched.into_results();
    assert_eq!(results.len(), 1);
    match &results[0] {
        FetchOutcome::Success(e) => assert_eq!(e.name, "pkg-0"),
        FetchOutcome::Failure(_) => panic!("expected success"),
    }
}
