use aims_backend::coordinator::{JoinOutcome, PendingRequestCoordinator};
use aims_backend::flow::{Cache, Plan};

#[test]
fn first_caller_starts_then_joiners_coalesce() {
    let mut coord = PendingRequestCoordinator::new();
    let k = String::from("quiz_tok1234567");

    // No computation running: the first caller must start one.
    assert_eq!(coord.join_or_start(&k), JoinOutcome::NotRunning);
    coord.register(&k);

    // Every caller arriving before completion joins the same computation.
    assert_eq!(coord.join_or_start(&k), JoinOutcome::AlreadyRunning(0));
    assert_eq!(coord.join_or_start(&k), JoinOutcome::AlreadyRunning(1));
    assert_eq!(coord.join_or_start(&k), JoinOutcome::AlreadyRunning(2));

    // Completion finds exactly the three waiters and removes the key once.
    assert_eq!(coord.complete(&k), 3);
    assert_eq!(coord.complete(&k), 0);
    assert_eq!(coord.join_or_start(&k), JoinOutcome::NotRunning);
}

#[test]
fn distinct_keys_have_independent_computations() {
    let mut coord = PendingRequestCoordinator::new();
    let a = String::from("quiz_a");
    let b = String::from("quiz_b");
    coord.register(&a);
    assert_eq!(coord.join_or_start(&b), JoinOutcome::NotRunning);
    coord.register(&b);
    assert_eq!(coord.join_or_start(&a), JoinOutcome::AlreadyRunning(0));
    assert_eq!(coord.complete(&b), 0);
    assert_eq!(coord.complete(&a), 1);
    assert_eq!(coord.len(), 0);
}

#[test]
fn concurrent_plans_produce_one_owner_and_identical_results() {
    // Three requests for one key arrive before any computation finishes;
    // the library's plan decides who fetches. Exactly one does, and the
    // one published result is what every request then reads.
    let mut cache: Cache<String> = Cache::new();
    let key = String::from("quiz_tok1234567");

    let p1 = cache.plan_quiz(&key, 100);
    let p2 = cache.plan_quiz(&key, 101);
    let p3 = cache.plan_quiz(&key, 102);
    assert_eq!(p1, Plan::FetchAndPublish);
    assert_eq!(p2, Plan::AwaitPending(0));
    assert_eq!(p3, Plan::AwaitPending(1));

    let result = String::from("the-one-result");
    let waiters = cache.publish_quiz(&key, result.clone(), 150);
    assert_eq!(waiters, 2);

    // Each waiter is handed the same result; later reads see it too.
    let delivered: Vec<String> = (0..waiters).map(|_| result.clone()).collect();
    assert!(delivered.iter().all(|r| *r == result));
    assert_eq!(cache.get_quiz(&key, 200), Some(&result));
}

#[test]
fn completion_with_no_pending_key_is_a_no_op() {
    let mut coord = PendingRequestCoordinator::new();
    assert_eq!(coord.complete(&String::from("quiz_nothing")), 0);
    assert_eq!(coord.len(), 0);
}
