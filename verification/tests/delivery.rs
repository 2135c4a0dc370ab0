//! The delivery queue and the worker policy, driven as the worker loop
//! drives them: claim, attempt, record, back off.

use zero2prod::delivery::{ClaimOutcome, DeliveryAttempt, DeliveryStore, TaskResolution};
use zero2prod::delivery::decide_resolution;
use zero2prod::error::Error;
use zero2prod::worker::{ExecutionOutcome, WorkerBackoff};
use zero2prod::{IssueId, SubscriberId};

const MAX_RETRIES: u8 = 3;
const BACKOFF_MS: u64 = 50;

/// Drives the queue until it is empty. `attempt` decides each delivery from
/// the subscriber and how many attempts that subscriber has already seen.
fn drain(
    store: &mut DeliveryStore,
    now_start: u64,
    attempt: impl Fn(SubscriberId, u32) -> DeliveryAttempt,
) -> Vec<(SubscriberId, DeliveryAttempt)> {
    let mut now = now_start;
    let mut log: Vec<(SubscriberId, DeliveryAttempt)> = Vec::new();
    loop {
        match store.claim_task(now) {
            ClaimOutcome::Claimed(claim) => {
                let sub = claim.task.subscriber_id;
                let seen = log.iter().filter(|(s, _)| *s == sub).count() as u32;
                let a = attempt(sub, seen);
                log.push((sub, a));
                store
                    .resolve_task(claim, a, MAX_RETRIES, now, BACKOFF_MS)
                    .expect("recording an outcome must succeed");
            }
            ClaimOutcome::PostponedTasks => {
                now += BACKOFF_MS;
            }
            ClaimOutcome::EmptyQueue => return log,
        }
    }
}

fn store_with_one_issue(subscribers: &[u128]) -> (DeliveryStore, IssueId) {
    let mut store = DeliveryStore::new();
    let issue_id = IssueId(7);
    let subs: Vec<SubscriberId> = subscribers.iter().map(|s| SubscriberId(*s)).collect();
    let n = store
        .enqueue_issue(
            issue_id,
            "Issue title".to_string(),
            "Plain text".to_string(),
            "<p>Html</p>".to_string(),
            1_000,
            &subs,
        )
        .expect("fresh issue id");
    assert_eq!(n as usize, subscribers.len());
    (store, issue_id)
}

#[test]
fn enqueue_fans_out_one_task_per_confirmed_subscriber() {
    let (store, issue_id) = store_with_one_issue(&[1, 2, 3]);
    assert_eq!(store.task_count(), 3);
    assert_eq!(store.issue_count(), 1);
    assert_eq!(store.get_newsletters_info().len(), 1);
    assert_eq!(store.get_newsletters_info()[0].issue_id, issue_id);
    let row = store.get_issue(issue_id).unwrap();
    assert_eq!(row.n_subscribers, 3);
    assert_eq!(row.delivered.len(), 0);
    assert_eq!(row.failed.len(), 0);
}

#[test]
fn enqueue_rejects_a_taken_issue_id() {
    let (mut store, issue_id) = store_with_one_issue(&[1]);
    let r = store.enqueue_issue(
        issue_id,
        "Other".to_string(),
        "t".to_string(),
        "h".to_string(),
        2_000,
        &vec![SubscriberId(9)],
    );
    assert!(matches!(r, Err(Error::UnexpectedError(_))));
    assert_eq!(store.task_count(), 1);
    assert_eq!(store.issue_count(), 1);
}

#[test]
fn queue_with_only_future_tasks_is_postponed_not_empty() {
    let (store, _) = store_with_one_issue(&[1]);
    // Tasks were enqueued eligible from t = 1_000.
    assert!(matches!(store.claim_task(500), ClaimOutcome::PostponedTasks));
    assert!(matches!(store.claim_task(1_000), ClaimOutcome::PostponedTasks));
    assert!(matches!(store.claim_task(1_001), ClaimOutcome::Claimed(_)));
    assert!(!store.is_task_queue_empty());
    assert!(matches!(DeliveryStore::new().claim_task(1_001), ClaimOutcome::EmptyQueue));
}

#[test]
fn transient_failure_postpones_with_backoff_and_spends_a_retry() {
    let (mut store, _issue_id) = store_with_one_issue(&[1]);
    let now = 2_000;
    let claim = match store.claim_task(now) {
        ClaimOutcome::Claimed(c) => c,
        other => panic!("expected a claim, got {:?}", other),
    };
    store
        .resolve_task(claim, DeliveryAttempt::TransientFailure, MAX_RETRIES, now, BACKOFF_MS)
        .unwrap();
    assert_eq!(store.task_count(), 1);
    // Not yet eligible one instant before the claim time plus the delta...
    assert!(matches!(store.claim_task(now + BACKOFF_MS), ClaimOutcome::PostponedTasks));
    // ... and claimable right after, with one retry spent.
    let claim = match store.claim_task(now + BACKOFF_MS + 1) {
        ClaimOutcome::Claimed(c) => c,
        other => panic!("expected a claim, got {:?}", other),
    };
    assert_eq!(claim.task.n_retries, 1);
    assert_eq!(claim.task.execute_after, now + BACKOFF_MS);
}

#[test]
fn at_most_one_delivery_after_drain() {
    // Mixed outcomes over five subscribers: after the drain, each stands in
    // exactly one of the delivered and failed columns.
    let (mut store, issue_id) = store_with_one_issue(&[1, 2, 3, 4, 5]);
    drain(&mut store, 2_000, |sub, seen| match sub.0 {
        1 => DeliveryAttempt::Delivered,
        2 => DeliveryAttempt::PermanentlyInvalid,
        3 => DeliveryAttempt::TransientFailure,
        4 if seen == 0 => DeliveryAttempt::TransientFailure,
        4 => DeliveryAttempt::Delivered,
        _ => DeliveryAttempt::Delivered,
    });
    assert!(store.is_task_queue_empty());
    let row = store.get_issue(issue_id).unwrap();
    for s in 1..=5u128 {
        let sub = SubscriberId(s);
        let delivered = row.delivered.contains(&sub);
        let failed = row.failed.contains(&sub);
        assert!(delivered ^ failed, "subscriber {s} must have exactly one outcome");
    }
    assert_eq!(row.delivered.len() + row.failed.len(), row.n_subscribers as usize);
}

#[test]
fn sending_of_newsletter_is_retried_max_retries_times_at_transient_failures() {
    // A subscriber that always fails transiently is attempted exactly
    // max_retries + 1 times and then counted as a permanent failure.
    let (mut store, issue_id) = store_with_one_issue(&[1]);
    let log = drain(&mut store, 2_000, |_, _| DeliveryAttempt::TransientFailure);
    assert_eq!(log.len(), MAX_RETRIES as usize + 1);
    let row = store.get_issue(issue_id).unwrap();
    assert_eq!(row.n_subscribers, 1);
    assert_eq!(row.delivered.len(), 0);
    assert_eq!(row.failed.len(), 1);
    assert!(row.failed.contains(&SubscriberId(1)));
}

#[test]
fn newsletter_is_sent_after_a_transient_failure() {
    // Fails once, then succeeds: delivered, and the failed column untouched.
    let (mut store, issue_id) = store_with_one_issue(&[1]);
    let log = drain(&mut store, 2_000, |_, seen| {
        if seen == 0 {
            DeliveryAttempt::TransientFailure
        } else {
            DeliveryAttempt::Delivered
        }
    });
    assert_eq!(log.len(), 2);
    let row = store.get_issue(issue_id).unwrap();
    assert_eq!(row.delivered.len(), 1);
    assert_eq!(row.failed.len(), 0);
    assert!(row.delivered.contains(&SubscriberId(1)));
}

#[test]
fn three_transient_failures_then_success_gives_four_attempts_and_one_delivery() {
    // max_retries = 3, one confirmed subscriber, the transport fails three
    // times and succeeds on the fourth attempt.
    let (mut store, issue_id) = store_with_one_issue(&[42]);
    let log = drain(&mut store, 2_000, |_, seen| {
        if seen < 3 {
            DeliveryAttempt::TransientFailure
        } else {
            DeliveryAttempt::Delivered
        }
    });
    assert_eq!(log.len(), 4, "exactly 4 send attempts must be observed");
    let row = store.get_issue(issue_id).unwrap();
    assert_eq!(row.n_subscribers, 1);
    assert_eq!(row.delivered.len(), 1);
    assert_eq!(row.failed.len(), 0);
}

#[test]
fn invalid_subscriber_data_is_a_permanent_failure_without_retry() {
    let (mut store, issue_id) = store_with_one_issue(&[1]);
    let log = drain(&mut store, 2_000, |_, _| DeliveryAttempt::PermanentlyInvalid);
    assert_eq!(log.len(), 1, "a permanent failure is never retried");
    let row = store.get_issue(issue_id).unwrap();
    assert_eq!(row.delivered.len(), 0);
    assert_eq!(row.failed.len(), 1);
}

#[test]
fn decide_resolution_follows_the_retry_policy() {
    assert_eq!(
        decide_resolution(DeliveryAttempt::Delivered, 0, 3, 100, 50).unwrap(),
        TaskResolution::Completed
    );
    assert_eq!(
        decide_resolution(DeliveryAttempt::PermanentlyInvalid, 0, 3, 100, 50).unwrap(),
        TaskResolution::Failed
    );
    // A retried task becomes eligible at the claim time plus the delta.
    assert_eq!(
        decide_resolution(DeliveryAttempt::TransientFailure, 2, 3, 100, 50).unwrap(),
        TaskResolution::Retry { n_retries: 3, execute_after: 150 }
    );
    assert_eq!(
        decide_resolution(DeliveryAttempt::TransientFailure, 3, 3, 100, 50).unwrap(),
        TaskResolution::Failed
    );
    let overflowing = decide_resolution(DeliveryAttempt::TransientFailure, 0, 3, u64::MAX, 1);
    assert!(matches!(overflowing, Err(Error::UnexpectedError(_))));
}

#[test]
fn worker_backoff_grows_tenfold_up_to_ten_seconds_and_resets() {
    let mut backoff = WorkerBackoff::new();
    let postponed: Result<ExecutionOutcome, Error> = Ok(ExecutionOutcome::PostponedTasks);
    assert_eq!(backoff.next_sleep_ms(&postponed), 10);
    assert_eq!(backoff.next_sleep_ms(&postponed), 100);
    assert_eq!(backoff.next_sleep_ms(&postponed), 1_000);
    assert_eq!(backoff.next_sleep_ms(&postponed), 10_000);
    assert_eq!(backoff.next_sleep_ms(&postponed), 10_000, "capped at ten seconds");

    let completed: Result<ExecutionOutcome, Error> = Ok(ExecutionOutcome::TaskCompleted);
    assert_eq!(backoff.next_sleep_ms(&completed), 0, "no sleep after completed work");
    assert_eq!(backoff.next_sleep_ms(&postponed), 10, "completed work resets the wait");

    let empty: Result<ExecutionOutcome, Error> = Ok(ExecutionOutcome::EmptyQueue);
    assert_eq!(backoff.next_sleep_ms(&empty), 10_000);
    assert_eq!(backoff.current_wait_ms(), 10, "an empty queue resets the wait");

    backoff.next_sleep_ms(&postponed);
    let err: Result<ExecutionOutcome, Error> = Err(Error::LoginError);
    assert_eq!(backoff.next_sleep_ms(&err), 1_000);
    assert_eq!(backoff.current_wait_ms(), 10, "an error resets the wait");
}
