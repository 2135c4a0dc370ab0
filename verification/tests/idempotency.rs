//! The idempotency key and store: key syntax, the conditional-insert race,
//! response replay, rollback and the background sweep.

use zero2prod::error::Error;
use zero2prod::http::see_other;
use zero2prod::idempotency::{IdempotencyKey, IdempotencyStore, NextAction};
use zero2prod::UserId;

const KEY: &str = "550e8400-e29b-41d4-a716-446655440000";

fn key(s: &str) -> IdempotencyKey {
    IdempotencyKey::parse(s.to_string()).expect("a valid UUID string")
}

#[test]
fn a_uuid_string_is_a_valid_idempotency_key() {
    let k = key(KEY);
    assert_eq!(k.as_str(), KEY);
    assert_eq!(k.clone().into_string(), KEY.to_string());
    // The uuid crate also accepts the simple (hyphen-free) form.
    assert!(IdempotencyKey::parse("550e8400e29b41d4a716446655440000".to_string()).is_ok());
}

#[test]
fn a_key_that_is_not_a_uuid_is_rejected() {
    for bad in ["not-a-uuid", "", "550e8400-e29b-41d4-a716-44665544000g", "abc"] {
        let r = IdempotencyKey::parse(bad.to_string());
        assert!(
            matches!(r, Err(Error::IdempotencyKeyError)),
            "`{bad}` must be rejected as an idempotency key"
        );
    }
}

#[test]
fn first_try_processing_wins_and_inserts_an_in_progress_record() {
    let mut store = IdempotencyStore::new();
    let user = UserId(1);
    let k = key(KEY);
    assert!(matches!(store.try_processing(user, &k, 100), NextAction::StartProcessing));
    assert_eq!(store.record_count(), 1);
    assert!(store.get_saved_response(user, &k).is_none(), "still in progress");
}

#[test]
fn concurrent_duplicate_is_told_to_stand_back() {
    let mut store = IdempotencyStore::new();
    let user = UserId(1);
    let k = key(KEY);
    assert!(matches!(store.try_processing(user, &k, 100), NextAction::StartProcessing));
    // The same pair again, before the winner saved its response.
    assert!(matches!(store.try_processing(user, &k, 150), NextAction::TryLater));
    assert_eq!(store.record_count(), 1, "the duplicate must not insert a second record");
}

#[test]
fn a_completed_record_replays_the_saved_response_verbatim() {
    let mut store = IdempotencyStore::new();
    let user = UserId(1);
    let k = key(KEY);
    store.try_processing(user, &k, 100);
    let response = see_other("/admin/newsletters");
    let saved = store.save_response(user, &k, response.duplicate()).unwrap();
    assert_eq!(saved, response);
    match store.try_processing(user, &k, 200) {
        NextAction::ReturnSavedResponse(replayed) => assert_eq!(replayed, response),
        other => panic!("expected the saved response, got a different action: {other:?}"),
    }
    assert_eq!(store.get_saved_response(user, &k).unwrap(), &response);
}

#[test]
fn distinct_users_or_keys_do_not_share_records() {
    let mut store = IdempotencyStore::new();
    let k = key(KEY);
    let k2 = key("6ba7b810-9dad-11d1-80b4-00c04fd430c8");
    store.try_processing(UserId(1), &k, 100);
    assert!(matches!(store.try_processing(UserId(2), &k, 100), NextAction::StartProcessing));
    assert!(matches!(store.try_processing(UserId(1), &k2, 100), NextAction::StartProcessing));
    assert_eq!(store.record_count(), 3);
}

#[test]
fn save_response_without_an_acquired_pair_fails() {
    let mut store = IdempotencyStore::new();
    let user = UserId(1);
    let k = key(KEY);
    let r = store.save_response(user, &k, see_other("/admin/newsletters"));
    assert!(matches!(r, Err(Error::UnexpectedError(_))));
    // Completing twice fails too: the second save finds no in-progress record.
    store.try_processing(user, &k, 100);
    store.save_response(user, &k, see_other("/admin/newsletters")).unwrap();
    let again = store.save_response(user, &k, see_other("/admin/newsletters"));
    assert!(matches!(again, Err(Error::UnexpectedError(_))));
}

#[test]
fn remove_record_rolls_back_the_conditional_insert() {
    let mut store = IdempotencyStore::new();
    let user = UserId(1);
    let k = key(KEY);
    store.try_processing(user, &k, 100);
    assert!(store.remove_record(user, &k));
    assert_eq!(store.record_count(), 0);
    assert!(!store.remove_record(user, &k), "nothing left to remove");
    assert!(matches!(store.try_processing(user, &k, 200), NextAction::StartProcessing));
}

#[test]
fn outlived_records_are_swept_and_fresh_ones_kept() {
    let mut store = IdempotencyStore::new();
    let k_old = key(KEY);
    let k_fresh = key("6ba7b810-9dad-11d1-80b4-00c04fd430c8");
    store.try_processing(UserId(1), &k_old, 0);
    store.try_processing(UserId(1), &k_fresh, 100_000);
    let lifetime_ms: u64 = 600_000;
    let removed = store.delete_outlived_idempotency_key(700_000, lifetime_ms);
    assert_eq!(removed, 1, "only the record older than the lifetime goes");
    assert_eq!(store.record_count(), 1);
    assert!(matches!(store.try_processing(UserId(1), &k_old, 700_001), NextAction::StartProcessing));
    assert!(matches!(store.try_processing(UserId(1), &k_fresh, 700_001), NextAction::TryLater));
}

#[test]
fn the_sweep_keeps_everything_while_no_record_is_outlived() {
    let mut store = IdempotencyStore::new();
    store.try_processing(UserId(1), &key(KEY), 50);
    let removed = store.delete_outlived_idempotency_key(100, 600_000);
    assert_eq!(removed, 0);
    assert_eq!(store.record_count(), 1);
}
