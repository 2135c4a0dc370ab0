//! The publish-newsletter request: form validation, idempotent replay,
//! concurrent duplicates, and the responses and flash messages it answers
//! with.

use zero2prod::delivery::DeliveryStore;
use zero2prod::error::{Error, ErrorDisposition, NewsletterError};
use zero2prod::http::see_other;
use zero2prod::idempotency::{IdempotencyKey, IdempotencyStore, NextAction};
use zero2prod::publish::{publish_newsletter, publish_newsletter_with_fresh_id, NewsletterFormData};
use zero2prod::{IssueId, SubscriberId, UserId};

const KEY: &str = "550e8400-e29b-41d4-a716-446655440000";
const USER: UserId = UserId(11);

fn form(key: &str) -> NewsletterFormData {
    NewsletterFormData {
        title: "Newsletter title".to_string(),
        html_content: "<p>Newsletter body as HTML</p>".to_string(),
        text_content: "Newsletter body as plain text".to_string(),
        idempotency_key: key.to_string(),
    }
}

fn subscribers() -> Vec<SubscriberId> {
    vec![SubscriberId(1), SubscriberId(2)]
}

fn flash_of(e: &Error) -> (String, String) {
    match e.disposition() {
        ErrorDisposition::FlashRedirect { location, message } => (location, message),
        other => panic!("expected a flash redirect, got {other:?}"),
    }
}

#[test]
fn publishing_enqueues_the_fan_out_and_answers_with_a_redirect() {
    let mut delivery = DeliveryStore::new();
    let mut idem = IdempotencyStore::new();
    let subs = subscribers();
    let r = publish_newsletter(&mut delivery, &mut idem, USER, form(KEY), IssueId(1), 500, &subs)
        .unwrap();
    assert_eq!(r, see_other("/admin/newsletters"));
    assert_eq!(delivery.issue_count(), 1);
    assert_eq!(delivery.task_count(), 2);
    let row = delivery.get_issue(IssueId(1)).unwrap();
    assert_eq!(row.title, "Newsletter title");
    assert_eq!(row.n_subscribers, 2);
    assert_eq!(idem.record_count(), 1);
}

#[test]
fn newsletter_creation_is_idempotent() {
    // The same (user, key, body) submitted twice: one task set, and two
    // byte-identical responses — whatever issue id the retry draws.
    let mut delivery = DeliveryStore::new();
    let mut idem = IdempotencyStore::new();
    let subs = subscribers();
    let r1 = publish_newsletter(&mut delivery, &mut idem, USER, form(KEY), IssueId(1), 500, &subs)
        .unwrap();
    let r2 = publish_newsletter(&mut delivery, &mut idem, USER, form(KEY), IssueId(2), 900, &subs)
        .unwrap();
    assert_eq!(r1, r2, "both responses must be byte-identical");
    assert_eq!(delivery.issue_count(), 1, "exactly one issue row");
    assert_eq!(delivery.task_count(), 2, "exactly one task per confirmed subscriber");
    assert_eq!(idem.record_count(), 1);
    assert!(delivery.get_issue(IssueId(2)).is_none());
}

#[test]
fn concurrent_form_submission_is_handled_gracefully() {
    // Two concurrent requests with one key: the first wins the conditional
    // insert; the duplicate, arriving while the winner is still in flight,
    // changes nothing and gets the same redirect the winner will save.
    let mut delivery = DeliveryStore::new();
    let mut idem = IdempotencyStore::new();
    let subs = subscribers();
    let k = IdempotencyKey::parse(KEY.to_string()).unwrap();

    // The winner acquires the pair (its transaction is still open).
    assert!(matches!(idem.try_processing(USER, &k, 500), NextAction::StartProcessing));

    // The duplicate runs the whole handler meanwhile.
    let dup = publish_newsletter(&mut delivery, &mut idem, USER, form(KEY), IssueId(2), 510, &subs)
        .unwrap();
    assert_eq!(dup, see_other("/admin/newsletters"));
    assert_eq!(delivery.issue_count(), 0, "the duplicate must not enqueue");
    assert_eq!(idem.record_count(), 1);

    // The winner finishes its transaction.
    let n = delivery
        .enqueue_issue(
            IssueId(1),
            "Newsletter title".to_string(),
            "Newsletter body as plain text".to_string(),
            "<p>Newsletter body as HTML</p>".to_string(),
            500,
            &subs,
        )
        .unwrap();
    assert_eq!(n, 2);
    let winner = idem.save_response(USER, &k, see_other("/admin/newsletters")).unwrap();
    assert_eq!(winner, dup, "winner and duplicate answer identically");

    // A later retry replays the saved response; still one issue row and one
    // task per confirmed subscriber.
    let r3 = publish_newsletter(&mut delivery, &mut idem, USER, form(KEY), IssueId(3), 900, &subs)
        .unwrap();
    assert_eq!(r3, winner);
    assert_eq!(delivery.issue_count(), 1);
    assert_eq!(delivery.task_count(), 2);
}

#[test]
fn an_invalid_idempotency_key_is_rejected_before_any_storage_mutation() {
    let mut delivery = DeliveryStore::new();
    let mut idem = IdempotencyStore::new();
    let subs = subscribers();
    let r = publish_newsletter(
        &mut delivery,
        &mut idem,
        USER,
        form("not-a-uuid"),
        IssueId(1),
        500,
        &subs,
    );
    assert!(matches!(r, Err(Error::IdempotencyKeyError)));
    assert_eq!(idem.record_count(), 0, "the idempotency table must be untouched");
    assert_eq!(delivery.issue_count(), 0);
    assert_eq!(delivery.task_count(), 0);
}

#[test]
fn you_must_set_a_title_for_the_newsletter() {
    let mut delivery = DeliveryStore::new();
    let mut idem = IdempotencyStore::new();
    let mut f = form(KEY);
    f.title = String::new();
    let e = publish_newsletter(&mut delivery, &mut idem, USER, f, IssueId(1), 500, &subscribers())
        .unwrap_err();
    assert!(matches!(e, Error::NewsletterError(NewsletterError::NoTitle)));
    let (location, message) = flash_of(&e);
    assert_eq!(location, "/admin/newsletters");
    assert_eq!(message, "You must set a title for your newsletter.");
    assert_eq!(idem.record_count(), 0);
}

#[test]
fn you_must_set_text_content_for_the_newsletter() {
    let mut delivery = DeliveryStore::new();
    let mut idem = IdempotencyStore::new();
    let mut f = form(KEY);
    f.text_content = String::new();
    let e = publish_newsletter(&mut delivery, &mut idem, USER, f, IssueId(1), 500, &subscribers())
        .unwrap_err();
    assert!(matches!(e, Error::NewsletterError(NewsletterError::NoTextContent)));
    let (_, message) = flash_of(&e);
    assert_eq!(message, "You must set text content for your newsletter.");
}

#[test]
fn you_must_set_html_content_for_the_newsletter() {
    let mut delivery = DeliveryStore::new();
    let mut idem = IdempotencyStore::new();
    let mut f = form(KEY);
    f.html_content = String::new();
    let e = publish_newsletter(&mut delivery, &mut idem, USER, f, IssueId(1), 500, &subscribers())
        .unwrap_err();
    assert!(matches!(e, Error::NewsletterError(NewsletterError::NoHtmlContent)));
    let (_, message) = flash_of(&e);
    assert_eq!(message, "You must set html content for your newsletter.");
}

#[test]
fn an_issue_id_collision_fails_and_rolls_the_idempotency_record_back() {
    let mut delivery = DeliveryStore::new();
    let mut idem = IdempotencyStore::new();
    let subs = subscribers();
    publish_newsletter(&mut delivery, &mut idem, USER, form(KEY), IssueId(1), 500, &subs).unwrap();
    // A different key, but a colliding issue id.
    let other_key = "6ba7b810-9dad-11d1-80b4-00c04fd430c8";
    let r = publish_newsletter(
        &mut delivery,
        &mut idem,
        USER,
        form(other_key),
        IssueId(1),
        600,
        &subs,
    );
    assert!(matches!(r, Err(Error::UnexpectedError(_))));
    assert_eq!(idem.record_count(), 1, "the loser's in-progress record is rolled back");
    assert_eq!(delivery.issue_count(), 1);
    // The rolled-back key is free again.
    let r2 = publish_newsletter(
        &mut delivery,
        &mut idem,
        USER,
        form(other_key),
        IssueId(2),
        700,
        &subs,
    );
    assert!(r2.is_ok());
}

#[test]
fn publishing_with_a_fresh_issue_id_draws_a_usable_identity() {
    let mut delivery = DeliveryStore::new();
    let mut idem = IdempotencyStore::new();
    let subs = subscribers();
    let (issue_id, r) = publish_newsletter_with_fresh_id(
        &mut delivery,
        &mut idem,
        USER,
        form(KEY),
        500,
        &subs,
    );
    r.unwrap();
    let row = delivery.get_issue(issue_id).unwrap();
    assert_eq!(row.n_subscribers, 2);
}

#[test]
fn the_see_other_response_is_a_plain_redirect() {
    let r = see_other("/admin/newsletters");
    assert_eq!(r.status, 303);
    assert_eq!(r.headers.len(), 1);
    assert_eq!(r.headers[0].name, "Location");
    assert_eq!(r.headers[0].value, "/admin/newsletters");
    assert!(r.body.is_empty());
    assert_eq!(r.duplicate(), r);
}
