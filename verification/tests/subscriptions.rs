//! The subscription workflow: sign-up with duplicate recovery, confirmation,
//! unsubscribing, and the confirmed snapshot the delivery fan-out reads.

use zero2prod::domain::{NewSubscriber, SubscriberToken, SubscriptionsStatus};
use zero2prod::error::{Error, ValidationError};
use zero2prod::subscriptions::{
    confirmation_email_html, confirmation_email_text, confirmation_link, unsubscribe_link,
    SubscribeAction, SubscriptionsStore,
};
use zero2prod::SubscriberId;

fn token(fill: char) -> SubscriberToken {
    SubscriberToken::parse(fill.to_string().repeat(25)).expect("a 25-character alphanumeric token")
}

fn ursula() -> NewSubscriber {
    NewSubscriber { email: "ursula_le_guin@gmail.com".to_string(), name: "le guin".to_string() }
}

fn signed_up_store() -> (SubscriptionsStore, SubscriberId, SubscriberToken) {
    let mut store = SubscriptionsStore::new();
    let id = SubscriberId(1);
    let t = token('a');
    let action = store.subscribe(&ursula(), id, t.clone(), 100).unwrap();
    assert!(matches!(action, SubscribeAction::SendConfirmation(_)));
    (store, id, t)
}

#[test]
fn subscribing_stores_a_pending_subscriber_and_its_token() {
    let (store, id, _t) = signed_up_store();
    assert_eq!(store.subscriber_count(), 1);
    assert_eq!(store.token_count(), 1);
    assert_eq!(store.get_status_from_subscriber_id(id), Some(SubscriptionsStatus::PendingConfirmation));
    assert_eq!(store.get_subscriber_id_from_email(&ursula()), Some(id));
    let (name, email, subscribed_at) = store.get_subscriber_from_subscriber_id(id).unwrap();
    assert_eq!(name, "le guin");
    assert_eq!(email, "ursula_le_guin@gmail.com");
    assert_eq!(subscribed_at, 100);
}

#[test]
fn subscribing_twice_asks_for_the_same_confirmation_link() {
    // The second sign-up of a pending contact is answered with the token
    // already stored, so both confirmation emails carry the same link.
    let (mut store, _id, first_token) = signed_up_store();
    let action = store.subscribe(&ursula(), SubscriberId(2), token('b'), 200).unwrap();
    match action {
        SubscribeAction::SendConfirmation(t) => assert_eq!(t.as_str(), first_token.as_str()),
        other => panic!("expected a confirmation send, got {other:?}"),
    }
    assert_eq!(store.subscriber_count(), 1, "no second row for the same email");
    assert_eq!(store.token_count(), 1);
}

#[test]
fn subscribing_an_already_confirmed_email_needs_no_email() {
    let (mut store, _id, t) = signed_up_store();
    store.confirm(&t).unwrap();
    let action = store.subscribe(&ursula(), SubscriberId(2), token('b'), 200).unwrap();
    assert!(matches!(action, SubscribeAction::AlreadyConfirmed));
    assert_eq!(store.subscriber_count(), 1);
}

#[test]
fn a_colliding_drawn_identity_fails_the_sign_up_without_change() {
    let (mut store, id, _t) = signed_up_store();
    let other = NewSubscriber { email: "other@example.com".to_string(), name: "Other".to_string() };
    // Same subscriber id drawn again.
    let r = store.subscribe(&other, id, token('b'), 200);
    assert!(matches!(r, Err(Error::UnexpectedError(_))));
    assert_eq!(store.subscriber_count(), 1);
    assert_eq!(store.token_count(), 1);
}

#[test]
fn the_confirmation_link_confirms_a_pending_subscriber_once() {
    let (mut store, id, t) = signed_up_store();
    let (new_subscription, name, _email, _at) = store.confirm(&t).unwrap();
    assert!(new_subscription, "the first visit performs the confirmation");
    assert_eq!(name, "le guin");
    assert_eq!(store.get_status_from_subscriber_id(id), Some(SubscriptionsStatus::Confirmed));

    // A second visit is a welcome-back, not a second confirmation.
    let (new_subscription, _, _, _) = store.confirm(&t).unwrap();
    assert!(!new_subscription);
}

#[test]
fn confirmations_with_malformed_or_unknown_tokens_are_rejected() {
    let (mut store, id, _t) = signed_up_store();
    let unknown = token('z');
    match store.confirm(&unknown) {
        Err(Error::SubscriptionError(ValidationError::InvalidToken(s))) => {
            assert_eq!(s, "z".repeat(25));
        }
        other => panic!("an unknown token must be rejected, got {other:?}"),
    }
    assert_eq!(store.get_status_from_subscriber_id(id), Some(SubscriptionsStatus::PendingConfirmation));
}

#[test]
fn unsubscribing_removes_subscriber_and_token() {
    let (mut store, id, t) = signed_up_store();
    let (name, email) = store.unsubscribe(&t).unwrap();
    assert_eq!(name, "le guin");
    assert_eq!(email, "ursula_le_guin@gmail.com");
    assert_eq!(store.subscriber_count(), 0);
    assert_eq!(store.token_count(), 0);
    assert!(store.get_subscriber_from_subscriber_id(id).is_none());
    // The removed token no longer unsubscribes anyone.
    assert!(matches!(
        store.unsubscribe(&t),
        Err(Error::SubscriptionError(ValidationError::InvalidToken(_)))
    ));
}

#[test]
fn the_confirmed_snapshot_holds_exactly_the_confirmed_subscribers() {
    let mut store = SubscriptionsStore::new();
    let alice = NewSubscriber { email: "alice@example.com".to_string(), name: "Alice".to_string() };
    let bob = NewSubscriber { email: "bob@example.com".to_string(), name: "Bob".to_string() };
    let carol = NewSubscriber { email: "carol@example.com".to_string(), name: "Carol".to_string() };
    let ta = token('a');
    let tc = token('c');
    store.subscribe(&alice, SubscriberId(1), ta.clone(), 10).unwrap();
    store.subscribe(&bob, SubscriberId(2), token('b'), 20).unwrap();
    store.subscribe(&carol, SubscriberId(3), tc.clone(), 30).unwrap();
    store.confirm(&ta).unwrap();
    store.confirm(&tc).unwrap();

    let confirmed = store.confirmed_subscriber_ids();
    assert_eq!(confirmed, vec![SubscriberId(1), SubscriberId(3)]);
}

#[test]
fn stored_tokens_are_returned_for_pending_resends() {
    let (store, id, t) = signed_up_store();
    let stored = store.get_token_from_subscriber_id(id).unwrap();
    assert_eq!(stored.as_str(), t.as_str());
    assert_eq!(store.get_subscriber_id_from_token(&t), Some(id));
    assert!(store.get_token_from_subscriber_id(SubscriberId(99)).is_err());
}

#[test]
fn confirmation_links_and_email_bodies_are_exact() {
    let t = token('a');
    let link = confirmation_link("https://newsletter.example", &t);
    assert_eq!(
        link,
        format!("https://newsletter.example/subscriptions/confirm?subscription_token={}", "a".repeat(25))
    );
    let text = confirmation_email_text(&link);
    assert_eq!(
        text,
        format!("Welcome to our newsletter!\n\n        Visit {} to confirm your subscription.", link)
    );
    let html = confirmation_email_html(&link);
    assert_eq!(
        html,
        format!(
            "Welcome to our newsletter!<br />Click <a href=\"{}\">here</a> to confirm your subscription.",
            link
        )
    );
    assert_eq!(
        unsubscribe_link("https://newsletter.example", t.as_str()),
        format!(
            "https://newsletter.example/subscriptions/unsubscribe?subscription_token={}",
            "a".repeat(25)
        )
    );
}
