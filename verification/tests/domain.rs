//! Domain values: subscription tokens, subscriber status, and the error
//! taxonomy with its user-facing messages and dispositions.

use zero2prod::domain::{NewSubscriber, SubscriberToken, SubscriptionsStatus, TOKEN_LENGTH};
use zero2prod::error::{
    AppError, CredentialsError, Error, ErrorDisposition, SessionError, ValidationError,
};

#[test]
fn generated_subscription_tokens_are_25_alphanumeric_characters() {
    for _ in 0..16 {
        let token = SubscriberToken::generate_subscription_token();
        let s = token.as_str();
        assert_eq!(s.chars().count(), TOKEN_LENGTH);
        assert!(s.chars().all(|c| c.is_ascii_alphanumeric()));
        assert!(token.is_valid().is_ok());
    }
}

#[test]
fn a_well_formed_token_parses() {
    let s = "a".repeat(24) + "Z";
    let token = SubscriberToken::parse(s.clone()).unwrap();
    assert_eq!(token.as_str(), s);
    assert_eq!(token.is_valid().unwrap(), s);
}

#[test]
fn token_characters_may_be_alphanumeric_beyond_ascii() {
    let s: String = "é".repeat(TOKEN_LENGTH);
    assert!(SubscriberToken::parse(s).is_ok());
}

#[test]
fn tokens_of_the_wrong_length_or_with_symbols_are_rejected() {
    for bad in [
        String::new(),
        "a".repeat(TOKEN_LENGTH - 1),
        "a".repeat(TOKEN_LENGTH + 1),
        "a".repeat(TOKEN_LENGTH - 1) + "!",
        "a".repeat(TOKEN_LENGTH - 1) + " ",
    ] {
        let r = SubscriberToken::parse(bad.clone());
        match r {
            Err(ValidationError::InvalidToken(t)) => assert_eq!(t, bad),
            other => panic!("`{bad}` must be an invalid token, got {other:?}"),
        }
    }
}

#[test]
fn the_invalid_token_message_names_the_rejected_value() {
    let e = SubscriberToken::parse("abc".to_string()).unwrap_err();
    assert_eq!(e.message(), "`abc` is not a valid subscriber token.");
    assert_eq!(
        ValidationError::InvalidEmail("x@y".to_string()).message(),
        "`x@y` is not a valid subscriber email."
    );
    assert_eq!(
        ValidationError::InvalidName("<bad>".to_string()).message(),
        "`<bad>` is not a valid subscriber name."
    );
}

#[test]
fn subscription_status_maps_to_its_database_value() {
    assert_eq!(SubscriptionsStatus::PendingConfirmation.as_db_value(), "pending_confirmation");
    assert_eq!(SubscriptionsStatus::Confirmed.as_db_value(), "confirmed");
    assert_eq!(SubscriptionsStatus::Confirmed, SubscriptionsStatus::Confirmed);
    assert_ne!(SubscriptionsStatus::Confirmed, SubscriptionsStatus::PendingConfirmation);
}

#[test]
fn new_subscriber_carries_validated_contact_values() {
    let s = NewSubscriber { email: "ursula_le_guin@gmail.com".to_string(), name: "le guin".to_string() };
    assert_eq!(s.email, "ursula_le_guin@gmail.com");
    assert_eq!(s.name, "le guin");
}

#[test]
fn validation_errors_redirect_to_the_subscriptions_form() {
    let e = Error::SubscriptionError(ValidationError::InvalidName("le[guin".to_string()));
    match e.disposition() {
        ErrorDisposition::FlashRedirect { location, message } => {
            assert_eq!(location, "/subscriptions");
            assert_eq!(message, "`le[guin` is not a valid subscriber name.");
        }
        other => panic!("expected a flash redirect, got {other:?}"),
    }
    assert_eq!(e.message(), "Invalid input for subscription");
}

#[test]
fn login_and_session_errors_redirect_to_the_login_form() {
    let e = Error::LoginError;
    match e.disposition() {
        ErrorDisposition::FlashRedirect { location, message } => {
            assert_eq!(location, "/login");
            assert_eq!(message, "Failed Login Authentication");
        }
        other => panic!("expected a flash redirect, got {other:?}"),
    }
    let e = Error::SessionStateError(SessionError::UserNotLoggedIn);
    match e.disposition() {
        ErrorDisposition::FlashRedirect { location, message } => {
            assert_eq!(location, "/login");
            assert_eq!(message, "Session state error");
        }
        other => panic!("expected a flash redirect, got {other:?}"),
    }
}

#[test]
fn password_errors_redirect_to_the_password_form_or_fail_internally() {
    let e = Error::PasswordChangingError(CredentialsError::DifferentNewPasswords);
    match e.disposition() {
        ErrorDisposition::FlashRedirect { location, message } => {
            assert_eq!(location, "/admin/password");
            assert_eq!(
                message,
                "You entered two different new passwords - the field values must match."
            );
        }
        other => panic!("expected a flash redirect, got {other:?}"),
    }
    let e = Error::PasswordChangingError(CredentialsError::UnvalidNewPassword);
    match e.disposition() {
        ErrorDisposition::FlashRedirect { message, .. } => {
            assert_eq!(message, "The new password is unvalid.");
        }
        other => panic!("expected a flash redirect, got {other:?}"),
    }
    let e = Error::PasswordChangingError(CredentialsError::UnexpectedError("boom".to_string()));
    assert!(matches!(e.disposition(), ErrorDisposition::InternalServerError));
}

#[test]
fn bad_keys_are_bad_requests_and_unexpected_errors_are_internal() {
    assert!(matches!(Error::IdempotencyKeyError.disposition(), ErrorDisposition::BadRequest));
    assert_eq!(Error::IdempotencyKeyError.message(), "Wrong format of idempotency key");
    let e = Error::UnexpectedError("database gone".to_string());
    assert!(matches!(e.disposition(), ErrorDisposition::InternalServerError));
    assert_eq!(e.message(), "database gone");
}

#[test]
fn app_error_status_codes_follow_the_fault() {
    let bad_request = AppError::SubscriptionError(ValidationError::InvalidEmail("".to_string()));
    assert_eq!(bad_request.status_code(), 400);
    assert_eq!(AppError::UnexpectedError("boom".to_string()).status_code(), 500);
}
