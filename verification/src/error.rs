//! Error taxonomy of the service, and how each error is answered to the
//! caller: validation errors carry a flash message and a redirect, malformed
//! idempotency keys a bad-request answer, everything unexpected an internal
//! server error.

use vstd::prelude::*;
use vstd::string::StringExecFns;

verus! {

/// Validation error for domain data.
#[derive(Debug)]
pub enum ValidationError {
    InvalidEmail(String),
    InvalidName(String),
    InvalidToken(String),
}

/// Rejections of a newsletter publication form.
#[derive(Debug)]
pub enum NewsletterError {
    NoTitle,
    NoTextContent,
    NoHtmlContent,
}

/// Failures of credential validation and password changing.
#[derive(Debug)]
pub enum CredentialsError {
    UnknownUsername,
    PasswordVerificationFailed(String),
    DifferentNewPasswords,
    UnvalidNewPassword,
    UnexpectedError(String),
}

/// Failures of the session layer.
#[derive(Debug)]
pub enum SessionError {
    UserNotLoggedIn,
    UserNotFound,
    SessionInsertError(String),
    SessionGetError(String),
}

/// The error type every fallible operation of the service returns.
#[derive(Debug)]
pub enum Error {
    SubscriptionError(ValidationError),
    LoginError,
    PasswordChangingError(CredentialsError),
    NewsletterError(NewsletterError),
    SessionStateError(SessionError),
    IdempotencyKeyError,
    UnexpectedError(String),
}

pub type Z2PResult<T> = Result<T, Error>;

/// The error type of the plain subscription API: a domain validation
/// rejection, or anything unexpected.
#[derive(Debug)]
pub enum AppError {
    SubscriptionError(ValidationError),
    UnexpectedError(String),
}

impl AppError {
    /// The HTTP status code the error is answered with: a validation
    /// rejection is the caller's fault, everything else the server's.
    pub fn status_code(&self) -> (r: u16)
        ensures
            self is SubscriptionError ==> r == 400,
            self is UnexpectedError ==> r == 500,
    {
        match self {
            AppError::SubscriptionError(_) => 400,
            AppError::UnexpectedError(_) => 500,
        }
    }
}

/// How an error is turned into an HTTP answer: a flash message followed by a
/// redirect, a plain bad-request answer, or an internal server error.
#[derive(Debug)]
pub enum ErrorDisposition {
    FlashRedirect { location: String, message: String },
    BadRequest,
    InternalServerError,
}

pub ghost enum DispositionView {
    FlashRedirect { location: Seq<char>, message: Seq<char> },
    BadRequest,
    InternalServerError,
}

impl View for ErrorDisposition {
    type V = DispositionView;

    open spec fn view(&self) -> DispositionView {
        match self {
            ErrorDisposition::FlashRedirect { location, message } => {
                DispositionView::FlashRedirect { location: location@, message: message@ }
            },
            ErrorDisposition::BadRequest => DispositionView::BadRequest,
            ErrorDisposition::InternalServerError => DispositionView::InternalServerError,
        }
    }
}

pub open spec fn validation_message(e: &ValidationError) -> Seq<char> {
    match e {
        ValidationError::InvalidEmail(s) => "`"@ + s@ + "` is not a valid subscriber email."@,
        ValidationError::InvalidName(s) => "`"@ + s@ + "` is not a valid subscriber name."@,
        ValidationError::InvalidToken(s) => "`"@ + s@ + "` is not a valid subscriber token."@,
    }
}

pub open spec fn newsletter_message(e: &NewsletterError) -> Seq<char> {
    match e {
        NewsletterError::NoTitle => "You must set a title for your newsletter."@,
        NewsletterError::NoTextContent => "You must set text content for your newsletter."@,
        NewsletterError::NoHtmlContent => "You must set html content for your newsletter."@,
    }
}

pub open spec fn credentials_message(e: &CredentialsError) -> Seq<char> {
    match e {
        CredentialsError::UnknownUsername => "Username could not be found."@,
        CredentialsError::PasswordVerificationFailed(_) => "Failed to verify password."@,
        CredentialsError::DifferentNewPasswords => {
            "You entered two different new passwords - the field values must match."@
        },
        CredentialsError::UnvalidNewPassword => "The new password is unvalid."@,
        CredentialsError::UnexpectedError(s) => s@,
    }
}

pub open spec fn session_message(e: &SessionError) -> Seq<char> {
    match e {
        SessionError::UserNotLoggedIn => "The user has not logged in."@,
        SessionError::UserNotFound => "User not found"@,
        SessionError::SessionInsertError(s) => s@,
        SessionError::SessionGetError(s) => s@,
    }
}

pub open spec fn error_message(e: &Error) -> Seq<char> {
    match e {
        Error::SubscriptionError(_) => "Invalid input for subscription"@,
        Error::LoginError => "Failed Login Authentication"@,
        Error::PasswordChangingError(_) => "Failure changing password"@,
        Error::NewsletterError(_) => "Unvalid input for Newsletter"@,
        Error::SessionStateError(_) => "Session state error"@,
        Error::IdempotencyKeyError => "Wrong format of idempotency key"@,
        Error::UnexpectedError(s) => s@,
    }
}

/// The answer each error variant is converted into: which errors redirect
/// where, with which flash message, and which are answered with a plain
/// status code.
pub open spec fn spec_disposition(e: &Error) -> DispositionView {
    match e {
        Error::SubscriptionError(v) => DispositionView::FlashRedirect {
            location: "/subscriptions"@,
            message: validation_message(v),
        },
        Error::IdempotencyKeyError => DispositionView::BadRequest,
        Error::LoginError => DispositionView::FlashRedirect {
            location: "/login"@,
            message: error_message(e),
        },
        Error::SessionStateError(_) => DispositionView::FlashRedirect {
            location: "/login"@,
            message: error_message(e),
        },
        Error::PasswordChangingError(CredentialsError::UnexpectedError(_)) => {
            DispositionView::InternalServerError
        },
        Error::PasswordChangingError(p) => DispositionView::FlashRedirect {
            location: "/admin/password"@,
            message: credentials_message(p),
        },
        Error::NewsletterError(n) => DispositionView::FlashRedirect {
            location: "/admin/newsletters"@,
            message: newsletter_message(n),
        },
        Error::UnexpectedError(_) => DispositionView::InternalServerError,
    }
}

impl ValidationError {
    /// The user-facing description of the rejected value.
    pub fn message(&self) -> (r: String)
        ensures
            r@ == validation_message(self),
    {
        match self {
            ValidationError::InvalidEmail(s) => {
                let mut m = String::from_str("`");
                m.append(s.as_str());
                m.append("` is not a valid subscriber email.");
                m
            },
            ValidationError::InvalidName(s) => {
                let mut m = String::from_str("`");
                m.append(s.as_str());
                m.append("` is not a valid subscriber name.");
                m
            },
            ValidationError::InvalidToken(s) => {
                let mut m = String::from_str("`");
                m.append(s.as_str());
                m.append("` is not a valid subscriber token.");
                m
            },
        }
    }
}

impl NewsletterError {
    /// The user-facing description of the missing form field.
    pub fn message(&self) -> (r: String)
        ensures
            r@ == newsletter_message(self),
    {
        match self {
            NewsletterError::NoTitle => String::from_str(
                "You must set a title for your newsletter.",
            ),
            NewsletterError::NoTextContent => String::from_str(
                "You must set text content for your newsletter.",
            ),
            NewsletterError::NoHtmlContent => String::from_str(
                "You must set html content for your newsletter.",
            ),
        }
    }
}

impl CredentialsError {
    /// The user-facing description of the credentials failure.
    pub fn message(&self) -> (r: String)
        ensures
            r@ == credentials_message(self),
    {
        match self {
            CredentialsError::UnknownUsername => String::from_str("Username could not be found."),
            CredentialsError::PasswordVerificationFailed(_) => String::from_str(
                "Failed to verify password.",
            ),
            CredentialsError::DifferentNewPasswords => String::from_str(
                "You entered two different new passwords - the field values must match.",
            ),
            CredentialsError::UnvalidNewPassword => String::from_str(
                "The new password is unvalid.",
            ),
            CredentialsError::UnexpectedError(s) => s.clone(),
        }
    }
}

impl SessionError {
    /// The user-facing description of the session failure.
    pub fn message(&self) -> (r: String)
        ensures
            r@ == session_message(self),
    {
        match self {
            SessionError::UserNotLoggedIn => String::from_str("The user has not logged in."),
            SessionError::UserNotFound => String::from_str("User not found"),
            SessionError::SessionInsertError(s) => s.clone(),
            SessionError::SessionGetError(s) => s.clone(),
        }
    }
}

impl Error {
    /// The user-facing description of the error.
    pub fn message(&self) -> (r: String)
        ensures
            r@ == error_message(self),
    {
        match self {
            Error::SubscriptionError(_) => String::from_str("Invalid input for subscription"),
            Error::LoginError => String::from_str("Failed Login Authentication"),
            Error::PasswordChangingError(_) => String::from_str("Failure changing password"),
            Error::NewsletterError(_) => String::from_str("Unvalid input for Newsletter"),
            Error::SessionStateError(_) => String::from_str("Session state error"),
            Error::IdempotencyKeyError => String::from_str("Wrong format of idempotency key"),
            Error::UnexpectedError(s) => s.clone(),
        }
    }

    /// How this error is answered over HTTP.
    pub fn disposition(&self) -> (r: ErrorDisposition)
        ensures
            r@ == spec_disposition(self),
    {
        match self {
            Error::SubscriptionError(v) => ErrorDisposition::FlashRedirect {
                location: String::from_str("/subscriptions"),
                message: v.message(),
            },
            Error::IdempotencyKeyError => ErrorDisposition::BadRequest,
            Error::LoginError => ErrorDisposition::FlashRedirect {
                location: String::from_str("/login"),
                message: self.message(),
            },
            Error::SessionStateError(_) => ErrorDisposition::FlashRedirect {
                location: String::from_str("/login"),
                message: self.message(),
            },
            Error::PasswordChangingError(CredentialsError::UnexpectedError(_)) => {
                ErrorDisposition::InternalServerError
            },
            Error::PasswordChangingError(p) => ErrorDisposition::FlashRedirect {
                location: String::from_str("/admin/password"),
                message: p.message(),
            },
            Error::NewsletterError(n) => ErrorDisposition::FlashRedirect {
                location: String::from_str("/admin/newsletters"),
                message: n.message(),
            },
            Error::UnexpectedError(_) => ErrorDisposition::InternalServerError,
        }
    }
}

} // verus!
