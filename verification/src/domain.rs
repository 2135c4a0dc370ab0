//! Domain values of the subscription workflow: subscription tokens, the
//! subscriber data carried through the sign-up flow, and the confirmation
//! status a subscriber can be in.

use vstd::prelude::*;
use vstd::string::StrSliceExecFns;
use crate::error::ValidationError;

verus! {

/// Whether a character counts as alphanumeric under Unicode; the result of
/// `char::is_alphanumeric` on it.
pub uninterp spec fn unicode_alphanumeric(c: char) -> bool;

/// Relies on char::is_alphanumeric: the result depends on the character
/// alone.
pub assume_specification[ char::is_alphanumeric ](c: char) -> (r: bool)
    ensures
        r == unicode_alphanumeric(c),
;

/// Relies on String::push: appends the character to the end of the string.
pub assume_specification[ String::push ](s: &mut String, c: char)
    ensures
        final(s)@ == old(s)@.push(c),
;

#[verifier::external_type_specification]
#[verifier::external_body]
pub struct ExThreadRng(rand::rngs::ThreadRng);

/// Relies on rand::thread_rng: a handle to the thread-local random number
/// generator.
#[verifier::external_body]
fn fresh_rng() -> rand::rngs::ThreadRng {
    rand::thread_rng()
}

/// An ASCII letter or digit.
pub open spec fn ascii_alphanumeric(c: char) -> bool {
    ('0' <= c && c <= '9') || ('A' <= c && c <= 'Z') || ('a' <= c && c <= 'z')
}

/// Relies on rand's `Alphanumeric` distribution: every sampled value is one
/// of the ASCII letters or digits, all of which are alphanumeric characters.
#[verifier::external_body]
fn sample_alphanumeric_char(rng: &mut rand::rngs::ThreadRng) -> (c: char)
    ensures
        ascii_alphanumeric(c),
        unicode_alphanumeric(c),
{
    char::from(rand::Rng::sample(rng, rand::distributions::Alphanumeric))
}

/// The number of characters of every subscription token.
pub const TOKEN_LENGTH: usize = 25;

pub open spec fn valid_token_chars(s: Seq<char>) -> bool {
    forall|i: int| 0 <= i < s.len() ==> unicode_alphanumeric(#[trigger] s[i])
}

/// A well-formed subscription token: exactly `TOKEN_LENGTH` alphanumeric
/// characters.
pub open spec fn is_valid_token(s: Seq<char>) -> bool {
    s.len() == TOKEN_LENGTH && valid_token_chars(s)
}

/// The token a subscriber receives by mail and presents to confirm or cancel
/// the subscription.
#[derive(Debug, Clone)]
pub struct SubscriberToken {
    subscription_token: String,
}

impl View for SubscriberToken {
    type V = Seq<char>;

    closed spec fn view(&self) -> Seq<char> {
        self.subscription_token@
    }
}

impl SubscriberToken {
    /// Generate a random `TOKEN_LENGTH`-characters-long case-sensitive
    /// subscription token: every character is an ASCII letter or digit.
    pub fn generate_subscription_token() -> (t: Self)
        ensures
            is_valid_token(t@),
            forall|i: int| 0 <= i < t@.len() ==> ascii_alphanumeric(#[trigger] t@[i]),
    {
        let mut rng = fresh_rng();
        let mut s = String::new();
        let mut i: usize = 0;
        while i < TOKEN_LENGTH
            invariant
                i <= TOKEN_LENGTH,
                s@.len() == i,
                valid_token_chars(s@),
                forall|j: int| 0 <= j < s@.len() ==> ascii_alphanumeric(#[trigger] s@[j]),
            decreases TOKEN_LENGTH - i,
        {
            let c = sample_alphanumeric_char(&mut rng);
            s.push(c);
            i += 1;
        }
        SubscriberToken { subscription_token: s }
    }

    /// Check that the token has exactly `TOKEN_LENGTH` characters, all of
    /// them alphanumeric.
    pub fn is_valid(&self) -> (r: Result<&str, ValidationError>)
        ensures
            (r is Ok) == is_valid_token(self@),
            r matches Ok(s) ==> s@ == self@,
            r matches Err(e) ==> e matches ValidationError::InvalidToken(t) && t@ == self@,
    {
        let s = self.subscription_token.as_str();
        let n = s.unicode_len();
        if n != TOKEN_LENGTH {
            return Err(ValidationError::InvalidToken(self.subscription_token.clone()));
        }
        let mut i: usize = 0;
        while i < n
            invariant
                n == self@.len(),
                i <= n,
                s@ == self@,
                forall|j: int| 0 <= j < i ==> unicode_alphanumeric(#[trigger] self@[j]),
            decreases n - i,
        {
            let c = s.get_char(i);
            if !c.is_alphanumeric() {
                return Err(ValidationError::InvalidToken(self.subscription_token.clone()));
            }
            i += 1;
        }
        Ok(s)
    }

    /// Parse a string as a subscription token.
    pub fn parse(s: String) -> (r: Result<SubscriberToken, ValidationError>)
        ensures
            (r is Ok) == is_valid_token(s@),
            r matches Ok(t) ==> t@ == s@,
            r matches Err(e) ==> e matches ValidationError::InvalidToken(t) && t@ == s@,
    {
        let subscription_token = SubscriberToken { subscription_token: s };
        match subscription_token.is_valid() {
            Ok(_) => Ok(subscription_token),
            Err(e) => Err(e),
        }
    }

    /// The token's characters.
    pub fn as_str(&self) -> (r: &str)
        ensures
            r@ == self@,
    {
        self.subscription_token.as_str()
    }
}

/// Contact data of a subscriber entering the sign-up flow. Email and name
/// are validated by a collaborator before they reach this library and are
/// carried here as opaque validated values.
#[derive(Debug, Clone)]
pub struct NewSubscriber {
    pub email: String,
    pub name: String,
}

/// The confirmation status a subscriber's row is in.
#[derive(Debug, Clone, Copy, PartialEq, Eq, Structural)]
pub enum SubscriptionsStatus {
    PendingConfirmation,
    Confirmed,
}

impl SubscriptionsStatus {
    /// The value under which the status is persisted.
    pub fn as_db_value(&self) -> (r: &'static str)
        ensures
            self is PendingConfirmation ==> r@ == "pending_confirmation"@,
            self is Confirmed ==> r@ == "confirmed"@,
    {
        match self {
            SubscriptionsStatus::PendingConfirmation => "pending_confirmation",
            SubscriptionsStatus::Confirmed => "confirmed",
        }
    }
}

} // verus!
