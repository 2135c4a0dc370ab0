//! The subscriber store: the subscriptions table with its double-opt-in
//! status and the subscription-tokens table, and the sign-up, confirmation
//! and unsubscribe flows that work on them. The confirmed subscribers read
//! here are the snapshot a published issue fans out to.

use vstd::prelude::*;
use vstd::pervasive::unreached;
use vstd::string::StringExecFns;
use crate::domain::{NewSubscriber, SubscriberToken, SubscriptionsStatus, is_valid_token};
use crate::error::{Error, ValidationError};
use crate::delivery::distinct_subscribers;
use crate::SubscriberId;

verus! {

/// One row of the subscriptions table.
#[derive(Debug)]
pub struct SubscriberRow {
    pub id: SubscriberId,
    pub email: String,
    pub name: String,
    pub subscribed_at: u64,
    pub status: SubscriptionsStatus,
}

#[verifier::ext_equal]
pub ghost struct SubscriberRowView {
    pub id: SubscriberId,
    pub email: Seq<char>,
    pub name: Seq<char>,
    pub subscribed_at: u64,
    pub status: SubscriptionsStatus,
}

impl View for SubscriberRow {
    type V = SubscriberRowView;

    open spec fn view(&self) -> SubscriberRowView {
        SubscriberRowView {
            id: self.id,
            email: self.email@,
            name: self.name@,
            subscribed_at: self.subscribed_at,
            status: self.status,
        }
    }
}

/// One row of the subscription-tokens table.
#[derive(Debug)]
pub struct TokenRow {
    pub subscription_token: String,
    pub subscriber_id: SubscriberId,
}

#[verifier::ext_equal]
pub ghost struct TokenRowView {
    pub token: Seq<char>,
    pub subscriber_id: SubscriberId,
}

impl View for TokenRow {
    type V = TokenRowView;

    open spec fn view(&self) -> TokenRowView {
        TokenRowView { token: self.subscription_token@, subscriber_id: self.subscriber_id }
    }
}

/// The two tables of the subscription workflow.
pub struct SubscriptionsStore {
    subscribers: Vec<SubscriberRow>,
    tokens: Vec<TokenRow>,
}

#[verifier::ext_equal]
pub ghost struct SubscriptionsView {
    pub subscribers: Seq<SubscriberRowView>,
    pub tokens: Seq<TokenRowView>,
}

impl View for SubscriptionsStore {
    type V = SubscriptionsView;

    closed spec fn view(&self) -> SubscriptionsView {
        SubscriptionsView {
            subscribers: self.subscribers@.map_values(|r: SubscriberRow| r@),
            tokens: self.tokens@.map_values(|r: TokenRow| r@),
        }
    }
}

pub open spec fn has_subscriber(s: Seq<SubscriberRowView>, id: SubscriberId) -> bool {
    exists|i: int| 0 <= i < s.len() && s[i].id == id
}

pub open spec fn subscriber_index(s: Seq<SubscriberRowView>, id: SubscriberId) -> int {
    choose|i: int| 0 <= i < s.len() && s[i].id == id
}

pub open spec fn has_email(s: Seq<SubscriberRowView>, email: Seq<char>) -> bool {
    exists|i: int| 0 <= i < s.len() && s[i].email == email
}

pub open spec fn email_index(s: Seq<SubscriberRowView>, email: Seq<char>) -> int {
    choose|i: int| 0 <= i < s.len() && s[i].email == email
}

pub open spec fn has_token_string(t: Seq<TokenRowView>, token: Seq<char>) -> bool {
    exists|i: int| 0 <= i < t.len() && t[i].token == token
}

pub open spec fn token_string_index(t: Seq<TokenRowView>, token: Seq<char>) -> int {
    choose|i: int| 0 <= i < t.len() && t[i].token == token
}

pub open spec fn has_token_for(t: Seq<TokenRowView>, id: SubscriberId) -> bool {
    exists|i: int| 0 <= i < t.len() && t[i].subscriber_id == id
}

pub open spec fn token_index_for(t: Seq<TokenRowView>, id: SubscriberId) -> int {
    choose|i: int| 0 <= i < t.len() && t[i].subscriber_id == id
}

/// Well-formedness of the subscription tables: subscriber ids and emails are
/// unique; token strings are unique and each subscriber holds at most one
/// token; every token's subscriber exists.
pub open spec fn subs_inv(v: SubscriptionsView) -> bool {
    &&& forall|i: int, j: int|
        0 <= i < j < v.subscribers.len() ==> (#[trigger] v.subscribers[i]).id != (
        #[trigger] v.subscribers[j]).id && v.subscribers[i].email != v.subscribers[j].email
    &&& forall|i: int, j: int|
        0 <= i < j < v.tokens.len() ==> (#[trigger] v.tokens[i]).token != (
        #[trigger] v.tokens[j]).token && v.tokens[i].subscriber_id != v.tokens[j].subscriber_id
    &&& forall|i: int|
        0 <= i < v.tokens.len() ==> has_subscriber(v.subscribers, (#[trigger] v.tokens[i]).subscriber_id)
}

proof fn lemma_subscriber_index_unique(s: Seq<SubscriberRowView>, id: SubscriberId, i: int)
    requires
        forall|a: int, b: int|
            0 <= a < b < s.len() ==> (#[trigger] s[a]).id != (#[trigger] s[b]).id,
        0 <= i < s.len(),
        s[i].id == id,
    ensures
        subscriber_index(s, id) == i,
{
    let j = subscriber_index(s, id);
    assert(0 <= j < s.len() && s[j].id == id);
}

proof fn lemma_email_index_unique(s: Seq<SubscriberRowView>, email: Seq<char>, i: int)
    requires
        forall|a: int, b: int|
            0 <= a < b < s.len() ==> (#[trigger] s[a]).email != (#[trigger] s[b]).email,
        0 <= i < s.len(),
        s[i].email == email,
    ensures
        email_index(s, email) == i,
{
    let j = email_index(s, email);
    assert(0 <= j < s.len() && s[j].email == email);
}

proof fn lemma_token_index_unique(t: Seq<TokenRowView>, id: SubscriberId, i: int)
    requires
        forall|a: int, b: int|
            0 <= a < b < t.len() ==> (#[trigger] t[a]).subscriber_id != (
            #[trigger] t[b]).subscriber_id,
        0 <= i < t.len(),
        t[i].subscriber_id == id,
    ensures
        token_index_for(t, id) == i,
{
    let j = token_index_for(t, id);
    assert(0 <= j < t.len() && t[j].subscriber_id == id);
}

/// Why the sign-up transaction could not insert its rows: the email already
/// has a subscription (the recoverable duplicate-sign-up case, a unique
/// violation on the email column), or a freshly drawn identity — subscriber
/// id or token string — collided with a stored one.
#[derive(Debug)]
pub enum SubscribeTxError {
    EmailTaken,
    IdentityTaken,
}

impl SubscriptionsStore {
    /// The empty pair of tables.
    pub fn new() -> (r: Self)
        ensures
            r@.subscribers == Seq::<SubscriberRowView>::empty(),
            r@.tokens == Seq::<TokenRowView>::empty(),
            subs_inv(r@),
    {
        let r = SubscriptionsStore { subscribers: Vec::new(), tokens: Vec::new() };
        proof {
            assert(r@.subscribers =~= Seq::<SubscriberRowView>::empty());
            assert(r@.tokens =~= Seq::<TokenRowView>::empty());
        }
        r
    }

    /// How many subscribers are stored, in any status.
    pub fn subscriber_count(&self) -> (r: usize)
        ensures
            r == self@.subscribers.len(),
    {
        self.subscribers.len()
    }

    /// How many subscription tokens are stored.
    pub fn token_count(&self) -> (r: usize)
        ensures
            r == self@.tokens.len(),
    {
        self.tokens.len()
    }

    fn find_subscriber(&self, id: SubscriberId) -> (r: Option<usize>)
        ensures
            r matches Some(i) ==> 0 <= i < self@.subscribers.len()
                && self@.subscribers[i as int].id == id,
            r is None ==> !has_subscriber(self@.subscribers, id),
    {
        let mut i: usize = 0;
        let n = self.subscribers.len();
        while i < n
            invariant
                n == self@.subscribers.len(),
                i <= n,
                forall|j: int| 0 <= j < i ==> (#[trigger] self@.subscribers[j]).id != id,
            decreases n - i,
        {
            if self.subscribers[i].id.0 == id.0 {
                return Some(i);
            }
            i += 1;
        }
        None
    }

    fn find_email(&self, email: &String) -> (r: Option<usize>)
        ensures
            r matches Some(i) ==> 0 <= i < self@.subscribers.len()
                && self@.subscribers[i as int].email == email@,
            r is None ==> !has_email(self@.subscribers, email@),
    {
        let mut i: usize = 0;
        let n = self.subscribers.len();
        while i < n
            invariant
                n == self@.subscribers.len(),
                i <= n,
                forall|j: int| 0 <= j < i ==> (#[trigger] self@.subscribers[j]).email != email@,
            decreases n - i,
        {
            if self.subscribers[i].email == *email {
                return Some(i);
            }
            i += 1;
        }
        None
    }

    fn find_token_string(&self, token: &String) -> (r: Option<usize>)
        ensures
            r matches Some(i) ==> 0 <= i < self@.tokens.len() && self@.tokens[i as int].token
                == token@,
            r is None ==> !has_token_string(self@.tokens, token@),
    {
        let mut i: usize = 0;
        let n = self.tokens.len();
        while i < n
            invariant
                n == self@.tokens.len(),
                i <= n,
                forall|j: int| 0 <= j < i ==> (#[trigger] self@.tokens[j]).token != token@,
            decreases n - i,
        {
            if self.tokens[i].subscription_token == *token {
                return Some(i);
            }
            i += 1;
        }
        None
    }

    fn find_token_for(&self, id: SubscriberId) -> (r: Option<usize>)
        ensures
            r matches Some(i) ==> 0 <= i < self@.tokens.len()
                && self@.tokens[i as int].subscriber_id == id,
            r is None ==> !has_token_for(self@.tokens, id),
    {
        let mut i: usize = 0;
        let n = self.tokens.len();
        while i < n
            invariant
                n == self@.tokens.len(),
                i <= n,
                forall|j: int| 0 <= j < i ==> (#[trigger] self@.tokens[j]).subscriber_id != id,
            decreases n - i,
        {
            if self.tokens[i].subscriber_id.0 == id.0 {
                return Some(i);
            }
            i += 1;
        }
        None
    }

    /// Insert a new pending subscriber. Fails without change when the email
    /// already has a subscription (the unique violation the sign-up flow
    /// recovers from) or when the drawn subscriber id is taken.
    pub fn insert_subscriber(
        &mut self,
        subscriber_id: SubscriberId,
        email: String,
        name: String,
        now: u64,
    ) -> (r: Result<(), SubscribeTxError>)
        requires
            subs_inv(old(self)@),
        ensures
            subs_inv(final(self)@),
            final(self)@.tokens == old(self)@.tokens,
            has_email(old(self)@.subscribers, email@) ==> (r matches Err(
                SubscribeTxError::EmailTaken,
            )) && final(self)@ == old(self)@,
            !has_email(old(self)@.subscribers, email@) && has_subscriber(
                old(self)@.subscribers,
                subscriber_id,
            ) ==> (r matches Err(SubscribeTxError::IdentityTaken)) && final(self)@ == old(self)@,
            !has_email(old(self)@.subscribers, email@) && !has_subscriber(
                old(self)@.subscribers,
                subscriber_id,
            ) ==> r is Ok && final(self)@.subscribers == old(self)@.subscribers.push(
                (SubscriberRowView {
                    id: subscriber_id,
                    email: email@,
                    name: name@,
                    subscribed_at: now,
                    status: SubscriptionsStatus::PendingConfirmation,
                }),
            ),
    {
        if self.find_email(&email).is_some() {
            return Err(SubscribeTxError::EmailTaken);
        }
        if self.find_subscriber(subscriber_id).is_some() {
            return Err(SubscribeTxError::IdentityTaken);
        }
        let ghost oldv = self@;
        self.subscribers.push(
            SubscriberRow {
                id: subscriber_id,
                email,
                name,
                subscribed_at: now,
                status: SubscriptionsStatus::PendingConfirmation,
            },
        );
        proof {
            assert(self@.subscribers =~= oldv.subscribers.push(
                (SubscriberRowView {
                    id: subscriber_id,
                    email: self.subscribers@.last().email@,
                    name: self.subscribers@.last().name@,
                    subscribed_at: now,
                    status: SubscriptionsStatus::PendingConfirmation,
                }),
            ));
            assert(self@.tokens =~= oldv.tokens);
            assert forall|i: int|
                0 <= i < self@.tokens.len() implies has_subscriber(
                self@.subscribers,
                (#[trigger] self@.tokens[i]).subscriber_id,
            ) by {
                let k = choose|k: int|
                    0 <= k < oldv.subscribers.len() && oldv.subscribers[k].id
                        == oldv.tokens[i].subscriber_id;
                assert(self@.subscribers[k].id == self@.tokens[i].subscriber_id);
            }
        }
        Ok(())
    }

    /// Store the confirmation token drawn for a subscriber. Fails without
    /// change when the token string is taken, the subscriber already holds a
    /// token, or the subscriber does not exist.
    pub fn store_token(&mut self, subscriber_id: SubscriberId, token: &SubscriberToken) -> (r:
        Result<(), SubscribeTxError>)
        requires
            subs_inv(old(self)@),
        ensures
            subs_inv(final(self)@),
            final(self)@.subscribers == old(self)@.subscribers,
            ({
                let fresh = !has_token_string(old(self)@.tokens, token@) && !has_token_for(
                    old(self)@.tokens,
                    subscriber_id,
                ) && has_subscriber(old(self)@.subscribers, subscriber_id);
                if fresh {
                    r is Ok && final(self)@.tokens == old(self)@.tokens.push(
                        (TokenRowView { token: token@, subscriber_id }),
                    )
                } else {
                    (r matches Err(SubscribeTxError::IdentityTaken)) && final(self)@ == old(self)@
                }
            }),
    {
        let token_string = token.as_str().to_owned();
        if self.find_token_string(&token_string).is_some() {
            return Err(SubscribeTxError::IdentityTaken);
        }
        if self.find_token_for(subscriber_id).is_some() {
            return Err(SubscribeTxError::IdentityTaken);
        }
        if self.find_subscriber(subscriber_id).is_none() {
            return Err(SubscribeTxError::IdentityTaken);
        }
        let ghost oldv = self@;
        self.tokens.push(TokenRow { subscription_token: token_string, subscriber_id });
        proof {
            assert(self@.tokens =~= oldv.tokens.push((TokenRowView { token: token@, subscriber_id })));
            assert(self@.subscribers =~= oldv.subscribers);
        }
        Ok(())
    }

    /// The sign-up transaction: insert the subscriber and the token drawn
    /// for it as one atomic unit — either both rows appear or none does.
    pub fn subscribe_transaction(
        &mut self,
        new_subscriber: &NewSubscriber,
        subscriber_id: SubscriberId,
        token: &SubscriberToken,
        now: u64,
    ) -> (r: Result<(), SubscribeTxError>)
        requires
            subs_inv(old(self)@),
        ensures
            subs_inv(final(self)@),
            (r matches Err(SubscribeTxError::EmailTaken)) == has_email(
                old(self)@.subscribers,
                new_subscriber.email@,
            ),
            has_email(old(self)@.subscribers, new_subscriber.email@) ==> final(self)@ == old(
                self,
            )@,
            !has_email(old(self)@.subscribers, new_subscriber.email@) && (has_subscriber(
                old(self)@.subscribers,
                subscriber_id,
            ) || has_token_string(old(self)@.tokens, token@)) ==> (r matches Err(
                SubscribeTxError::IdentityTaken,
            )) && final(self)@ == old(self)@,
            ({
                let fresh = !has_email(old(self)@.subscribers, new_subscriber.email@)
                    && !has_subscriber(old(self)@.subscribers, subscriber_id) && !has_token_string(
                    old(self)@.tokens,
                    token@,
                );
                fresh ==> r is Ok && final(self)@.subscribers == old(self)@.subscribers.push(
                    (SubscriberRowView {
                        id: subscriber_id,
                        email: new_subscriber.email@,
                        name: new_subscriber.name@,
                        subscribed_at: now,
                        status: SubscriptionsStatus::PendingConfirmation,
                    }),
                ) && final(self)@.tokens == old(self)@.tokens.push(
                    (TokenRowView { token: token@, subscriber_id }),
                )
            }),
            r is Err ==> final(self)@ == old(self)@,
    {
        // All conditional checks run before either insert, so a failing
        // transaction leaves no partial state behind.
        if self.find_email(&new_subscriber.email).is_some() {
            return Err(SubscribeTxError::EmailTaken);
        }
        if self.find_subscriber(subscriber_id).is_some() {
            return Err(SubscribeTxError::IdentityTaken);
        }
        let token_string = token.as_str().to_owned();
        if self.find_token_string(&token_string).is_some() {
            return Err(SubscribeTxError::IdentityTaken);
        }
        let email = new_subscriber.email.clone();
        let name = new_subscriber.name.clone();
        match self.insert_subscriber(subscriber_id, email, name, now) {
            Ok(()) => {},
            Err(_) => {
                return unreached();
            },
        }
        proof {
            let v1 = self@;
            assert(v1.subscribers[v1.subscribers.len() - 1].id == subscriber_id);
            assert(has_subscriber(v1.subscribers, subscriber_id));
            if has_token_for(v1.tokens, subscriber_id) {
                let i = choose|i: int|
                    0 <= i < old(self)@.tokens.len() && old(self)@.tokens[i].subscriber_id
                        == subscriber_id;
                assert(has_subscriber(old(self)@.subscribers, (old(self)@.tokens[i]).subscriber_id));
            }
        }
        match self.store_token(subscriber_id, token) {
            Ok(()) => Ok(()),
            Err(_) => unreached(),
        }
    }

    /// The subscriber id the contact's email is registered under, if any.
    pub fn get_subscriber_id_from_email(&self, new_subscriber: &NewSubscriber) -> (r: Option<
        SubscriberId,
    >)
        requires
            subs_inv(self@),
        ensures
            (r is Some) == has_email(self@.subscribers, new_subscriber.email@),
            r matches Some(id) ==> id == self@.subscribers[email_index(
                self@.subscribers,
                new_subscriber.email@,
            )].id,
    {
        match self.find_email(&new_subscriber.email) {
            Some(i) => {
                proof {
                    lemma_email_index_unique(self@.subscribers, new_subscriber.email@, i as int);
                }
                Some(self.subscribers[i].id)
            },
            None => None,
        }
    }

    /// The double-opt-in status of the subscriber's row, if it exists.
    pub fn get_status_from_subscriber_id(&self, subscriber_id: SubscriberId) -> (r: Option<
        SubscriptionsStatus,
    >)
        requires
            subs_inv(self@),
        ensures
            (r is Some) == has_subscriber(self@.subscribers, subscriber_id),
            r matches Some(st) ==> st == self@.subscribers[subscriber_index(
                self@.subscribers,
                subscriber_id,
            )].status,
    {
        match self.find_subscriber(subscriber_id) {
            Some(i) => {
                proof {
                    lemma_subscriber_index_unique(self@.subscribers, subscriber_id, i as int);
                }
                Some(self.subscribers[i].status)
            },
            None => None,
        }
    }

    /// The stored confirmation token of the subscriber. Fails when no token
    /// is stored, or when the stored string is not a well-formed token —
    /// reading an invalid token out of storage is unexpected.
    pub fn get_token_from_subscriber_id(&self, subscriber_id: SubscriberId) -> (r: Result<
        SubscriberToken,
        Error,
    >)
        requires
            subs_inv(self@),
        ensures
            (r is Ok) == (has_token_for(self@.tokens, subscriber_id) && is_valid_token(
                self@.tokens[token_index_for(self@.tokens, subscriber_id)].token,
            )),
            r matches Ok(t) ==> t@ == self@.tokens[token_index_for(
                self@.tokens,
                subscriber_id,
            )].token,
            r matches Err(e) ==> e is UnexpectedError,
    {
        match self.find_token_for(subscriber_id) {
            Some(i) => {
                proof {
                    lemma_token_index_unique(self@.tokens, subscriber_id, i as int);
                }
                match SubscriberToken::parse(self.tokens[i].subscription_token.clone()) {
                    Ok(t) => Ok(t),
                    Err(_) => Err(
                        Error::UnexpectedError(
                            <String as StringExecFns>::from_str(
                                "Read invalid subscription token from database.",
                            ),
                        ),
                    ),
                }
            },
            None => Err(
                Error::UnexpectedError(
                    <String as StringExecFns>::from_str(
                        "Failed to read subscription_token of subscriber_id from database",
                    ),
                ),
            ),
        }
    }

    /// The subscriber id a presented token belongs to, if the token is
    /// stored.
    pub fn get_subscriber_id_from_token(&self, subscription_token: &SubscriberToken) -> (r: Option<
        SubscriberId,
    >)
        requires
            subs_inv(self@),
        ensures
            (r is Some) == has_token_string(self@.tokens, subscription_token@),
            r matches Some(id) ==> id == self@.tokens[token_string_index(
                self@.tokens,
                subscription_token@,
            )].subscriber_id,
    {
        let token_string = subscription_token.as_str().to_owned();
        match self.find_token_string(&token_string) {
            Some(i) => {
                proof {
                    let j = token_string_index(self@.tokens, subscription_token@);
                    assert(0 <= j < self@.tokens.len() && self@.tokens[j].token
                        == subscription_token@);
                }
                Some(self.tokens[i].subscriber_id)
            },
            None => None,
        }
    }

    /// The subscriber's name, email and sign-up time, if the row exists.
    pub fn get_subscriber_from_subscriber_id(&self, subscriber_id: SubscriberId) -> (r: Option<
        (String, String, u64),
    >)
        requires
            subs_inv(self@),
        ensures
            (r is Some) == has_subscriber(self@.subscribers, subscriber_id),
            r matches Some(t) ==> ({
                let row = self@.subscribers[subscriber_index(self@.subscribers, subscriber_id)];
                t.0@ == row.name && t.1@ == row.email && t.2 == row.subscribed_at
            }),
    {
        match self.find_subscriber(subscriber_id) {
            Some(i) => {
                proof {
                    lemma_subscriber_index_unique(self@.subscribers, subscriber_id, i as int);
                }
                let row = &self.subscribers[i];
                Some((row.name.clone(), row.email.clone(), row.subscribed_at))
            },
            None => None,
        }
    }

    /// Mark the subscriber as confirmed. Returns whether this was a new
    /// confirmation: `true` when the row was pending, `false` when it was
    /// already confirmed; fails when no such subscriber exists.
    pub fn confirm_subscriber(&mut self, subscriber_id: SubscriberId) -> (r: Result<bool, Error>)
        requires
            subs_inv(old(self)@),
        ensures
            subs_inv(final(self)@),
            final(self)@.tokens == old(self)@.tokens,
            !has_subscriber(old(self)@.subscribers, subscriber_id) ==> (r matches Err(e)
                && e is UnexpectedError) && final(self)@ == old(self)@,
            has_subscriber(old(self)@.subscribers, subscriber_id) ==> ({
                let i = subscriber_index(old(self)@.subscribers, subscriber_id);
                match old(self)@.subscribers[i].status {
                    SubscriptionsStatus::Confirmed => r == Ok::<bool, Error>(false)
                        && final(self)@ == old(self)@,
                    SubscriptionsStatus::PendingConfirmation => r == Ok::<bool, Error>(true)
                        && final(self)@.subscribers == old(self)@.subscribers.update(
                        i,
                        (SubscriberRowView {
                            status: SubscriptionsStatus::Confirmed,
                            ..old(self)@.subscribers[i]
                        }),
                    ),
                }
            }),
    {
        let i = match self.find_subscriber(subscriber_id) {
            Some(i) => i,
            None => {
                return Err(
                    Error::UnexpectedError(
                        <String as StringExecFns>::from_str(
                            "Failed to read status of subscriber_id from database",
                        ),
                    ),
                );
            },
        };
        proof {
            lemma_subscriber_index_unique(self@.subscribers, subscriber_id, i as int);
        }
        match self.subscribers[i].status {
            SubscriptionsStatus::Confirmed => Ok(false),
            SubscriptionsStatus::PendingConfirmation => {
                let ghost oldv = self@;
                self.subscribers[i].status = SubscriptionsStatus::Confirmed;
                proof {
                    assert(self@.subscribers =~~= oldv.subscribers.update(
                        i as int,
                        (SubscriberRowView {
                            status: SubscriptionsStatus::Confirmed,
                            ..oldv.subscribers[i as int]
                        }),
                    ));
                    assert(self@.tokens =~= oldv.tokens);
                    assert(forall|k: int|
                        0 <= k < self@.subscribers.len() ==> (#[trigger] self@.subscribers[k]).id
                            == oldv.subscribers[k].id && self@.subscribers[k].email
                            == oldv.subscribers[k].email);
                    assert forall|k: int|
                        0 <= k < self@.tokens.len() implies has_subscriber(
                        self@.subscribers,
                        (#[trigger] self@.tokens[k]).subscriber_id,
                    ) by {
                        let w = choose|w: int|
                            0 <= w < oldv.subscribers.len() && oldv.subscribers[w].id
                                == oldv.tokens[k].subscriber_id;
                        assert(self@.subscribers[w].id == self@.tokens[k].subscriber_id);
                    }
                }
                Ok(true)
            },
        }
    }

    /// Delete the subscriber's token row and subscription row, as one
    /// transaction. Rows that do not exist are left alone.
    pub fn remove_subscriber_from_database(&mut self, subscriber_id: SubscriberId)
        requires
            subs_inv(old(self)@),
        ensures
            subs_inv(final(self)@),
            final(self)@.tokens == (if has_token_for(old(self)@.tokens, subscriber_id) {
                old(self)@.tokens.remove(token_index_for(old(self)@.tokens, subscriber_id))
            } else {
                old(self)@.tokens
            }),
            final(self)@.subscribers == (if has_subscriber(old(self)@.subscribers, subscriber_id) {
                old(self)@.subscribers.remove(
                    subscriber_index(old(self)@.subscribers, subscriber_id),
                )
            } else {
                old(self)@.subscribers
            }),
    {
        let ghost v0 = self@;
        if let Some(ti) = self.find_token_for(subscriber_id) {
            proof {
                lemma_token_index_unique(self@.tokens, subscriber_id, ti as int);
            }
            let ghost oldtokens = self@.tokens;
            self.tokens.remove(ti);
            proof {
                assert(self@.tokens =~~= oldtokens.remove(ti as int));
                oldtokens.remove_ensures(ti as int);
            }
        }
        proof {
            assert(subs_inv(SubscriptionsView { subscribers: v0.subscribers, tokens: self@.tokens }))
                by {
                assert forall|a: int, b: int|
                    0 <= a < b < self@.tokens.len() implies (#[trigger] self@.tokens[a]).token != (
                #[trigger] self@.tokens[b]).token && self@.tokens[a].subscriber_id
                    != self@.tokens[b].subscriber_id by {
                    if has_token_for(v0.tokens, subscriber_id) {
                        let ti = token_index_for(v0.tokens, subscriber_id);
                        let a2 = if a < ti { a } else { a + 1 };
                        let b2 = if b < ti { b } else { b + 1 };
                        assert(self@.tokens[a] == v0.tokens[a2] && self@.tokens[b] == v0.tokens[b2]);
                    }
                }
                assert forall|k: int|
                    0 <= k < self@.tokens.len() implies has_subscriber(
                    v0.subscribers,
                    (#[trigger] self@.tokens[k]).subscriber_id,
                ) by {
                    if has_token_for(v0.tokens, subscriber_id) {
                        let ti = token_index_for(v0.tokens, subscriber_id);
                        let k2 = if k < ti { k } else { k + 1 };
                        assert(self@.tokens[k] == v0.tokens[k2]);
                    }
                }
            }
        }
        let ghost v1tokens = self@.tokens;
        if let Some(si) = self.find_subscriber(subscriber_id) {
            proof {
                lemma_subscriber_index_unique(self@.subscribers, subscriber_id, si as int);
            }
            let ghost oldsubs = self@.subscribers;
            self.subscribers.remove(si);
            proof {
                assert(self@.subscribers =~~= oldsubs.remove(si as int));
                oldsubs.remove_ensures(si as int);
                assert forall|a: int, b: int|
                    0 <= a < b < self@.subscribers.len() implies (
                #[trigger] self@.subscribers[a]).id != (#[trigger] self@.subscribers[b]).id
                    && self@.subscribers[a].email != self@.subscribers[b].email by {
                    let a2 = if a < si { a } else { a + 1 };
                    let b2 = if b < si { b } else { b + 1 };
                    assert(self@.subscribers[a] == oldsubs[a2] && self@.subscribers[b]
                        == oldsubs[b2]);
                }
                assert forall|k: int|
                    0 <= k < self@.tokens.len() implies has_subscriber(
                    self@.subscribers,
                    (#[trigger] self@.tokens[k]).subscriber_id,
                ) by {
                    assert(self@.tokens[k].subscriber_id != subscriber_id) by {
                        if has_token_for(v0.tokens, subscriber_id) {
                            let ti = token_index_for(v0.tokens, subscriber_id);
                            let k2 = if k < ti { k } else { k + 1 };
                            assert(self@.tokens[k] == v0.tokens[k2]);
                            if v0.tokens[k2].subscriber_id == subscriber_id {
                                lemma_token_index_unique(v0.tokens, subscriber_id, k2);
                            }
                        }
                    }
                    let w = choose|w: int|
                        0 <= w < oldsubs.len() && oldsubs[w].id == self@.tokens[k].subscriber_id;
                    assert(oldsubs[si as int].id == subscriber_id);
                    let w2 = if w < si { w } else { w - 1 };
                    assert(self@.subscribers[w2] == oldsubs[w]);
                }
            }
        }
    }

    /// The ids of the currently confirmed subscribers — the snapshot a
    /// newsletter issue fans its delivery tasks out to. The ids are distinct,
    /// as `DeliveryStore::enqueue_issue` expects.
    pub fn confirmed_subscriber_ids(&self) -> (r: Vec<SubscriberId>)
        requires
            subs_inv(self@),
        ensures
            r@ == self@.subscribers.filter(|s: SubscriberRowView| s.status is Confirmed)
                .map_values(|s: SubscriberRowView| s.id),
            distinct_subscribers(r@),
    {
        let ghost pred = |s: SubscriberRowView| s.status is Confirmed;
        let ghost getid = |s: SubscriberRowView| s.id;
        let mut out: Vec<SubscriberId> = Vec::new();
        let n = self.subscribers.len();
        let mut i: usize = 0;
        while i < n
            invariant
                subs_inv(self@),
                n == self@.subscribers.len(),
                i <= n,
                pred == (|s: SubscriberRowView| s.status is Confirmed),
                getid == (|s: SubscriberRowView| s.id),
                out@ == self@.subscribers.subrange(0, i as int).filter(pred).map_values(getid),
                distinct_subscribers(out@),
                forall|k: int|
                    0 <= k < out@.len() ==> id_from_prefix(self@.subscribers, i as int, out@[k]),
            decreases n - i,
        {
            let ghost prefix = self@.subscribers.subrange(0, i as int);
            proof {
                assert(self@.subscribers.subrange(0, i + 1 as int).drop_last() =~= prefix);
                reveal(Seq::filter);
            }
            let row = &self.subscribers[i];
            let confirmed = match row.status {
                SubscriptionsStatus::Confirmed => true,
                SubscriptionsStatus::PendingConfirmation => false,
            };
            if confirmed {
                proof {
                    assert forall|k: int| 0 <= k < out@.len() implies out@[k] != row.id by {
                        assert(id_from_prefix(self@.subscribers, i as int, out@[k]));
                        let j = choose|j: int|
                            0 <= j < i && self@.subscribers[j].id == out@[k];
                        assert(self@.subscribers[j].id != self@.subscribers[i as int].id);
                    }
                }
                out.push(row.id);
            }
            proof {
                assert(self@.subscribers.subrange(0, i + 1 as int).filter(pred).map_values(getid)
                    =~= out@);
                assert forall|k: int|
                    0 <= k < out@.len() implies id_from_prefix(
                    self@.subscribers,
                    i + 1 as int,
                    out@[k],
                ) by {
                    if k < out@.len() - 1 || !pred(self@.subscribers[i as int]) {
                        assert(id_from_prefix(self@.subscribers, i as int, out@[k]));
                        let j = choose|j: int|
                            0 <= j < i && self@.subscribers[j].id == out@[k];
                        assert(0 <= j < i + 1 && self@.subscribers[j].id == out@[k]);
                    } else {
                        assert(self@.subscribers[i as int].id == out@[k]);
                    }
                }
            }
            i += 1;
        }
        proof {
            assert(self@.subscribers.subrange(0, n as int) =~= self@.subscribers);
        }
        out
    }
}

/// Some subscriber among the first `i` rows carries this id.
pub open spec fn id_from_prefix(s: Seq<SubscriberRowView>, i: int, x: SubscriberId) -> bool {
    exists|j: int| 0 <= j < i && (#[trigger] s[j]).id == x
}

/// What the sign-up flow asks its caller to do: mail the confirmation link
/// under this token, or nothing — the contact is already confirmed.
#[derive(Debug)]
pub enum SubscribeAction {
    SendConfirmation(SubscriberToken),
    AlreadyConfirmed,
}

impl SubscriptionsStore {
    /// The sign-up flow: insert the new subscriber with the freshly drawn id
    /// and token and ask for a confirmation email. An email that already has
    /// a row is recovered: a confirmed contact is told nothing needs doing,
    /// a pending one gets its confirmation email again — under the token
    /// already stored for it, so repeated sign-ups mail the same link.
    pub fn subscribe(
        &mut self,
        new_subscriber: &NewSubscriber,
        subscriber_id: SubscriberId,
        fresh_token: SubscriberToken,
        now: u64,
    ) -> (r: Result<SubscribeAction, Error>)
        requires
            subs_inv(old(self)@),
        ensures
            subs_inv(final(self)@),
            ({
                let fresh = !has_email(old(self)@.subscribers, new_subscriber.email@)
                    && !has_subscriber(old(self)@.subscribers, subscriber_id) && !has_token_string(
                    old(self)@.tokens,
                    fresh_token@,
                );
                fresh ==> final(self)@.subscribers == old(self)@.subscribers.push(
                    (SubscriberRowView {
                        id: subscriber_id,
                        email: new_subscriber.email@,
                        name: new_subscriber.name@,
                        subscribed_at: now,
                        status: SubscriptionsStatus::PendingConfirmation,
                    }),
                ) && final(self)@.tokens == old(self)@.tokens.push(
                    (TokenRowView { token: fresh_token@, subscriber_id }),
                ) && (r matches Ok(SubscribeAction::SendConfirmation(t)) && t@ == fresh_token@)
            }),
            !has_email(old(self)@.subscribers, new_subscriber.email@) && (has_subscriber(
                old(self)@.subscribers,
                subscriber_id,
            ) || has_token_string(old(self)@.tokens, fresh_token@)) ==> final(self)@ == old(self)@
                && (r matches Err(e) && e is UnexpectedError),
            has_email(old(self)@.subscribers, new_subscriber.email@) ==> final(self)@ == old(self)@
                && ({
                let row = old(self)@.subscribers[email_index(
                    old(self)@.subscribers,
                    new_subscriber.email@,
                )];
                match row.status {
                    SubscriptionsStatus::Confirmed => r matches Ok(
                        SubscribeAction::AlreadyConfirmed,
                    ),
                    SubscriptionsStatus::PendingConfirmation => {
                        if has_token_for(old(self)@.tokens, row.id) && is_valid_token(
                            old(self)@.tokens[token_index_for(old(self)@.tokens, row.id)].token,
                        ) {
                            r matches Ok(SubscribeAction::SendConfirmation(t)) && t@ == old(
                                self,
                            )@.tokens[token_index_for(old(self)@.tokens, row.id)].token
                        } else {
                            r matches Err(e) && e is UnexpectedError
                        }
                    },
                }
            }),
    {
        match self.subscribe_transaction(new_subscriber, subscriber_id, &fresh_token, now) {
            Ok(()) => Ok(SubscribeAction::SendConfirmation(fresh_token)),
            Err(SubscribeTxError::IdentityTaken) => Err(
                Error::UnexpectedError(
                    <String as StringExecFns>::from_str(
                        "a freshly drawn subscriber identity is already taken",
                    ),
                ),
            ),
            Err(SubscribeTxError::EmailTaken) => {
                let id = match self.get_subscriber_id_from_email(new_subscriber) {
                    Some(id) => id,
                    None => {
                        return unreached();
                    },
                };
                proof {
                    let ei = email_index(self@.subscribers, new_subscriber.email@);
                    lemma_subscriber_index_unique(self@.subscribers, id, ei);
                }
                match self.get_status_from_subscriber_id(id) {
                    Some(SubscriptionsStatus::Confirmed) => Ok(SubscribeAction::AlreadyConfirmed),
                    Some(SubscriptionsStatus::PendingConfirmation) => {
                        match self.get_token_from_subscriber_id(id) {
                            Ok(t) => Ok(SubscribeAction::SendConfirmation(t)),
                            Err(e) => Err(e),
                        }
                    },
                    None => unreached(),
                }
            },
        }
    }

    /// The confirmation flow: a presented token must be well-formed and
    /// stored; its subscriber is then marked confirmed. Returns whether the
    /// confirmation was new, with the subscriber's name, email and sign-up
    /// time for the answer page.
    pub fn confirm(&mut self, subscriber_token: &SubscriberToken) -> (r: Result<
        (bool, String, String, u64),
        Error,
    >)
        requires
            subs_inv(old(self)@),
        ensures
            subs_inv(final(self)@),
            final(self)@.tokens == old(self)@.tokens,
            !is_valid_token(subscriber_token@) || !has_token_string(
                old(self)@.tokens,
                subscriber_token@,
            ) ==> final(self)@ == old(self)@ && (r matches Err(
                Error::SubscriptionError(ValidationError::InvalidToken(t)),
            ) && t@ == subscriber_token@),
            is_valid_token(subscriber_token@) && has_token_string(
                old(self)@.tokens,
                subscriber_token@,
            ) ==> ({
                let id = old(self)@.tokens[token_string_index(
                    old(self)@.tokens,
                    subscriber_token@,
                )].subscriber_id;
                let si = subscriber_index(old(self)@.subscribers, id);
                let row = old(self)@.subscribers[si];
                &&& (match row.status {
                    SubscriptionsStatus::PendingConfirmation => final(self)@.subscribers == old(
                        self,
                    )@.subscribers.update(
                        si,
                        (SubscriberRowView { status: SubscriptionsStatus::Confirmed, ..row }),
                    ) && (r matches Ok(out) && out.0 == true),
                    SubscriptionsStatus::Confirmed => final(self)@ == old(self)@ && (r matches Ok(
                        out,
                    ) && out.0 == false),
                })
                &&& (r matches Ok(out) ==> out.1@ == row.name && out.2@ == row.email && out.3
                    == row.subscribed_at)
            }),
    {
        match subscriber_token.is_valid() {
            Err(e) => {
                return Err(Error::SubscriptionError(e));
            },
            Ok(_) => {},
        }
        let id = match self.get_subscriber_id_from_token(subscriber_token) {
            Some(id) => id,
            None => {
                return Err(
                    Error::SubscriptionError(
                        ValidationError::InvalidToken(subscriber_token.as_str().to_owned()),
                    ),
                );
            },
        };
        proof {
            let tsi = token_string_index(self@.tokens, subscriber_token@);
            assert(has_subscriber(self@.subscribers, (self@.tokens[tsi]).subscriber_id));
        }
        let ghost oldv = self@;
        let new_subscription = match self.confirm_subscriber(id) {
            Ok(b) => b,
            Err(_) => {
                return unreached();
            },
        };
        proof {
            let si = subscriber_index(oldv.subscribers, id);
            assert(forall|k: int|
                0 <= k < self@.subscribers.len() ==> (#[trigger] self@.subscribers[k]).id
                    == oldv.subscribers[k].id);
            assert(self@.subscribers[si].id == id);
            lemma_subscriber_index_unique(self@.subscribers, id, si);
        }
        match self.get_subscriber_from_subscriber_id(id) {
            Some((name, email, subscribed_at)) => Ok((new_subscription, name, email, subscribed_at)),
            None => unreached(),
        }
    }

    /// The unsubscribe flow: a presented token must be well-formed and
    /// stored; its subscriber's rows are then deleted. Returns the name and
    /// email of the removed subscriber for the goodbye page.
    pub fn unsubscribe(&mut self, subscriber_token: &SubscriberToken) -> (r: Result<
        (String, String),
        Error,
    >)
        requires
            subs_inv(old(self)@),
        ensures
            subs_inv(final(self)@),
            !is_valid_token(subscriber_token@) || !has_token_string(
                old(self)@.tokens,
                subscriber_token@,
            ) ==> final(self)@ == old(self)@ && (r matches Err(
                Error::SubscriptionError(ValidationError::InvalidToken(t)),
            ) && t@ == subscriber_token@),
            is_valid_token(subscriber_token@) && has_token_string(
                old(self)@.tokens,
                subscriber_token@,
            ) ==> ({
                let tsi = token_string_index(old(self)@.tokens, subscriber_token@);
                let id = old(self)@.tokens[tsi].subscriber_id;
                let si = subscriber_index(old(self)@.subscribers, id);
                let row = old(self)@.subscribers[si];
                &&& final(self)@.tokens == old(self)@.tokens.remove(tsi)
                &&& final(self)@.subscribers == old(self)@.subscribers.remove(si)
                &&& (r matches Ok(out) && out.0@ == row.name && out.1@ == row.email)
            }),
    {
        match subscriber_token.is_valid() {
            Err(e) => {
                return Err(Error::SubscriptionError(e));
            },
            Ok(_) => {},
        }
        let id = match self.get_subscriber_id_from_token(subscriber_token) {
            Some(id) => id,
            None => {
                return Err(
                    Error::SubscriptionError(
                        ValidationError::InvalidToken(subscriber_token.as_str().to_owned()),
                    ),
                );
            },
        };
        proof {
            let tsi = token_string_index(self@.tokens, subscriber_token@);
            assert(has_subscriber(self@.subscribers, (self@.tokens[tsi]).subscriber_id));
            lemma_token_index_unique(self@.tokens, id, tsi);
        }
        let (name, email) = match self.get_subscriber_from_subscriber_id(id) {
            Some((name, email, _)) => (name, email),
            None => {
                return unreached();
            },
        };
        self.remove_subscriber_from_database(id);
        Ok((name, email))
    }
}

/// The link a confirmation email points the subscriber at.
pub fn confirmation_link(base_url: &str, token: &SubscriberToken) -> (r: String)
    ensures
        r@ == base_url@ + "/subscriptions/confirm?subscription_token="@ + token@,
{
    let mut link = <String as StringExecFns>::from_str(base_url);
    link.append("/subscriptions/confirm?subscription_token=");
    link.append(token.as_str());
    link
}

/// The link a delivered newsletter offers for unsubscribing.
pub fn unsubscribe_link(base_url: &str, token: &str) -> (r: String)
    ensures
        r@ == base_url@ + "/subscriptions/unsubscribe?subscription_token="@ + token@,
{
    let mut link = <String as StringExecFns>::from_str(base_url);
    link.append("/subscriptions/unsubscribe?subscription_token=");
    link.append(token);
    link
}

/// The plain-text body of the confirmation email.
pub fn confirmation_email_text(link: &str) -> (r: String)
    ensures
        r@ == "Welcome to our newsletter!\n\n        Visit "@ + link@
            + " to confirm your subscription."@,
{
    let mut body = <String as StringExecFns>::from_str("Welcome to our newsletter!\n\n        Visit ");
    body.append(link);
    body.append(" to confirm your subscription.");
    body
}

/// The HTML body of the confirmation email.
pub fn confirmation_email_html(link: &str) -> (r: String)
    ensures
        r@ == "Welcome to our newsletter!<br />Click <a href=\""@ + link@
            + "\">here</a> to confirm your subscription."@,
{
    let mut body = <String as StringExecFns>::from_str(
        "Welcome to our newsletter!<br />Click <a href=\"",
    );
    body.append(link);
    body.append("\">here</a> to confirm your subscription.");
    body
}

} // verus!
