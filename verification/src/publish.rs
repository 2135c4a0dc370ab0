//! The publish-newsletter request: validate the form, establish idempotency,
//! atomically persist the issue with its delivery fan-out, and answer with a
//! response that is itself saved for idempotent replay.

use vstd::prelude::*;
use vstd::pervasive::unreached;
use crate::delivery::{distinct_subscribers, has_issue, inv, spec_enqueue, DeliveryStore, StoreView};
use crate::error::{Error, NewsletterError};
use crate::http::{see_other, spec_see_other, HttpResponseSnapshot, HttpResponseView};
use crate::idempotency::{
    has_record, is_uuid_string, record_index, unique_keys, IdempotencyKey, IdempotencyRecordView,
    IdempotencyStore, NextAction,
};
use crate::{IssueId, SubscriberId, UserId};

verus! {

/// The publish-newsletter form as the handler receives it.
#[derive(Debug)]
pub struct NewsletterFormData {
    pub title: String,
    pub html_content: String,
    pub text_content: String,
    pub idempotency_key: String,
}

/// The response every accepted publish request is answered with, and the one
/// the idempotency record stores: a redirect back to the newsletter form.
pub open spec fn admin_newsletters_response() -> HttpResponseView {
    spec_see_other("/admin/newsletters"@)
}

/// How a publish request ended, as far as the stores are concerned: answered
/// with a response, rejected over the form, rejected over the key, or failed
/// in storage.
pub ghost enum PublishOutcome {
    Response(HttpResponseView),
    InvalidForm(NewsletterError),
    InvalidKey,
    StoreError,
}

pub open spec fn publish_outcome_of(r: Result<HttpResponseSnapshot, Error>) -> PublishOutcome {
    match r {
        Ok(resp) => PublishOutcome::Response(resp@),
        Err(Error::NewsletterError(n)) => PublishOutcome::InvalidForm(n),
        Err(Error::IdempotencyKeyError) => PublishOutcome::InvalidKey,
        Err(_) => PublishOutcome::StoreError,
    }
}

pub ghost struct PublishSpec {
    pub delivery: StoreView,
    pub idem: Seq<IdempotencyRecordView>,
    pub outcome: PublishOutcome,
}

/// What one publish request does, in the order the handler works: reject an
/// empty title, text or html body, then a key that is not a UUID, all before
/// any storage access; replay the saved response of a completed (user, key)
/// pair; answer a pair still in flight with the same redirect the winner
/// saves, touching nothing; and otherwise — the request won the pair —
/// persist the issue with its fan-out and the completed idempotency record
/// as one atomic unit. A collision on the issue id fails the whole unit and
/// leaves both stores unchanged.
pub open spec fn spec_publish(
    d: StoreView,
    idem: Seq<IdempotencyRecordView>,
    user_id: UserId,
    title: Seq<char>,
    text_content: Seq<char>,
    html_content: Seq<char>,
    key: Seq<char>,
    issue_id: IssueId,
    now: u64,
    subs: Seq<SubscriberId>,
) -> PublishSpec {
    if title.len() == 0 {
        PublishSpec { delivery: d, idem, outcome: PublishOutcome::InvalidForm(NewsletterError::NoTitle) }
    } else if text_content.len() == 0 {
        PublishSpec {
            delivery: d,
            idem,
            outcome: PublishOutcome::InvalidForm(NewsletterError::NoTextContent),
        }
    } else if html_content.len() == 0 {
        PublishSpec {
            delivery: d,
            idem,
            outcome: PublishOutcome::InvalidForm(NewsletterError::NoHtmlContent),
        }
    } else if !is_uuid_string(key) {
        PublishSpec { delivery: d, idem, outcome: PublishOutcome::InvalidKey }
    } else if has_record(idem, user_id, key) {
        match idem[record_index(idem, user_id, key)].response {
            Some(resp) => PublishSpec { delivery: d, idem, outcome: PublishOutcome::Response(resp) },
            None => PublishSpec {
                delivery: d,
                idem,
                outcome: PublishOutcome::Response(admin_newsletters_response()),
            },
        }
    } else if has_issue(d.issues, issue_id) {
        PublishSpec { delivery: d, idem, outcome: PublishOutcome::StoreError }
    } else {
        PublishSpec {
            delivery: spec_enqueue(d, issue_id, title, text_content, html_content, now, subs),
            idem: idem.push(
                (IdempotencyRecordView {
                    user_id,
                    key,
                    created_at: now,
                    response: Some(admin_newsletters_response()),
                }),
            ),
            outcome: PublishOutcome::Response(admin_newsletters_response()),
        }
    }
}

/// Handle one publish-newsletter request against the two stores, with
/// `issue_id` the identity drawn for the issue should one be created,
/// `now` the request's time and `confirmed_subscriber_ids` the present
/// snapshot of confirmed subscribers. Does exactly what [`spec_publish`]
/// says, preserving both stores' invariants.
pub fn publish_newsletter(
    delivery: &mut DeliveryStore,
    idem: &mut IdempotencyStore,
    user_id: UserId,
    form: NewsletterFormData,
    issue_id: IssueId,
    now: u64,
    confirmed_subscriber_ids: &Vec<SubscriberId>,
) -> (r: Result<HttpResponseSnapshot, Error>)
    requires
        inv(old(delivery)@),
        unique_keys(old(idem)@),
        distinct_subscribers(confirmed_subscriber_ids@),
        confirmed_subscriber_ids@.len() <= u32::MAX,
    ensures
        inv(final(delivery)@),
        unique_keys(final(idem)@),
        ({
            let p = spec_publish(
                old(delivery)@,
                old(idem)@,
                user_id,
                form.title@,
                form.text_content@,
                form.html_content@,
                form.idempotency_key@,
                issue_id,
                now,
                confirmed_subscriber_ids@,
            );
            final(delivery)@ == p.delivery && final(idem)@ == p.idem && publish_outcome_of(r)
                == p.outcome
        }),
{
    let NewsletterFormData { title, html_content, text_content, idempotency_key } = form;
    if title.as_str().is_empty() {
        return Err(Error::NewsletterError(NewsletterError::NoTitle));
    }
    if text_content.as_str().is_empty() {
        return Err(Error::NewsletterError(NewsletterError::NoTextContent));
    }
    if html_content.as_str().is_empty() {
        return Err(Error::NewsletterError(NewsletterError::NoHtmlContent));
    }
    let key = match IdempotencyKey::parse(idempotency_key) {
        Ok(k) => k,
        Err(e) => {
            return Err(e);
        },
    };
    match idem.try_processing(user_id, &key, now) {
        NextAction::ReturnSavedResponse(resp) => Ok(resp),
        NextAction::TryLater => Ok(see_other("/admin/newsletters")),
        NextAction::StartProcessing => {
            let ghost idem1 = idem@;
            match delivery.enqueue_issue(
                issue_id,
                title,
                text_content,
                html_content,
                now,
                confirmed_subscriber_ids,
            ) {
                Err(e) => {
                    proof {
                        assert(idem1[old(idem)@.len() as int].user_id == user_id);
                        assert(has_record(idem1, user_id, key@));
                    }
                    idem.remove_record(user_id, &key);
                    proof {
                        let i = record_index(idem1, user_id, key@);
                        assert(0 <= i < idem1.len() && idem1[i].user_id == user_id && idem1[i].key
                            == key@);
                        assert(i == old(idem)@.len()) by {
                            if i < old(idem)@.len() {
                                assert(has_record(old(idem)@, user_id, key@));
                            }
                        }
                        assert(idem@ =~= old(idem)@);
                    }
                    Err(e)
                },
                Ok(_) => {
                    let response = see_other("/admin/newsletters");
                    proof {
                        assert(idem1[old(idem)@.len() as int].user_id == user_id);
                        assert(has_record(idem1, user_id, key@));
                        let i = record_index(idem1, user_id, key@);
                        assert(0 <= i < idem1.len() && idem1[i].user_id == user_id && idem1[i].key
                            == key@);
                        assert(i == old(idem)@.len()) by {
                            if i < old(idem)@.len() {
                                assert(has_record(old(idem)@, user_id, key@));
                            }
                        }
                    }
                    match idem.save_response(user_id, &key, response) {
                        Ok(out) => {
                            proof {
                                assert(idem@ =~~= old(idem)@.push(
                                    (IdempotencyRecordView {
                                        user_id,
                                        key: key@,
                                        created_at: now,
                                        response: Some(admin_newsletters_response()),
                                    }),
                                ));
                            }
                            Ok(out)
                        },
                        Err(_) => unreached(),
                    }
                },
            }
        },
    }
}

/// Relies on uuid::Uuid::new_v4: a freshly drawn random identity. Nothing is
/// promised of the value; a collision with a stored issue surfaces as the
/// storage error of [`publish_newsletter`].
#[verifier::external_body]
fn fresh_issue_id() -> IssueId {
    IssueId(uuid::Uuid::new_v4().as_u128())
}

/// [`publish_newsletter`] with the issue identity drawn here, as a handler
/// uses it. Returns the drawn identity beside the result; whatever identity
/// came out, the stores and the answer follow [`spec_publish`] for it.
pub fn publish_newsletter_with_fresh_id(
    delivery: &mut DeliveryStore,
    idem: &mut IdempotencyStore,
    user_id: UserId,
    form: NewsletterFormData,
    now: u64,
    confirmed_subscriber_ids: &Vec<SubscriberId>,
) -> (r: (IssueId, Result<HttpResponseSnapshot, Error>))
    requires
        inv(old(delivery)@),
        unique_keys(old(idem)@),
        distinct_subscribers(confirmed_subscriber_ids@),
        confirmed_subscriber_ids@.len() <= u32::MAX,
    ensures
        inv(final(delivery)@),
        unique_keys(final(idem)@),
        ({
            let p = spec_publish(
                old(delivery)@,
                old(idem)@,
                user_id,
                form.title@,
                form.text_content@,
                form.html_content@,
                form.idempotency_key@,
                r.0,
                now,
                confirmed_subscriber_ids@,
            );
            final(delivery)@ == p.delivery && final(idem)@ == p.idem && publish_outcome_of(r.1)
                == p.outcome
        }),
{
    let issue_id = fresh_issue_id();
    let result = publish_newsletter(
        delivery,
        idem,
        user_id,
        form,
        issue_id,
        now,
        confirmed_subscriber_ids,
    );
    (issue_id, result)
}

/// Idempotent publish: after an accepted publish of (user, key), submitting
/// the same form under the same key again — whatever fresh issue id the
/// retry draws — changes neither store and is answered with the very
/// response the first submission got. One task set is enqueued, once.
pub proof fn lemma_idempotent_publish(
    d: StoreView,
    idem: Seq<IdempotencyRecordView>,
    user_id: UserId,
    title: Seq<char>,
    text_content: Seq<char>,
    html_content: Seq<char>,
    key: Seq<char>,
    issue_id1: IssueId,
    issue_id2: IssueId,
    now1: u64,
    now2: u64,
    subs: Seq<SubscriberId>,
)
    requires
        title.len() > 0,
        text_content.len() > 0,
        html_content.len() > 0,
        is_uuid_string(key),
        !has_record(idem, user_id, key),
        !has_issue(d.issues, issue_id1),
    ensures
        ({
            let p1 = spec_publish(
                d,
                idem,
                user_id,
                title,
                text_content,
                html_content,
                key,
                issue_id1,
                now1,
                subs,
            );
            let p2 = spec_publish(
                p1.delivery,
                p1.idem,
                user_id,
                title,
                text_content,
                html_content,
                key,
                issue_id2,
                now2,
                subs,
            );
            &&& p1.outcome == PublishOutcome::Response(admin_newsletters_response())
            &&& p2.delivery == p1.delivery
            &&& p2.idem == p1.idem
            &&& p2.outcome == p1.outcome
        }),
{
    let p1 = spec_publish(d, idem, user_id, title, text_content, html_content, key, issue_id1,
    now1, subs);
    let rec = (IdempotencyRecordView {
        user_id,
        key,
        created_at: now1,
        response: Some(admin_newsletters_response()),
    });
    assert(p1.idem == idem.push(rec));
    assert(p1.idem[idem.len() as int] == rec);
    assert(has_record(p1.idem, user_id, key));
    let i = record_index(p1.idem, user_id, key);
    assert(0 <= i < p1.idem.len() && p1.idem[i].user_id == user_id && p1.idem[i].key == key);
    assert(i == idem.len()) by {
        if i < idem.len() {
            assert(idem[i] == p1.idem[i]);
            assert(has_record(idem, user_id, key));
        }
    }
    assert(p1.idem[i].response == Some(admin_newsletters_response()));
}

/// Concurrent duplicate publish: while a request holding the (user, key)
/// pair is still in flight — its record is "in progress" — an equal
/// concurrent submission changes neither store and is answered with the same
/// redirect the winner saves. So two concurrent publish requests with one
/// key produce exactly one issue row and one task per confirmed subscriber.
pub proof fn lemma_concurrent_duplicate_publish(
    d: StoreView,
    idem: Seq<IdempotencyRecordView>,
    user_id: UserId,
    title: Seq<char>,
    text_content: Seq<char>,
    html_content: Seq<char>,
    key: Seq<char>,
    issue_id: IssueId,
    now: u64,
    subs: Seq<SubscriberId>,
)
    requires
        title.len() > 0,
        text_content.len() > 0,
        html_content.len() > 0,
        is_uuid_string(key),
        has_record(idem, user_id, key),
        idem[record_index(idem, user_id, key)].response is None,
    ensures
        ({
            let p = spec_publish(
                d,
                idem,
                user_id,
                title,
                text_content,
                html_content,
                key,
                issue_id,
                now,
                subs,
            );
            &&& p.delivery == d
            &&& p.idem == idem
            &&& p.outcome == PublishOutcome::Response(admin_newsletters_response())
        }),
{
}

} // verus!
