//! The idempotency layer: a caller-supplied key (a UUID string) scopes
//! retries of a request to a single logical operation. The store keeps, per
//! (user, key) pair, either an "in progress" marker or the completed HTTP
//! response, so a retried or concurrent duplicate submission never redoes a
//! side effect and is answered with the very same response.

use vstd::prelude::*;
use crate::error::Error;
use crate::http::{HttpResponseSnapshot, HttpResponseView};
use crate::UserId;

verus! {

/// Whether the uuid crate parses this string as a UUID (it accepts the
/// simple, hyphenated, braced and urn forms); the result of
/// `uuid::Uuid::try_parse` on it.
pub uninterp spec fn is_uuid_string(s: Seq<char>) -> bool;

/// Relies on uuid::Uuid::try_parse: whether a string parses as a UUID
/// depends on the string alone.
#[verifier::external_body]
fn parses_as_uuid(s: &str) -> (r: bool)
    ensures
        r == is_uuid_string(s@),
{
    uuid::Uuid::try_parse(s).is_ok()
}

/// A validated idempotency key: a string in UUID syntax.
#[derive(Debug, Clone)]
pub struct IdempotencyKey {
    key: String,
}

impl View for IdempotencyKey {
    type V = Seq<char>;

    closed spec fn view(&self) -> Seq<char> {
        self.key@
    }
}

impl IdempotencyKey {
    /// Accept the string as an idempotency key exactly when it is in UUID
    /// syntax; reject it with the key error otherwise.
    pub fn parse(s: String) -> (r: Result<IdempotencyKey, Error>)
        ensures
            (r is Ok) == is_uuid_string(s@),
            r matches Ok(k) ==> k@ == s@,
            r matches Err(e) ==> e is IdempotencyKeyError,
    {
        if parses_as_uuid(s.as_str()) {
            Ok(IdempotencyKey { key: s })
        } else {
            Err(Error::IdempotencyKeyError)
        }
    }

    /// The key's characters.
    pub fn as_str(&self) -> (r: &str)
        ensures
            r@ == self@,
    {
        self.key.as_str()
    }

    /// The key, surrendered as a plain string.
    pub fn into_string(self) -> (r: String)
        ensures
            r@ == self@,
    {
        self.key
    }
}

/// One row of the idempotency store: the (user, key) pair, when it was
/// created, and the completed response if the request has finished.
#[derive(Debug)]
pub struct IdempotencyRecord {
    pub user_id: UserId,
    pub idempotency_key: String,
    pub created_at: u64,
    pub response: Option<HttpResponseSnapshot>,
}

#[verifier::ext_equal]
pub ghost struct IdempotencyRecordView {
    pub user_id: UserId,
    pub key: Seq<char>,
    pub created_at: u64,
    pub response: Option<HttpResponseView>,
}

impl View for IdempotencyRecord {
    type V = IdempotencyRecordView;

    open spec fn view(&self) -> IdempotencyRecordView {
        IdempotencyRecordView {
            user_id: self.user_id,
            key: self.idempotency_key@,
            created_at: self.created_at,
            response: match self.response {
                Some(r) => Some(r@),
                None => None,
            },
        }
    }
}

pub open spec fn record_matches(r: IdempotencyRecordView, user_id: UserId, key: Seq<char>) -> bool {
    r.user_id == user_id && r.key == key
}

pub open spec fn has_record(s: Seq<IdempotencyRecordView>, user_id: UserId, key: Seq<char>) -> bool {
    exists|i: int| 0 <= i < s.len() && record_matches(s[i], user_id, key)
}

pub open spec fn record_index(s: Seq<IdempotencyRecordView>, user_id: UserId, key: Seq<char>) -> int {
    choose|i: int| 0 <= i < s.len() && record_matches(s[i], user_id, key)
}

/// The (user, key) pair is a primary key: no two rows share it.
pub open spec fn unique_keys(s: Seq<IdempotencyRecordView>) -> bool {
    forall|i: int, j: int|
        0 <= i < j < s.len() ==> !(#[trigger] s[i].user_id == #[trigger] s[j].user_id
            && s[i].key == s[j].key)
}

/// A record is outlived when it was created more than the configured
/// lifetime before `now` (both in milliseconds).
pub open spec fn outlived(created_at: u64, now: u64, lifetime_ms: u64) -> bool {
    now >= lifetime_ms && created_at < now - lifetime_ms
}

proof fn lemma_matching_index_unique(
    s: Seq<IdempotencyRecordView>,
    user_id: UserId,
    key: Seq<char>,
    i: int,
)
    requires
        unique_keys(s),
        0 <= i < s.len(),
        record_matches(s[i], user_id, key),
    ensures
        record_index(s, user_id, key) == i,
{
    let j = record_index(s, user_id, key);
    assert(0 <= j < s.len() && record_matches(s[j], user_id, key));
}

/// What a publish request must do next: run the request (it won the insert
/// race), replay the already-computed response, or stand back because an
/// equal request is in flight.
#[derive(Debug)]
pub enum NextAction {
    StartProcessing,
    ReturnSavedResponse(HttpResponseSnapshot),
    TryLater,
}

/// The idempotency table, keyed by (user id, idempotency key).
pub struct IdempotencyStore {
    records: Vec<IdempotencyRecord>,
}

impl View for IdempotencyStore {
    type V = Seq<IdempotencyRecordView>;

    closed spec fn view(&self) -> Seq<IdempotencyRecordView> {
        self.records@.map_values(|r: IdempotencyRecord| r@)
    }
}

impl IdempotencyStore {
    /// The empty table.
    pub fn new() -> (r: Self)
        ensures
            r@ == Seq::<IdempotencyRecordView>::empty(),
            unique_keys(r@),
    {
        let r = IdempotencyStore { records: Vec::new() };
        proof {
            assert(r@ =~= Seq::<IdempotencyRecordView>::empty());
        }
        r
    }

    /// How many records the table holds.
    pub fn record_count(&self) -> (r: usize)
        ensures
            r == self@.len(),
    {
        self.records.len()
    }

    fn find(&self, user_id: UserId, key: &IdempotencyKey) -> (r: Option<usize>)
        ensures
            r matches Some(i) ==> 0 <= i < self@.len() && record_matches(self@[i as int], user_id, key@),
            r is None ==> !has_record(self@, user_id, key@),
    {
        let mut i: usize = 0;
        let n = self.records.len();
        while i < n
            invariant
                n == self@.len(),
                i <= n,
                forall|j: int| 0 <= j < i ==> !record_matches(self@[j], user_id, key@),
            decreases n - i,
        {
            let r = &self.records[i];
            if r.user_id.0 == user_id.0 && r.idempotency_key == key.key {
                return Some(i);
            }
            i += 1;
        }
        None
    }

    /// Attempt to acquire the (user, key) pair with a conditional insert of
    /// an "in progress" record. If no record existed the caller has won the
    /// race and must run the request. If a completed record exists its
    /// response is returned verbatim. If an "in progress" record exists an
    /// equal request is still running and the caller must stand back.
    pub fn try_processing(&mut self, user_id: UserId, key: &IdempotencyKey, now: u64) -> (r:
        NextAction)
        requires
            unique_keys(old(self)@),
        ensures
            unique_keys(final(self)@),
            !has_record(old(self)@, user_id, key@) ==> r is StartProcessing && final(self)@ == old(
                self,
            )@.push(
                (IdempotencyRecordView {
                    user_id,
                    key: key@,
                    created_at: now,
                    response: None,
                }),
            ),
            has_record(old(self)@, user_id, key@) ==> final(self)@ == old(self)@ && (match old(
                self,
            )@[record_index(old(self)@, user_id, key@)].response {
                Some(resp) => r matches NextAction::ReturnSavedResponse(out) && out@ == resp,
                None => r is TryLater,
            }),
    {
        match self.find(user_id, key) {
            None => {
                let ghost oldview = self@;
                self.records.push(
                    IdempotencyRecord {
                        user_id,
                        idempotency_key: key.as_str().to_owned(),
                        created_at: now,
                        response: None,
                    },
                );
                proof {
                    assert(self@ =~= oldview.push(
                        (IdempotencyRecordView {
                            user_id,
                            key: key@,
                            created_at: now,
                            response: None,
                        }),
                    ));
                }
                NextAction::StartProcessing
            },
            Some(i) => {
                proof {
                    lemma_matching_index_unique(self@, user_id, key@, i as int);
                }
                match &self.records[i].response {
                    Some(resp) => NextAction::ReturnSavedResponse(resp.duplicate()),
                    None => NextAction::TryLater,
                }
            },
        }
    }

    /// The response saved for the (user, key) pair, if the request that won
    /// the pair has already completed.
    pub fn get_saved_response(&self, user_id: UserId, key: &IdempotencyKey) -> (r: Option<
        &HttpResponseSnapshot,
    >)
        requires
            unique_keys(self@),
        ensures
            (match r {
                Some(resp) => has_record(self@, user_id, key@) && self@[record_index(
                    self@,
                    user_id,
                    key@,
                )].response == Some(resp@),
                None => !has_record(self@, user_id, key@) || self@[record_index(
                    self@,
                    user_id,
                    key@,
                )].response is None,
            }),
    {
        match self.find(user_id, key) {
            None => None,
            Some(i) => {
                proof {
                    lemma_matching_index_unique(self@, user_id, key@, i as int);
                }
                match &self.records[i].response {
                    Some(resp) => Some(resp),
                    None => None,
                }
            },
        }
    }

    /// Complete the (user, key) pair: store the computed response in its "in
    /// progress" record and hand the response back. Fails when the pair was
    /// never acquired or was already completed.
    pub fn save_response(
        &mut self,
        user_id: UserId,
        key: &IdempotencyKey,
        response: HttpResponseSnapshot,
    ) -> (r: Result<HttpResponseSnapshot, Error>)
        requires
            unique_keys(old(self)@),
        ensures
            unique_keys(final(self)@),
            (if has_record(old(self)@, user_id, key@) && old(self)@[record_index(
                old(self)@,
                user_id,
                key@,
            )].response is None {
                let i = record_index(old(self)@, user_id, key@);
                r matches Ok(out) && out@ == response@ && final(self)@ == old(self)@.update(
                    i,
                    (IdempotencyRecordView {
                        response: Some(response@),
                        ..old(self)@[i]
                    }),
                )
            } else {
                r matches Err(e) && e is UnexpectedError && final(self)@ == old(self)@
            }),
    {
        match self.find(user_id, key) {
            Some(i) => {
                proof {
                    lemma_matching_index_unique(self@, user_id, key@, i as int);
                }
                if self.records[i].response.is_none() {
                    let ghost oldview = self@;
                    let out = response.duplicate();
                    self.records[i].response = Some(response);
                    proof {
                        assert(self@ =~~= oldview.update(
                            i as int,
                            (IdempotencyRecordView {
                                response: Some(response@),
                                ..oldview[i as int]
                            }),
                        ));
                        assert forall|k: int| 0 <= k < self@.len() implies self@[k].user_id
                            == oldview[k].user_id && self@[k].key == oldview[k].key by {
                            if k != i as int {
                                assert(self@[k] == oldview[k]);
                            }
                        }
                    }
                    Ok(out)
                } else {
                    Err(
                        Error::UnexpectedError(
                            <String as vstd::string::StringExecFns>::from_str(
                                "We expected a saved response, we didn't find it",
                            ),
                        ),
                    )
                }
            },
            None => {
                Err(
                    Error::UnexpectedError(
                        <String as vstd::string::StringExecFns>::from_str(
                            "We expected a saved response, we didn't find it",
                        ),
                    ),
                )
            },
        }
    }

    /// Delete the record of the (user, key) pair, if any: the rollback of a
    /// conditional insert whose surrounding transaction failed. Returns
    /// whether a record was removed.
    pub fn remove_record(&mut self, user_id: UserId, key: &IdempotencyKey) -> (removed: bool)
        requires
            unique_keys(old(self)@),
        ensures
            unique_keys(final(self)@),
            removed == has_record(old(self)@, user_id, key@),
            has_record(old(self)@, user_id, key@) ==> final(self)@ == old(self)@.remove(
                record_index(old(self)@, user_id, key@),
            ),
            !has_record(old(self)@, user_id, key@) ==> final(self)@ == old(self)@,
    {
        match self.find(user_id, key) {
            None => false,
            Some(i) => {
                proof {
                    lemma_matching_index_unique(self@, user_id, key@, i as int);
                }
                let ghost oldview = self@;
                self.records.remove(i);
                proof {
                    assert(self@ =~~= oldview.remove(i as int));
                    oldview.remove_ensures(i as int);
                    assert forall|a: int, b: int|
                        0 <= a < b < self@.len() implies !(#[trigger] self@[a].user_id
                        == #[trigger] self@[b].user_id && self@[a].key == self@[b].key) by {
                        let a2 = if a < i { a } else { a + 1 };
                        let b2 = if b < i { b } else { b + 1 };
                        assert(self@[a] == oldview[a2] && self@[b] == oldview[b2]);
                    }
                }
                true
            },
        }
    }

    /// Remove every record created more than `lifetime_ms` before `now`; the
    /// background sweep bounding storage growth. Returns how many records
    /// were deleted.
    pub fn delete_outlived_idempotency_key(&mut self, now: u64, lifetime_ms: u64) -> (removed: u64)
        requires
            unique_keys(old(self)@),
        ensures
            unique_keys(final(self)@),
            final(self)@ == old(self)@.filter(
                |r: IdempotencyRecordView| !outlived(r.created_at, now, lifetime_ms),
            ),
            removed == old(self)@.len() - final(self)@.len(),
    {
        let ghost pred = |r: IdempotencyRecordView| !outlived(r.created_at, now, lifetime_ms);
        let ghost oldview = self@;
        let mut kept: Vec<IdempotencyRecord> = Vec::new();
        let n = self.records.len();
        let mut i: usize = 0;
        while i < n
            invariant
                n == oldview.len(),
                oldview == self@,
                self.records@.len() == n,
                i <= n,
                kept@.map_values(|r: IdempotencyRecord| r@) == oldview.subrange(0, i as int)
                    .filter(pred),
                pred == (|r: IdempotencyRecordView| !outlived(r.created_at, now, lifetime_ms)),
                kept@.len() <= i,
            decreases n - i,
        {
            let ghost prefix = oldview.subrange(0, i as int);
            proof {
                assert(oldview.subrange(0, i + 1 as int).drop_last() =~= prefix);
                reveal(Seq::filter);
                prefix.lemma_filter_len(pred);
            }
            let r = &self.records[i];
            let keep = if now >= lifetime_ms {
                !(r.created_at < now - lifetime_ms)
            } else {
                true
            };
            if keep {
                let dup = IdempotencyRecord {
                    user_id: r.user_id,
                    idempotency_key: r.idempotency_key.clone(),
                    created_at: r.created_at,
                    response: match &r.response {
                        Some(resp) => Some(resp.duplicate()),
                        None => None,
                    },
                };
                proof {
                    assert(dup@ =~~= oldview[i as int]);
                }
                kept.push(dup);
                proof {
                    assert(kept@.map_values(|r: IdempotencyRecord| r@) =~= oldview.subrange(
                        0,
                        i + 1 as int,
                    ).filter(pred));
                }
            } else {
                proof {
                    assert(kept@.map_values(|r: IdempotencyRecord| r@) =~= oldview.subrange(
                        0,
                        i + 1 as int,
                    ).filter(pred));
                }
            }
            i += 1;
        }
        proof {
            assert(oldview.subrange(0, n as int) =~= oldview);
        }
        let removed = (n - kept.len()) as u64;
        self.records = kept;
        proof {
            lemma_filter_unique_keys(oldview, pred);
            oldview.lemma_filter_len(pred);
        }
        removed
    }
}

/// Every element of a filtered sequence is an element of the sequence.
proof fn lemma_filter_elements(s: Seq<IdempotencyRecordView>, pred: spec_fn(
    IdempotencyRecordView,
) -> bool)
    ensures
        forall|i: int|
            0 <= i < s.filter(pred).len() ==> s.contains(#[trigger] s.filter(pred)[i]),
    decreases s.len(),
{
    reveal(Seq::filter);
    if s.len() > 0 {
        let dl = s.drop_last();
        lemma_filter_elements(dl, pred);
        assert forall|i: int|
            0 <= i < s.filter(pred).len() implies s.contains(#[trigger] s.filter(pred)[i]) by {
            if i < dl.filter(pred).len() {
                assert(dl.filter(pred)[i] == s.filter(pred)[i]);
                let j = choose|j: int| 0 <= j < dl.len() && dl[j] == dl.filter(pred)[i];
                assert(s[j] == s.filter(pred)[i]);
            } else {
                assert(s.filter(pred)[i] == s.last());
                assert(s[s.len() - 1] == s.filter(pred)[i]);
            }
        }
    }
}

/// Filtering keeps the (user, key) pairs unique.
proof fn lemma_filter_unique_keys(s: Seq<IdempotencyRecordView>, pred: spec_fn(
    IdempotencyRecordView,
) -> bool)
    requires
        unique_keys(s),
    ensures
        unique_keys(s.filter(pred)),
    decreases s.len(),
{
    reveal(Seq::filter);
    if s.len() > 0 {
        let dl = s.drop_last();
        assert(unique_keys(dl)) by {
            assert(forall|i: int| 0 <= i < dl.len() ==> dl[i] == s[i]);
        }
        lemma_filter_unique_keys(dl, pred);
        if pred(s.last()) {
            let f = s.filter(pred);
            let fdl = dl.filter(pred);
            assert(f == fdl.push(s.last()));
            lemma_filter_elements(dl, pred);
            assert forall|i: int, j: int|
                0 <= i < j < f.len() implies !(#[trigger] f[i].user_id == #[trigger] f[j].user_id
                && f[i].key == f[j].key) by {
                if j == f.len() - 1 {
                    assert(f[j] == s.last());
                    assert(f[i] == fdl[i]);
                    assert(dl.contains(fdl[i]));
                    let k = choose|k: int| 0 <= k < dl.len() && dl[k] == fdl[i];
                    assert(s[k] == fdl[i]);
                    assert(s.last() == s[s.len() - 1]);
                } else {
                    assert(f[i] == fdl[i] && f[j] == fdl[j]);
                }
            }
        }
    }
}

} // verus!
