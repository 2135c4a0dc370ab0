//! The issue store and the delivery queue: newsletter issues with their
//! delivery bookkeeping, and the durable work table of pending
//! (issue, subscriber) delivery tasks the worker drains.
//!
//! The store serialises the operations that the service runs as transactions
//! against its relational tables; each operation's contract states exactly
//! what the corresponding transaction does. A claimed task is an owned
//! [`TaskClaim`] that is surrendered when its outcome is recorded.

use vstd::prelude::*;
use vstd::pervasive::unreached;
use vstd::string::StringExecFns;
use crate::error::Error;
use crate::{IssueId, SubscriberId};

verus! {

/// One row of the delivery queue: a pending (issue, subscriber) send
/// obligation with its retry count and the time from which it is eligible
/// to run (epoch milliseconds).
#[derive(Debug, Clone, Copy, PartialEq, Eq, Structural)]
pub struct TaskRow {
    pub issue_id: IssueId,
    pub subscriber_id: SubscriberId,
    pub n_retries: u8,
    pub execute_after: u64,
}

/// One row of the issue store: the issue's content and its delivery
/// bookkeeping. Who was delivered to and who permanently failed is kept by
/// subscriber; the service's counters are the lengths of those two columns.
#[derive(Debug)]
pub struct IssueRow {
    pub issue_id: IssueId,
    pub title: String,
    pub text_content: String,
    pub html_content: String,
    pub published_at: u64,
    pub n_subscribers: u32,
    pub delivered: Vec<SubscriberId>,
    pub failed: Vec<SubscriberId>,
}

#[verifier::ext_equal]
pub ghost struct IssueView {
    pub issue_id: IssueId,
    pub title: Seq<char>,
    pub text_content: Seq<char>,
    pub html_content: Seq<char>,
    pub published_at: u64,
    pub n_subscribers: u32,
    pub delivered: Seq<SubscriberId>,
    pub failed: Seq<SubscriberId>,
}

impl View for IssueRow {
    type V = IssueView;

    open spec fn view(&self) -> IssueView {
        IssueView {
            issue_id: self.issue_id,
            title: self.title@,
            text_content: self.text_content@,
            html_content: self.html_content@,
            published_at: self.published_at,
            n_subscribers: self.n_subscribers,
            delivered: self.delivered@,
            failed: self.failed@,
        }
    }
}

/// The two tables the delivery subsystem works on.
pub struct DeliveryStore {
    issues: Vec<IssueRow>,
    queue: Vec<TaskRow>,
}

#[verifier::ext_equal]
pub ghost struct StoreView {
    pub issues: Seq<IssueView>,
    pub queue: Seq<TaskRow>,
}

impl View for DeliveryStore {
    type V = StoreView;

    closed spec fn view(&self) -> StoreView {
        StoreView {
            issues: self.issues@.map_values(|r: IssueRow| r@),
            queue: self.queue@,
        }
    }
}

pub open spec fn has_issue(issues: Seq<IssueView>, id: IssueId) -> bool {
    exists|i: int| 0 <= i < issues.len() && issues[i].issue_id == id
}

pub open spec fn issue_index(issues: Seq<IssueView>, id: IssueId) -> int {
    choose|i: int| 0 <= i < issues.len() && issues[i].issue_id == id
}

pub open spec fn has_task(q: Seq<TaskRow>, issue_id: IssueId, subscriber_id: SubscriberId) -> bool {
    exists|i: int|
        0 <= i < q.len() && q[i].issue_id == issue_id && q[i].subscriber_id == subscriber_id
}

pub open spec fn task_index(q: Seq<TaskRow>, issue_id: IssueId, subscriber_id: SubscriberId) -> int {
    choose|i: int|
        0 <= i < q.len() && q[i].issue_id == issue_id && q[i].subscriber_id == subscriber_id
}

/// The subscribers whose task for `issue_id` is still pending in the queue.
pub open spec fn pending_subs(q: Seq<TaskRow>, issue_id: IssueId) -> Set<SubscriberId> {
    Set::new(|s: SubscriberId| has_task(q, issue_id, s))
}

/// The subscribers the issue accounts for: delivered, permanently failed, or
/// still pending. Created at publication as exactly the snapshot of confirmed
/// subscribers and preserved by every worker step.
pub open spec fn accounted_subs(v: StoreView, issue_id: IssueId) -> Set<SubscriberId> {
    let row = v.issues[issue_index(v.issues, issue_id)];
    pending_subs(v.queue, issue_id).union(
        Set::new(|s: SubscriberId| row.delivered.contains(s) || row.failed.contains(s)),
    )
}

pub open spec fn distinct_subscribers(s: Seq<SubscriberId>) -> bool {
    forall|i: int, j: int| 0 <= i < j < s.len() ==> s[i] != s[j]
}

/// Well-formedness of the store, the invariant every operation preserves:
/// issue ids are unique; (issue, subscriber) pairs are unique in the queue,
/// so a subscriber has at most one task per issue; every queued task belongs
/// to a stored issue; and per issue the delivered and failed columns hold no
/// duplicates, share no subscriber, and share no subscriber with the pending
/// tasks — a subscriber reaches at most one terminal outcome.
pub open spec fn inv(v: StoreView) -> bool {
    &&& forall|i: int, j: int|
        0 <= i < j < v.issues.len() ==> (#[trigger] v.issues[i]).issue_id != (
        #[trigger] v.issues[j]).issue_id
    &&& forall|i: int, j: int|
        0 <= i < j < v.queue.len() ==> !((#[trigger] v.queue[i]).issue_id == (
        #[trigger] v.queue[j]).issue_id && v.queue[i].subscriber_id == v.queue[j].subscriber_id)
    &&& forall|i: int| 0 <= i < v.queue.len() ==> has_issue(v.issues, (#[trigger] v.queue[i]).issue_id)
    &&& forall|k: int|
        0 <= k < v.issues.len() ==> distinct_subscribers((#[trigger] v.issues[k]).delivered)
    &&& forall|k: int|
        0 <= k < v.issues.len() ==> distinct_subscribers((#[trigger] v.issues[k]).failed)
    &&& forall|k: int, d: int|
        0 <= k < v.issues.len() && 0 <= d < (#[trigger] v.issues[k]).delivered.len()
            ==> !v.issues[k].failed.contains(#[trigger] v.issues[k].delivered[d])
    &&& forall|k: int, q: int|
        0 <= k < v.issues.len() && 0 <= q < v.queue.len() && (#[trigger] v.queue[q]).issue_id == (
        #[trigger] v.issues[k]).issue_id ==> !v.issues[k].delivered.contains(
            v.queue[q].subscriber_id,
        ) && !v.issues[k].failed.contains(v.queue[q].subscriber_id)
}

/// Every pending task has spent at most `max_retries` retries.
pub open spec fn retries_bounded(v: StoreView, max_retries: u8) -> bool {
    forall|i: int| 0 <= i < v.queue.len() ==> (#[trigger] v.queue[i]).n_retries <= max_retries
}

proof fn lemma_issue_index_unique(issues: Seq<IssueView>, id: IssueId, i: int)
    requires
        forall|a: int, b: int|
            0 <= a < b < issues.len() ==> (#[trigger] issues[a]).issue_id != (
            #[trigger] issues[b]).issue_id,
        0 <= i < issues.len(),
        issues[i].issue_id == id,
    ensures
        issue_index(issues, id) == i,
{
    let j = issue_index(issues, id);
    assert(0 <= j < issues.len() && issues[j].issue_id == id);
}

proof fn lemma_task_index_unique(q: Seq<TaskRow>, issue_id: IssueId, sub: SubscriberId, i: int)
    requires
        forall|a: int, b: int|
            0 <= a < b < q.len() ==> !((#[trigger] q[a]).issue_id == (#[trigger] q[b]).issue_id
                && q[a].subscriber_id == q[b].subscriber_id),
        0 <= i < q.len(),
        q[i].issue_id == issue_id,
        q[i].subscriber_id == sub,
    ensures
        task_index(q, issue_id, sub) == i,
{
    let j = task_index(q, issue_id, sub);
    assert(0 <= j < q.len() && q[j].issue_id == issue_id && q[j].subscriber_id == sub);
}

/// The task a freshly published issue enqueues for one subscriber: no retry
/// spent yet, eligible immediately.
pub open spec fn new_task(issue_id: IssueId, s: SubscriberId, now: u64) -> TaskRow {
    TaskRow { issue_id, subscriber_id: s, n_retries: 0, execute_after: now }
}

/// What publishing an issue does to the store: one new issue row whose
/// subscriber snapshot is the number of fanned-out tasks and whose delivered
/// and failed columns start empty, and one immediately-eligible task per
/// subscriber appended to the queue.
pub open spec fn spec_enqueue(
    v: StoreView,
    issue_id: IssueId,
    title: Seq<char>,
    text_content: Seq<char>,
    html_content: Seq<char>,
    now: u64,
    subs: Seq<SubscriberId>,
) -> StoreView {
    StoreView {
        issues: v.issues.push(
            IssueView {
                issue_id,
                title,
                text_content,
                html_content,
                published_at: now,
                n_subscribers: subs.len() as u32,
                delivered: Seq::empty(),
                failed: Seq::empty(),
            },
        ),
        queue: v.queue + subs.map_values(|s: SubscriberId| new_task(issue_id, s, now)),
    }
}

proof fn lemma_enqueue_preserves_inv(
    v: StoreView,
    issue_id: IssueId,
    title: Seq<char>,
    text_content: Seq<char>,
    html_content: Seq<char>,
    now: u64,
    subs: Seq<SubscriberId>,
)
    requires
        inv(v),
        !has_issue(v.issues, issue_id),
        distinct_subscribers(subs),
    ensures
        inv(spec_enqueue(v, issue_id, title, text_content, html_content, now, subs)),
{
    let w = spec_enqueue(v, issue_id, title, text_content, html_content, now, subs);
    let ni = v.issues.len() as int;
    let nq = v.queue.len() as int;
    assert(forall|a: int| 0 <= a < ni ==> (#[trigger] v.issues[a]).issue_id != issue_id);
    assert forall|a: int, b: int|
        0 <= a < b < w.queue.len() implies !((#[trigger] w.queue[a]).issue_id == (
    #[trigger] w.queue[b]).issue_id && w.queue[a].subscriber_id == w.queue[b].subscriber_id) by {
        if b < nq {
        } else if a >= nq {
            assert(w.queue[a].subscriber_id == subs[a - nq]);
            assert(w.queue[b].subscriber_id == subs[b - nq]);
        } else {
            assert(has_issue(v.issues, v.queue[a].issue_id));
            assert(w.queue[b].issue_id == issue_id);
        }
    }
    assert forall|q: int| 0 <= q < w.queue.len() implies has_issue(
        w.issues,
        (#[trigger] w.queue[q]).issue_id,
    ) by {
        if q < nq {
            let k = choose|k: int|
                0 <= k < ni && v.issues[k].issue_id == v.queue[q].issue_id;
            assert(w.issues[k].issue_id == w.queue[q].issue_id);
        } else {
            assert(w.issues[ni].issue_id == w.queue[q].issue_id);
        }
    }
    assert forall|k: int, q: int|
        0 <= k < w.issues.len() && 0 <= q < w.queue.len() && (#[trigger] w.queue[q]).issue_id == (
        #[trigger] w.issues[k]).issue_id implies !w.issues[k].delivered.contains(
        w.queue[q].subscriber_id,
    ) && !w.issues[k].failed.contains(w.queue[q].subscriber_id) by {
        if k < ni && q >= nq {
            assert(w.queue[q].issue_id == issue_id);
            assert(v.issues[k].issue_id != issue_id);
        }
    }
}

/// What one delivery attempt of a claimed task observed: the email went out;
/// the subscriber's stored contact data is invalid, which no retry can mend;
/// or the transport failed in a recoverable way.
#[derive(Debug, Clone, Copy, PartialEq, Eq, Structural)]
pub enum DeliveryAttempt {
    Delivered,
    PermanentlyInvalid,
    TransientFailure,
}

/// How a claimed task is to be recorded: counted as delivered and removed;
/// counted as permanently failed and removed; or kept with one more retry
/// spent and a later eligibility time.
#[derive(Debug, Clone, Copy, PartialEq, Eq, Structural)]
pub enum TaskResolution {
    Completed,
    Failed,
    Retry { n_retries: u8, execute_after: u64 },
}

/// The retry policy: a delivered task completes; invalid subscriber data
/// fails the task permanently; a transient failure is retried while retries
/// remain (bounding total attempts per subscriber to `max_retries + 1`) and
/// demoted to a permanent failure once they are spent. A retried task
/// becomes eligible again at `now` — the claim time — plus the fixed backoff
/// delta; advancing past the end of the clock is an error.
pub fn decide_resolution(
    attempt: DeliveryAttempt,
    n_retries: u8,
    max_retries: u8,
    now: u64,
    backoff_delta_ms: u64,
) -> (r: Result<TaskResolution, Error>)
    ensures
        attempt is Delivered ==> r == Ok::<TaskResolution, Error>(TaskResolution::Completed),
        attempt is PermanentlyInvalid ==> r == Ok::<TaskResolution, Error>(TaskResolution::Failed),
        attempt is TransientFailure && n_retries >= max_retries ==> r == Ok::<
            TaskResolution,
            Error,
        >(TaskResolution::Failed),
        attempt is TransientFailure && n_retries < max_retries && now + backoff_delta_ms
            <= u64::MAX ==> r == Ok::<TaskResolution, Error>(
            (TaskResolution::Retry {
                n_retries: (n_retries + 1) as u8,
                execute_after: (now + backoff_delta_ms) as u64,
            }),
        ),
        attempt is TransientFailure && n_retries < max_retries && now + backoff_delta_ms
            > u64::MAX ==> (r matches Err(e) && e is UnexpectedError),
{
    match attempt {
        DeliveryAttempt::Delivered => Ok(TaskResolution::Completed),
        DeliveryAttempt::PermanentlyInvalid => Ok(TaskResolution::Failed),
        DeliveryAttempt::TransientFailure => {
            if n_retries >= max_retries {
                Ok(TaskResolution::Failed)
            } else if now <= u64::MAX - backoff_delta_ms {
                Ok(
                    TaskResolution::Retry {
                        n_retries: n_retries + 1,
                        execute_after: now + backoff_delta_ms,
                    },
                )
            } else {
                Err(
                    Error::UnexpectedError(
                        <String as StringExecFns>::from_str("failed to add time_delta"),
                    ),
                )
            }
        },
    }
}

/// The store after a terminal outcome of task `t`: the subscriber joins the
/// issue's delivered (or failed) column and the task row is deleted.
pub open spec fn terminal_view(v: StoreView, t: TaskRow, delivered_outcome: bool) -> StoreView {
    let qi = task_index(v.queue, t.issue_id, t.subscriber_id);
    let ji = issue_index(v.issues, t.issue_id);
    let row = v.issues[ji];
    let row2 = if delivered_outcome {
        IssueView { delivered: row.delivered.push(t.subscriber_id), ..row }
    } else {
        IssueView { failed: row.failed.push(t.subscriber_id), ..row }
    };
    StoreView { issues: v.issues.update(ji, row2), queue: v.queue.remove(qi) }
}

/// The store after a retried outcome of task `t`: the task row stays with
/// one more retry spent, eligible again one backoff delta after the claim
/// time `now`.
pub open spec fn retry_view(v: StoreView, t: TaskRow, now: u64, backoff_delta_ms: u64) -> StoreView {
    let qi = task_index(v.queue, t.issue_id, t.subscriber_id);
    StoreView {
        issues: v.issues,
        queue: v.queue.update(
            qi,
            (TaskRow {
                n_retries: (t.n_retries + 1) as u8,
                execute_after: (now + backoff_delta_ms) as u64,
                ..t
            }),
        ),
    }
}

/// What recording the outcome of claimed task `t` does to the store: the
/// composition of the retry policy with the terminal and retry transitions.
pub open spec fn spec_resolve(
    v: StoreView,
    t: TaskRow,
    attempt: DeliveryAttempt,
    max_retries: u8,
    now: u64,
    backoff_delta_ms: u64,
) -> StoreView {
    match attempt {
        DeliveryAttempt::Delivered => terminal_view(v, t, true),
        DeliveryAttempt::PermanentlyInvalid => terminal_view(v, t, false),
        DeliveryAttempt::TransientFailure => {
            if t.n_retries >= max_retries {
                terminal_view(v, t, false)
            } else {
                retry_view(v, t, now, backoff_delta_ms)
            }
        },
    }
}

proof fn lemma_terminal_preserves_inv(v: StoreView, t: TaskRow, delivered_outcome: bool)
    requires
        inv(v),
        v.queue.contains(t),
    ensures
        inv(terminal_view(v, t, delivered_outcome)),
        forall|id: IssueId|
            has_issue(v.issues, id) ==> #[trigger] accounted_subs(
                terminal_view(v, t, delivered_outcome),
                id,
            ) == accounted_subs(v, id),
{
    let c = choose|c: int| 0 <= c < v.queue.len() && v.queue[c] == t;
    lemma_task_index_unique(v.queue, t.issue_id, t.subscriber_id, c);
    let qi = task_index(v.queue, t.issue_id, t.subscriber_id);
    assert(v.queue[qi] == t);
    assert(has_issue(v.issues, t.issue_id));
    let ji = issue_index(v.issues, t.issue_id);
    assert(0 <= ji < v.issues.len() && v.issues[ji].issue_id == t.issue_id);
    let row = v.issues[ji];
    let w = terminal_view(v, t, delivered_outcome);
    v.queue.remove_ensures(qi);
    let sub = t.subscriber_id;

    // The issue rows keep their ids, and only row `ji` changes at all.
    assert(forall|k: int|
        0 <= k < w.issues.len() ==> (#[trigger] w.issues[k]).issue_id == v.issues[k].issue_id);
    assert(forall|k: int| 0 <= k < w.issues.len() && k != ji ==> w.issues[k] == v.issues[k]);

    // Each remaining task is an old task, and the removed one is gone.
    assert(forall|x: int| 0 <= x < qi ==> w.queue[x] == v.queue[x]);
    assert(forall|x: int| qi <= x < w.queue.len() ==> w.queue[x] == v.queue[x + 1]);

    // The subscriber is in neither outcome column and holds no other task.
    assert(!row.delivered.contains(sub) && !row.failed.contains(sub));
    assert(forall|x: int|
        0 <= x < v.queue.len() && x != qi ==> !((#[trigger] v.queue[x]).issue_id == t.issue_id
            && v.queue[x].subscriber_id == sub));

    assert forall|a: int, b: int|
        0 <= a < b < w.queue.len() implies !((#[trigger] w.queue[a]).issue_id == (
    #[trigger] w.queue[b]).issue_id && w.queue[a].subscriber_id == w.queue[b].subscriber_id) by {
        let a2 = if a < qi { a } else { a + 1 };
        let b2 = if b < qi { b } else { b + 1 };
        assert(w.queue[a] == v.queue[a2] && w.queue[b] == v.queue[b2]);
    }
    assert forall|q: int| 0 <= q < w.queue.len() implies has_issue(
        w.issues,
        (#[trigger] w.queue[q]).issue_id,
    ) by {
        let q2 = if q < qi { q } else { q + 1 };
        assert(w.queue[q] == v.queue[q2]);
        let k = choose|k: int| 0 <= k < v.issues.len() && v.issues[k].issue_id == v.queue[q2].issue_id;
        assert(w.issues[k].issue_id == w.queue[q].issue_id);
    }
    assert forall|k: int|
        0 <= k < w.issues.len() implies distinct_subscribers((#[trigger] w.issues[k]).delivered)
        && distinct_subscribers(w.issues[k].failed) by {
        if k == ji {
            let dv = w.issues[k].delivered;
            let fv = w.issues[k].failed;
            assert forall|a: int, b: int| 0 <= a < b < dv.len() implies dv[a] != dv[b] by {
                if b == dv.len() - 1 && delivered_outcome {
                    assert(row.delivered.contains(row.delivered[a]));
                }
            }
            assert forall|a: int, b: int| 0 <= a < b < fv.len() implies fv[a] != fv[b] by {
                if b == fv.len() - 1 && !delivered_outcome {
                    assert(row.failed.contains(row.failed[a]));
                }
            }
        }
    }
    assert forall|k: int, d: int|
        0 <= k < w.issues.len() && 0 <= d < (#[trigger] w.issues[k]).delivered.len()
        implies !w.issues[k].failed.contains(#[trigger] w.issues[k].delivered[d]) by {
        if k == ji {
            if delivered_outcome {
                if d < row.delivered.len() {
                    assert(row.delivered.contains(row.delivered[d]));
                }
            } else {
                assert(row.delivered.contains(row.delivered[d]));
                assert forall|x: int|
                    0 <= x < w.issues[k].failed.len() implies w.issues[k].failed[x] != w.issues[k].delivered[d] by {
                    if x < row.failed.len() {
                        assert(row.failed.contains(row.failed[x]));
                    }
                }
            }
        }
    }
    assert forall|k: int, q: int|
        0 <= k < w.issues.len() && 0 <= q < w.queue.len() && (#[trigger] w.queue[q]).issue_id == (
        #[trigger] w.issues[k]).issue_id implies !w.issues[k].delivered.contains(
        w.queue[q].subscriber_id,
    ) && !w.issues[k].failed.contains(w.queue[q].subscriber_id) by {
        let q2 = if q < qi { q } else { q + 1 };
        assert(w.queue[q] == v.queue[q2]);
        if k == ji {
            assert(!row.delivered.contains(v.queue[q2].subscriber_id));
            assert(!row.failed.contains(v.queue[q2].subscriber_id));
            assert(v.queue[q2].subscriber_id != sub);
            assert forall|x: int|
                0 <= x < w.issues[k].delivered.len() implies w.issues[k].delivered[x] != w.queue[q].subscriber_id by {
                if x < row.delivered.len() {
                    assert(row.delivered.contains(row.delivered[x]));
                }
            }
            assert forall|x: int|
                0 <= x < w.issues[k].failed.len() implies w.issues[k].failed[x] != w.queue[q].subscriber_id by {
                if x < row.failed.len() {
                    assert(row.failed.contains(row.failed[x]));
                }
            }
        }
    }

    assert forall|id: IssueId| has_issue(v.issues, id) implies #[trigger] accounted_subs(
        w,
        id,
    ) == accounted_subs(v, id) by {
        let k0 = issue_index(v.issues, id);
        assert(0 <= k0 < v.issues.len() && v.issues[k0].issue_id == id);
        lemma_issue_index_unique(w.issues, id, k0);
        let vrow = v.issues[k0];
        let wrow = w.issues[k0];
        assert forall|s: SubscriberId| accounted_subs(w, id).contains(s) implies accounted_subs(
            v,
            id,
        ).contains(s) by {
            if has_task(w.queue, id, s) {
                let x = choose|x: int|
                    0 <= x < w.queue.len() && w.queue[x].issue_id == id && w.queue[x].subscriber_id
                        == s;
                let x2 = if x < qi { x } else { x + 1 };
                assert(v.queue[x2].issue_id == id && v.queue[x2].subscriber_id == s);
                assert(has_task(v.queue, id, s));
            } else {
                assert(wrow.delivered.contains(s) || wrow.failed.contains(s));
                if k0 == ji && (s == sub) {
                    assert(has_task(v.queue, id, s));
                } else {
                    if k0 == ji {
                        if wrow.delivered.contains(s) {
                            let x = choose|x: int|
                                0 <= x < wrow.delivered.len() && wrow.delivered[x] == s;
                            if delivered_outcome && x == wrow.delivered.len() - 1 {
                                assert(s == sub);
                            } else {
                                assert(vrow.delivered[x] == s);
                                assert(vrow.delivered.contains(s));
                            }
                        } else {
                            let x = choose|x: int| 0 <= x < wrow.failed.len() && wrow.failed[x] == s;
                            if !delivered_outcome && x == wrow.failed.len() - 1 {
                                assert(s == sub);
                            } else {
                                assert(vrow.failed[x] == s);
                                assert(vrow.failed.contains(s));
                            }
                        }
                    }
                }
            }
        }
        assert forall|s: SubscriberId| accounted_subs(v, id).contains(s) implies accounted_subs(
            w,
            id,
        ).contains(s) by {
            if has_task(v.queue, id, s) {
                let x = choose|x: int|
                    0 <= x < v.queue.len() && v.queue[x].issue_id == id && v.queue[x].subscriber_id
                        == s;
                if x == qi {
                    assert(id == t.issue_id && s == sub);
                    assert(k0 == ji) by {
                        lemma_issue_index_unique(v.issues, id, k0);
                        lemma_issue_index_unique(v.issues, t.issue_id, ji);
                    }
                    if delivered_outcome {
                        assert(wrow.delivered[wrow.delivered.len() - 1] == sub);
                        assert(wrow.delivered.contains(s));
                    } else {
                        assert(wrow.failed[wrow.failed.len() - 1] == sub);
                        assert(wrow.failed.contains(s));
                    }
                } else {
                    let x2 = if x < qi { x } else { x - 1 };
                    assert(w.queue[x2] == v.queue[x]);
                    assert(has_task(w.queue, id, s));
                }
            } else {
                assert(vrow.delivered.contains(s) || vrow.failed.contains(s));
                if k0 == ji {
                    if vrow.delivered.contains(s) {
                        let x = choose|x: int| 0 <= x < vrow.delivered.len() && vrow.delivered[x] == s;
                        assert(wrow.delivered.contains(s)) by {
                            if delivered_outcome {
                                assert(wrow.delivered[x] == s);
                            } else {
                                assert(wrow.delivered[x] == s);
                            }
                        }
                    } else {
                        let x = choose|x: int| 0 <= x < vrow.failed.len() && vrow.failed[x] == s;
                        assert(wrow.failed[x] == s);
                        assert(wrow.failed.contains(s));
                    }
                } else {
                    assert(wrow == vrow);
                }
            }
        }
        assert(accounted_subs(w, id) =~= accounted_subs(v, id));
    }
}

proof fn lemma_retry_preserves_inv(v: StoreView, t: TaskRow, now: u64, backoff_delta_ms: u64)
    requires
        inv(v),
        v.queue.contains(t),
    ensures
        inv(retry_view(v, t, now, backoff_delta_ms)),
        forall|id: IssueId|
            has_issue(v.issues, id) ==> #[trigger] accounted_subs(
                retry_view(v, t, now, backoff_delta_ms),
                id,
            ) == accounted_subs(v, id),
{
    let c = choose|c: int| 0 <= c < v.queue.len() && v.queue[c] == t;
    lemma_task_index_unique(v.queue, t.issue_id, t.subscriber_id, c);
    let qi = task_index(v.queue, t.issue_id, t.subscriber_id);
    assert(v.queue[qi] == t);
    let w = retry_view(v, t, now, backoff_delta_ms);
    assert(w.queue.len() == v.queue.len());
    assert(forall|x: int|
        0 <= x < w.queue.len() ==> (#[trigger] w.queue[x]).issue_id == v.queue[x].issue_id
            && w.queue[x].subscriber_id == v.queue[x].subscriber_id);
    assert forall|q: int| 0 <= q < w.queue.len() implies has_issue(
        w.issues,
        (#[trigger] w.queue[q]).issue_id,
    ) by {
        assert(has_issue(v.issues, v.queue[q].issue_id));
    }
    assert forall|id: IssueId| has_issue(v.issues, id) implies #[trigger] accounted_subs(
        w,
        id,
    ) == accounted_subs(v, id) by {
        assert forall|s: SubscriberId| has_task(w.queue, id, s) == has_task(v.queue, id, s) by {
            if has_task(w.queue, id, s) {
                let x = choose|x: int|
                    0 <= x < w.queue.len() && w.queue[x].issue_id == id && w.queue[x].subscriber_id
                        == s;
                assert(v.queue[x].issue_id == id && v.queue[x].subscriber_id == s);
            }
            if has_task(v.queue, id, s) {
                let x = choose|x: int|
                    0 <= x < v.queue.len() && v.queue[x].issue_id == id && v.queue[x].subscriber_id
                        == s;
                assert(w.queue[x].issue_id == id && w.queue[x].subscriber_id == s);
            }
        }
        assert(accounted_subs(w, id) =~= accounted_subs(v, id));
    }
}

/// At-most-one-delivery: once the queue holds no more tasks of an issue,
/// every subscriber the issue accounts for stands in exactly one of its
/// delivered and failed columns — never both, never neither. `enqueue_issue`
/// makes the accounted set exactly the snapshot of confirmed subscribers and
/// every `resolve_task` preserves it, so this holds of the published
/// snapshot once the queue drains.
pub proof fn lemma_at_most_one_delivery(v: StoreView, issue_id: IssueId, s: SubscriberId)
    requires
        inv(v),
        has_issue(v.issues, issue_id),
        !has_task(v.queue, issue_id, s),
    ensures
        ({
            let row = v.issues[issue_index(v.issues, issue_id)];
            &&& !(row.delivered.contains(s) && row.failed.contains(s))
            &&& accounted_subs(v, issue_id).contains(s) ==> row.delivered.contains(s)
                || row.failed.contains(s)
        }),
{
    let ji = issue_index(v.issues, issue_id);
    assert(0 <= ji < v.issues.len() && v.issues[ji].issue_id == issue_id);
    let row = v.issues[ji];
    if row.delivered.contains(s) {
        let d = choose|d: int| 0 <= d < row.delivered.len() && row.delivered[d] == s;
        assert(!row.failed.contains(row.delivered[d]));
    }
}

/// The store after `k` consecutive transient failures of the one task of
/// (issue, subscriber), each recorded by the worker; `now` stands for the
/// claim time of the recordings, so a retried task is put off to
/// `now + backoff_delta_ms`.
pub open spec fn iter_transient(
    v: StoreView,
    issue_id: IssueId,
    s: SubscriberId,
    max_retries: u8,
    now: u64,
    backoff_delta_ms: u64,
    k: nat,
) -> StoreView
    decreases k,
{
    if k == 0 {
        v
    } else {
        let prev = iter_transient(v, issue_id, s, max_retries, now, backoff_delta_ms, (k - 1) as nat);
        let t = prev.queue[task_index(prev.queue, issue_id, s)];
        spec_resolve(prev, t, DeliveryAttempt::TransientFailure, max_retries, now, backoff_delta_ms)
    }
}

/// Retry bound: starting from a fresh task, each of the first `max_retries`
/// recorded transient failures keeps the task pending with one more retry
/// spent and its eligibility put off to one backoff delta after the claim
/// time, and the recording of transient failure number `max_retries + 1`
/// removes the task and counts the subscriber as permanently failed. A task
/// that always fails transiently is therefore attempted exactly
/// `max_retries + 1` times: after that no task of the pair remains to be
/// claimed.
pub proof fn lemma_retry_bound(
    v: StoreView,
    issue_id: IssueId,
    s: SubscriberId,
    max_retries: u8,
    now: u64,
    backoff_delta_ms: u64,
    k: nat,
)
    requires
        inv(v),
        has_task(v.queue, issue_id, s),
        v.queue[task_index(v.queue, issue_id, s)].n_retries == 0,
        now + backoff_delta_ms <= u64::MAX,
        k <= max_retries + 1,
    ensures
        ({
            let vk = iter_transient(v, issue_id, s, max_retries, now, backoff_delta_ms, k);
            let ji = issue_index(v.issues, issue_id);
            &&& inv(vk)
            &&& k <= max_retries ==> has_task(vk.queue, issue_id, s) && vk.queue[task_index(
                vk.queue,
                issue_id,
                s,
            )].n_retries == k && (k >= 1 ==> vk.queue[task_index(vk.queue, issue_id, s)].execute_after
                == now + backoff_delta_ms) && vk.issues == v.issues
            &&& k == max_retries + 1 ==> !has_task(vk.queue, issue_id, s) && vk.issues
                == v.issues.update(
                ji,
                (IssueView { failed: v.issues[ji].failed.push(s), ..v.issues[ji] }),
            )
        }),
    decreases k,
{
    let ji = issue_index(v.issues, issue_id);
    if k > 0 {
        lemma_retry_bound(v, issue_id, s, max_retries, now, backoff_delta_ms, (k - 1) as nat);
        let prev = iter_transient(v, issue_id, s, max_retries, now, backoff_delta_ms, (k - 1) as nat);
        let qi = task_index(prev.queue, issue_id, s);
        let t = prev.queue[qi];
        assert(0 <= qi < prev.queue.len() && t.issue_id == issue_id && t.subscriber_id == s);
        assert(prev.queue.contains(t));
        let vk = iter_transient(v, issue_id, s, max_retries, now, backoff_delta_ms, k);
        assert(t.n_retries == k - 1);
        if k <= max_retries {
            assert(t.n_retries < max_retries);
            assert(vk == retry_view(prev, t, now, backoff_delta_ms));
            lemma_retry_preserves_inv(prev, t, now, backoff_delta_ms);
            lemma_task_index_unique(vk.queue, issue_id, s, qi);
            assert(vk.queue[qi].n_retries == k);
        } else {
            assert(t.n_retries == max_retries);
            assert(vk == terminal_view(prev, t, false));
            lemma_terminal_preserves_inv(prev, t, false);
            prev.queue.remove_ensures(qi);
            assert(has_issue(prev.issues, issue_id));
            assert(prev.issues == v.issues);
            lemma_issue_index_unique(prev.issues, issue_id, ji);
            assert forall|x: int|
                0 <= x < vk.queue.len() implies !((#[trigger] vk.queue[x]).issue_id == issue_id
                && vk.queue[x].subscriber_id == s) by {
                let x2 = if x < qi { x } else { x + 1 };
                assert(vk.queue[x] == prev.queue[x2]);
                if prev.queue[x2].issue_id == issue_id && prev.queue[x2].subscriber_id == s {
                    lemma_task_index_unique(prev.queue, issue_id, s, x2);
                }
            }
            assert(!has_task(vk.queue, issue_id, s));
        }
    }
}

/// Recovery after a transient failure: when the one task of a pair fails
/// transiently while retries remain and its next attempt succeeds, the
/// subscriber ends in the delivered column and the failed column of the
/// issue is untouched.
pub proof fn lemma_recovery_after_transient_failure(
    v: StoreView,
    t: TaskRow,
    max_retries: u8,
    now1: u64,
    now2: u64,
    backoff_delta_ms: u64,
)
    requires
        inv(v),
        v.queue.contains(t),
        t.n_retries < max_retries,
        now1 + backoff_delta_ms <= u64::MAX,
    ensures
        ({
            let v1 = spec_resolve(v, t, DeliveryAttempt::TransientFailure, max_retries, now1,
            backoff_delta_ms);
            let t1 = (TaskRow {
                n_retries: (t.n_retries + 1) as u8,
                execute_after: (now1 + backoff_delta_ms) as u64,
                ..t
            });
            let v2 = spec_resolve(v1, t1, DeliveryAttempt::Delivered, max_retries, now2,
            backoff_delta_ms);
            let ji = issue_index(v.issues, t.issue_id);
            &&& inv(v1) && v1.queue.contains(t1)
            &&& inv(v2)
            &&& v2.issues == v.issues.update(
                ji,
                (IssueView {
                    delivered: v.issues[ji].delivered.push(t.subscriber_id),
                    ..v.issues[ji]
                }),
            )
            &&& !has_task(v2.queue, t.issue_id, t.subscriber_id)
        }),
{
    let c = choose|c: int| 0 <= c < v.queue.len() && v.queue[c] == t;
    lemma_task_index_unique(v.queue, t.issue_id, t.subscriber_id, c);
    let qi = task_index(v.queue, t.issue_id, t.subscriber_id);
    assert(v.queue[qi] == t);
    let v1 = spec_resolve(v, t, DeliveryAttempt::TransientFailure, max_retries, now1,
    backoff_delta_ms);
    assert(v1 == retry_view(v, t, now1, backoff_delta_ms));
    lemma_retry_preserves_inv(v, t, now1, backoff_delta_ms);
    let t1 = (TaskRow {
        n_retries: (t.n_retries + 1) as u8,
        execute_after: (now1 + backoff_delta_ms) as u64,
        ..t
    });
    assert(v1.queue[qi] == t1);
    assert(v1.queue.contains(t1));
    let v2 = spec_resolve(v1, t1, DeliveryAttempt::Delivered, max_retries, now2, backoff_delta_ms);
    assert(v2 == terminal_view(v1, t1, true));
    lemma_terminal_preserves_inv(v1, t1, true);
    lemma_task_index_unique(v1.queue, t.issue_id, t.subscriber_id, qi);
    assert(has_issue(v.issues, t.issue_id));
    let ji = issue_index(v.issues, t.issue_id);
    assert(v1.issues == v.issues);
    lemma_issue_index_unique(v1.issues, t.issue_id, ji);
    v1.queue.remove_ensures(qi);
    assert forall|x: int|
        0 <= x < v2.queue.len() implies !((#[trigger] v2.queue[x]).issue_id == t.issue_id
        && v2.queue[x].subscriber_id == t.subscriber_id) by {
        let x2 = if x < qi { x } else { x + 1 };
        assert(v2.queue[x] == v1.queue[x2]);
        if v1.queue[x2].issue_id == t.issue_id && v1.queue[x2].subscriber_id == t.subscriber_id {
            lemma_task_index_unique(v1.queue, t.issue_id, t.subscriber_id, x2);
        }
    }
}

/// A claimed pending task. Owning a claim stands for holding the row lock;
/// the claim is surrendered to the operation that records the outcome, so a
/// resolved claim cannot be reused.
#[derive(Debug)]
pub struct TaskClaim {
    pub task: TaskRow,
}

/// What claiming found: a task to execute, a truly empty queue, or a queue
/// whose tasks are all not yet eligible (or locked by another worker).
#[derive(Debug)]
pub enum ClaimOutcome {
    Claimed(TaskClaim),
    EmptyQueue,
    PostponedTasks,
}

impl DeliveryStore {
    /// The empty pair of tables.
    pub fn new() -> (r: Self)
        ensures
            r@.issues == Seq::<IssueView>::empty(),
            r@.queue == Seq::<TaskRow>::empty(),
            inv(r@),
    {
        let r = DeliveryStore { issues: Vec::new(), queue: Vec::new() };
        proof {
            assert(r@.issues =~= Seq::<IssueView>::empty());
        }
        r
    }

    /// Whether the delivery queue holds no task at all; distinguishes a
    /// drained queue from one whose tasks are merely not yet eligible.
    pub fn is_task_queue_empty(&self) -> (r: bool)
        ensures
            r == (self@.queue.len() == 0),
    {
        self.queue.len() == 0
    }

    /// How many tasks are pending over all issues.
    pub fn task_count(&self) -> (r: usize)
        ensures
            r == self@.queue.len(),
    {
        self.queue.len()
    }

    /// How many issues are stored.
    pub fn issue_count(&self) -> (r: usize)
        ensures
            r == self@.issues.len(),
    {
        self.issues.len()
    }

    fn find_issue(&self, issue_id: IssueId) -> (r: Option<usize>)
        ensures
            r matches Some(i) ==> 0 <= i < self@.issues.len() && self@.issues[i as int].issue_id
                == issue_id,
            r is None ==> !has_issue(self@.issues, issue_id),
    {
        let mut i: usize = 0;
        let n = self.issues.len();
        while i < n
            invariant
                n == self@.issues.len(),
                i <= n,
                forall|j: int| 0 <= j < i ==> (#[trigger] self@.issues[j]).issue_id != issue_id,
            decreases n - i,
        {
            if self.issues[i].issue_id.0 == issue_id.0 {
                return Some(i);
            }
            i += 1;
        }
        None
    }

    /// Every stored issue with its delivery bookkeeping, as the delivery
    /// overview reads them.
    pub fn get_newsletters_info(&self) -> (r: &Vec<IssueRow>)
        ensures
            r@.len() == self@.issues.len(),
            forall|i: int| 0 <= i < r@.len() ==> (#[trigger] r@[i])@ == self@.issues[i],
    {
        &self.issues
    }

    /// The stored issue with this id, if any.
    pub fn get_issue(&self, issue_id: IssueId) -> (r: Option<&IssueRow>)
        requires
            inv(self@),
        ensures
            (r is Some) == has_issue(self@.issues, issue_id),
            r matches Some(row) ==> row@ == self@.issues[issue_index(self@.issues, issue_id)],
    {
        match self.find_issue(issue_id) {
            Some(i) => {
                proof {
                    lemma_issue_index_unique(self@.issues, issue_id, i as int);
                }
                Some(&self.issues[i])
            },
            None => None,
        }
    }

    /// Publish an issue: insert its row with the counters initialised and
    /// fan out one delivery task per confirmed subscriber, all as one
    /// transaction. The subscriber ids come from a table keyed by them, so
    /// they are distinct. Returns the number of enqueued tasks, the issue's
    /// subscriber snapshot; fails without any change when the issue id is
    /// already taken.
    pub fn enqueue_issue(
        &mut self,
        issue_id: IssueId,
        title: String,
        text_content: String,
        html_content: String,
        now: u64,
        subscriber_ids: &Vec<SubscriberId>,
    ) -> (r: Result<u32, Error>)
        requires
            inv(old(self)@),
            distinct_subscribers(subscriber_ids@),
            subscriber_ids@.len() <= u32::MAX,
        ensures
            inv(final(self)@),
            !has_issue(old(self)@.issues, issue_id) ==> (r matches Ok(n) && n
                == subscriber_ids@.len() && final(self)@ == spec_enqueue(
                old(self)@,
                issue_id,
                title@,
                text_content@,
                html_content@,
                now,
                subscriber_ids@,
            ) && accounted_subs(final(self)@, issue_id) == subscriber_ids@.to_set()),
            has_issue(old(self)@.issues, issue_id) ==> (r matches Err(e) && e is UnexpectedError)
                && final(self)@ == old(self)@,
    {
        if self.find_issue(issue_id).is_some() {
            return Err(
                Error::UnexpectedError(
                    <String as StringExecFns>::from_str("newsletter issue id is already taken"),
                ),
            );
        }
        let ghost oldv = self@;
        let ghost subs = subscriber_ids@;
        let n = subscriber_ids.len();
        self.issues.push(
            IssueRow {
                issue_id,
                title,
                text_content,
                html_content,
                published_at: now,
                n_subscribers: n as u32,
                delivered: Vec::new(),
                failed: Vec::new(),
            },
        );
        let ghost v1issues = self@.issues;
        let mut i: usize = 0;
        while i < n
            invariant
                subs == subscriber_ids@,
                n == subs.len(),
                i <= n,
                self@.issues == v1issues,
                self@.queue == oldv.queue + subs.subrange(0, i as int).map_values(
                    |s: SubscriberId| new_task(issue_id, s, now),
                ),
            decreases n - i,
        {
            self.queue.push(
                TaskRow {
                    issue_id,
                    subscriber_id: subscriber_ids[i],
                    n_retries: 0,
                    execute_after: now,
                },
            );
            proof {
                let f = |s: SubscriberId| new_task(issue_id, s, now);
                assert(subs.subrange(0, i + 1 as int).drop_last() =~= subs.subrange(0, i as int));
                assert(subs.subrange(0, i + 1 as int).map_values(f).drop_last() =~= subs.subrange(
                    0,
                    i as int,
                ).map_values(f));
                assert(self@.queue =~= oldv.queue + subs.subrange(0, i + 1 as int).map_values(f));
            }
            i += 1;
        }
        proof {
            let f = |s: SubscriberId| new_task(issue_id, s, now);
            assert(subs.subrange(0, n as int) =~= subs);
            let v = self@;
            let goal = spec_enqueue(oldv, issue_id, title@, text_content@, html_content@, now, subs);
            assert(v.issues =~= goal.issues);
            assert(v =~~= goal);
            lemma_enqueue_preserves_inv(oldv, issue_id, title@, text_content@, html_content@, now, subs);
            assert(accounted_subs(v, issue_id) =~= subs.to_set()) by {
                lemma_issue_index_unique(v.issues, issue_id, oldv.issues.len() as int);
                assert forall|s: SubscriberId| subs.contains(s) implies accounted_subs(
                    v,
                    issue_id,
                ).contains(s) by {
                    let w = choose|w: int| 0 <= w < subs.len() && subs[w] == s;
                    assert(v.queue[oldv.queue.len() + w] == new_task(issue_id, s, now));
                    assert(has_task(v.queue, issue_id, s));
                }
                assert forall|s: SubscriberId| accounted_subs(v, issue_id).contains(
                    s,
                ) implies subs.contains(s) by {
                    let row = v.issues[issue_index(v.issues, issue_id)];
                    assert(row.delivered.len() == 0 && row.failed.len() == 0);
                    assert(has_task(v.queue, issue_id, s));
                    let w = choose|w: int|
                        0 <= w < v.queue.len() && v.queue[w].issue_id == issue_id
                            && v.queue[w].subscriber_id == s;
                    assert(w >= oldv.queue.len()) by {
                        if w < oldv.queue.len() {
                            assert(has_issue(oldv.issues, oldv.queue[w].issue_id));
                        }
                    }
                    assert(subs[w - oldv.queue.len()] == s);
                }
            }
        }
        Ok(n as u32)
    }

    fn find_task(&self, issue_id: IssueId, subscriber_id: SubscriberId) -> (r: Option<usize>)
        ensures
            r matches Some(i) ==> 0 <= i < self@.queue.len() && self@.queue[i as int].issue_id
                == issue_id && self@.queue[i as int].subscriber_id == subscriber_id,
            r is None ==> !has_task(self@.queue, issue_id, subscriber_id),
    {
        let mut i: usize = 0;
        let n = self.queue.len();
        while i < n
            invariant
                n == self@.queue.len(),
                i <= n,
                forall|j: int|
                    0 <= j < i ==> !((#[trigger] self@.queue[j]).issue_id == issue_id
                        && self@.queue[j].subscriber_id == subscriber_id),
            decreases n - i,
        {
            let t = &self.queue[i];
            if t.issue_id.0 == issue_id.0 && t.subscriber_id.0 == subscriber_id.0 {
                return Some(i);
            }
            i += 1;
        }
        None
    }

    /// Record the outcome of one delivery attempt of the claimed task, as
    /// the transaction held since the claim made at time `now`: count the
    /// subscriber as delivered or permanently failed and delete the task, or
    /// spend one retry and put it off to `now` plus the backoff delta,
    /// following the retry policy of [`decide_resolution`]. Fails without
    /// any change only when the postponed eligibility time would not fit the
    /// clock. Preserves the store invariant, the retry bound, and the set of
    /// subscribers each issue accounts for.
    pub fn resolve_task(
        &mut self,
        claim: TaskClaim,
        attempt: DeliveryAttempt,
        max_retries: u8,
        now: u64,
        backoff_delta_ms: u64,
    ) -> (r: Result<(), Error>)
        requires
            inv(old(self)@),
            old(self)@.queue.contains(claim.task),
        ensures
            inv(final(self)@),
            (r is Ok) == !(attempt is TransientFailure && claim.task.n_retries < max_retries
                && now + backoff_delta_ms > u64::MAX),
            r is Ok ==> final(self)@ == spec_resolve(
                old(self)@,
                claim.task,
                attempt,
                max_retries,
                now,
                backoff_delta_ms,
            ),
            r matches Err(e) ==> e is UnexpectedError && final(self)@ == old(self)@,
            retries_bounded(old(self)@, max_retries) ==> retries_bounded(final(self)@, max_retries),
            r is Ok ==> forall|id: IssueId|
                has_issue(old(self)@.issues, id) ==> #[trigger] accounted_subs(final(self)@, id)
                    == accounted_subs(old(self)@, id),
    {
        let ghost oldv = self@;
        let t = claim.task;
        proof {
            let c = choose|c: int| 0 <= c < oldv.queue.len() && oldv.queue[c] == t;
            lemma_task_index_unique(oldv.queue, t.issue_id, t.subscriber_id, c);
        }
        let resolution = match decide_resolution(
            attempt,
            t.n_retries,
            max_retries,
            now,
            backoff_delta_ms,
        ) {
            Ok(res) => res,
            Err(e) => {
                return Err(e);
            },
        };
        let qi = match self.find_task(t.issue_id, t.subscriber_id) {
            Some(qi) => qi,
            None => {
                return unreached();
            },
        };
        proof {
            lemma_task_index_unique(oldv.queue, t.issue_id, t.subscriber_id, qi as int);
            assert(oldv.queue[qi as int] == t);
        }
        match resolution {
            TaskResolution::Retry { n_retries, execute_after } => {
                self.queue[qi].n_retries = n_retries;
                self.queue[qi].execute_after = execute_after;
                proof {
                    assert(self@ =~~= retry_view(oldv, t, now, backoff_delta_ms));
                    lemma_retry_preserves_inv(oldv, t, now, backoff_delta_ms);
                    assert forall|i: int|
                        retries_bounded(oldv, max_retries) && 0 <= i < self@.queue.len()
                        implies (#[trigger] self@.queue[i]).n_retries <= max_retries by {
                        if i != qi {
                            assert(self@.queue[i] == oldv.queue[i]);
                        }
                    }
                }
                Ok(())
            },
            TaskResolution::Completed => {
                let ji = match self.find_issue(t.issue_id) {
                    Some(ji) => ji,
                    None => {
                        proof {
                            assert(has_issue(oldv.issues, t.issue_id));
                        }
                        return unreached();
                    },
                };
                proof {
                    lemma_issue_index_unique(oldv.issues, t.issue_id, ji as int);
                }
                self.queue.remove(qi);
                self.issues[ji].delivered.push(t.subscriber_id);
                proof {
                    assert(self@ =~~= terminal_view(oldv, t, true));
                    lemma_terminal_preserves_inv(oldv, t, true);
                    oldv.queue.remove_ensures(qi as int);
                    assert forall|i: int|
                        retries_bounded(oldv, max_retries) && 0 <= i < self@.queue.len()
                        implies (#[trigger] self@.queue[i]).n_retries <= max_retries by {
                        let i2 = if i < qi { i } else { i + 1 };
                        assert(self@.queue[i] == oldv.queue[i2]);
                    }
                }
                Ok(())
            },
            TaskResolution::Failed => {
                let ji = match self.find_issue(t.issue_id) {
                    Some(ji) => ji,
                    None => {
                        proof {
                            assert(has_issue(oldv.issues, t.issue_id));
                        }
                        return unreached();
                    },
                };
                proof {
                    lemma_issue_index_unique(oldv.issues, t.issue_id, ji as int);
                }
                self.queue.remove(qi);
                self.issues[ji].failed.push(t.subscriber_id);
                proof {
                    assert(self@ =~~= terminal_view(oldv, t, false));
                    lemma_terminal_preserves_inv(oldv, t, false);
                    oldv.queue.remove_ensures(qi as int);
                    assert forall|i: int|
                        retries_bounded(oldv, max_retries) && 0 <= i < self@.queue.len()
                        implies (#[trigger] self@.queue[i]).n_retries <= max_retries by {
                        let i2 = if i < qi { i } else { i + 1 };
                        assert(self@.queue[i] == oldv.queue[i2]);
                    }
                }
                Ok(())
            },
        }
    }

    /// Claim one task whose eligibility time has passed, scanning the queue
    /// in storage order; `None` when no task is eligible now.
    pub fn dequeue_task(&self, now: u64) -> (r: Option<TaskClaim>)
        ensures
            r matches Some(c) ==> (exists|i: int|
                0 <= i < self@.queue.len() && self@.queue[i] == c.task
                    && c.task.execute_after < now && (forall|j: int|
                    0 <= j < i ==> (#[trigger] self@.queue[j]).execute_after >= now)),
            r is None ==> forall|i: int|
                0 <= i < self@.queue.len() ==> (#[trigger] self@.queue[i]).execute_after >= now,
    {
        let mut i: usize = 0;
        let n = self.queue.len();
        while i < n
            invariant
                n == self@.queue.len(),
                i <= n,
                forall|j: int| 0 <= j < i ==> (#[trigger] self@.queue[j]).execute_after >= now,
            decreases n - i,
        {
            let t = self.queue[i];
            if t.execute_after < now {
                return Some(TaskClaim { task: t });
            }
            i += 1;
        }
        None
    }

    /// One claim round of the worker: a claimed task if one is eligible,
    /// otherwise whether the queue is truly empty or only postponed.
    pub fn claim_task(&self, now: u64) -> (r: ClaimOutcome)
        ensures
            r matches ClaimOutcome::Claimed(c) ==> (exists|i: int|
                0 <= i < self@.queue.len() && self@.queue[i] == c.task
                    && c.task.execute_after < now),
            r is EmptyQueue ==> self@.queue.len() == 0,
            r is PostponedTasks ==> self@.queue.len() > 0 && (forall|i: int|
                0 <= i < self@.queue.len() ==> (#[trigger] self@.queue[i]).execute_after >= now),
    {
        match self.dequeue_task(now) {
            Some(claim) => ClaimOutcome::Claimed(claim),
            None => {
                if self.is_task_queue_empty() {
                    ClaimOutcome::EmptyQueue
                } else {
                    ClaimOutcome::PostponedTasks
                }
            },
        }
    }
}

} // verus!
