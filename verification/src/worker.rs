//! The delivery worker loop's policy: what one iteration can achieve, and
//! the adaptive backoff deciding how long the loop sleeps before the next
//! claim. The loop itself is plain I/O around [`DeliveryStore::claim_task`]
//! and [`DeliveryStore::resolve_task`]; everything it decides is here.
//!
//! [`DeliveryStore::claim_task`]: crate::delivery::DeliveryStore::claim_task
//! [`DeliveryStore::resolve_task`]: crate::delivery::DeliveryStore::resolve_task

use vstd::prelude::*;
use crate::error::Error;

verus! {

/// What one iteration of the worker loop achieved: a task was claimed and
/// its outcome recorded; the queue held no task at all; or tasks exist but
/// none was eligible (or all were locked by other workers).
#[derive(Debug, Clone, Copy, PartialEq, Eq, Structural)]
pub enum ExecutionOutcome {
    TaskCompleted,
    EmptyQueue,
    PostponedTasks,
}

/// Sleep after finding the queue empty (milliseconds).
pub const EMPTY_QUEUE_SLEEP_MS: u64 = 10_000;

/// Sleep after an infrastructure error of the claim cycle (milliseconds).
pub const ERROR_SLEEP_MS: u64 = 1_000;

/// Floor of the adaptive postponed-tasks wait (milliseconds).
pub const POSTPONED_FLOOR_MS: u64 = 10;

/// Cap of the adaptive postponed-tasks wait (milliseconds).
pub const POSTPONED_CAP_MS: u64 = 10_000;

/// Factor by which the postponed-tasks wait grows each consecutive time.
pub const POSTPONED_FACTOR: u64 = 10;

pub open spec fn valid_wait(w: u64) -> bool {
    w == 10 || w == 100 || w == 1000 || w == 10000
}

/// The adaptive backoff state the worker loop threads through its
/// iterations: the wait to apply the next time the queue is non-empty but
/// every task is postponed.
#[derive(Debug, Clone, Copy, PartialEq, Eq, Structural)]
pub struct WorkerBackoff {
    wait_postponed_ms: u64,
}

impl WorkerBackoff {
    /// The wait (milliseconds) the next postponed-tasks outcome sleeps for.
    pub closed spec fn wait(&self) -> u64 {
        self.wait_postponed_ms
    }

    pub open spec fn wf(&self) -> bool {
        valid_wait(self.wait())
    }

    /// Backoff at its floor, the state the loop starts in.
    pub fn new() -> (r: Self)
        ensures
            r.wait() == POSTPONED_FLOOR_MS,
            r.wf(),
    {
        WorkerBackoff { wait_postponed_ms: POSTPONED_FLOOR_MS }
    }

    /// The current postponed-tasks wait in milliseconds.
    pub fn current_wait_ms(&self) -> (r: u64)
        ensures
            r == self.wait(),
    {
        self.wait_postponed_ms
    }

    /// How long the loop sleeps after one iteration ended in `step`, and
    /// the backoff update: an empty queue sleeps the fixed long interval; a
    /// postponed queue sleeps the adaptive wait, which then grows by the
    /// fixed factor until the cap; an infrastructure error sleeps the fixed
    /// short interval; a completed task does not sleep at all. Every outcome
    /// but postponed tasks resets the adaptive wait to its floor.
    pub fn next_sleep_ms(&mut self, step: &Result<ExecutionOutcome, Error>) -> (sleep: u64)
        requires
            old(self).wf(),
        ensures
            final(self).wf(),
            step matches Ok(o) && o is EmptyQueue ==> sleep == EMPTY_QUEUE_SLEEP_MS && final(self).wait() == POSTPONED_FLOOR_MS,
            step matches Ok(o) && o is PostponedTasks ==> sleep == old(self).wait() && final(self).wait() == (if old(self).wait() < POSTPONED_CAP_MS {
                (old(self).wait() * POSTPONED_FACTOR) as u64
            } else {
                old(self).wait()
            }),
            step matches Ok(o) && o is TaskCompleted ==> sleep == 0 && final(self).wait()
                == POSTPONED_FLOOR_MS,
            step is Err ==> sleep == ERROR_SLEEP_MS && final(self).wait() == POSTPONED_FLOOR_MS,
    {
        match step {
            Ok(ExecutionOutcome::EmptyQueue) => {
                self.wait_postponed_ms = POSTPONED_FLOOR_MS;
                EMPTY_QUEUE_SLEEP_MS
            },
            Ok(ExecutionOutcome::PostponedTasks) => {
                let sleep = self.wait_postponed_ms;
                if sleep < POSTPONED_CAP_MS {
                    self.wait_postponed_ms = sleep * POSTPONED_FACTOR;
                }
                sleep
            },
            Ok(ExecutionOutcome::TaskCompleted) => {
                self.wait_postponed_ms = POSTPONED_FLOOR_MS;
                0
            },
            Err(_) => {
                self.wait_postponed_ms = POSTPONED_FLOOR_MS;
                ERROR_SLEEP_MS
            },
        }
    }
}

} // verus!
