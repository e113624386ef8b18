//! The retry and completion state machine: a worker reports `Completed`
//! or `Failed` for a task it took, and the row either terminates or goes
//! back to the queue with one more retry on its account.  A conditional
//! claim moves a row from Queued to Processing at task receipt.

use vstd::prelude::*;

use crate::clock::{tick, tick_exec};
use crate::store::{id_index, id_queued, task_wf, Queue, QueueView};
use crate::types::{CrawlStatus, Model, TaskView};
use crate::MAX_RETRIES;

verus! {

/// What one completion report does to a row: a failure while the retry
/// budget is not yet spent re-queues the row with one more retry on its
/// account; anything else — a success, or a failure once `MAX_RETRIES`
/// retries are used up — stores the reported outcome terminally.
/// `updated_at` moves to the report time either way.
pub open spec fn done_step(t: TaskView, outcome: CrawlStatus, time: int) -> TaskView {
    if outcome is Failed && t.num_retries < MAX_RETRIES {
        TaskView {
            status: CrawlStatus::Queued,
            num_retries: t.num_retries + 1,
            updated_at: time,
            ..t
        }
    } else {
        TaskView { status: outcome, updated_at: time, ..t }
    }
}

/// What a conditional claim does to a row: only a Queued row moves to
/// Processing, with `updated_at` at the claim time.
pub open spec fn claim_step(t: TaskView, time: int) -> TaskView {
    TaskView { status: CrawlStatus::Processing, updated_at: time, ..t }
}

impl Queue {
    /// Records the outcome a worker reports for the task with this
    /// identity.  Returns whether the row was found; nothing changes
    /// when it was not.
    pub fn mark_done(&mut self, id: i64, status: CrawlStatus, now: i64) -> (r: bool)
        requires
            old(self)@.wf(),
            status is Completed || status is Failed,
        ensures
            final(self)@.wf(),
            r == id_queued(old(self)@.tasks, id as int),
            r ==> final(self)@ == (QueueView {
                tasks: old(self)@.tasks.update(
                    id_index(old(self)@.tasks, id as int),
                    done_step(
                        old(self)@.tasks[id_index(old(self)@.tasks, id as int)],
                        status,
                        tick(old(self)@.clock, now as int),
                    ),
                ),
                clock: tick(old(self)@.clock, now as int),
                ..old(self)@
            }),
            !r ==> final(self)@ == old(self)@,
    {
        let n = self.tasks.len();
        let mut i: usize = 0;
        while i < n
            invariant
                old(self)@.wf(),
                i <= n,
                n == self@.tasks.len(),
                self@ == old(self)@,
                forall|j: int| 0 <= j < i ==> self@.tasks[j].id != id as int,
            decreases n - i,
        {
            if self.tasks[i].id == id {
                let ghost prev = self@;
                let ghost idx = id_index(prev.tasks, id as int);
                proof {
                    assert(id_queued(prev.tasks, id as int)) by {
                        assert(prev.tasks[i as int].id == id as int);
                    }
                    assert(0 <= idx < prev.tasks.len() && prev.tasks[idx].id == id as int);
                    if idx < i as int {
                        assert(prev.tasks[idx].id < prev.tasks[i as int].id);
                        assert(false);
                    } else if idx > i as int {
                        assert(prev.tasks[i as int].id < prev.tasks[idx].id);
                        assert(false);
                    }
                }
                let t = tick_exec(self.clock, now);
                let retriable = {
                    let cur = &self.tasks[i];
                    status == CrawlStatus::Failed && cur.num_retries < MAX_RETRIES
                };
                let fixed = {
                    let cur = &self.tasks[i];
                    Model {
                        id: cur.id,
                        domain: cur.domain.clone(),
                        url: cur.url.clone(),
                        status: if retriable {
                            CrawlStatus::Queued
                        } else {
                            status
                        },
                        num_retries: if retriable {
                            cur.num_retries + 1
                        } else {
                            cur.num_retries
                        },
                        crawl_type: cur.crawl_type,
                        created_at: cur.created_at,
                        updated_at: t,
                    }
                };
                let ghost fv = fixed@;
                assert(fv == done_step(prev.tasks[i as int], status, t as int));
                self.tasks.set(i, fixed);
                self.clock = t;
                proof {
                    assert(self@.tasks =~= prev.tasks.update(i as int, fv));
                    lemma_pointwise_wf(prev, self@, i as int, t as int);
                }
                return true;
            }
            i = i + 1;
        }
        false
    }

    /// Claims the task with this identity for a worker: a conditional
    /// move from Queued to Processing, guarded on the identity and the
    /// current status.  Returns whether a row was claimed; zero rows
    /// affected means the caller should treat the dequeue as empty and
    /// try again.
    pub fn claim(&mut self, id: i64, now: i64) -> (r: bool)
        requires
            old(self)@.wf(),
        ensures
            final(self)@.wf(),
            r == (id_queued(old(self)@.tasks, id as int) && old(self)@.tasks[id_index(
                old(self)@.tasks,
                id as int,
            )].status is Queued),
            r ==> final(self)@ == (QueueView {
                tasks: old(self)@.tasks.update(
                    id_index(old(self)@.tasks, id as int),
                    claim_step(
                        old(self)@.tasks[id_index(old(self)@.tasks, id as int)],
                        tick(old(self)@.clock, now as int),
                    ),
                ),
                clock: tick(old(self)@.clock, now as int),
                ..old(self)@
            }),
            !r ==> final(self)@ == old(self)@,
    {
        let n = self.tasks.len();
        let mut i: usize = 0;
        while i < n
            invariant
                old(self)@.wf(),
                i <= n,
                n == self@.tasks.len(),
                self@ == old(self)@,
                forall|j: int| 0 <= j < i ==> self@.tasks[j].id != id as int,
            decreases n - i,
        {
            if self.tasks[i].id == id {
                let ghost prev = self@;
                let ghost idx = id_index(prev.tasks, id as int);
                proof {
                    assert(id_queued(prev.tasks, id as int)) by {
                        assert(prev.tasks[i as int].id == id as int);
                    }
                    assert(0 <= idx < prev.tasks.len() && prev.tasks[idx].id == id as int);
                    if idx < i as int {
                        assert(prev.tasks[idx].id < prev.tasks[i as int].id);
                        assert(false);
                    } else if idx > i as int {
                        assert(prev.tasks[i as int].id < prev.tasks[idx].id);
                        assert(false);
                    }
                }
                if self.tasks[i].status == CrawlStatus::Queued {
                    let t = tick_exec(self.clock, now);
                    let fixed = {
                        let cur = &self.tasks[i];
                        Model {
                            id: cur.id,
                            domain: cur.domain.clone(),
                            url: cur.url.clone(),
                            status: CrawlStatus::Processing,
                            num_retries: cur.num_retries,
                            crawl_type: cur.crawl_type,
                            created_at: cur.created_at,
                            updated_at: t,
                        }
                    };
                    let ghost fv = fixed@;
                    assert(fv == claim_step(prev.tasks[i as int], t as int));
                    self.tasks.set(i, fixed);
                    self.clock = t;
                    proof {
                        assert(self@.tasks =~= prev.tasks.update(i as int, fv));
                        lemma_pointwise_wf(prev, self@, i as int, t as int);
                    }
                    return true;
                } else {
                    return false;
                }
            }
            i = i + 1;
        }
        false
    }
}

/// Replacing one row with a row that keeps its identity, domain, URL,
/// creation time and retry bound, moves `updated_at` to the new clock,
/// and leaves everything else alone, preserves the store invariant.
proof fn lemma_pointwise_wf(prev: QueueView, fin: QueueView, i: int, t: int)
    requires
        prev.wf(),
        0 <= i < prev.tasks.len(),
        fin.indexed == prev.indexed,
        fin.next_id == prev.next_id,
        fin.clock == t,
        t >= prev.clock,
        fin.tasks.len() == prev.tasks.len(),
        forall|j: int| 0 <= j < prev.tasks.len() && j != i ==> fin.tasks[j] == prev.tasks[j],
        fin.tasks[i].id == prev.tasks[i].id,
        fin.tasks[i].url == prev.tasks[i].url,
        fin.tasks[i].created_at == prev.tasks[i].created_at,
        0 <= fin.tasks[i].num_retries <= MAX_RETRIES + 1,
        fin.tasks[i].updated_at == t,
        prev.tasks[i].created_at <= t,
    ensures
        fin.wf(),
{
    assert forall|a: int, b: int| 0 <= a < b < fin.tasks.len() implies fin.tasks[a].id
        < fin.tasks[b].id by {
        assert(fin.tasks[a].id == prev.tasks[a].id);
        assert(fin.tasks[b].id == prev.tasks[b].id);
    }
    assert forall|a: int, b: int|
        0 <= a < fin.tasks.len() && 0 <= b < fin.tasks.len() && a != b implies fin.tasks[a].url
        != fin.tasks[b].url by {
        assert(fin.tasks[a].url == prev.tasks[a].url);
        assert(fin.tasks[b].url == prev.tasks[b].url);
    }
    assert forall|a: int| 0 <= a < fin.tasks.len() implies 0 <= #[trigger] fin.tasks[a].id
        < fin.next_id && task_wf(fin.tasks[a]) && fin.tasks[a].updated_at <= fin.clock by {
        assert(fin.tasks[a].id == prev.tasks[a].id);
        if a != i {
            assert(task_wf(prev.tasks[a]));
            assert(prev.tasks[a].updated_at <= prev.clock);
        }
    }
}

/// The row a fresh task becomes after `n` failure reports, all stamped
/// at the same report time.  Status and retry count do not depend on
/// the time at all; only `updated_at` does.
pub open spec fn failed_times(t: TaskView, n: nat, time: int) -> TaskView
    decreases n,
{
    if n == 0 {
        t
    } else {
        done_step(failed_times(t, (n - 1) as nat, time), CrawlStatus::Failed, time)
    }
}

/// A completion report decides status and retry count from the stored
/// row and the outcome alone; the report time only stamps
/// `updated_at`.  With this, the retry bound below speaks for failure
/// reports arriving at any times.
pub proof fn lemma_done_step_time_independent(t: TaskView, outcome: CrawlStatus, t1: int, t2: int)
    ensures
        done_step(t, outcome, t1).status == done_step(t, outcome, t2).status,
        done_step(t, outcome, t1).num_retries == done_step(t, outcome, t2).num_retries,
{
}

/// The retry bound.  A fresh Queued task that keeps failing is re-queued
/// by each of its first `MAX_RETRIES` failure reports, carrying the
/// report count as its retry count; the report after those — the
/// `MAX_RETRIES + 1`th — leaves it terminally Failed, and its retry
/// count never passes `MAX_RETRIES`.
pub proof fn lemma_retry_bound(t: TaskView, n: nat, time: int)
    requires
        t.status is Queued,
        t.num_retries == 0,
    ensures
        n <= MAX_RETRIES ==> failed_times(t, n, time).status is Queued && failed_times(
            t,
            n,
            time,
        ).num_retries == n,
        n > MAX_RETRIES ==> failed_times(t, n, time).status is Failed && failed_times(
            t,
            n,
            time,
        ).num_retries == MAX_RETRIES,
    decreases n,
{
    if n > 0 {
        lemma_retry_bound(t, (n - 1) as nat, time);
    }
}

} // verus!
