//! The queue store: an ordered table of crawl tasks plus the read-only
//! indexed-document table, with the invariants every operation keeps:
//! no two rows share a URL, row identities grow monotonically, a row is
//! never retried past the bound, and timestamps never pass the store's
//! clock.

use vstd::prelude::*;

use crate::clock::{tick, tick_exec};
use crate::strutil::str_eq;
use crate::types::{CrawlStatus, CrawlType, DocView, IndexedDocument, Model, TaskView};

verus! {

/// Mathematical view of the whole store.
pub struct QueueView {
    pub tasks: Seq<TaskView>,
    pub indexed: Seq<DocView>,
    pub next_id: int,
    pub clock: int,
}

/// Validity of one task row.
pub open spec fn task_wf(t: TaskView) -> bool {
    &&& 0 <= t.num_retries <= crate::MAX_RETRIES + 1
    &&& t.created_at <= t.updated_at
}

impl QueueView {
    /// The store's invariant: row identities strictly grow and stay
    /// below the next identity, URLs are unique, every row is valid,
    /// and no timestamp passes the clock.
    pub open spec fn wf(self) -> bool {
        &&& 0 <= self.next_id
        &&& forall|i: int, j: int|
            0 <= i < j < self.tasks.len() ==> self.tasks[i].id < self.tasks[j].id
        &&& forall|i: int|
            0 <= i < self.tasks.len() ==> 0 <= #[trigger] self.tasks[i].id < self.next_id
        &&& forall|i: int, j: int|
            0 <= i < self.tasks.len() && 0 <= j < self.tasks.len() && i != j ==> self.tasks[i].url
                != self.tasks[j].url
        &&& forall|i: int| 0 <= i < self.tasks.len() ==> task_wf(#[trigger] self.tasks[i])
        &&& forall|i: int|
            0 <= i < self.tasks.len() ==> #[trigger] self.tasks[i].updated_at <= self.clock
    }
}

/// Whether some task row carries this URL, in any status.
pub open spec fn url_queued(ts: Seq<TaskView>, url: Seq<char>) -> bool {
    exists|i: int| 0 <= i < ts.len() && ts[i].url == url
}

/// Whether some indexed document carries this URL.
pub open spec fn url_indexed(docs: Seq<DocView>, url: Seq<char>) -> bool {
    exists|i: int| 0 <= i < docs.len() && docs[i].url == url
}

/// Whether some task row carries this identity.
pub open spec fn id_queued(ts: Seq<TaskView>, id: int) -> bool {
    exists|i: int| 0 <= i < ts.len() && ts[i].id == id
}

/// The index of the task row carrying this identity.
pub open spec fn id_index(ts: Seq<TaskView>, id: int) -> int {
    choose|i: int| 0 <= i < ts.len() && ts[i].id == id
}

/// How many task rows are in the given status.
pub open spec fn count_status(ts: Seq<TaskView>, st: CrawlStatus) -> int
    decreases ts.len(),
{
    if ts.len() == 0 {
        0
    } else {
        count_status(ts.drop_last(), st) + if ts.last().status == st {
            1int
        } else {
            0int
        }
    }
}

/// How many task rows on the given domain are Processing.
pub open spec fn count_inflight_on(ts: Seq<TaskView>, domain: Seq<char>) -> int
    decreases ts.len(),
{
    if ts.len() == 0 {
        0
    } else {
        count_inflight_on(ts.drop_last(), domain) + if ts.last().status is Processing
            && ts.last().domain == domain {
            1int
        } else {
            0int
        }
    }
}

/// How many indexed documents sit on the given domain.
pub open spec fn count_indexed_on(docs: Seq<DocView>, domain: Seq<char>) -> int
    decreases docs.len(),
{
    if docs.len() == 0 {
        0
    } else {
        count_indexed_on(docs.drop_last(), domain) + if docs.last().domain == domain {
            1int
        } else {
            0int
        }
    }
}

/// A candidate row for insertion: what the caller decides, with the
/// store supplying identity, status, retries and timestamps.
pub struct NewTask {
    pub domain: String,
    pub url: String,
    pub crawl_type: CrawlType,
}

/// Mathematical view of a candidate row.
pub struct NewTaskView {
    pub domain: Seq<char>,
    pub url: Seq<char>,
    pub crawl_type: CrawlType,
}

impl View for NewTask {
    type V = NewTaskView;

    open spec fn view(&self) -> NewTaskView {
        NewTaskView { domain: self.domain@, url: self.url@, crawl_type: self.crawl_type }
    }
}

impl DeepView for NewTask {
    type V = NewTaskView;

    open spec fn deep_view(&self) -> NewTaskView {
        self.view()
    }
}

/// The row a candidate becomes when inserted at time `t`: Queued, no
/// retries yet, both timestamps at `t`.
pub open spec fn fresh_task(q: QueueView, row: NewTaskView, t: int) -> TaskView {
    TaskView {
        id: q.next_id,
        domain: row.domain,
        url: row.url,
        status: CrawlStatus::Queued,
        num_retries: 0,
        crawl_type: row.crawl_type,
        created_at: t,
        updated_at: t,
    }
}

/// Inserting one candidate at time `t`: a row whose URL is already
/// present is silently skipped; otherwise the fresh row is appended and
/// the clock moves to `t`.
pub open spec fn spec_insert(q: QueueView, row: NewTaskView, t: int) -> QueueView {
    if url_queued(q.tasks, row.url) {
        q
    } else {
        QueueView {
            tasks: q.tasks.push(fresh_task(q, row, t)),
            indexed: q.indexed,
            next_id: q.next_id + 1,
            clock: t,
        }
    }
}

/// Inserting a batch, first row first, all at time `t`.
pub open spec fn spec_insert_many(q: QueueView, rows: Seq<NewTaskView>, t: int) -> QueueView
    decreases rows.len(),
{
    if rows.len() == 0 {
        q
    } else {
        spec_insert(spec_insert_many(q, rows.drop_last(), t), rows.last(), t)
    }
}

/// Appending one fresh row — carrying the next identity, a URL not yet
/// in the table, valid fields, and the new clock as its `updated_at` —
/// preserves the store invariant.
pub proof fn lemma_push_fresh_wf(prev: QueueView, fin: QueueView, ft: TaskView)
    requires
        prev.wf(),
        fin.tasks == prev.tasks.push(ft),
        fin.indexed == prev.indexed,
        fin.next_id == prev.next_id + 1,
        ft.id == prev.next_id,
        !url_queued(prev.tasks, ft.url),
        task_wf(ft),
        ft.updated_at == fin.clock,
        prev.clock <= fin.clock,
    ensures
        fin.wf(),
{
    let len = fin.tasks.len();
    assert forall|a: int, b: int| 0 <= a < b < len implies fin.tasks[a].id < fin.tasks[b].id by {
        if b == len - 1 {
            assert(fin.tasks[a] == prev.tasks[a]);
            assert(prev.tasks[a].id < prev.next_id);
        } else {
            assert(fin.tasks[a] == prev.tasks[a]);
            assert(fin.tasks[b] == prev.tasks[b]);
        }
    }
    assert forall|a: int, b: int|
        0 <= a < len && 0 <= b < len && a != b implies fin.tasks[a].url != fin.tasks[b].url by {
        if a == len - 1 {
            assert(fin.tasks[b] == prev.tasks[b]);
        } else if b == len - 1 {
            assert(fin.tasks[a] == prev.tasks[a]);
        } else {
            assert(fin.tasks[a] == prev.tasks[a]);
            assert(fin.tasks[b] == prev.tasks[b]);
        }
    }
    assert forall|a: int| 0 <= a < len implies 0 <= #[trigger] fin.tasks[a].id < fin.next_id
        && task_wf(fin.tasks[a]) && fin.tasks[a].updated_at <= fin.clock by {
        if a < len - 1 {
            assert(fin.tasks[a] == prev.tasks[a]);
            assert(task_wf(prev.tasks[a]));
            assert(prev.tasks[a].updated_at <= prev.clock);
        }
    }
}

/// The persistent crawl queue: the task table, the read-only
/// indexed-document table, the next row identity, and a clock that
/// never moves backwards.
pub struct Queue {
    pub tasks: Vec<Model>,
    pub indexed: Vec<IndexedDocument>,
    pub next_id: i64,
    pub clock: i64,
}

impl View for Queue {
    type V = QueueView;

    open spec fn view(&self) -> QueueView {
        QueueView {
            tasks: self.tasks.deep_view(),
            indexed: self.indexed.deep_view(),
            next_id: self.next_id as int,
            clock: self.clock as int,
        }
    }
}

impl Queue {
    /// An empty store.
    pub fn new() -> (r: Queue)
        ensures
            r@.wf(),
            r@.tasks.len() == 0,
            r@.indexed.len() == 0,
            r@.next_id == 0,
            r@.clock == 0,
    {
        let q = Queue { tasks: Vec::new(), indexed: Vec::new(), next_id: 0, clock: 0 };
        proof {
            assert(q@.tasks =~= Seq::<TaskView>::empty());
            assert(q@.indexed =~= Seq::<DocView>::empty());
        }
        q
    }

    /// Point lookup by URL, any status.
    pub fn find_by_url(&self, url: &str) -> (r: Option<Model>)
        ensures
            r is Some <==> url_queued(self@.tasks, url@),
            r matches Some(m) ==> m@.url == url@ && self@.tasks.contains(m@),
    {
        let n = self.tasks.len();
        let mut i: usize = 0;
        while i < n
            invariant
                i <= n,
                n == self@.tasks.len(),
                forall|j: int| 0 <= j < i ==> self@.tasks[j].url != url@,
            decreases n - i,
        {
            if str_eq(self.tasks[i].url.as_str(), url) {
                let m = self.tasks[i].duplicate();
                assert(self@.tasks[i as int] == m@);
                return Some(m);
            }
            i = i + 1;
        }
        None
    }

    /// Point lookup by row identity.
    pub fn find_by_id(&self, id: i64) -> (r: Option<Model>)
        ensures
            r is Some <==> id_queued(self@.tasks, id as int),
            r matches Some(m) ==> m@.id == id as int && self@.tasks.contains(m@),
    {
        let n = self.tasks.len();
        let mut i: usize = 0;
        while i < n
            invariant
                i <= n,
                n == self@.tasks.len(),
                forall|j: int| 0 <= j < i ==> self@.tasks[j].id != id as int,
            decreases n - i,
        {
            if self.tasks[i].id == id {
                let m = self.tasks[i].duplicate();
                assert(self@.tasks[i as int] == m@);
                return Some(m);
            }
            i = i + 1;
        }
        None
    }

    /// How many task rows are in the given status.
    pub fn num_queued(&self, status: CrawlStatus) -> (r: u64)
        ensures
            r == count_status(self@.tasks, status),
    {
        let n = self.tasks.len();
        let mut i: usize = 0;
        let mut cnt: u64 = 0;
        while i < n
            invariant
                i <= n,
                n == self@.tasks.len(),
                cnt == count_status(self@.tasks.take(i as int), status),
                cnt <= i,
            decreases n - i,
        {
            proof {
                let pre = self@.tasks.take(i as int);
                let post = self@.tasks.take(i as int + 1);
                assert(post.drop_last() =~= pre);
                assert(post.last() == self@.tasks[i as int]);
            }
            if self.tasks[i].status == status {
                cnt = cnt + 1;
            }
            i = i + 1;
        }
        proof {
            assert(self@.tasks.take(n as int) =~= self@.tasks);
        }
        cnt
    }

    /// Bulk insert of a batch of candidate rows at wall time `now`.
    /// Rows whose URL is already present — in the table or earlier in
    /// the batch — are silently skipped, never failing the batch.
    pub fn insert_many(&mut self, rows: &Vec<NewTask>, now: i64)
        requires
            old(self)@.wf(),
            old(self)@.next_id + rows@.len() <= i64::MAX,
        ensures
            final(self)@.wf(),
            final(self)@ == spec_insert_many(
                old(self)@,
                rows.deep_view(),
                tick(old(self)@.clock, now as int),
            ),
    {
        let t = tick_exec(self.clock, now);
        let n = rows.len();
        let mut i: usize = 0;
        while i < n
            invariant
                i <= n,
                n == rows@.len(),
                self@.wf(),
                self@.indexed == old(self)@.indexed,
                self@.next_id + (n - i) <= i64::MAX,
                t == tick(old(self)@.clock, now as int),
                t >= old(self)@.clock,
                self@.clock == old(self)@.clock || self@.clock == t,
                self@ == spec_insert_many(old(self)@, rows.deep_view().take(i as int), t as int),
            decreases n - i,
        {
            proof {
                let pre = rows.deep_view().take(i as int);
                let post = rows.deep_view().take(i as int + 1);
                assert(post.drop_last() =~= pre);
                assert(post.last() == rows.deep_view()[i as int]);
            }
            let row = &rows[i];
            let dup = self.find_by_url(row.url.as_str());
            if dup.is_none() {
                let ghost prev = self@;
                let m = Model {
                    id: self.next_id,
                    domain: row.domain.clone(),
                    url: row.url.clone(),
                    status: CrawlStatus::Queued,
                    num_retries: 0,
                    crawl_type: row.crawl_type,
                    created_at: t,
                    updated_at: t,
                };
                let ghost ft = fresh_task(prev, rows.deep_view()[i as int], t as int);
                assert(m@ == ft);
                self.tasks.push(m);
                self.next_id = self.next_id + 1;
                self.clock = t;
                proof {
                    assert(self@.tasks =~= prev.tasks.push(ft));
                    assert(self@ == spec_insert(prev, rows.deep_view()[i as int], t as int));
                    lemma_push_fresh_wf(prev, self@, ft);
                }
            }
            i = i + 1;
        }
        proof {
            assert(rows.deep_view().take(n as int) =~= rows.deep_view());
        }
    }

    /// Records one document as indexed; the indexed table is otherwise
    /// owned by another subsystem.
    pub fn add_indexed_doc(&mut self, doc: IndexedDocument)
        requires
            old(self)@.wf(),
        ensures
            final(self)@.wf(),
            final(self)@ == (QueueView { indexed: old(self)@.indexed.push(doc@), ..old(self)@ }),
    {
        let ghost dv = doc@;
        self.indexed.push(doc);
        proof {
            assert(self@.indexed =~= old(self)@.indexed.push(dv));
        }
    }

    /// Recovers from a crash: every Processing row goes back to Queued
    /// with a fresh `updated_at`; nothing else changes.
    pub fn reset_processing(&mut self, now: i64)
        requires
            old(self)@.wf(),
        ensures
            final(self)@.wf(),
            final(self)@.indexed == old(self)@.indexed,
            final(self)@.next_id == old(self)@.next_id,
            final(self)@.clock == tick(old(self)@.clock, now as int),
            final(self)@.tasks.len() == old(self)@.tasks.len(),
            forall|i: int|
                0 <= i < old(self)@.tasks.len() ==> final(self)@.tasks[i] == reset_step(
                    old(self)@.tasks[i],
                    tick(old(self)@.clock, now as int),
                ),
    {
        let t = tick_exec(self.clock, now);
        let n = self.tasks.len();
        let mut i: usize = 0;
        while i < n
            invariant
                i <= n,
                n == self@.tasks.len(),
                n == old(self)@.tasks.len(),
                t == tick(old(self)@.clock, now as int),
                t >= old(self)@.clock,
                self@.indexed == old(self)@.indexed,
                self@.next_id == old(self)@.next_id,
                self@.clock == old(self)@.clock,
                forall|j: int|
                    0 <= j < i ==> self@.tasks[j] == reset_step(old(self)@.tasks[j], t as int),
                forall|j: int| i <= j < n ==> self@.tasks[j] == old(self)@.tasks[j],
                old(self)@.wf(),
            decreases n - i,
        {
            let is_processing = self.tasks[i].status == CrawlStatus::Processing;
            if is_processing {
                let ghost prev = self@;
                let fixed = {
                    let cur = &self.tasks[i];
                    Model {
                        id: cur.id,
                        domain: cur.domain.clone(),
                        url: cur.url.clone(),
                        status: CrawlStatus::Queued,
                        num_retries: cur.num_retries,
                        crawl_type: cur.crawl_type,
                        created_at: cur.created_at,
                        updated_at: t,
                    }
                };
                let ghost fv = fixed@;
                assert(fv == reset_step(old(self)@.tasks[i as int], t as int));
                self.tasks.set(i, fixed);
                proof {
                    assert(self@.tasks =~= prev.tasks.update(i as int, fv));
                    assert forall|j: int| 0 <= j < n && j != i implies self@.tasks[j]
                        == prev.tasks[j] by {}
                    assert(self@.tasks[i as int] == fv);
                }
            } else {
                assert(self@.tasks[i as int] == reset_step(old(self)@.tasks[i as int], t as int));
            }
            i = i + 1;
        }
        self.clock = t;
        proof {
            let fin = self@;
            let prev = old(self)@;
            assert forall|a: int, b: int| 0 <= a < b < fin.tasks.len() implies fin.tasks[a].id
                < fin.tasks[b].id by {
                assert(fin.tasks[a].id == prev.tasks[a].id);
                assert(fin.tasks[b].id == prev.tasks[b].id);
            }
            assert forall|a: int, b: int|
                0 <= a < fin.tasks.len() && 0 <= b < fin.tasks.len() && a != b implies fin.tasks[a].url
                != fin.tasks[b].url by {
                assert(fin.tasks[a].url == prev.tasks[a].url);
                assert(fin.tasks[b].url == prev.tasks[b].url);
            }
            assert forall|a: int| 0 <= a < fin.tasks.len() implies 0 <= #[trigger] fin.tasks[a].id
                < fin.next_id && task_wf(fin.tasks[a]) && fin.tasks[a].updated_at <= fin.clock by {
                assert(prev.tasks[a].id == fin.tasks[a].id);
                assert(task_wf(prev.tasks[a]));
                assert(prev.tasks[a].updated_at <= prev.clock);
            }
        }
    }
}

/// What crash recovery does to one row: Processing goes back to Queued
/// with `updated_at` at the recovery time; everything else is untouched.
pub open spec fn reset_step(t: TaskView, time: int) -> TaskView {
    if t.status is Processing {
        TaskView { status: CrawlStatus::Queued, updated_at: time, ..t }
    } else {
        t
    }
}

} // verus!
