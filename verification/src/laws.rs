//! Laws of the enqueue pipeline, proved over the batch transition
//! `spec_enqueue`: enqueueing a batch twice leaves the store exactly
//! where one pass left it, and with lenses enforced but none declared,
//! nothing is ever inserted.

use vstd::prelude::*;

use crate::enqueue::{admitted, enqueue_step, spec_enqueue};
use crate::store::{url_indexed, url_queued, QueueView};
use crate::types::{EnqueueView, SettingsView};
use crate::urlnorm::norm_url;

verus! {

/// After a batch, every admitted URL of the batch is accounted for:
/// its normalized form is in the task table or in the indexed table.
pub proof fn lemma_enqueue_covers(
    q: QueueView,
    pats: Seq<Seq<char>>,
    urls: Seq<Seq<char>>,
    s: SettingsView,
    ov: EnqueueView,
    t: int,
    u: Seq<char>,
)
    requires
        urls.contains(u),
        admitted(pats, u, s, ov),
    ensures
        url_queued(spec_enqueue(q, pats, urls, s, ov, t).tasks, norm_url(u)) || url_indexed(
            spec_enqueue(q, pats, urls, s, ov, t).indexed,
            norm_url(u),
        ),
    decreases urls.len(),
{
    let q1 = spec_enqueue(q, pats, urls.drop_last(), s, ov, t);
    let q2 = enqueue_step(q1, pats, urls.last(), s, ov, t);
    if urls.last() == u {
        if url_queued(q1.tasks, norm_url(u)) {
            let i = choose|i: int| 0 <= i < q1.tasks.len() && q1.tasks[i].url == norm_url(u);
            assert(q2.tasks[i].url == norm_url(u));
        } else if url_indexed(q1.indexed, norm_url(u)) {
            assert(q2.indexed == q1.indexed);
        } else {
            assert(q2.tasks.last().url == norm_url(u));
            assert(url_queued(q2.tasks, norm_url(u)));
        }
    } else {
        assert(urls.drop_last().contains(u)) by {
            let i = choose|i: int| 0 <= i < urls.len() && urls[i] == u;
            assert(i < urls.len() - 1);
            assert(urls.drop_last()[i] == u);
        }
        lemma_enqueue_covers(q, pats, urls.drop_last(), s, ov, t, u);
        if url_queued(q1.tasks, norm_url(u)) {
            let i = choose|i: int| 0 <= i < q1.tasks.len() && q1.tasks[i].url == norm_url(u);
            assert(q2.tasks[i].url == norm_url(u));
        }
    }
}

/// A batch whose every admitted URL is already accounted for does
/// nothing at all.
pub proof fn lemma_enqueue_noop(
    q: QueueView,
    pats: Seq<Seq<char>>,
    urls: Seq<Seq<char>>,
    s: SettingsView,
    ov: EnqueueView,
    t: int,
)
    requires
        forall|u: Seq<char>|
            urls.contains(u) && admitted(pats, u, s, ov) ==> url_queued(q.tasks, norm_url(u))
                || url_indexed(q.indexed, norm_url(u)),
    ensures
        spec_enqueue(q, pats, urls, s, ov, t) == q,
    decreases urls.len(),
{
    if urls.len() > 0 {
        assert forall|u: Seq<char>|
            urls.drop_last().contains(u) && admitted(pats, u, s, ov) implies url_queued(
            q.tasks,
            norm_url(u),
        ) || url_indexed(q.indexed, norm_url(u)) by {
            let i = choose|i: int| 0 <= i < urls.drop_last().len() && urls.drop_last()[i] == u;
            assert(urls[i] == u);
            assert(urls.contains(u));
        }
        lemma_enqueue_noop(q, pats, urls.drop_last(), s, ov, t);
        let u = urls.last();
        assert(urls.contains(u)) by {
            assert(urls[urls.len() - 1] == u);
        }
        assert(enqueue_step(q, pats, u, s, ov, t) == q);
    }
}

/// Idempotent enqueue: running the same batch a second time — at any
/// later wall time — leaves the store exactly as the first run left
/// it: no duplicate rows, no new rows, nothing touched.
pub proof fn lemma_enqueue_idempotent(
    q: QueueView,
    pats: Seq<Seq<char>>,
    urls: Seq<Seq<char>>,
    s: SettingsView,
    ov: EnqueueView,
    t1: int,
    t2: int,
)
    ensures
        spec_enqueue(spec_enqueue(q, pats, urls, s, ov, t1), pats, urls, s, ov, t2)
            == spec_enqueue(q, pats, urls, s, ov, t1),
{
    let q1 = spec_enqueue(q, pats, urls, s, ov, t1);
    assert forall|u: Seq<char>|
        urls.contains(u) && admitted(pats, u, s, ov) implies url_queued(q1.tasks, norm_url(u))
        || url_indexed(q1.indexed, norm_url(u)) by {
        lemma_enqueue_covers(q, pats, urls, s, ov, t1, u);
    }
    lemma_enqueue_noop(q1, pats, urls, s, ov, t2);
}

/// Lens admission: with lenses enforced — the batch does not skip them
/// and external links are off — and no lens declared, the regex set is
/// empty, no URL matches, and a batch inserts nothing.
pub proof fn lemma_empty_lenses_reject_all(
    q: QueueView,
    pats: Seq<Seq<char>>,
    urls: Seq<Seq<char>>,
    s: SettingsView,
    ov: EnqueueView,
    t: int,
)
    requires
        pats.len() == 0,
        !ov.skip_lenses,
        !s.crawl_external_links,
    ensures
        spec_enqueue(q, pats, urls, s, ov, t) == q,
    decreases urls.len(),
{
    if urls.len() > 0 {
        lemma_empty_lenses_reject_all(q, pats, urls.drop_last(), s, ov, t);
        assert(!admitted(pats, urls.last(), s, ov));
    }
}

} // verus!
