//! Enqueueing a batch of candidate URLs: normalize, filter against the
//! blocklist and the lens regex set, suppress URLs already queued or
//! already indexed, and insert the survivors as Queued tasks.

use vstd::prelude::*;

use crate::clock::{now_secs, tick, tick_exec};
use crate::patterns::{all_regexes, build_allow_list, regex_set_is_match, set_match};
use crate::store::{url_indexed, url_queued, Queue, QueueView};
use crate::strutil::str_eq;
use crate::types::{
    CrawlStatus, CrawlType, EnqueueSettings, EnqueueView, Lens, Model, SettingsView, SkipReason,
    TaskView, UserSettings,
};
use crate::urlnorm::{norm_host, norm_url, normalize_url, url_accepted};

verus! {

/// Whether the admission filter lets a candidate URL through: it must
/// normalize, its host must not be blocked (unless the batch skips the
/// blocklist), and, when lenses are enforced, the normalized URL must
/// match the lens regex set.
pub open spec fn admitted(
    pats: Seq<Seq<char>>,
    u: Seq<char>,
    s: SettingsView,
    ov: EnqueueView,
) -> bool {
    &&& url_accepted(u)
    &&& !(!ov.skip_blocklist && s.block_list.contains(norm_host(u)))
    &&& (ov.skip_lenses || s.crawl_external_links || (pats.len() > 0 && set_match(
        pats,
        norm_url(u),
    )))
}

/// Why one candidate URL is skipped, or nothing when it is taken:
/// unparseable first, then blocklist, then lens admission, then the
/// duplicate gate against both tables.
pub open spec fn spec_skip_reason(
    q: QueueView,
    pats: Seq<Seq<char>>,
    u: Seq<char>,
    s: SettingsView,
    ov: EnqueueView,
) -> Option<SkipReason> {
    if !url_accepted(u) {
        Some(SkipReason::Invalid)
    } else if !ov.skip_blocklist && s.block_list.contains(norm_host(u)) {
        Some(SkipReason::Blocked)
    } else if !(ov.skip_lenses || s.crawl_external_links || (pats.len() > 0 && set_match(
        pats,
        norm_url(u),
    ))) {
        Some(SkipReason::Blocked)
    } else if url_queued(q.tasks, norm_url(u)) || url_indexed(q.indexed, norm_url(u)) {
        Some(SkipReason::Duplicate)
    } else {
        None
    }
}

/// The row an admitted candidate becomes at time `t`.
pub open spec fn enqueued_task(q: QueueView, u: Seq<char>, ct: CrawlType, t: int) -> TaskView {
    TaskView {
        id: q.next_id,
        domain: norm_host(u),
        url: norm_url(u),
        status: CrawlStatus::Queued,
        num_retries: 0,
        crawl_type: ct,
        created_at: t,
        updated_at: t,
    }
}

/// What one candidate URL does to the store: nothing when it is skipped
/// for any reason, else a fresh Queued row and the clock at `t`.
pub open spec fn enqueue_step(
    q: QueueView,
    pats: Seq<Seq<char>>,
    u: Seq<char>,
    s: SettingsView,
    ov: EnqueueView,
    t: int,
) -> QueueView {
    if admitted(pats, u, s, ov) && !url_queued(q.tasks, norm_url(u)) && !url_indexed(
        q.indexed,
        norm_url(u),
    ) {
        QueueView {
            tasks: q.tasks.push(enqueued_task(q, u, ov.crawl_type, t)),
            indexed: q.indexed,
            next_id: q.next_id + 1,
            clock: t,
        }
    } else {
        q
    }
}

/// What a whole batch does to the store, first URL first, all at `t`.
pub open spec fn spec_enqueue(
    q: QueueView,
    pats: Seq<Seq<char>>,
    urls: Seq<Seq<char>>,
    s: SettingsView,
    ov: EnqueueView,
    t: int,
) -> QueueView
    decreases urls.len(),
{
    if urls.len() == 0 {
        q
    } else {
        enqueue_step(spec_enqueue(q, pats, urls.drop_last(), s, ov, t), pats, urls.last(), s, ov, t)
    }
}

/// Whether a list of strings holds this one.
pub fn contains_str(list: &Vec<String>, x: &str) -> (r: bool)
    ensures
        r == list.deep_view().contains(x@),
{
    let n = list.len();
    let mut i: usize = 0;
    while i < n
        invariant
            i <= n,
            n == list@.len(),
            forall|j: int| 0 <= j < i ==> list.deep_view()[j] != x@,
        decreases n - i,
    {
        if str_eq(list[i].as_str(), x) {
            assert(list.deep_view()[i as int] == x@);
            return true;
        }
        i = i + 1;
    }
    assert(!list.deep_view().contains(x@));
    false
}

impl Queue {
    /// Whether the indexed-document table holds this URL.
    fn is_indexed(&self, url: &str) -> (r: bool)
        ensures
            r == url_indexed(self@.indexed, url@),
    {
        let n = self.indexed.len();
        let mut i: usize = 0;
        while i < n
            invariant
                i <= n,
                n == self@.indexed.len(),
                forall|j: int| 0 <= j < i ==> self@.indexed[j].url != url@,
            decreases n - i,
        {
            if str_eq(self.indexed[i].url.as_str(), url) {
                assert(self@.indexed[i as int].url == url@);
                return true;
            }
            i = i + 1;
        }
        false
    }

    /// Why one candidate URL would be skipped right now, against the
    /// given compiled lens regex set, or nothing when it would be
    /// taken.
    pub fn skip_reason(
        &self,
        allow_list: &Vec<String>,
        url: &str,
        settings: &UserSettings,
        overrides: &EnqueueSettings,
    ) -> (r: Option<SkipReason>)
        ensures
            r == spec_skip_reason(
                self@,
                allow_list.deep_view(),
                url@,
                settings@,
                overrides@,
            ),
    {
        let norm = normalize_url(url);
        match norm {
            None => Some(SkipReason::Invalid),
            Some((norm, host)) => {
                if !overrides.skip_blocklist && contains_str(&settings.block_list, host.as_str()) {
                    return Some(SkipReason::Blocked);
                }
                let lens_ok = overrides.skip_lenses || settings.crawl_external_links || (
                allow_list.len() > 0 && regex_set_is_match(allow_list, norm.as_str()));
                if !lens_ok {
                    return Some(SkipReason::Blocked);
                }
                let queued = self.find_by_url(norm.as_str());
                if queued.is_some() || self.is_indexed(norm.as_str()) {
                    return Some(SkipReason::Duplicate);
                }
                None
            }
        }
    }

    /// Adds a batch of candidate URLs to the crawl queue at wall time
    /// `now`.  Unparseable URLs, blocked or lens-rejected URLs, and
    /// URLs already queued or already indexed are silently skipped; the
    /// survivors are inserted as Queued rows of the batch's crawl type.
    pub fn enqueue_all(
        &mut self,
        urls: &Vec<String>,
        lenses: &Vec<Lens>,
        settings: &UserSettings,
        overrides: &EnqueueSettings,
        now: i64,
    )
        requires
            old(self)@.wf(),
            old(self)@.next_id + urls@.len() <= i64::MAX,
        ensures
            final(self)@.wf(),
            final(self)@ == spec_enqueue(
                old(self)@,
                all_regexes(lenses.deep_view()),
                urls.deep_view(),
                settings@,
                overrides@,
                tick(old(self)@.clock, now as int),
            ),
    {
        let allow_list = build_allow_list(lenses);
        let ghost pats = all_regexes(lenses.deep_view());
        let t = tick_exec(self.clock, now);
        let n = urls.len();
        let mut i: usize = 0;
        while i < n
            invariant
                i <= n,
                n == urls@.len(),
                self@.wf(),
                allow_list.deep_view() == pats,
                pats == all_regexes(lenses.deep_view()),
                self@.indexed == old(self)@.indexed,
                self@.next_id + (n - i) <= i64::MAX,
                t == tick(old(self)@.clock, now as int),
                t >= old(self)@.clock,
                self@.clock == old(self)@.clock || self@.clock == t,
                self@ == spec_enqueue(
                    old(self)@,
                    pats,
                    urls.deep_view().take(i as int),
                    settings@,
                    overrides@,
                    t as int,
                ),
            decreases n - i,
        {
            proof {
                let pre = urls.deep_view().take(i as int);
                let post = urls.deep_view().take(i as int + 1);
                assert(post.drop_last() =~= pre);
                assert(post.last() == urls.deep_view()[i as int]);
            }
            let ghost u = urls.deep_view()[i as int];
            let norm = normalize_url(urls[i].as_str());
            match norm {
                None => {
                    assert(!admitted(pats, u, settings@, overrides@));
                }
                Some((norm, host)) => {
                    let blocked = !overrides.skip_blocklist && contains_str(
                        &settings.block_list,
                        host.as_str(),
                    );
                    if blocked {
                        assert(!admitted(pats, u, settings@, overrides@));
                    } else {
                        let lens_ok = overrides.skip_lenses || settings.crawl_external_links || (
                        allow_list.len() > 0 && regex_set_is_match(&allow_list, norm.as_str()));
                        if !lens_ok {
                            assert(!admitted(pats, u, settings@, overrides@));
                        } else {
                            assert(admitted(pats, u, settings@, overrides@));
                            let queued = self.find_by_url(norm.as_str());
                            if queued.is_some() || self.is_indexed(norm.as_str()) {
                                assert(url_queued(self@.tasks, norm_url(u)) || url_indexed(
                                    self@.indexed,
                                    norm_url(u),
                                ));
                            } else {
                                let ghost prev = self@;
                                let m = Model {
                                    id: self.next_id,
                                    domain: host,
                                    url: norm,
                                    status: CrawlStatus::Queued,
                                    num_retries: 0,
                                    crawl_type: overrides.crawl_type,
                                    created_at: t,
                                    updated_at: t,
                                };
                                let ghost ft = enqueued_task(prev, u, overrides@.crawl_type, t as int);
                                assert(m@ == ft);
                                self.tasks.push(m);
                                self.next_id = self.next_id + 1;
                                self.clock = t;
                                proof {
                                    assert(self@.tasks =~= prev.tasks.push(ft));
                                    crate::store::lemma_push_fresh_wf(prev, self@, ft);
                                }
                            }
                        }
                    }
                }
            }
            i = i + 1;
        }
        proof {
            assert(urls.deep_view().take(n as int) =~= urls.deep_view());
        }
    }

    /// As `enqueue_all`, stamping the batch with the wall clock.  The
    /// wall time is whatever the machine reports; whatever it is, the
    /// batch lands as one `enqueue_all` at a time no earlier than the
    /// store clock.
    pub fn enqueue_all_now(
        &mut self,
        urls: &Vec<String>,
        lenses: &Vec<Lens>,
        settings: &UserSettings,
        overrides: &EnqueueSettings,
    )
        requires
            old(self)@.wf(),
            old(self)@.next_id + urls@.len() <= i64::MAX,
        ensures
            final(self)@.wf(),
            exists|now: int|
                final(self)@ == spec_enqueue(
                    old(self)@,
                    all_regexes(lenses.deep_view()),
                    urls.deep_view(),
                    settings@,
                    overrides@,
                    tick(old(self)@.clock, now),
                ),
    {
        let now = now_secs();
        self.enqueue_all(urls, lenses, settings, overrides, now);
        proof {
            assert(self@ == spec_enqueue(
                old(self)@,
                all_regexes(lenses.deep_view()),
                urls.deep_view(),
                settings@,
                overrides@,
                tick(old(self)@.clock, now as int),
            ));
        }
    }
}

} // verus!
