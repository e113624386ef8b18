//! The priority scheduler: picks the next runnable task under three
//! tiers of policy — global admission control, a Bootstrap
//! short-circuit, and a prioritized general dequeue ranked by prefix
//! match, then domain match, then oldest `updated_at`, with per-domain
//! caps enforced as visibility, not ranking.

use vstd::prelude::*;

use crate::like::{like_match, like_rec};
use crate::store::{count_indexed_on, count_inflight_on, count_status, Queue, QueueView};
use crate::strutil::{dec_digits, push_char, str_eq, u32_to_dec};
use crate::types::{CrawlStatus, CrawlType, Limit, Model, SettingsView, UserSettings};

verus! {

/// A domain pattern with `*` wildcards, translated to `LIKE` wildcards.
pub open spec fn stars_to_percent(p: Seq<char>) -> Seq<char> {
    p.map_values(|c: char| if c == '*' { '%' } else { c })
}

/// Whether the task domain matches any prioritized domain pattern:
/// priority 1 when it does, 0 otherwise.  An empty list degenerates to
/// priority 0 for every task.
pub open spec fn domain_priority(d: Seq<char>, pd: Seq<Seq<char>>) -> int {
    if exists|i: int| 0 <= i < pd.len() && like_rec(stars_to_percent(#[trigger] pd[i]), d) {
        1
    } else {
        0
    }
}

/// Whether the task URL starts with any prioritized prefix (prefixes
/// are literal; a `LIKE` wildcard is appended): priority 1 when it
/// does, 0 otherwise.
pub open spec fn prefix_priority(u: Seq<char>, pp: Seq<Seq<char>>) -> int {
    if exists|i: int| 0 <= i < pp.len() && like_rec(#[trigger] pp[i] + "%"@, u) {
        1
    } else {
        0
    }
}

/// Whether the global admission control turns the scheduler away: a
/// finite inflight cap already met by the Processing rows.
pub open spec fn global_capped(q: QueueView, s: SettingsView) -> bool {
    s.inflight_crawl_limit matches Limit::Finite(n) && count_status(
        q.tasks,
        CrawlStatus::Processing,
    ) >= n
}

/// Whether row `i` is a Queued Bootstrap task.
pub open spec fn is_bootstrap(q: QueueView, i: int) -> bool {
    &&& 0 <= i < q.tasks.len()
    &&& q.tasks[i].status is Queued
    &&& q.tasks[i].crawl_type is Bootstrap
}

/// Whether row `i` is visible to the general dequeue: Queued, its
/// domain below the indexed-documents cap and below the per-domain
/// inflight cap (`Unlimited` stands for the largest signed 32-bit
/// bound).
pub open spec fn eligible(q: QueueView, i: int, s: SettingsView) -> bool {
    &&& 0 <= i < q.tasks.len()
    &&& q.tasks[i].status is Queued
    &&& count_indexed_on(q.indexed, q.tasks[i].domain) < s.domain_crawl_limit.spec_value()
    &&& count_inflight_on(q.tasks, q.tasks[i].domain) < s.inflight_domain_limit.spec_value()
}

/// Whether row `a` ranks strictly above row `b`: higher prefix
/// priority; else equal prefix and higher domain priority; else equal
/// on both and older `updated_at`.
pub open spec fn ranks_above(
    q: QueueView,
    pd: Seq<Seq<char>>,
    pp: Seq<Seq<char>>,
    a: int,
    b: int,
) -> bool {
    let pa = prefix_priority(q.tasks[a].url, pp);
    let pb = prefix_priority(q.tasks[b].url, pp);
    let da = domain_priority(q.tasks[a].domain, pd);
    let db = domain_priority(q.tasks[b].domain, pd);
    ||| pa > pb
    ||| (pa == pb && da > db)
    ||| (pa == pb && da == db && q.tasks[a].updated_at < q.tasks[b].updated_at)
}

/// Whether rows `a` and `b` rank equal on all three criteria.
pub open spec fn ranks_tied(
    q: QueueView,
    pd: Seq<Seq<char>>,
    pp: Seq<Seq<char>>,
    a: int,
    b: int,
) -> bool {
    &&& prefix_priority(q.tasks[a].url, pp) == prefix_priority(q.tasks[b].url, pp)
    &&& domain_priority(q.tasks[a].domain, pd) == domain_priority(q.tasks[b].domain, pd)
    &&& q.tasks[a].updated_at == q.tasks[b].updated_at
}

/// A domain pattern with `*` turned into the `LIKE` wildcard `%`.
fn stars_to_percent_exec(p: &str) -> (r: String)
    ensures
        r@ == stars_to_percent(p@),
{
    let len = p.unicode_len();
    let mut out = String::new();
    let mut i: usize = 0;
    while i < len
        invariant
            i <= len,
            len == p@.len(),
            out@ == stars_to_percent(p@.take(i as int)),
        decreases len - i,
    {
        let c = p.get_char(i);
        if c == '*' {
            push_char(&mut out, '%');
        } else {
            push_char(&mut out, c);
        }
        proof {
            let f = |c: char| if c == '*' {
                '%'
            } else {
                c
            };
            assert(p@.take(i as int + 1).map_values(f) =~= p@.take(i as int).map_values(f).push(
                f(p@[i as int])));
        }
        i = i + 1;
    }
    assert(p@.take(len as int) =~= p@);
    out
}

/// The domain priority of one task domain.
fn domain_priority_exec(d: &str, pd: &Vec<String>) -> (r: u32)
    ensures
        r == domain_priority(d@, pd.deep_view()),
{
    let n = pd.len();
    let mut i: usize = 0;
    while i < n
        invariant
            i <= n,
            n == pd@.len(),
            forall|j: int|
                0 <= j < i ==> !like_rec(stars_to_percent(#[trigger] pd.deep_view()[j]), d@),
        decreases n - i,
    {
        let pat = stars_to_percent_exec(pd[i].as_str());
        if like_match(pat.as_str(), d) {
            assert(like_rec(stars_to_percent(pd.deep_view()[i as int]), d@));
            return 1;
        }
        i = i + 1;
    }
    0
}

/// The prefix priority of one task URL.
fn prefix_priority_exec(u: &str, pp: &Vec<String>) -> (r: u32)
    ensures
        r == prefix_priority(u@, pp.deep_view()),
{
    let n = pp.len();
    let mut i: usize = 0;
    while i < n
        invariant
            i <= n,
            n == pp@.len(),
            forall|j: int| 0 <= j < i ==> !like_rec(#[trigger] pp.deep_view()[j] + "%"@, u@),
        decreases n - i,
    {
        let mut pat = pp[i].clone();
        pat.append("%");
        if like_match(pat.as_str(), u) {
            assert(like_rec(pp.deep_view()[i as int] + "%"@, u@));
            return 1;
        }
        i = i + 1;
    }
    0
}

impl Queue {
    /// How many indexed documents sit on this domain.
    fn indexed_on(&self, domain: &str) -> (r: u64)
        ensures
            r == count_indexed_on(self@.indexed, domain@),
    {
        let n = self.indexed.len();
        let mut i: usize = 0;
        let mut cnt: u64 = 0;
        while i < n
            invariant
                i <= n,
                n == self@.indexed.len(),
                cnt == count_indexed_on(self@.indexed.take(i as int), domain@),
                cnt <= i,
            decreases n - i,
        {
            proof {
                let pre = self@.indexed.take(i as int);
                let post = self@.indexed.take(i as int + 1);
                assert(post.drop_last() =~= pre);
                assert(post.last() == self@.indexed[i as int]);
            }
            if str_eq(self.indexed[i].domain.as_str(), domain) {
                cnt = cnt + 1;
            }
            i = i + 1;
        }
        proof {
            assert(self@.indexed.take(n as int) =~= self@.indexed);
        }
        cnt
    }

    /// How many Processing rows sit on this domain.
    fn inflight_on(&self, domain: &str) -> (r: u64)
        ensures
            r == count_inflight_on(self@.tasks, domain@),
    {
        let n = self.tasks.len();
        let mut i: usize = 0;
        let mut cnt: u64 = 0;
        while i < n
            invariant
                i <= n,
                n == self@.tasks.len(),
                cnt == count_inflight_on(self@.tasks.take(i as int), domain@),
                cnt <= i,
            decreases n - i,
        {
            proof {
                let pre = self@.tasks.take(i as int);
                let post = self@.tasks.take(i as int + 1);
                assert(post.drop_last() =~= pre);
                assert(post.last() == self@.tasks[i as int]);
            }
            let hit = self.tasks[i].status == CrawlStatus::Processing && str_eq(
                self.tasks[i].domain.as_str(),
                domain,
            );
            if hit {
                cnt = cnt + 1;
            }
            i = i + 1;
        }
        proof {
            assert(self@.tasks.take(n as int) =~= self@.tasks);
        }
        cnt
    }

    /// The next task in the crawl queue, or nothing.
    ///
    /// Tier A: a finite global inflight cap already met turns the
    /// scheduler away.  Tier B: the oldest Queued Bootstrap task, when
    /// one exists, runs before all general work and ignores the
    /// per-domain caps.  Tier C: among the visible rows, the best under
    /// prefix priority, then domain priority, then oldest `updated_at`,
    /// ties broken by table order.  The caller claims the returned task
    /// with `claim` before working on it.
    pub fn dequeue(
        &self,
        settings: &UserSettings,
        p_domains: &Vec<String>,
        p_prefixes: &Vec<String>,
    ) -> (r: Option<Model>)
        ensures
            global_capped(self@, settings@) ==> r is None,
            !global_capped(self@, settings@) && (exists|i: int| is_bootstrap(self@, i)) ==> (
            r matches Some(m) && (exists|i: int|
                {
                    &&& is_bootstrap(self@, i)
                    &&& m@ == self@.tasks[i]
                    &&& forall|j: int| 0 <= j < i ==> !is_bootstrap(self@, j)
                })),
            !global_capped(self@, settings@) && !(exists|i: int| is_bootstrap(self@, i)) && (
            exists|i: int| eligible(self@, i, settings@)) ==> (r matches Some(m) && (exists|i: int|
                {
                    &&& eligible(self@, i, settings@)
                    &&& m@ == self@.tasks[i]
                    &&& forall|j: int|
                        eligible(self@, j, settings@) ==> !ranks_above(
                            self@,
                            p_domains.deep_view(),
                            p_prefixes.deep_view(),
                            j,
                            i,
                        )
                    &&& forall|j: int|
                        eligible(self@, j, settings@) && ranks_tied(
                            self@,
                            p_domains.deep_view(),
                            p_prefixes.deep_view(),
                            j,
                            i,
                        ) ==> i <= j
                })),
            !global_capped(self@, settings@) && !(exists|i: int| is_bootstrap(self@, i)) && !(
            exists|i: int| eligible(self@, i, settings@)) ==> r is None,
            r matches Some(m) ==> (settings@.domain_crawl_limit matches Limit::Finite(k) ==> (!(
            m@.crawl_type is Bootstrap) ==> count_indexed_on(self@.indexed, m@.domain) < k)),
            r matches Some(m) ==> (settings@.inflight_domain_limit matches Limit::Finite(k) ==> (!(
            m@.crawl_type is Bootstrap) ==> count_inflight_on(self@.tasks, m@.domain) < k)),
    {
        // Tier A: global admission control.
        if let Limit::Finite(cap) = settings.inflight_crawl_limit {
            let inflight = self.num_queued(CrawlStatus::Processing);
            if inflight >= cap as u64 {
                return None;
            }
        }
        assert(!global_capped(self@, settings@));
        // Tier B: Bootstrap short-circuit.
        let n = self.tasks.len();
        let mut i: usize = 0;
        while i < n
            invariant
                i <= n,
                n == self@.tasks.len(),
                !global_capped(self@, settings@),
                forall|j: int| 0 <= j < i ==> !is_bootstrap(self@, j),
            decreases n - i,
        {
            let hit = self.tasks[i].status == CrawlStatus::Queued && self.tasks[i].crawl_type
                == CrawlType::Bootstrap;
            if hit {
                let m = self.tasks[i].duplicate();
                assert(is_bootstrap(self@, i as int));
                return Some(m);
            }
            i = i + 1;
        }
        assert(forall|j: int| !is_bootstrap(self@, j));
        // Tier C: prioritized general dequeue.
        let ghost pd = p_domains.deep_view();
        let ghost pp = p_prefixes.deep_view();
        let dcl = settings.domain_crawl_limit.value() as u64;
        let idl = settings.inflight_domain_limit.value() as u64;
        let mut best: usize = 0;
        let mut found: bool = false;
        let mut best_ppri: u32 = 0;
        let mut best_dpri: u32 = 0;
        let mut i: usize = 0;
        while i < n
            invariant
                i <= n,
                n == self@.tasks.len(),
                !global_capped(self@, settings@),
                forall|j: int| !is_bootstrap(self@, j),
                dcl == settings@.domain_crawl_limit.spec_value(),
                idl == settings@.inflight_domain_limit.spec_value(),
                pd == p_domains.deep_view(),
                pp == p_prefixes.deep_view(),
                !found ==> forall|j: int| 0 <= j < i ==> !eligible(self@, j, settings@),
                found ==> {
                    &&& best < i
                    &&& eligible(self@, best as int, settings@)
                    &&& best_ppri == prefix_priority(self@.tasks[best as int].url, pp)
                    &&& best_dpri == domain_priority(self@.tasks[best as int].domain, pd)
                    &&& forall|j: int|
                        0 <= j < i && eligible(self@, j, settings@) ==> !ranks_above(
                            self@,
                            pd,
                            pp,
                            j,
                            best as int,
                        )
                    &&& forall|j: int|
                        0 <= j < i && eligible(self@, j, settings@) && ranks_tied(
                            self@,
                            pd,
                            pp,
                            j,
                            best as int,
                        ) ==> best as int <= j
                },
            decreases n - i,
        {
            if self.tasks[i].status == CrawlStatus::Queued {
                let ic = self.indexed_on(self.tasks[i].domain.as_str());
                let fc = self.inflight_on(self.tasks[i].domain.as_str());
                if ic < dcl && fc < idl {
                    assert(eligible(self@, i as int, settings@));
                    let ppri = prefix_priority_exec(self.tasks[i].url.as_str(), p_prefixes);
                    let dpri = domain_priority_exec(self.tasks[i].domain.as_str(), p_domains);
                    if !found {
                        best = i;
                        found = true;
                        best_ppri = ppri;
                        best_dpri = dpri;
                    } else {
                        let better = ppri > best_ppri || (ppri == best_ppri && (dpri > best_dpri
                            || (dpri == best_dpri && self.tasks[i].updated_at
                            < self.tasks[best].updated_at)));
                        if better {
                            assert(ranks_above(self@, pd, pp, i as int, best as int));
                            best = i;
                            best_ppri = ppri;
                            best_dpri = dpri;
                        } else {
                            assert(!ranks_above(self@, pd, pp, i as int, best as int));
                        }
                    }
                } else {
                    assert(!eligible(self@, i as int, settings@));
                }
            } else {
                assert(!eligible(self@, i as int, settings@));
            }
            i = i + 1;
        }
        if found {
            let m = self.tasks[best].duplicate();
            Some(m)
        } else {
            assert(forall|j: int| !eligible(self@, j, settings@));
            None
        }
    }
}

/// One prioritized item as it enters the SQL values: a prefix gets a
/// trailing `LIKE` wildcard; a domain keeps its own `*` wildcards,
/// translated to `%`.
pub open spec fn priority_item(item: Seq<char>, is_prefix: bool) -> Seq<char> {
    if is_prefix {
        item + "%"@
    } else {
        stars_to_percent(item)
    }
}

/// One row of the priority values: the item, quoted, at priority 1.
pub open spec fn value_row(item: Seq<char>) -> Seq<char> {
    "(\""@ + item + "\", 1)"@
}

/// The whole comma-joined values list; an empty list degenerates to the
/// single sentinel row at priority 0, keeping the joins well-formed.
pub open spec fn priority_values(items: Seq<Seq<char>>, is_prefix: bool) -> Seq<char>
    decreases items.len(),
{
    if items.len() == 0 {
        "(\"\", 0)"@
    } else if items.len() == 1 {
        value_row(priority_item(items[0], is_prefix))
    } else {
        priority_values(items.drop_last(), is_prefix) + ","@ + value_row(
            priority_item(items.last(), is_prefix),
        )
    }
}

/// The in-memory priority table for the scheduler's query: one
/// `("item", 1)` row per prioritized item, or the `("", 0)` sentinel
/// when the list is empty.
pub fn gen_priority_values(items: &Vec<String>, is_prefix: bool) -> (r: String)
    ensures
        r@ == priority_values(items.deep_view(), is_prefix),
{
    let n = items.len();
    let mut out = String::new();
    if n == 0 {
        out.append("(\"\", 0)");
        return out;
    }
    let mut i: usize = 0;
    while i < n
        invariant
            i <= n,
            n == items@.len(),
            n > 0,
            i == 0 ==> out@ == Seq::<char>::empty(),
            i >= 1 ==> out@ == priority_values(items.deep_view().take(i as int), is_prefix),
        decreases n - i,
    {
        if i > 0 {
            out.append(",");
        }
        out.append("(\"");
        if is_prefix {
            let mut t = items[i].clone();
            t.append("%");
            out.append(t.as_str());
        } else {
            let t = stars_to_percent_exec(items[i].as_str());
            out.append(t.as_str());
        }
        out.append("\", 1)");
        proof {
            let dv = items.deep_view();
            let post = dv.take(i as int + 1);
            assert(post.last() == dv[i as int]);
            if i == 0 {
                assert(post.len() == 1);
                assert(post[0] == dv[0]);
                assert(out@ =~= value_row(priority_item(dv[0], is_prefix)));
            } else {
                assert(post.drop_last() =~= dv.take(i as int));
                assert(out@ =~= priority_values(dv.take(i as int), is_prefix) + ","@ + value_row(
                    priority_item(dv[i as int], is_prefix),
                ));
            }
        }
        i = i + 1;
    }
    proof {
        assert(items.deep_view().take(n as int) =~= items.deep_view());
    }
    out
}

/// The scheduler's query for the given priority values and caps, as one
/// statement with the two bound caps written in.
pub open spec fn priority_sql(pd: Seq<char>, pp: Seq<char>, dcl: int, idl: int) -> Seq<char> {
    "WITH\n                p_domain(domain, priority) AS (values "@ + pd
        + "),\n                p_prefix(prefix, priority) AS (values "@ + pp + "), "@
        + "indexed AS (\n    SELECT\n        domain,\n        count(*) as count\n    FROM indexed_document\n    GROUP BY domain\n),\ninflight AS (\n    SELECT\n        domain,\n        count(*) as count\n    FROM crawl_queue\n    WHERE status = \"Processing\"\n    GROUP BY domain\n)\nSELECT\n    cq.*\nFROM crawl_queue cq\nLEFT JOIN p_domain ON cq.domain like p_domain.domain\nLEFT JOIN p_prefix ON cq.url like p_prefix.prefix\nLEFT JOIN indexed ON indexed.domain = cq.domain\nLEFT JOIN inflight ON inflight.domain = cq.domain\nWHERE\n    COALESCE(indexed.count, 0) < "@
        + dec_digits(dcl) + " AND\n    COALESCE(inflight.count, 0) < "@ + dec_digits(idl)
        + " AND\n    status = \"Queued\"\nORDER BY\n    p_prefix.priority DESC,\n    p_domain.priority DESC,\n    cq.updated_at ASC"@
}

/// The scheduler's query, rendered: the caller passes the two values
/// lists from `gen_priority_values`, and the per-domain caps come from
/// the user settings, `Unlimited` standing for the sentinel bound.
pub fn gen_priority_sql(p_domains: &str, p_prefixes: &str, settings: &UserSettings) -> (r: String)
    ensures
        r@ == priority_sql(
            p_domains@,
            p_prefixes@,
            settings@.domain_crawl_limit.spec_value() as int,
            settings@.inflight_domain_limit.spec_value() as int,
        ),
{
    let mut out = String::new();
    out.append("WITH\n                p_domain(domain, priority) AS (values ");
    out.append(p_domains);
    out.append("),\n                p_prefix(prefix, priority) AS (values ");
    out.append(p_prefixes);
    out.append("), ");
    out.append(
        "indexed AS (\n    SELECT\n        domain,\n        count(*) as count\n    FROM indexed_document\n    GROUP BY domain\n),\ninflight AS (\n    SELECT\n        domain,\n        count(*) as count\n    FROM crawl_queue\n    WHERE status = \"Processing\"\n    GROUP BY domain\n)\nSELECT\n    cq.*\nFROM crawl_queue cq\nLEFT JOIN p_domain ON cq.domain like p_domain.domain\nLEFT JOIN p_prefix ON cq.url like p_prefix.prefix\nLEFT JOIN indexed ON indexed.domain = cq.domain\nLEFT JOIN inflight ON inflight.domain = cq.domain\nWHERE\n    COALESCE(indexed.count, 0) < ",
    );
    let dcl = u32_to_dec(settings.domain_crawl_limit.value());
    out.append(dcl.as_str());
    out.append(" AND\n    COALESCE(inflight.count, 0) < ");
    let idl = u32_to_dec(settings.inflight_domain_limit.value());
    out.append(idl.as_str());
    out.append(
        " AND\n    status = \"Queued\"\nORDER BY\n    p_prefix.priority DESC,\n    p_domain.priority DESC,\n    cq.updated_at ASC",
    );
    out
}

} // verus!
