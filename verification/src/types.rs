//! Data model of the crawl queue: task rows, status and type enums, user
//! settings, lenses, and per-batch enqueue overrides, together with the
//! mathematical views the contracts speak of.

use vstd::prelude::*;

verus! {

/// Status of a crawl task.  Persisted as the literal strings
/// `"Queued"`, `"Processing"`, `"Completed"`, `"Failed"`.
#[derive(Clone, Copy, Debug, PartialEq, Eq, Structural)]
pub enum CrawlStatus {
    Queued,
    Processing,
    Completed,
    Failed,
}

impl CrawlStatus {
    /// The string under which this status is persisted.
    pub fn as_str(&self) -> (r: &'static str)
        ensures
            self is Queued ==> r@ == "Queued"@,
            self is Processing ==> r@ == "Processing"@,
            self is Completed ==> r@ == "Completed"@,
            self is Failed ==> r@ == "Failed"@,
    {
        match self {
            CrawlStatus::Queued => "Queued",
            CrawlStatus::Processing => "Processing",
            CrawlStatus::Completed => "Completed",
            CrawlStatus::Failed => "Failed",
        }
    }
}

/// Kind of a crawl task.  Persisted as the literal strings
/// `"API"`, `"Bootstrap"`, `"Normal"`.
#[derive(Clone, Copy, Debug, PartialEq, Eq, Structural)]
pub enum CrawlType {
    Api,
    Bootstrap,
    Normal,
}

impl CrawlType {
    /// The string under which this crawl type is persisted.
    pub fn as_str(&self) -> (r: &'static str)
        ensures
            self is Api ==> r@ == "API"@,
            self is Bootstrap ==> r@ == "Bootstrap"@,
            self is Normal ==> r@ == "Normal"@,
    {
        match self {
            CrawlType::Api => "API",
            CrawlType::Bootstrap => "Bootstrap",
            CrawlType::Normal => "Normal",
        }
    }
}

impl Default for CrawlType {
    fn default() -> (r: Self)
        ensures
            r is Normal,
    {
        CrawlType::Normal
    }
}

/// A cap that is either absent or a finite bound.
#[derive(Clone, Copy, Debug, PartialEq, Eq, Structural)]
pub enum Limit {
    Unlimited,
    Finite(u32),
}

/// The sentinel bound standing for `Unlimited`: the largest signed
/// 32-bit integer, so one prepared statement serves both cases.
pub const UNLIMITED_SENTINEL: u32 = 2147483647;

impl Limit {
    /// The bound used in comparisons: the finite bound itself, or the
    /// sentinel for `Unlimited`.
    pub fn value(&self) -> (r: u32)
        ensures
            r == self.spec_value(),
    {
        match self {
            Limit::Unlimited => UNLIMITED_SENTINEL,
            Limit::Finite(n) => *n,
        }
    }

    pub open spec fn spec_value(self) -> u32 {
        match self {
            Limit::Unlimited => UNLIMITED_SENTINEL,
            Limit::Finite(n) => n,
        }
    }
}

/// Why a candidate URL was skipped during enqueue.
#[derive(Clone, Copy, Debug, PartialEq, Eq, Structural)]
pub enum SkipReason {
    /// The URL does not parse as an absolute URL with a host.
    Invalid,
    /// The host is on the blocklist, or lens admission rejected the URL.
    Blocked,
    /// The URL is already queued or already indexed.
    Duplicate,
}

/// One row of the crawl queue: a URL scheduled for fetching.
#[derive(Clone, Debug, PartialEq)]
pub struct Model {
    /// Stable monotonic identity.
    pub id: i64,
    /// Host of the URL, lowercased, no port.
    pub domain: String,
    /// Full normalized URL; unique across the table.
    pub url: String,
    /// Task status.
    pub status: CrawlStatus,
    /// Number of retries so far.
    pub num_retries: u8,
    /// Kind of crawl.
    pub crawl_type: CrawlType,
    /// When the row was inserted (UTC seconds).
    pub created_at: i64,
    /// When the row was last touched (UTC seconds).
    pub updated_at: i64,
}

/// Mathematical view of one task row.
pub struct TaskView {
    pub id: int,
    pub domain: Seq<char>,
    pub url: Seq<char>,
    pub status: CrawlStatus,
    pub num_retries: int,
    pub crawl_type: CrawlType,
    pub created_at: int,
    pub updated_at: int,
}

impl View for Model {
    type V = TaskView;

    open spec fn view(&self) -> TaskView {
        TaskView {
            id: self.id as int,
            domain: self.domain@,
            url: self.url@,
            status: self.status,
            num_retries: self.num_retries as int,
            crawl_type: self.crawl_type,
            created_at: self.created_at as int,
            updated_at: self.updated_at as int,
        }
    }
}

impl DeepView for Model {
    type V = TaskView;

    open spec fn deep_view(&self) -> TaskView {
        self.view()
    }
}

impl Model {
    /// A field-for-field copy whose view equals this row's view.
    pub fn duplicate(&self) -> (r: Model)
        ensures
            r@ == self@,
    {
        Model {
            id: self.id,
            domain: self.domain.clone(),
            url: self.url.clone(),
            status: self.status,
            num_retries: self.num_retries,
            crawl_type: self.crawl_type,
            created_at: self.created_at,
            updated_at: self.updated_at,
        }
    }
}

/// One row of the indexed-document table, read for per-domain counts and
/// duplicate suppression.
#[derive(Clone, Debug)]
pub struct IndexedDocument {
    pub domain: String,
    pub url: String,
    pub doc_id: String,
}

/// Mathematical view of one indexed document.
pub struct DocView {
    pub domain: Seq<char>,
    pub url: Seq<char>,
    pub doc_id: Seq<char>,
}

impl View for IndexedDocument {
    type V = DocView;

    open spec fn view(&self) -> DocView {
        DocView { domain: self.domain@, url: self.url@, doc_id: self.doc_id@ }
    }
}

impl DeepView for IndexedDocument {
    type V = DocView;

    open spec fn deep_view(&self) -> DocView {
        self.view()
    }
}

/// A user-declared admission rule: what may be crawled.
#[derive(Clone, Debug)]
pub struct Lens {
    pub name: String,
    /// Host patterns; `*` is a wildcard.
    pub domains: Vec<String>,
    /// Literal URL prefixes.
    pub urls: Vec<String>,
}

/// Mathematical view of a lens.
pub struct LensView {
    pub name: Seq<char>,
    pub domains: Seq<Seq<char>>,
    pub urls: Seq<Seq<char>>,
}

impl View for Lens {
    type V = LensView;

    open spec fn view(&self) -> LensView {
        LensView {
            name: self.name@,
            domains: self.domains.deep_view(),
            urls: self.urls.deep_view(),
        }
    }
}

impl DeepView for Lens {
    type V = LensView;

    open spec fn deep_view(&self) -> LensView {
        self.view()
    }
}

/// User settings consumed by the admission filter and the scheduler.
#[derive(Clone, Debug)]
pub struct UserSettings {
    /// Hosts that may not be enqueued.
    pub block_list: Vec<String>,
    /// When false, lens admission is enforced.
    pub crawl_external_links: bool,
    /// Cap on indexed documents per domain before new tasks for that
    /// domain are dequeued.
    pub domain_crawl_limit: Limit,
    /// Cap on concurrently Processing tasks per domain.
    pub inflight_domain_limit: Limit,
    /// Cap on total concurrently Processing tasks.
    pub inflight_crawl_limit: Limit,
}

/// Mathematical view of the user settings.
pub struct SettingsView {
    pub block_list: Seq<Seq<char>>,
    pub crawl_external_links: bool,
    pub domain_crawl_limit: Limit,
    pub inflight_domain_limit: Limit,
    pub inflight_crawl_limit: Limit,
}

impl View for UserSettings {
    type V = SettingsView;

    open spec fn view(&self) -> SettingsView {
        SettingsView {
            block_list: self.block_list.deep_view(),
            crawl_external_links: self.crawl_external_links,
            domain_crawl_limit: self.domain_crawl_limit,
            inflight_domain_limit: self.inflight_domain_limit,
            inflight_crawl_limit: self.inflight_crawl_limit,
        }
    }
}

impl Default for UserSettings {
    fn default() -> (r: Self)
        ensures
            r@.block_list == Seq::<Seq<char>>::empty(),
            r@.crawl_external_links == false,
            r@.domain_crawl_limit == Limit::Finite(10000u32),
            r@.inflight_domain_limit == Limit::Finite(2u32),
            r@.inflight_crawl_limit == Limit::Finite(10u32),
    {
        UserSettings {
            block_list: Vec::new(),
            crawl_external_links: false,
            domain_crawl_limit: Limit::Finite(10000),
            inflight_domain_limit: Limit::Finite(2),
            inflight_crawl_limit: Limit::Finite(10),
        }
    }
}

/// Per-batch overrides for one enqueue call.
#[derive(Clone, Debug)]
pub struct EnqueueSettings {
    pub skip_blocklist: bool,
    pub skip_lenses: bool,
    pub crawl_type: CrawlType,
}

/// Mathematical view of the enqueue overrides.
pub struct EnqueueView {
    pub skip_blocklist: bool,
    pub skip_lenses: bool,
    pub crawl_type: CrawlType,
}

impl View for EnqueueSettings {
    type V = EnqueueView;

    open spec fn view(&self) -> EnqueueView {
        EnqueueView {
            skip_blocklist: self.skip_blocklist,
            skip_lenses: self.skip_lenses,
            crawl_type: self.crawl_type,
        }
    }
}

impl Default for EnqueueSettings {
    fn default() -> (r: Self)
        ensures
            r@.skip_blocklist == false,
            r@.skip_lenses == false,
            r@.crawl_type is Normal,
    {
        EnqueueSettings {
            skip_blocklist: false,
            skip_lenses: false,
            crawl_type: CrawlType::Normal,
        }
    }
}

} // verus!
