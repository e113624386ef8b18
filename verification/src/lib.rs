//! A persistent, prioritized crawl queue for a desktop web crawler.
//!
//! The queue holds one row per URL scheduled for fetching.  Candidate URLs
//! are normalized, filtered against a blocklist and user-declared lens
//! rules, checked against rows already queued or already indexed, and then
//! inserted as `Queued` tasks.  A scheduler picks the next runnable task
//! under per-domain and global concurrency caps and a three-tier priority
//! policy, and a retry state machine moves tasks across
//! `Queued -> Processing -> {Completed, Failed -> Queued}`.

use vstd::prelude::*;

pub mod clock;
pub mod enqueue;
pub mod laws;
pub mod lifecycle;
pub mod like;
pub mod patterns;
pub mod request;
pub mod scheduler;
pub mod store;
pub mod strutil;
pub mod types;
pub mod urlnorm;

pub use request::{QueueItemParam, SearchLensesParam, SearchParam, UpdateStatusParam};
pub use scheduler::{gen_priority_sql, gen_priority_values};
pub use store::{NewTask, Queue};
pub use types::{
    CrawlStatus, CrawlType, EnqueueSettings, IndexedDocument, Lens, Limit, Model, SkipReason,
    UserSettings,
};

verus! {

/// Retries allowed to a task before a further failure leaves it Failed.
pub const MAX_RETRIES: u8 = 5;

} // verus!
