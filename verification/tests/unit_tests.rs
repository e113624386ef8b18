use crawl_queue::like::like_match;
use crawl_queue::patterns::build_allow_list;
use crawl_queue::strutil::u32_to_dec;
use crawl_queue::{
    CrawlStatus, EnqueueSettings, IndexedDocument, Lens, Limit, Queue, SkipReason, UserSettings,
};

#[test]
fn like_matches_wildcards_and_case() {
    assert!(like_match("en.wiki%", "en.wikipedia.org"));
    assert!(like_match("EN.WIKI%", "en.wikipedia.org"));
    assert!(!like_match("en.wiki%", "de.wikipedia.org"));
    assert!(like_match("%.wikipedia.org", "en.wikipedia.org"));
    assert!(like_match("a_c", "abc"));
    assert!(like_match("a_c", "aBc"));
    assert!(!like_match("a_c", "abbc"));
    assert!(like_match("", ""));
    assert!(!like_match("", "x"));
    assert!(like_match("%", "anything at all"));
    assert!(like_match("exact", "EXACT"));
    assert!(!like_match("exact", "exactly"));
}

#[test]
fn decimal_rendering_is_exact() {
    assert_eq!(u32_to_dec(0), "0");
    assert_eq!(u32_to_dec(2), "2");
    assert_eq!(u32_to_dec(10000), "10000");
    assert_eq!(u32_to_dec(2147483647), "2147483647");
}

#[test]
fn limit_value_uses_sentinel() {
    assert_eq!(Limit::Finite(7).value(), 7);
    assert_eq!(Limit::Unlimited.value(), 2147483647);
}

#[test]
fn status_strings_match_schema() {
    assert_eq!(CrawlStatus::Queued.as_str(), "Queued");
    assert_eq!(CrawlStatus::Processing.as_str(), "Processing");
    assert_eq!(CrawlStatus::Completed.as_str(), "Completed");
    assert_eq!(CrawlStatus::Failed.as_str(), "Failed");
    assert_eq!(crawl_queue::CrawlType::Api.as_str(), "API");
    assert_eq!(crawl_queue::CrawlType::Bootstrap.as_str(), "Bootstrap");
    assert_eq!(crawl_queue::CrawlType::Normal.as_str(), "Normal");
}

#[test]
fn skip_reasons_cover_every_gate() {
    let settings = UserSettings {
        block_list: vec!["bad.example.com".to_string()],
        ..UserSettings::default()
    };
    let overrides = EnqueueSettings::default();
    let lens = Lens {
        name: "wiki".to_string(),
        domains: vec!["en.wikipedia.org".to_string()],
        urls: vec![],
    };
    let allow_list = build_allow_list(&vec![lens]);
    let mut db = Queue::new();
    db.add_indexed_doc(IndexedDocument {
        domain: "en.wikipedia.org".to_string(),
        url: "https://en.wikipedia.org/wiki/Done".to_string(),
        doc_id: "d1".to_string(),
    });

    assert_eq!(
        db.skip_reason(&allow_list, "not a url", &settings, &overrides),
        Some(SkipReason::Invalid)
    );
    assert_eq!(
        db.skip_reason(&allow_list, "mailto:someone@example.com", &settings, &overrides),
        Some(SkipReason::Invalid)
    );
    assert_eq!(
        db.skip_reason(&allow_list, "https://bad.example.com/x", &settings, &overrides),
        Some(SkipReason::Blocked)
    );
    assert_eq!(
        db.skip_reason(&allow_list, "https://other.example.org/x", &settings, &overrides),
        Some(SkipReason::Blocked)
    );
    assert_eq!(
        db.skip_reason(&allow_list, "https://en.wikipedia.org/wiki/Done", &settings, &overrides),
        Some(SkipReason::Duplicate)
    );
    assert_eq!(
        db.skip_reason(&allow_list, "https://en.wikipedia.org/wiki/Fresh", &settings, &overrides),
        None
    );
}

#[test]
fn inflight_domain_cap_hides_domain() {
    let settings = UserSettings {
        inflight_domain_limit: Limit::Finite(1),
        ..UserSettings::default()
    };
    let overrides = EnqueueSettings { skip_lenses: true, ..Default::default() };
    let mut db = Queue::new();
    db.enqueue_all(
        &vec![
            "https://busy.example.com/1".into(),
            "https://busy.example.com/2".into(),
            "https://calm.example.org/1".into(),
        ],
        &vec![],
        &settings,
        &overrides,
        5,
    );
    let first = db.dequeue(&settings, &vec![], &vec![]).unwrap();
    assert_eq!(first.domain, "busy.example.com");
    assert!(db.claim(first.id, 6));
    let second = db.dequeue(&settings, &vec![], &vec![]).unwrap();
    assert_eq!(second.domain, "calm.example.org");
}

#[test]
fn lens_url_prefixes_admit_too() {
    let settings = UserSettings::default();
    let overrides = EnqueueSettings::default();
    let lens = Lens {
        name: "dnd".to_string(),
        domains: vec![],
        urls: vec!["https://roll20.net/compendium/dnd5e".to_string()],
    };
    let mut db = Queue::new();
    db.enqueue_all(
        &vec![
            "https://roll20.net/compendium/dnd5e/Monsters".into(),
            "https://roll20.net/forum/thread".into(),
        ],
        &vec![lens],
        &settings,
        &overrides,
        5,
    );
    assert_eq!(db.tasks.len(), 1);
    assert!(db.find_by_url("https://roll20.net/compendium/dnd5e/Monsters").is_some());
}

#[test]
fn wildcard_lens_domain_admits_subdomains() {
    let settings = UserSettings::default();
    let overrides = EnqueueSettings::default();
    let lens = Lens {
        name: "wikis".to_string(),
        domains: vec!["*.wikipedia.org".to_string()],
        urls: vec![],
    };
    let mut db = Queue::new();
    db.enqueue_all(
        &vec![
            "https://en.wikipedia.org/wiki/Rust".into(),
            "https://de.wikipedia.org/wiki/Rost".into(),
            "https://example.com/wikipedia".into(),
        ],
        &vec![lens],
        &settings,
        &overrides,
        5,
    );
    assert_eq!(db.tasks.len(), 2);
    assert!(db.find_by_url("https://example.com/wikipedia").is_none());
}

#[test]
fn oldest_updated_at_wins_ties() {
    let settings = UserSettings::default();
    let overrides = EnqueueSettings { skip_lenses: true, ..Default::default() };
    let mut db = Queue::new();
    db.enqueue_all(&vec!["https://a.example.com/old".into()], &vec![], &settings, &overrides, 5);
    db.enqueue_all(&vec!["https://b.example.com/new".into()], &vec![], &settings, &overrides, 50);
    let got = db.dequeue(&settings, &vec![], &vec![]).unwrap();
    assert_eq!(got.url, "https://a.example.com/old");

    // A failed retry refreshes updated_at and sends the row to the back
    // of its tier.
    assert!(db.claim(got.id, 60));
    assert!(db.mark_done(got.id, CrawlStatus::Failed, 70));
    let next = db.dequeue(&settings, &vec![], &vec![]).unwrap();
    assert_eq!(next.url, "https://b.example.com/new");
}

#[test]
fn enqueue_all_now_uses_wall_clock() {
    let settings = UserSettings::default();
    let overrides = EnqueueSettings { skip_lenses: true, ..Default::default() };
    let mut db = Queue::new();
    db.enqueue_all_now(&vec!["https://now.example.com/".into()], &vec![], &settings, &overrides);
    let row = db.find_by_url("https://now.example.com/").unwrap();
    assert_eq!(row.status, CrawlStatus::Queued);
    assert!(row.created_at > 0);
    assert_eq!(row.created_at, row.updated_at);
}
