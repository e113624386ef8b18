use crawl_queue::{
    CrawlStatus, CrawlType, EnqueueSettings, IndexedDocument, Lens, Limit, NewTask, Queue,
    UserSettings,
};

fn default_settings() -> UserSettings {
    UserSettings::default()
}

fn skip_lenses_overrides() -> EnqueueSettings {
    EnqueueSettings { skip_lenses: true, ..Default::default() }
}

#[test]
fn test_insert() {
    let mut db = Queue::new();

    let url = "oldschool.runescape.wiki/";
    let crawl = NewTask {
        domain: "oldschool.runescape.wiki".to_string(),
        url: url.to_owned(),
        crawl_type: CrawlType::Normal,
    };
    db.insert_many(&vec![crawl], 1000);

    let query = db.find_by_url(url);

    assert!(query.is_some());

    let res = query.unwrap();
    assert_eq!(res.url, url);
}

#[test]
fn test_priority_sql() {
    let settings = UserSettings::default();
    let p_domains = crawl_queue::gen_priority_values(&vec!["en.wikipedia.org".to_string()], false);
    let p_prefixes = crawl_queue::gen_priority_values(
        &vec!["https://roll20.net/compendium/dnd5e".to_string()],
        true,
    );

    let sql = crawl_queue::gen_priority_sql(&p_domains, &p_prefixes, &settings);
    assert_eq!(
        sql,
        "WITH\n                p_domain(domain, priority) AS (values (\"en.wikipedia.org\", 1)),\n                p_prefix(prefix, priority) AS (values (\"https://roll20.net/compendium/dnd5e%\", 1)), indexed AS (\n    SELECT\n        domain,\n        count(*) as count\n    FROM indexed_document\n    GROUP BY domain\n),\ninflight AS (\n    SELECT\n        domain,\n        count(*) as count\n    FROM crawl_queue\n    WHERE status = \"Processing\"\n    GROUP BY domain\n)\nSELECT\n    cq.*\nFROM crawl_queue cq\nLEFT JOIN p_domain ON cq.domain like p_domain.domain\nLEFT JOIN p_prefix ON cq.url like p_prefix.prefix\nLEFT JOIN indexed ON indexed.domain = cq.domain\nLEFT JOIN inflight ON inflight.domain = cq.domain\nWHERE\n    COALESCE(indexed.count, 0) < 10000 AND\n    COALESCE(inflight.count, 0) < 2 AND\n    status = \"Queued\"\nORDER BY\n    p_prefix.priority DESC,\n    p_domain.priority DESC,\n    cq.updated_at ASC"
    );
}

#[test]
fn test_enqueue() {
    let settings = default_settings();
    let mut db = Queue::new();
    let url: Vec<String> = vec!["https://oldschool.runescape.wiki/".into()];

    let overrides = skip_lenses_overrides();
    db.enqueue_all(&url, &vec![], &settings, &overrides, 1000);

    let crawl = db.find_by_url(&url[0]);

    assert!(crawl.is_some());
    assert_eq!(db.tasks.len(), 1);
}

#[test]
fn test_dequeue() {
    let settings = default_settings();
    let mut db = Queue::new();
    let url: Vec<String> = vec!["https://oldschool.runescape.wiki/".into()];
    let prioritized: Vec<String> = vec![];

    let overrides = skip_lenses_overrides();
    db.enqueue_all(&url, &vec![], &settings, &overrides, 1000);

    let queue = db.dequeue(&settings, &prioritized, &vec![]);

    assert!(queue.is_some());
    assert_eq!(queue.unwrap().url, url[0]);
}

#[test]
fn test_dequeue_with_limit() {
    let settings = UserSettings { domain_crawl_limit: Limit::Finite(2), ..UserSettings::default() };
    let mut db = Queue::new();
    let url: Vec<String> = vec!["https://oldschool.runescape.wiki/".into()];
    let prioritized: Vec<String> = vec![];
    let overrides = skip_lenses_overrides();

    db.enqueue_all(&url, &vec![], &settings, &overrides, 1000);
    let doc = IndexedDocument {
        domain: "oldschool.runescape.wiki".to_string(),
        url: url[0].clone(),
        doc_id: "docid".to_string(),
    };
    db.add_indexed_doc(doc);
    let queue = db.dequeue(&settings, &prioritized, &vec![]);
    assert!(queue.is_some());

    let settings = UserSettings { domain_crawl_limit: Limit::Finite(1), ..UserSettings::default() };
    let queue = db.dequeue(&settings, &prioritized, &vec![]);
    assert!(queue.is_none());
}

#[test]
fn fragment_is_cleared_on_enqueue() {
    let settings = default_settings();
    let overrides = skip_lenses_overrides();
    let mut db = Queue::new();
    let urls: Vec<String> = vec!["https://en.wikipedia.org/wiki/Rust#History".into()];
    db.enqueue_all(&urls, &vec![], &settings, &overrides, 5);
    assert!(db.find_by_url("https://en.wikipedia.org/wiki/Rust").is_some());
    assert_eq!(db.tasks.len(), 1);
}

#[test]
fn fragment_variants_share_one_row() {
    let settings = default_settings();
    let overrides = skip_lenses_overrides();
    let mut db = Queue::new();
    let urls: Vec<String> = vec![
        "https://en.wikipedia.org/wiki/Rust#History".into(),
        "https://en.wikipedia.org/wiki/Rust".into(),
    ];
    db.enqueue_all(&urls, &vec![], &settings, &overrides, 5);
    assert_eq!(db.tasks.len(), 1);
}

#[test]
fn enqueue_twice_is_idempotent() {
    let settings = default_settings();
    let overrides = skip_lenses_overrides();
    let mut db = Queue::new();
    let urls: Vec<String> = vec![
        "https://a.example.com/1".into(),
        "https://b.example.com/2".into(),
        "not a url".into(),
    ];
    db.enqueue_all(&urls, &vec![], &settings, &overrides, 5);
    let after_first: Vec<(i64, String)> =
        db.tasks.iter().map(|t| (t.id, t.url.clone())).collect();
    db.enqueue_all(&urls, &vec![], &settings, &overrides, 99);
    let after_second: Vec<(i64, String)> =
        db.tasks.iter().map(|t| (t.id, t.url.clone())).collect();
    assert_eq!(after_first, after_second);
    assert_eq!(db.tasks.len(), 2);
}

#[test]
fn empty_lenses_reject_everything() {
    let settings = default_settings();
    let overrides = EnqueueSettings::default();
    assert!(!settings.crawl_external_links);
    assert!(!overrides.skip_lenses);
    let mut db = Queue::new();
    let urls: Vec<String> =
        vec!["https://a.example.com/1".into(), "https://b.example.com/2".into()];
    db.enqueue_all(&urls, &vec![], &settings, &overrides, 5);
    assert_eq!(db.tasks.len(), 0);
}

#[test]
fn lens_admission_filters_by_domain() {
    let settings = default_settings();
    let overrides = EnqueueSettings::default();
    let lens = Lens {
        name: "wiki".to_string(),
        domains: vec!["en.wikipedia.org".to_string()],
        urls: vec![],
    };
    let mut db = Queue::new();
    let urls: Vec<String> = vec![
        "https://en.wikipedia.org/wiki/Rust".into(),
        "https://other.example.org/page".into(),
    ];
    db.enqueue_all(&urls, &vec![lens], &settings, &overrides, 5);
    assert_eq!(db.tasks.len(), 1);
    assert!(db.find_by_url("https://en.wikipedia.org/wiki/Rust").is_some());
}

#[test]
fn blocklist_skips_host() {
    let settings = UserSettings {
        block_list: vec!["bad.example.com".to_string()],
        ..UserSettings::default()
    };
    let overrides = skip_lenses_overrides();
    let mut db = Queue::new();
    let urls: Vec<String> =
        vec!["https://bad.example.com/x".into(), "https://good.example.com/y".into()];
    db.enqueue_all(&urls, &vec![], &settings, &overrides, 5);
    assert_eq!(db.tasks.len(), 1);
    assert!(db.find_by_url("https://good.example.com/y").is_some());

    let skip_both = EnqueueSettings { skip_blocklist: true, skip_lenses: true, ..Default::default() };
    db.enqueue_all(&urls, &vec![], &settings, &skip_both, 6);
    assert_eq!(db.tasks.len(), 2);
}

#[test]
fn indexed_url_is_not_reenqueued() {
    let settings = default_settings();
    let overrides = skip_lenses_overrides();
    let mut db = Queue::new();
    db.add_indexed_doc(IndexedDocument {
        domain: "a.example.com".to_string(),
        url: "https://a.example.com/1".to_string(),
        doc_id: "doc1".to_string(),
    });
    let urls: Vec<String> = vec!["https://a.example.com/1".into()];
    db.enqueue_all(&urls, &vec![], &settings, &overrides, 5);
    assert_eq!(db.tasks.len(), 0);
}

#[test]
fn bootstrap_runs_first() {
    let settings = default_settings();
    let mut db = Queue::new();
    let overrides = skip_lenses_overrides();
    db.enqueue_all(
        &vec!["https://normal.example.com/".into()],
        &vec![],
        &settings,
        &overrides,
        5,
    );
    let boot = EnqueueSettings {
        skip_lenses: true,
        crawl_type: CrawlType::Bootstrap,
        ..Default::default()
    };
    db.enqueue_all(&vec!["https://seed.example.com/".into()], &vec![], &settings, &boot, 6);
    let got = db.dequeue(&settings, &vec![], &vec![]).unwrap();
    assert_eq!(got.url, "https://seed.example.com/");
    assert_eq!(got.crawl_type, CrawlType::Bootstrap);
}

#[test]
fn global_cap_returns_none() {
    let settings =
        UserSettings { inflight_crawl_limit: Limit::Finite(1), ..UserSettings::default() };
    let overrides = skip_lenses_overrides();
    let mut db = Queue::new();
    db.enqueue_all(
        &vec!["https://a.example.com/1".into(), "https://b.example.com/2".into()],
        &vec![],
        &settings,
        &overrides,
        5,
    );
    let first = db.dequeue(&settings, &vec![], &vec![]).unwrap();
    assert!(db.claim(first.id, 6));
    let second = db.dequeue(&settings, &vec![], &vec![]);
    assert!(second.is_none());
}

#[test]
fn domain_priority_wins_over_plain() {
    let settings = default_settings();
    let overrides = skip_lenses_overrides();
    let mut db = Queue::new();
    db.enqueue_all(
        &vec!["https://plain.example.com/a".into(), "https://en.wikipedia.org/wiki/Rust".into()],
        &vec![],
        &settings,
        &overrides,
        5,
    );
    let p_domains: Vec<String> = vec!["en.wikipedia.org".to_string()];
    let got = db.dequeue(&settings, &p_domains, &vec![]).unwrap();
    assert_eq!(got.url, "https://en.wikipedia.org/wiki/Rust");
}

#[test]
fn prefix_priority_wins_over_domain() {
    let settings = default_settings();
    let overrides = skip_lenses_overrides();
    let mut db = Queue::new();
    db.enqueue_all(
        &vec![
            "https://en.wikipedia.org/wiki/Rust".into(),
            "https://roll20.net/compendium/dnd5e/Monsters".into(),
        ],
        &vec![],
        &settings,
        &overrides,
        5,
    );
    let p_domains: Vec<String> = vec!["en.wikipedia.org".to_string()];
    let p_prefixes: Vec<String> = vec!["https://roll20.net/compendium/dnd5e".to_string()];
    let got = db.dequeue(&settings, &p_domains, &p_prefixes).unwrap();
    assert_eq!(got.url, "https://roll20.net/compendium/dnd5e/Monsters");
}

#[test]
fn retry_path_reaches_terminal_failed() {
    let settings = default_settings();
    let overrides = skip_lenses_overrides();
    let mut db = Queue::new();
    db.enqueue_all(&vec!["https://flaky.example.com/".into()], &vec![], &settings, &overrides, 5);
    let task = db.dequeue(&settings, &vec![], &vec![]).unwrap();
    let id = task.id;

    for round in 1u8..=5u8 {
        assert!(db.claim(id, 10 + round as i64));
        assert!(db.mark_done(id, CrawlStatus::Failed, 20 + round as i64));
        let row = db.find_by_id(id).unwrap();
        assert_eq!(row.status, CrawlStatus::Queued);
        assert_eq!(row.num_retries, round);
    }
    assert!(db.claim(id, 100));
    assert!(db.mark_done(id, CrawlStatus::Failed, 101));
    let row = db.find_by_id(id).unwrap();
    assert_eq!(row.status, CrawlStatus::Failed);
    assert_eq!(row.num_retries, 5);
}

#[test]
fn completed_is_terminal() {
    let settings = default_settings();
    let overrides = skip_lenses_overrides();
    let mut db = Queue::new();
    db.enqueue_all(&vec!["https://ok.example.com/".into()], &vec![], &settings, &overrides, 5);
    let task = db.dequeue(&settings, &vec![], &vec![]).unwrap();
    assert!(db.claim(task.id, 6));
    assert!(db.mark_done(task.id, CrawlStatus::Completed, 7));
    let row = db.find_by_id(task.id).unwrap();
    assert_eq!(row.status, CrawlStatus::Completed);
    assert_eq!(row.num_retries, 0);
    assert!(db.dequeue(&settings, &vec![], &vec![]).is_none());
}

#[test]
fn reset_processing_recovers_rows() {
    let settings = default_settings();
    let overrides = skip_lenses_overrides();
    let mut db = Queue::new();
    db.enqueue_all(&vec!["https://crash.example.com/".into()], &vec![], &settings, &overrides, 5);
    let task = db.dequeue(&settings, &vec![], &vec![]).unwrap();
    assert!(db.claim(task.id, 6));
    assert_eq!(db.find_by_id(task.id).unwrap().status, CrawlStatus::Processing);
    db.reset_processing(7);
    assert_eq!(db.find_by_id(task.id).unwrap().status, CrawlStatus::Queued);
}

#[test]
fn claim_is_conditional_on_queued() {
    let settings = default_settings();
    let overrides = skip_lenses_overrides();
    let mut db = Queue::new();
    db.enqueue_all(&vec!["https://race.example.com/".into()], &vec![], &settings, &overrides, 5);
    let task = db.dequeue(&settings, &vec![], &vec![]).unwrap();
    assert!(db.claim(task.id, 6));
    assert!(!db.claim(task.id, 7));
    assert!(!db.claim(9999, 8));
}

#[test]
fn priority_values_sentinel_and_wildcards() {
    let empty: Vec<String> = vec![];
    assert_eq!(crawl_queue::gen_priority_values(&empty, false), "(\"\", 0)");
    assert_eq!(crawl_queue::gen_priority_values(&empty, true), "(\"\", 0)");
    let domains = vec!["*.wikipedia.org".to_string(), "news.site".to_string()];
    assert_eq!(
        crawl_queue::gen_priority_values(&domains, false),
        "(\"%.wikipedia.org\", 1),(\"news.site\", 1)"
    );
    let prefixes = vec!["https://roll20.net/compendium".to_string()];
    assert_eq!(
        crawl_queue::gen_priority_values(&prefixes, true),
        "(\"https://roll20.net/compendium%\", 1)"
    );
}

#[test]
fn num_queued_counts_by_status() {
    let settings = default_settings();
    let overrides = skip_lenses_overrides();
    let mut db = Queue::new();
    db.enqueue_all(
        &vec!["https://a.example.com/1".into(), "https://b.example.com/2".into()],
        &vec![],
        &settings,
        &overrides,
        5,
    );
    assert_eq!(db.num_queued(CrawlStatus::Queued), 2);
    assert_eq!(db.num_queued(CrawlStatus::Processing), 0);
    let task = db.dequeue(&settings, &vec![], &vec![]).unwrap();
    assert!(db.claim(task.id, 6));
    assert_eq!(db.num_queued(CrawlStatus::Queued), 1);
    assert_eq!(db.num_queued(CrawlStatus::Processing), 1);
}
