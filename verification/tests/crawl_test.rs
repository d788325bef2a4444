use banzhu_spider::cf::{is_bypassed, is_bypassed_after_fetch, is_cf_challenge};
use banzhu_spider::crawl::{
    book_detail_actions, chapter_actions, extra_page_follows, scans_for_pages, section_item,
    start_page,
};
use banzhu_spider::listing::{
    list_page_follows, list_page_step, list_page_url, parse_book_id_from_url, parse_latest_list,
    request_headers, start_urls,
};
use banzhu_spider::crawl::{follow_priority, FollowKind, LIST_PRIORITY};
use banzhu_spider::parse::{Book, Chapter, Section};
use banzhu_spider::pipeline::{partition_items, FieldValue, Item};
use banzhu_spider::scheduler::{
    begin_crawl, crawl_full_decision, crawl_once_decision, fetch_mode_of, finish_crawl,
    proxy_choice, CrawlDecision, FetchMode, download_mode, DownloadMode, IncrementalCrawl,
    fetched_book_records, record_flush, BatchResult, CrawlSettings,
};
use banzhu_spider::models::{BookRecord, ChapterRecord, SectionRecord};
use banzhu_spider::models::CrawlStatus;
use banzhu_spider::stop::EmptyPageTracker;
use banzhu_spider::api::{
    book_status, claim_crawl, history_limit, log_limit, neighbor_orders, plain_snippet,
    search_keyword, timeline_days, validate_goal, validate_session, web_search_field,
};
use banzhu_spider::search::SearchField;

fn item(fields: Vec<(&str, FieldValue)>) -> Item {
    Item { fields: fields.into_iter().map(|(k, v)| (k.to_string(), v)).collect() }
}

fn s(v: &str) -> FieldValue {
    FieldValue::Str(v.to_string())
}

#[test]
fn test_partition_items_separates_by_type() {
    let items = vec![
        item(vec![
            ("type", s("book")), ("website_book_id", FieldValue::Int(1001)), ("path_num", FieldValue::Int(12)),
            ("title", s("书1")), ("filename", s("书1.txt")), ("author", s("作者")),
            ("category", s("分类")), ("introduce", s("简介")), ("likes", FieldValue::Int(100)),
            ("word_count", FieldValue::Int(10000)), ("page_count", FieldValue::Int(10)),
        ]),
        item(vec![
            ("type", s("chapter")), ("website_book_id", FieldValue::Int(1001)),
            ("title", s("第1章")), ("url", s("https://x/1")), ("chapter_order", FieldValue::Int(1)),
        ]),
        item(vec![
            ("type", s("section")), ("website_book_id", FieldValue::Int(1001)), ("chapter_order", FieldValue::Int(1)),
            ("section_order", FieldValue::Int(1)), ("url", s("https://x/s1")), ("content", s("内容")),
        ]),
        item(vec![("type", s("unknown"))]),
    ];

    let (books, chapters, sections) = partition_items(items);
    assert_eq!(books.len(), 1);
    assert_eq!(books[0].website_book_id, Some(1001));
    assert_eq!(chapters.len(), 1);
    assert_eq!(chapters[0].0, 1001);
    assert_eq!(chapters[0].1.chapter_order, 1);
    assert_eq!(sections.len(), 1);
    assert_eq!(sections[0].0, 1001);
    assert_eq!(sections[0].1, 1);
    assert_eq!(sections[0].2.section_order, 1);
}

#[test]
fn partition_defaults_missing_fields() {
    let (books, chapters, sections) = partition_items(vec![
        item(vec![("type", s("book")), ("title", FieldValue::Int(3))]),
        item(vec![("kind", s("book"))]),
        item(vec![("type", s("section"))]),
    ]);
    assert_eq!(books.len(), 1);
    assert_eq!(books[0].title, "");
    assert_eq!(books[0].website_book_id, None);
    assert!(chapters.is_empty());
    assert_eq!(sections[0].0, 0);
    assert_eq!(sections[0].2.content, "");
}

#[test]
fn test_empty_page_tracker_stops_after_streak() {
    let mut tracker = EmptyPageTracker::new(3);
    assert!(!tracker.should_stop());
    tracker.record_empty();
    assert!(!tracker.should_stop());
    tracker.record_empty();
    assert!(!tracker.should_stop());
    tracker.record_empty();
    assert!(tracker.should_stop());
}

#[test]
fn test_record_non_empty_resets_streak() {
    let mut tracker = EmptyPageTracker::new(3);
    tracker.record_empty();
    tracker.record_empty();
    tracker.record_non_empty();
    tracker.record_empty();
    assert!(!tracker.should_stop());
}

#[test]
fn cf_challenge_marks() {
    assert!(is_cf_challenge("<title>Just a moment...</title>"));
    assert!(is_cf_challenge("请稍候…"));
    assert!(!is_cf_challenge("<html>book</html>"));
    assert!(is_bypassed("<html>book</html>"));
    assert!(!is_bypassed_after_fetch("https://challenges.cloudflare.com/x"));
    assert!(!is_bypassed_after_fetch("<html><head><title>Just a moment...</title></head></html>"));
    assert!(is_bypassed_after_fetch("<html>book</html>"));
}

const LIST_PAGE: &str = r#"<ul>
<li class="column-2"><a class="name" href="/12/12345/">书一</a><span class="update"><a href="/12/12345/9.html">最新</a></span>
<div class="info"><span class="author"> 作者甲 </span><span class="cat"> </span><span class="tags">玄幻</span><span class="words">1000</span></div></li>
<li class="column-2"><a class="name" href="/bad">书二</a></li>
<li class="column-2"><a class="name" href="/0/0/"> </a></li>
</ul>"#;

#[test]
fn latest_list_entries() {
    let books = parse_latest_list(LIST_PAGE);
    assert_eq!(books.len(), 2);
    assert_eq!(books[0].book_id, 12345);
    assert_eq!(books[0].book_num, 12);
    assert_eq!(books[0].title, "书一");
    assert_eq!(books[0].author, "作者甲");
    assert_eq!(books[0].category, "玄幻");
    assert_eq!(books[0].word_count, 1000);
    assert_eq!(books[0].latest_chapter_url, "/12/12345/9.html");
    assert_eq!(books[1].book_id, 0);
    assert_eq!(books[1].word_count, 0);
}

#[test]
fn list_page_follows_and_tracker() {
    let follows = list_page_follows(LIST_PAGE);
    assert_eq!(follows.len(), 1);
    assert_eq!(follows[0].href, "/12/12345/");
    assert_eq!(follows[0].book_id, 12345);
    let mut tracker = EmptyPageTracker::new(1);
    assert_eq!(list_page_step("<p>empty</p>", &mut tracker).len(), 0);
    assert!(tracker.should_stop());
    list_page_step(LIST_PAGE, &mut tracker);
    assert!(!tracker.should_stop());
}

#[test]
fn book_id_from_url() {
    assert_eq!(parse_book_id_from_url(" https://x.com/52/52024/ "), Some(52024));
    assert_eq!(parse_book_id_from_url("https://x.com/52/abc//"), Some(52));
    assert_eq!(parse_book_id_from_url("https://x.com/a/b"), None);
}

fn sample_book() -> Book {
    Book {
        num: 0,
        id: 0,
        title: "书".to_string(),
        filename: "书".to_string(),
        page: 5,
        author: "甲".to_string(),
        category: "玄幻".to_string(),
        introduce: "简介".to_string(),
        likes: 3,
        count: 10,
    }
}

#[test]
fn detail_page_actions() {
    assert_eq!(start_page(0, 5), 1);
    assert_eq!(start_page(23, 5), 3);
    assert_eq!(start_page(999, 5), 5);
    assert_eq!(start_page(5, 0), 1);
    assert_eq!(start_page(10, 5), 2);
    assert_eq!(start_page(2560, 5), 1);
    let (follows, item) = book_detail_actions("https://r", &sample_book(), 12345, 12, 23);
    assert_eq!(follows.len(), 3);
    assert_eq!(follows[0].url, "https://r/12/12345_3/");
    assert_eq!(follows[2].url, "https://r/12/12345_5/");
    assert_eq!(item.get_i64("website_book_id"), Some(12345));
    assert_eq!(item.get_str("type"), Some("book".to_string()));
}

#[test]
fn chapter_and_section_actions() {
    let chs = vec![Chapter::new("u1".to_string(), "t1".to_string()), Chapter::new("u2".to_string(), "t2".to_string())];
    let acts = chapter_actions(7, &chs);
    assert_eq!(acts.len(), 2);
    assert_eq!(acts[1].0.get_i64("chapter_order"), Some(2));
    assert_eq!(acts[1].1.url, "u2");
    assert!(scans_for_pages("https://h/1/2.html", 1));
    assert!(!scans_for_pages("https://h/1/2_1.html", 1));
    assert!(!scans_for_pages("https://h/1/2.html", 2));
    let secs = vec![Section::new("a".to_string()), Section::new("b".to_string()), Section::new("c".to_string())];
    let extra = extra_page_follows(&secs);
    assert_eq!(extra, vec![("b".to_string(), 2), ("c".to_string(), 3)]);
    let it = section_item(7, 1, 2, "u", "c");
    assert_eq!(it.get_i64("section_order"), Some(2));
    assert_eq!(it.get_str("content"), Some("c".to_string()));
}

#[test]
fn scheduler_decisions() {
    assert!(matches!(crawl_once_decision(Some(false), false, None), CrawlDecision::Skip));
    assert!(matches!(crawl_once_decision(None, true, None), CrawlDecision::Skip));
    assert!(matches!(crawl_once_decision(None, false, None), CrawlDecision::Run(50)));
    assert!(matches!(crawl_full_decision(Some(false), false, None), CrawlDecision::Refuse(_)));
    assert!(matches!(crawl_full_decision(None, false, Some(7)), CrawlDecision::Run(7)));
    assert!(matches!(crawl_full_decision(None, true, Some(7)), CrawlDecision::Skip));
    assert_eq!(fetch_mode_of("stealth"), FetchMode::Stealth);
    assert_eq!(fetch_mode_of("other"), FetchMode::Auto);
    assert_eq!(proxy_choice(Some("http://p".to_string()), Some(true)), Some("http://p".to_string()));
    assert_eq!(proxy_choice(Some("".to_string()), Some(true)), None);
    assert_eq!(proxy_choice(Some("http://p".to_string()), None), None);
    let mut st = CrawlStatus::default();
    begin_crawl(&mut st, 50, "增量");
    assert!(st.running);
    assert_eq!(st.message, "增量爬取中：开始抓取列表页（前 50 页）");
    finish_crawl(&mut st, "2024-01-01 00:00:00", "done");
    assert!(!st.running);
    assert_eq!(st.message, "wisp 爬取完成: done");
}

#[test]
fn api_checks() {
    assert_eq!(validate_session(1, 0).unwrap_err(), "duration_sec 必须大于 0");
    assert_eq!(validate_session(0, 5).unwrap_err(), "book_id 无效");
    assert!(validate_session(1, 5).is_ok());
    assert!(validate_goal(-1, 0).is_err());
    assert_eq!(timeline_days(None), 7);
    assert_eq!(timeline_days(Some(1000)), 365);
    assert_eq!(history_limit(Some(0)), 1);
    assert_eq!(log_limit(None), 100);
    assert_eq!(neighbor_orders(&vec![3, 1, 5, 2], 3), (Some(2), Some(5)));
    assert_eq!(neighbor_orders(&vec![3], 3), (None, None));
    assert_eq!(book_status(2), "连载中");
    assert_eq!(search_keyword(Some("  斗破 ")), Some("斗破".to_string()));
    assert_eq!(search_keyword(Some("  ")), None);
    assert_eq!(web_search_field(Some("Title")), SearchField::All);
    assert_eq!(plain_snippet("\x1b[33m斗破\x1b[0m"), ">>>斗破<<<");
    let mut st = CrawlStatus::default();
    assert!(claim_crawl(&mut st));
    assert!(!claim_crawl(&mut st));
}

#[test]
fn incremental_crawl_stops_after_three_empty_pages() {
    let mut c = IncrementalCrawl::new(10);
    assert_eq!(c.next_list_page(), Some(1));
    c.record_list_page(4);
    c.record_list_page(0);
    c.record_list_error();
    c.record_list_page(0);
    assert_eq!(c.next_list_page(), Some(5));
    c.record_list_page(0);
    assert_eq!(c.next_list_page(), None);
    assert_eq!(c.books_found(), 4);
    c.record_saved();
    assert_eq!(c.books_downloaded(), 1);
    assert_eq!(c.summary(), (4, 4, 1, 3));
}

#[test]
fn incremental_crawl_page_with_books_resets_run() {
    let mut c = IncrementalCrawl::new(2);
    c.record_list_page(0);
    c.record_list_page(0);
    assert_eq!(c.next_list_page(), None);
    let mut d = IncrementalCrawl::new(6);
    d.record_list_page(0);
    d.record_list_page(0);
    d.record_list_page(2);
    d.record_list_page(0);
    d.record_list_page(0);
    assert_eq!(d.next_list_page(), Some(6));
    assert_eq!(d.summary(), (2, 2, 0, 2));
}

#[test]
fn download_mode_by_stored_chapters() {
    assert_eq!(download_mode(true, 12), DownloadMode::Incremental(12));
    assert_eq!(download_mode(true, 0), DownloadMode::Full);
    assert_eq!(download_mode(false, 5), DownloadMode::Full);
}

#[test]
fn fetched_book_records_number_chapters_and_pages() {
    let book = Book {
        num: 3, id: 77, title: "书".to_string(), filename: "书.txt".to_string(), page: 2,
        author: "甲".to_string(), category: "玄幻".to_string(), introduce: "简介".to_string(),
        likes: 9, count: 1200,
    };
    let chapters = vec![
        Chapter {
            title: "第1章".to_string(), url: "u1".to_string(),
            sections: Some(vec![
                Section { url: "u1_1".to_string(), content: Some("甲".to_string()) },
                Section { url: "u1_2".to_string(), content: None },
            ]),
        },
        Chapter { title: "第2章".to_string(), url: "u2".to_string(), sections: None },
    ];
    let (rec, rows) = fetched_book_records(77, &book, &chapters, 1000);
    assert_eq!(rec.website_book_id, Some(77));
    assert_eq!(rec.path_num, 3);
    assert_eq!(rec.word_count, 1200);
    assert_eq!(rec.created_at, 1000);
    assert_eq!(rows.len(), 2);
    assert_eq!(rows[0].0.chapter_order, 1);
    assert_eq!(rows[1].0.chapter_order, 2);
    assert_eq!(rows[0].1.len(), 2);
    assert_eq!(rows[0].1[1].section_order, 2);
    assert_eq!(rows[0].1[0].content, "甲");
    assert_eq!(rows[0].1[1].content, "");
    assert!(rows[1].1.is_empty());
}

fn book_record(id: Option<i64>) -> BookRecord {
    BookRecord {
        id: 0, website_book_id: id, path_num: 0, title: String::new(), filename: String::new(),
        author: String::new(), category: String::new(), introduce: String::new(), likes: 0,
        word_count: 0, page_count: 0, created_at: 0, updated_at: 0,
    }
}

#[test]
fn record_flush_counts_and_failed_ids() {
    let books = vec![book_record(Some(5)), book_record(None), book_record(Some(6))];
    let chapters = vec![(8, ChapterRecord { id: 0, book_id: 0, title: String::new(), url: String::new(), chapter_order: 1, word_count: 0 })];
    let sections = vec![(9, 1, SectionRecord { id: 0, chapter_id: 0, book_id: 0, url: String::new(), content: String::new(), section_order: 1 })];
    let mut st = CrawlStatus::default();
    let failed = record_flush(&mut st, &books, &chapters, &sections, BatchResult::Saved(3), BatchResult::Failed, BatchResult::Skipped);
    assert_eq!(st.books_downloaded, 3);
    assert_eq!(st.books_failed, 1);
    assert_eq!(failed, vec![8]);
    let failed = record_flush(&mut st, &books, &chapters, &sections, BatchResult::Failed, BatchResult::Skipped, BatchResult::Failed);
    assert_eq!(st.books_downloaded, 3);
    assert_eq!(st.books_failed, 5);
    assert_eq!(failed, vec![5, 6, 9]);
}

#[test]
fn list_page_urls() {
    assert_eq!(list_page_url("https://site", 3), "https://site/shuku/0-lastupdate-0-3.html");
    let urls = start_urls("https://site", 2);
    assert_eq!(urls, vec![
        "https://site/shuku/0-lastupdate-0-1.html".to_string(),
        "https://site/shuku/0-lastupdate-0-2.html".to_string(),
    ]);
    assert!(start_urls("https://site", 0).is_empty());
    let h = request_headers("https://site");
    assert_eq!(h.len(), 5);
    assert_eq!(h[2], ("Referer".to_string(), "https://site".to_string()));
    assert_eq!(h[0].0, "Accept");
}

#[test]
fn follow_priorities() {
    assert_eq!(follow_priority(FollowKind::BookDetail), 50);
    assert_eq!(follow_priority(FollowKind::ChapterPage), 150);
    assert_eq!(follow_priority(FollowKind::Section), 100);
    assert_eq!(follow_priority(FollowKind::SectionPage), 200);
    for k in [FollowKind::BookDetail, FollowKind::ChapterPage, FollowKind::Section, FollowKind::SectionPage] {
        assert!(follow_priority(k) > LIST_PRIORITY);
    }
}

#[test]
fn crawl_settings_defaults_and_values() {
    let d = CrawlSettings::from_settings(None, None, None, None, None, None, None, None, None, None, None, None);
    assert_eq!(d.concurrency, 4);
    assert_eq!(d.fetch_mode, FetchMode::Auto);
    assert_eq!(d.proxy, None);
    assert_eq!(d.max_pages, None);
    assert_eq!(d.checkpoint_interval_secs, None);
    assert_eq!(d.download_delay_ms, 500);
    assert!(!d.obey_robots && !d.headless && d.human_mode);
    assert_eq!((d.challenge_timeout_secs, d.cf_cookie_ttl_secs), (60, 1800));
    let s = CrawlSettings::from_settings(
        Some(8), Some("stealth".to_string()), Some("http://p:1".to_string()), Some(true), Some(100),
        Some(0), Some(50), Some(true), Some(true), Some(30), Some(false), Some(600),
    );
    assert_eq!(s.concurrency, 8);
    assert_eq!(s.fetch_mode, FetchMode::Stealth);
    assert_eq!(s.proxy, Some("http://p:1".to_string()));
    assert_eq!(s.max_pages, Some(100));
    assert_eq!(s.checkpoint_interval_secs, None);
    assert_eq!(s.download_delay_ms, 50);
    assert!(s.obey_robots && s.headless && !s.human_mode);
    assert_eq!((s.challenge_timeout_secs, s.cf_cookie_ttl_secs), (30, 600));
    let t = CrawlSettings::from_settings(None, None, None, None, None, Some(15), None, None, None, None, None, None);
    assert_eq!(t.checkpoint_interval_secs, Some(15));
}
