use banzhu_spider::cli::{
    parse_search_field, search_footer, search_footer_checked, search_plan, search_plan_checked,
    SearchFooter, SearchPlanError,
};
use banzhu_spider::crawl::{section_page_step, section_post_item, SectionStep};
use banzhu_spider::dict::FanpaDict;
use banzhu_spider::models::CrawlStatus;
use banzhu_spider::scheduler::{start_crawl_full, start_crawl_once, CrawlDecision};
use banzhu_spider::search::{strip_highlight_markers, tokenize_chinese, SearchField};
use banzhu_spider::text::char_is_whitespace;

#[test]
fn test_section_handler_needs_post_follows_to_section_post() {
    let html = r#"<html><body>
            <script>$.post('',{'j':'1'},function(e){})</script>
        </body></html>"#;
    let url = "https://www.bz.com/12/12345_1/23456.html";
    let img = FanpaDict::new();
    let font = FanpaDict::new();
    match section_page_step(url, html, 12345, 1, "", 1, &font, &img) {
        SectionStep::Emit(_) => panic!("需要 POST 时不应 emit item"),
        SectionStep::Post(f) => {
            assert_eq!(f.callback, "section_post");
            assert_eq!(f.url, url);
            assert_eq!(f.method, "POST");
            assert_eq!(f.body, "j=1");
            assert_eq!(f.content_type, "application/x-www-form-urlencoded");
            assert_eq!(f.book_id, 12345);
            assert_eq!(f.chapter_order, 1);
        }
    }
}

#[test]
fn test_section_handler_strategy1_emits_item() {
    let html = r#"<html><body>
            <div class="page-content"><p>正文段落。<br>第二行。</p></div>
        </body></html>"#;
    let url = "https://www.bz.com/12/12345_1/23456.html";
    let img = FanpaDict::new();
    let font = FanpaDict::new();
    match section_page_step(url, html, 12345, 1, "第1章", 1, &font, &img) {
        SectionStep::Post(_) => panic!("no post expected"),
        SectionStep::Emit(item) => {
            assert_eq!(item.get_str("type"), Some("section".to_string()));
            assert_eq!(item.get_i64("website_book_id"), Some(12345));
            assert_eq!(item.get_i64("chapter_order"), Some(1));
            assert_eq!(item.get_i64("section_order"), Some(1));
            assert_eq!(item.get_str("url"), Some(url.to_string()));
            assert_eq!(item.get_str("content"), Some("正文段落。\n\n第二行。".to_string()));
        }
    }
}

#[test]
fn section_post_response_becomes_item() {
    let img = FanpaDict::new();
    let font = FanpaDict::new();
    let item = section_post_item("https://h/1/2.html", r#"<div class="page-content"><p>x<br>y</p></div>"#, 7, 3, 2, &font, &img);
    assert_eq!(item.get_str("type"), Some("section".to_string()));
    assert_eq!(item.get_i64("website_book_id"), Some(7));
    assert_eq!(item.get_i64("chapter_order"), Some(3));
    assert_eq!(item.get_i64("section_order"), Some(2));
    assert_eq!(item.get_str("content"), Some("x\n\ny".to_string()));
}

#[test]
fn second_trigger_starts_nothing() {
    let mut status = CrawlStatus::default();
    assert_eq!(start_crawl_once(&mut status, Some(true), Some(30)), Some(30));
    assert!(status.running);
    assert_eq!(status.pages_limit, 30);
    let before = status.clone();
    assert_eq!(start_crawl_once(&mut status, Some(true), Some(30)), None);
    assert_eq!(status.message, before.message);
    assert!(matches!(start_crawl_full(&mut status, Some(true), Some(10)), CrawlDecision::Skip));
    assert_eq!(status.pages_limit, 30);
    assert_eq!(status.message, before.message);
}

#[test]
fn disabled_triggers_start_nothing() {
    let mut status = CrawlStatus::default();
    assert_eq!(start_crawl_once(&mut status, Some(false), None), None);
    assert!(!status.running);
    match start_crawl_full(&mut status, Some(false), None) {
        CrawlDecision::Refuse(m) => assert_eq!(m, "全量爬取未启用（crawl.full_enabled=false）"),
        other => panic!("unexpected {:?}", other),
    }
    assert!(!status.running);
    assert_eq!(start_crawl_once(&mut status, None, None), Some(50));
    let mut other = CrawlStatus::default();
    assert!(matches!(start_crawl_full(&mut other, Some(true), None), CrawlDecision::Run(5000)));
    assert!(other.running);
}

#[test]
fn strip_markers_round_trip() {
    assert_eq!(strip_highlight_markers(">>>斗破<<<", ">>>", "<<<"), "斗破");
    assert_eq!(strip_highlight_markers("斗破苍穹", ">>>", "<<<"), "斗破苍穹");
}

#[test]
fn search_plan_checks_and_offsets() {
    assert_eq!(search_plan("斗", 10, 0, false, false), Err(SearchPlanError::KeywordTooShort));
    assert_eq!(search_plan("斗破", 10, 0, true, true), Err(SearchPlanError::BothDirections));
    assert_eq!(search_plan("斗破", 10, 5, true, false), Ok(0));
    assert_eq!(search_plan("斗破", 10, 25, true, false), Ok(15));
    assert_eq!(search_plan("斗破", 10, 25, false, true), Ok(35));
    assert_eq!(search_plan("斗破", 10, 25, false, false), Ok(25));
    assert_eq!(search_plan_checked("斗破", 1, i64::MAX, false, true), None);
    assert_eq!(search_plan_checked("斗", 1, i64::MAX, false, true), Some(Err(SearchPlanError::KeywordTooShort)));
    assert_eq!(SearchPlanError::KeywordTooShort.message(), "搜索关键词长度至少需要 2 个字符");
}

#[test]
fn search_footer_pages() {
    assert_eq!(search_footer(10, 10, 0), None);
    assert_eq!(
        search_footer(25, 10, 10),
        Some(SearchFooter { current_page: 2, total_pages: 3, prev_offset: Some(0), next_offset: Some(20) })
    );
    assert_eq!(
        search_footer(25, 10, 0),
        Some(SearchFooter { current_page: 1, total_pages: 3, prev_offset: None, next_offset: Some(10) })
    );
    assert_eq!(
        search_footer(25, 10, 20),
        Some(SearchFooter { current_page: 3, total_pages: 3, prev_offset: Some(10), next_offset: None })
    );
    assert_eq!(search_footer_checked(25, 0, 0), None);
}

#[test]
fn whitespace_agrees_with_std() {
    for u in 0..=0x10FFFFu32 {
        if let Some(c) = char::from_u32(u) {
            assert_eq!(char_is_whitespace(c), c.is_whitespace(), "{:?}", c);
        }
    }
}

#[test]
fn ascii_field_names_and_tokens() {
    assert_eq!(parse_search_field("ALL"), Ok(SearchField::All));
    assert_eq!(SearchField::from_str("Title"), Some(SearchField::Title));
    assert!(parse_search_field("x").is_err());
    assert_eq!(tokenize_chinese("Rust Lang"), vec!["rust", "lang"]);
}
