use banzhu_spider::api::list_paging;
use banzhu_spider::crawl::{book_page_target, download_error, fetched_text};
use banzhu_spider::bypass::{is_bypassed, CloudflareBypass};
use banzhu_spider::cf::{
    browser_user_agent, chrome_args, cookie_header, watch_step, CfManager, WatchStep, DEFAULT_USER_AGENT,
};
use banzhu_spider::models::SpiderConfig;
use banzhu_spider::numfmt::{parse_u128, u128_to_dec};
use banzhu_spider::retry::{
    book_response_step, page_error_refreshes, page_response_step, post_response_step, ResponseStep,
    RetrySchedule,
};
use banzhu_spider::turnstile::{find_turnstile_iframe, DomNode};

#[test]
fn retry_waits_double_between_attempts() {
    let mut r = RetrySchedule::new(4, 100);
    assert_eq!(r.next_attempt(), Some(0));
    assert_eq!(r.next_attempt(), Some(100));
    assert_eq!(r.next_attempt(), Some(200));
    assert_eq!(r.next_attempt(), Some(400));
    assert_eq!(r.next_attempt(), None);
    assert_eq!(r.attempts_made(), 4);
}

#[test]
fn retry_wait_held_at_limit() {
    let mut r = RetrySchedule::new(4, u64::MAX / 2 + 1);
    assert_eq!(r.next_attempt(), Some(0));
    assert_eq!(r.next_attempt(), Some(u64::MAX / 2 + 1));
    assert_eq!(r.next_attempt(), Some(u64::MAX));
    assert_eq!(r.next_attempt(), Some(u64::MAX));
}

#[test]
fn retry_with_no_attempts() {
    let mut r = RetrySchedule::new(0, 100);
    assert_eq!(r.next_attempt(), None);
    assert_eq!(r.attempts_made(), 0);
}

#[test]
fn page_responses() {
    assert_eq!(page_response_step(true, "<html>书</html>"), ResponseStep::Accept);
    assert_eq!(page_response_step(true, ""), ResponseStep::Retry);
    assert_eq!(page_response_step(true, "<title>Just a moment...</title>"), ResponseStep::RefreshAndRetry);
    assert_eq!(page_response_step(false, "<html>书</html>"), ResponseStep::RefreshAndRetry);
    assert!(page_error_refreshes(0));
    assert!(!page_error_refreshes(1));
}

#[test]
fn book_page_responses() {
    assert_eq!(book_response_step(true, "<html>书</html>"), ResponseStep::Accept);
    assert_eq!(book_response_step(true, "请稍候"), ResponseStep::RefreshAndRetry);
    assert_eq!(book_response_step(true, ""), ResponseStep::Retry);
    assert_eq!(book_response_step(false, "请稍候"), ResponseStep::Retry);
    assert_eq!(post_response_step(true), ResponseStep::Accept);
    assert_eq!(post_response_step(false), ResponseStep::Retry);
}

#[test]
fn chrome_args_with_and_without_proxy() {
    let plain = chrome_args(&None);
    assert_eq!(plain.len(), 5);
    assert_eq!(plain[0], "--disable-blink-features=AutomationControlled");
    assert_eq!(plain[4], "--no-default-browser-check");
    let proxied = chrome_args(&Some("http://127.0.0.1:7897".to_string()));
    assert_eq!(proxied.len(), 6);
    assert_eq!(proxied[5], "--proxy-server=http://127.0.0.1:7897");
}

#[test]
fn watch_steps() {
    let big = format!("<html>{}</html>", "字".repeat(400));
    let small = "<html>ok</html>".to_string();
    assert_eq!(watch_step(121_000_000_000, 0, &Some(big.clone()), true, 0), WatchStep::TimedOut);
    assert_eq!(watch_step(5_000_000_000, 0, &Some(big.clone()), false, 0), WatchStep::Passed);
    assert_eq!(watch_step(5_000_000_000, 0, &Some(small.clone()), true, 0), WatchStep::CookieSeen);
    assert_eq!(watch_step(5_000_000_000, 2_000_000_000, &Some(small.clone()), false, 3), WatchStep::Click(4));
    assert_eq!(watch_step(1_000_000_000, 2_000_000_000, &None, false, 0), WatchStep::Wait);
    assert_eq!(watch_step(5_000_000_000, 1_999_999_999, &None, false, 0), WatchStep::Wait);
    let challenge = format!("<title>Just a moment</title>{}", "x".repeat(2000));
    assert_eq!(watch_step(5_000_000_000, 0, &Some(challenge), false, 0), WatchStep::Wait);
}

#[test]
fn cookie_header_prefers_clearance() {
    let all = vec![
        ("a".to_string(), "1".to_string()),
        ("cf_clearance".to_string(), "xyz".to_string()),
        ("b".to_string(), "2".to_string()),
    ];
    assert_eq!(cookie_header(&all), "cf_clearance=xyz");
    let none = vec![("a".to_string(), "1".to_string()), ("b".to_string(), "2".to_string())];
    assert_eq!(cookie_header(&none), "a=1; b=2");
    assert_eq!(cookie_header(&vec![]), "");
    assert_eq!(browser_user_agent(None), DEFAULT_USER_AGENT);
    assert_eq!(browser_user_agent(Some("UA".to_string())), "UA");
}

#[test]
fn cf_manager_keeps_cookies_for_ttl() {
    let mut m = CfManager::with_ttl(1000);
    assert_eq!(m.cached_cookies(0), None);
    m.store("c=1".to_string(), "ua".to_string(), 5000);
    assert_eq!(m.cached_cookies(5999), Some(("c=1".to_string(), "ua".to_string())));
    assert_eq!(m.cached_cookies(6000), None);
    assert_eq!(m.cached_cookies(10), Some(("c=1".to_string(), "ua".to_string())));
    let d = CfManager::new();
    assert!(!d.headless());
    assert_eq!(d.proxy_url(), None);
    let s = CfManager::from_settings(None, Some(true), Some("http://p".to_string()));
    assert!(s.headless());
    assert_eq!(s.proxy_url(), Some("http://p".to_string()));
    let mut t = CfManager::from_settings(Some(2), None, None);
    t.store("k".to_string(), "u".to_string(), 0);
    assert!(t.cached_cookies(1999).is_some());
    assert!(t.cached_cookies(2000).is_none());
}

fn node(id: u32, name: &str, attrs: Option<Vec<&str>>, children: Option<Vec<DomNode>>) -> DomNode {
    DomNode {
        node_id: id,
        node_name: name.to_string(),
        attributes: attrs.map(|v| v.into_iter().map(|s| s.to_string()).collect()),
        children,
        shadow_roots: None,
        content_document: None,
    }
}

#[test]
fn turnstile_frame_found_in_tree() {
    let frame = node(7, "IFRAME", Some(vec!["src", "https://challenges.cloudflare.com/x"]), None);
    let other = node(3, "iframe", Some(vec!["src", "https://ads.example"]), None);
    let root = node(1, "#document", None, Some(vec![other, node(2, "div", None, Some(vec![frame]))]));
    assert_eq!(find_turnstile_iframe(&root), Some(7));
}

#[test]
fn turnstile_frame_in_shadow_root_and_frame_document() {
    let widget = node(9, "iframe", Some(vec!["class", "w", "id", "cf-chl-widget-abc"]), None);
    let shadow = node(8, "#shadow-root", None, Some(vec![widget]));
    let mut host = node(4, "div", None, None);
    host.shadow_roots = Some(vec![shadow]);
    assert_eq!(find_turnstile_iframe(&host), Some(9));

    let inner = node(12, "iframe", Some(vec!["id", "cf-chl-widget"]), None);
    let doc = node(11, "#document", None, Some(vec![inner]));
    let mut outer = node(10, "iframe", Some(vec!["src", "https://site.example"]), None);
    outer.content_document = Some(Box::new(doc));
    assert_eq!(find_turnstile_iframe(&outer), Some(12));
}

#[test]
fn turnstile_frame_absent() {
    let odd = node(5, "iframe", Some(vec!["id", "cf-chl-widget", "src"]), None);
    assert_eq!(find_turnstile_iframe(&odd), Some(5));
    let dangling = node(6, "iframe", Some(vec!["class", "x", "src"]), None);
    assert_eq!(find_turnstile_iframe(&dangling), None);
    let div = node(1, "div", Some(vec!["src", "https://challenges.cloudflare.com"]), None);
    assert_eq!(find_turnstile_iframe(&div), None);
}

#[test]
fn older_check_reads_titles() {
    assert!(!is_bypassed("<html><title>Just a moment...</title></html>"));
    assert!(!is_bypassed("<title>请稍候…</title>"));
    assert!(is_bypassed("<title>半逐小说</title>"));
    assert!(is_bypassed("no title: Just a moment"));
    let b = CloudflareBypass::new("https://site".to_string());
    assert!(!b.is_bypassed("Just a moment"));
    assert!(b.is_bypassed("首页"));
}

#[test]
fn older_check_keeps_headers_and_pause() {
    let mut b = CloudflareBypass::new("https://site".to_string());
    let (ua, cookie, enc) = b.header_values();
    assert_eq!(ua, DEFAULT_USER_AGENT);
    assert_eq!(cookie, None);
    assert_eq!(enc, "gzip, deflate, zstd");
    assert!(b.bypass_due(60_001));
    assert!(!b.bypass_due(60_000));
    assert!(b.finish_bypass("UA1".to_string(), "".to_string(), 1000));
    assert_eq!(b.last_bypassed, 1000);
    assert_eq!(b.user_agent, Some("UA1".to_string()));
    assert_eq!(b.cookie, None);
    assert!(!b.bypass_due(61_000));
    let rec = b.saved_record(123);
    assert_eq!(rec, vec![
        ("User-Agent".to_string(), "UA1".to_string()),
        ("last_bypassed".to_string(), "123".to_string()),
    ]);
    b.apply_saved(Some("k=v".to_string()), None, Some("1700000000000".to_string()));
    assert_eq!(b.cookie, Some("k=v".to_string()));
    assert_eq!(b.user_agent, Some("UA1".to_string()));
    assert_eq!(b.last_bypassed, 1_700_000_000_000);
    b.apply_saved(None, None, Some("soon".to_string()));
    assert_eq!(b.last_bypassed, 0);
    let mut e = CloudflareBypass::new("u".to_string());
    assert!(!e.finish_bypass(String::new(), String::new(), 5));
}

#[test]
fn u128_numbers() {
    assert_eq!(parse_u128("340282366920938463463374607431768211455"), Ok(u128::MAX));
    assert!(parse_u128("340282366920938463463374607431768211456").is_err());
    assert!(parse_u128("").is_err());
    assert_eq!(parse_u128("+7"), Ok(7));
    assert_eq!(u128_to_dec(u128::MAX), "340282366920938463463374607431768211455");
    assert_eq!(u128_to_dec(0), "0");
}

#[test]
fn spider_settings_defaults() {
    let c = SpiderConfig::from_settings(None, None, None, None);
    assert_eq!(c.request_timeout, 15);
    assert_eq!(c.retry_attempts, 3);
    assert_eq!(c.retry_delay, 100);
    assert_eq!(c.max_concurrent_tasks, 16);
    let d = SpiderConfig::from_settings(Some(30), Some(5), Some(250), Some(4));
    assert_eq!((d.request_timeout, d.retry_attempts, d.retry_delay, d.max_concurrent_tasks), (30, 5, 250, 4));
    let z = SpiderConfig::default();
    assert_eq!(z.request_timeout, 5);
}

#[test]
fn listing_pages() {
    assert_eq!(list_paging(None, None), (20, 0));
    assert_eq!(list_paging(Some(3), Some(10)), (10, 20));
    assert_eq!(list_paging(Some(0), Some(500)), (100, 0));
    assert_eq!(list_paging(Some(2), Some(-5)), (-5, -5));
}

#[test]
fn book_page_targets() {
    assert_eq!(
        book_page_target("https://www.site.com", 12345),
        Ok(("https://www.site.com/12/12345/".to_string(), 12, 12345))
    );
    assert_eq!(
        book_page_target("https://www.site.com", 7),
        Ok(("https://www.site.com/0/7/".to_string(), 0, 7))
    );
    assert_eq!(book_page_target("http://www.site.com", 7), Err("下载失败: book_id=7".to_string()));
    assert_eq!(download_error(42), "下载失败: book_id=42");
}

#[test]
fn fetched_section_text() {
    assert_eq!(fetched_text(""), None);
    assert_eq!(fetched_text("  正文  \n"), Some("\t正文".to_string()));
    assert_eq!(fetched_text("   "), Some("\t".to_string()));
}
