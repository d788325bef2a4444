use banzhu_spider::cache::SearchCache;
use banzhu_spider::search::{
    build_display_snippet, build_field_distribution, build_fts_match_expr, count_matches,
    escape_single_quote, field_display_name, fts_count_sql, highlight_snippet, search_hit,
    strip_highlight_markers, tokenize_chinese, IndexUpdateQueue, SearchField, build_or_expr,
    build_phrase_expr, build_prefix_expr,
};
use banzhu_spider::text::starts_with_str;

#[test]
fn test_tokenize_chinese() {
    let tokens = tokenize_chinese("斗破苍穹");
    assert!(!tokens.is_empty());

    let tokens = tokenize_chinese("hello world");
    assert_eq!(tokens, vec!["hello", "world"]);

    let tokens = tokenize_chinese("斗破苍穹 hello");
    assert!(tokens.len() >= 2);
}

#[test]
fn test_tokenize_mixed() {
    let tokens = tokenize_chinese("天蚕土豆");
    assert!(!tokens.is_empty());
}

#[test]
fn test_count_matches() {
    let text = ">>>hello<<< world >>>test<<<";
    assert_eq!(count_matches(text, ">>>", "<<<"), 2);

    let text_no_match = "hello world";
    assert_eq!(count_matches(text_no_match, ">>>", "<<<"), 0);
}

#[test]
fn test_highlight_snippet() {
    let snippet = ">>>斗破<<<苍穹";
    let result = highlight_snippet(snippet, ">>>", "<<<");
    assert!(result.contains("\x1b[33m"));
    assert!(result.contains("\x1b[0m"));
}

#[test]
fn test_strip_highlight_markers() {
    let snippet = ">>>斗破<<<苍穹";
    let result = strip_highlight_markers(snippet, ">>>", "<<<");
    assert_eq!(result, "斗破苍穹");
}

#[test]
fn test_build_fts_match_expr_simple() {
    let expr = build_fts_match_expr("斗破", false, SearchField::All);
    assert!(expr.contains("simple_query"));
    assert!(expr.contains("books_fts MATCH"));
}

#[test]
fn test_build_fts_match_expr_column_filter() {
    let expr = build_fts_match_expr("斗破", false, SearchField::Title);
    assert!(expr.contains("title :"));
}

#[test]
fn test_search_field_from_str() {
    assert_eq!(SearchField::from_str("all"), Some(SearchField::All));
    assert_eq!(SearchField::from_str("title"), Some(SearchField::Title));
    assert_eq!(SearchField::from_str("author"), Some(SearchField::Author));
    assert_eq!(SearchField::from_str("content"), Some(SearchField::Content));
    assert_eq!(SearchField::from_str("invalid"), None);
}

#[test]
fn test_index_update_queue() {
    let mut queue = IndexUpdateQueue::new(3);
    assert!(!queue.is_ready());

    queue.enqueue(1);
    queue.enqueue(2);
    assert!(!queue.is_ready());

    queue.enqueue(3);
    assert!(queue.is_ready());

    let items = queue.drain();
    assert_eq!(items.len(), 3);
    assert!(queue.len() == 0);
}

#[test]
fn test_index_update_queue_no_duplicates() {
    let mut queue = IndexUpdateQueue::new(3);
    queue.enqueue(1);
    queue.enqueue(1);
    assert_eq!(queue.len(), 1);
}

#[test]
fn test_search_cache() {
    let mut cache: SearchCache<Vec<String>> = SearchCache::new();
    assert!(cache.get("test", 0).is_none());

    let results = vec!["test".to_string()];

    cache.put("test".to_string(), results.clone(), 0);
    let cached = cache.get("test", 0);
    assert!(cached.is_some());
    assert_eq!(cached.unwrap().len(), 1);
}

#[test]
fn test_escape_single_quote() {
    assert_eq!(escape_single_quote("it's"), "it''s");
    assert_eq!(escape_single_quote("normal"), "normal");
}

#[test]
fn test_tokenize_empty() {
    let tokens = tokenize_chinese("");
    assert!(tokens.is_empty());
}

#[test]
fn test_tokenize_special_chars() {
    let tokens = tokenize_chinese("hello, world! 你好");
    assert!(!tokens.is_empty());
}

#[test]
fn search_cache_expires_after_ttl() {
    let mut cache: SearchCache<u32> = SearchCache::new();
    cache.put("k".to_string(), 7, 1000);
    assert_eq!(cache.get("k", 1299), Some(7));
    assert_eq!(cache.get("k", 1300), None);
    assert_eq!(cache.get("k", 10), Some(7));
}

#[test]
fn search_cache_full_drops_newest_entry() {
    let mut cache: SearchCache<u32> = SearchCache::new();
    for i in 0..100u64 {
        cache.put(format!("k{}", i), i as u32, i);
    }
    assert_eq!(cache.len(), 100);
    cache.put("new".to_string(), 1, 500);
    assert_eq!(cache.len(), 100);
    assert_eq!(cache.get("k99", 500), None);
    assert_eq!(cache.get("k0", 200), Some(0));
    assert_eq!(cache.get("new", 500), Some(1));
    cache.clear();
    assert_eq!(cache.len(), 0);
}

#[test]
fn search_cache_replaces_existing_key() {
    let mut cache: SearchCache<u32> = SearchCache::new();
    cache.put("k".to_string(), 1, 0);
    cache.put("k".to_string(), 2, 0);
    assert_eq!(cache.len(), 1);
    assert_eq!(cache.get("k", 0), Some(2));
}

#[test]
fn field_distribution_lists_positive_counts() {
    assert_eq!(build_field_distribution(2, 0, 10), "(标题:2 内容:10)");
    assert_eq!(build_field_distribution(0, 0, 0), "无详细分布");
    assert_eq!(field_display_name(SearchField::Author), "作者");
}

#[test]
fn display_snippet_prefers_marked_fields() {
    let s = build_display_snippet(">>>斗破<<<苍穹", "天蚕土豆", "正文");
    assert_eq!(s, "[标题] >>>斗破<<<苍穹");
    let s = build_display_snippet("斗破苍穹", "天蚕土豆", "");
    assert_eq!(s, "[标题] 斗破苍穹");
}

#[test]
fn count_sql_uses_all_fields() {
    assert_eq!(
        fts_count_sql("it's", false),
        "SELECT COUNT(*) FROM books_fts as fts WHERE books_fts MATCH simple_query('it''s')"
    );
}

#[test]
fn search_hit_counts_and_strips_markers() {
    let hit = search_hit(1, ">>>测试<<<小说", "作者", "玄幻", 100, 0, ">>>测试<<<小说", "作者", "这是>>>测试<<<内容");
    assert_eq!(hit.title, "测试小说");
    assert_eq!(hit.title_matches, 1);
    assert_eq!(hit.author_matches, 0);
    assert_eq!(hit.content_matches, 1);
    assert!(hit.snippet.contains("\x1b[33m"));
}

#[test]
fn query_expression_pieces() {
    assert_eq!(build_or_expr(&vec![]), "simple_query('')");
    assert_eq!(
        build_or_expr(&vec!["斗破".to_string(), "it's".to_string()]),
        "(simple_query('斗破') OR simple_query('it''s'))"
    );
    assert_eq!(build_phrase_expr("a'b"), "simple_query('a''b')");
    assert_eq!(build_prefix_expr("苍穹"), "simple_query('苍穹')");
    assert!(starts_with_str("斗破苍穹", "斗破"));
    assert!(!starts_with_str("斗", "斗破"));
}
