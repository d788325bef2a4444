use banzhu_spider::cli::{parse_id_range, parse_search_field, truncate_str};
use banzhu_spider::search::SearchField;

#[test]
fn test_parse_id_range_single() {
    let (start, end) = parse_id_range("50").unwrap();
    assert_eq!(start, 50);
    assert_eq!(end, 50);
}

#[test]
fn test_parse_id_range_multi() {
    let (start, end) = parse_id_range("10-100").unwrap();
    assert_eq!(start, 10);
    assert_eq!(end, 100);
}

#[test]
fn test_parse_id_range_invalid() {
    assert!(parse_id_range("abc").is_err());
    assert!(parse_id_range("10-abc").is_err());
    assert!(parse_id_range("100-10").is_err());
}

#[test]
fn test_truncate_str() {
    assert_eq!(truncate_str("hello", 10), "hello");
    let truncated = truncate_str("这是一个很长的小说名称用来测试截断", 10);
    assert!(truncated.chars().count() <= 11);
}

#[test]
fn parse_id_range_messages() {
    assert_eq!(parse_id_range(" 3 - 7 ").unwrap(), (3, 7));
    assert_eq!(parse_id_range("1-2-3").unwrap_err(), "ID范围格式错误，正确格式: minid-maxid (如: 10-100)");
    assert_eq!(parse_id_range("x-3").unwrap_err(), "起始ID必须是数字");
    assert_eq!(parse_id_range("3-x").unwrap_err(), "结束ID必须是数字");
    assert_eq!(parse_id_range("9-3").unwrap_err(), "起始ID不能大于结束ID");
    assert_eq!(parse_id_range("abc").unwrap_err(), "ID必须是数字或范围格式 (如: 10-100)");
}

#[test]
fn truncate_str_exact_cut() {
    assert_eq!(truncate_str("abcdef", 4), "abc…");
    assert_eq!(truncate_str("abcd", 4), "abcd");
    assert_eq!(truncate_str("", 0), "");
}

#[test]
fn parse_search_field_accepts_any_case() {
    assert_eq!(parse_search_field("TITLE").unwrap(), SearchField::Title);
    assert_eq!(
        parse_search_field("x").unwrap_err(),
        "不支持的搜索范围: x，可选: all, title, author, content"
    );
}
