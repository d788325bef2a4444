use banzhu_spider::parse::{
    arr_dup_rem_linked, char_to_unicode, clean_filename, clean_filename_is_cuttable,
    format_novel_content, get_chapter_section_num, split_second, Book, Chapter, Section,
};
use banzhu_spider::pages::{page_capture, parse_book_info, parse_book_info_checked};

#[test]
fn test_split_second_extracts_after_colon() {
    let result = split_second("作者：张三", "：").unwrap();
    assert_eq!(result, "张三");
}

#[test]
fn test_split_second_trims_whitespace() {
    let result = split_second("作者：  张三  ", "：").unwrap();
    assert_eq!(result, "张三");
}

#[test]
fn test_split_second_missing_pattern_returns_error() {
    let result = split_second("作者张三", "：");
    assert!(result.is_err());
}

#[test]
fn test_char_to_unicode_ascii() {
    assert_eq!(char_to_unicode('A'), r"\u41");
}

#[test]
fn test_char_to_unicode_chinese() {
    assert_eq!(char_to_unicode('书'), r"\u4e66");
}

#[test]
fn test_arr_dup_rem_linked_preserves_order() {
    let input = vec![1, 2, 1, 3, 2, 4];
    assert_eq!(arr_dup_rem_linked(input), vec![1, 2, 3, 4]);
}

#[test]
fn test_arr_dup_rem_linked_strings() {
    let input = vec!["a".to_string(), "b".to_string(), "a".to_string()];
    assert_eq!(arr_dup_rem_linked(input), vec!["a".to_string(), "b".to_string()]);
}

#[test]
fn test_format_novel_content_collapses_multiple_newlines() {
    let input = "line1\r\n\r\n\r\nline2\nline3";
    assert_eq!(format_novel_content(input), "line1\n\nline2\n\nline3");
}

#[test]
fn test_page_regex_matches_fixture() {
    let page = page_capture("(第1/5页)当前10条/页");
    assert!(page.is_some());
    assert_eq!(page.unwrap(), "5");
}

#[test]
fn test_format_novel_content() {
    let content = "段落1\n\n\n\n段落2\n\n\n\n段落3\n\n\n段落4\n段落5".to_string();
    let formatted = format_novel_content(&content);
    assert_eq!(formatted, "段落1\n\n段落2\n\n段落3\n\n段落4\n\n段落5");
}

#[test]
fn test_parse_book_info_missing_pagination_returns_error() {
    let html = "<html><body><h1>x</h1></body></html>";
    let err = parse_book_info(99, html).unwrap_err();
    assert!(err.message().contains("book:99"), "错误信息应包含 book_id: {}", err.message());
}

#[test]
fn test_clean_filename_replaces_illegal_chars() {
    let cleaned = clean_filename("书名/测试:1.txt");
    assert_eq!(cleaned, "书名_测试_1.txt");
}

#[test]
fn test_clean_filename_replaces_all_illegal_chars() {
    let cleaned = clean_filename(r#"a\b/c*d?e"f<g>h|i"#);
    assert_eq!(cleaned, "a_b_c_d_e_f_g_h_i");
}

#[test]
fn test_clean_filename_keeps_legal_name() {
    assert_eq!(clean_filename("正常书名"), "正常书名");
}

#[test]
fn test_arr_dup_rem_linked_removes_duplicates() {
    let input = vec![1, 2, 2, 3, 3, 3, 4];
    let result = arr_dup_rem_linked(input);
    assert_eq!(result, vec![1, 2, 3, 4]);
}

#[test]
fn clean_filename_cuts_at_200_bytes() {
    let long = "a".repeat(250);
    assert_eq!(clean_filename(&long).len(), 200);
    let chinese = "书".repeat(70);
    assert!(!clean_filename_is_cuttable(&chinese));
    assert!(clean_filename_is_cuttable(&"书".repeat(66)));
}

#[test]
fn sections_and_chapters_compare_by_value() {
    let a = vec![Section::new("u1".to_string()), Section::new("u1".to_string()), Section::new("u2".to_string())];
    assert_eq!(arr_dup_rem_linked(a).len(), 2);
    let c = vec![
        Chapter::new("h".to_string(), "t".to_string()),
        Chapter::new("h".to_string(), "t".to_string()),
    ];
    assert_eq!(arr_dup_rem_linked(c).len(), 1);
}

#[test]
fn book_info_full_page() {
    let html = r#"<html><body>
        <div class="pagelistbox"><span class="page">(第1/5页)当前10条/页</span></div>
        <h1>测试书名</h1>
        <div class="bd">这是一本测试书的简介内容</div>
        <div class="info"><span>作者：测试作者</span><span>分类：玄幻</span><span>字数：100000</span><span>喜欢：200</span></div>
        </body></html>"#;
    let book = parse_book_info(12345, html).expect("parse_book_info should succeed");
    assert_eq!(book.title, "测试书名");
    assert_eq!(book.author, "测试作者");
    assert_eq!(book.category, "玄幻");
    assert_eq!(book.page, 5);
    assert_eq!(book.count, 100000);
    assert_eq!(book.likes, 200);
    assert_eq!(book.introduce, "这是一本测试书的简介内容");
    assert_eq!(book.filename, "测试书名");
    assert_eq!(book.id, 0);
    assert_eq!(book.num, 0);
}

#[test]
fn book_info_error_messages() {
    let no_info = r#"<div class="pagelistbox"><b class="page">(第1/5页)当前10条/页</b></div><h1>t</h1>"#;
    assert_eq!(parse_book_info(7, no_info).unwrap_err().message(), "book:7 未找到.info元素");
    let bad_page = r#"<div class="pagelistbox"><b class="page">第一页</b></div><h1>t</h1>"#;
    assert_eq!(parse_book_info(7, bad_page).unwrap_err().message(), "book:7 分页格式异常");
    let no_h1 = r#"<div class="pagelistbox"><b class="page">(第1/5页)当前10条/页</b></div>"#;
    assert_eq!(parse_book_info(7, no_h1).unwrap_err().message(), "book:7 未找到书名(h1)");
    let long_title = format!(
        r#"<div class="pagelistbox"><b class="page">(第1/5页)当前10条/页</b></div><h1>{}</h1>"#,
        "书".repeat(70)
    );
    assert!(parse_book_info_checked(7, &long_title).is_none());
}

#[test]
fn dedup_twice_is_dedup_once() {
    let once = arr_dup_rem_linked(vec![3, 1, 3, 2, 1]);
    assert_eq!(once, vec![3, 1, 2]);
    assert_eq!(arr_dup_rem_linked(once.clone()), once);
}

#[test]
fn cleaned_names_are_legal() {
    let cleaned = clean_filename(r#"<>:"/\|?*x"#);
    assert_eq!(cleaned, "_________x");
    assert!(!cleaned.chars().any(|c| "\\/:*?\"<>|".contains(c)));
}

fn sample_book() -> Book {
    Book {
        num: 3, id: 3001, title: "测试".to_string(), filename: "测试.txt".to_string(), page: 1,
        author: "甲".to_string(), category: "都市".to_string(), introduce: "简介".to_string(),
        likes: 12, count: 34567,
    }
}

#[test]
fn book_display_text() {
    assert_eq!(
        sample_book().display_text(),
        "书名：测试\n\n作者: 甲\n\n分类: 都市\n\n喜欢: 12\n\n字数: 34567\n\n简介: 简介\n\n"
    );
}

#[test]
fn section_count_over_chapters() {
    let mut a = Chapter::new("u1".to_string(), "一".to_string());
    a.sections = Some(vec![Section::new("s1".to_string()), Section::new("s2".to_string())]);
    let b = Chapter::new("u2".to_string(), "二".to_string());
    let mut c = Chapter::new("u3".to_string(), "三".to_string());
    c.sections = Some(vec![Section::new("s3".to_string())]);
    assert_eq!(get_chapter_section_num(&vec![a, b, c]), 3);
    assert_eq!(get_chapter_section_num(&vec![]), 0);
}
