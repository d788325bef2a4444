use banzhu_spider::import::{
    chapter_title_pattern, import_records, is_chapter_title, is_supported_format, parse_chapters,
    parse_txt_content, split_content_into_sections, epub_book,
};

#[test]
fn test_is_supported_format() {
    assert!(is_supported_format("test.txt"));
    assert!(is_supported_format("test.epub"));
    assert!(!is_supported_format("test.pdf"));
    assert!(!is_supported_format("test.doc"));
}

#[test]
fn test_parse_chapters_with_chapter_format() {
    let content = "第一章 开始\n\n这是第一章的内容。\n\n第二章 发展\n\n这是第二章的内容。";
    let chapters = parse_chapters(content, "测试小说");
    assert!(chapters.len() >= 2);
}

#[test]
fn test_parse_chapters_no_chapters() {
    let content = "这是一段没有章节标记的纯文本内容。它应该被自动分片。";
    let chapters = parse_chapters(content, "测试");
    assert!(!chapters.is_empty());
}

#[test]
fn test_parse_chapters_numbered_format() {
    let content = "1、开端\n\n第一段内容\n\n2、发展\n\n第二段内容";
    let chapters = parse_chapters(content, "测试");
    assert!(chapters.len() >= 2);
}

#[test]
fn test_split_content_into_sections() {
    let content = "a".repeat(2500);
    let sections = split_content_into_sections(&content, 1, 1000);
    assert_eq!(sections.len(), 3);
    assert_eq!(sections[0].section_order, 1);
    assert_eq!(sections[2].section_order, 3);
}

#[test]
fn test_is_chapter_title() {
    let book_pattern = chapter_title_pattern("走出吴庄");
    assert!(is_chapter_title("第一章 开始", &book_pattern));
    assert!(is_chapter_title("第十章 大战", &book_pattern));
    assert!(is_chapter_title("第二十三章", &book_pattern));
    assert!(!is_chapter_title("普通文本行", &book_pattern));
}

#[test]
fn test_parse_txt_format() {
    let content = "书名：测试小说\n作者：测试作者\n简介：这是简介\n\n第一章 开始\n\n这是内容。";
    let result = parse_txt_content(content, "其他类别", "测试小说");
    assert_eq!(result.title, "测试小说");
    assert_eq!(result.author, "测试作者");
}

#[test]
fn chapters_keep_text_and_titles() {
    let content = "前言一行\n第一章 开始\n内容甲\n第二章 结束\n内容乙";
    let chapters = parse_chapters(content, "书");
    assert_eq!(chapters.len(), 3);
    assert_eq!(chapters[0].title, "");
    assert_eq!(chapters[0].content, "前言一行");
    assert_eq!(chapters[1].title, "第一章 开始");
    assert_eq!(chapters[2].content, "内容乙");
    let untitled = parse_chapters("只有正文", "书");
    assert_eq!(untitled.len(), 1);
    assert_eq!(untitled[0].title, "正文");
}

#[test]
fn chapters_from_book_title_pattern() {
    let pat = chapter_title_pattern("走出吴庄");
    assert!(is_chapter_title("走出吴庄12", &pat));
    assert!(!is_chapter_title(&"第一章".repeat(20), &pat));
    assert!(!is_chapter_title("", &pat));
}

#[test]
fn sections_small_and_empty() {
    let one = split_content_into_sections("abc", 9, 1000);
    assert_eq!(one.len(), 1);
    assert_eq!(one[0].book_id, 9);
    assert_eq!(one[0].content, "abc");
    let empty = split_content_into_sections("", 9, 1000);
    assert_eq!(empty.len(), 1);
    assert_eq!(empty[0].content, "");
}

#[test]
fn txt_header_and_stem_fallback() {
    let result = parse_txt_content("正文第一行\n第二行", "类别", "文件名");
    assert_eq!(result.title, "文件名");
    assert_eq!(result.category, "类别");
    assert_eq!(result.chapters.len(), 1);
    assert_eq!(result.chapters[0].title, "正文");
    assert_eq!(result.chapters[0].content, "正文第一行\n第二行");
}

#[test]
fn import_records_count_and_number() {
    let parsed = parse_txt_content("书名：测:试\n第一章 a\n甲乙丙\n第二章 b\n丁", "c", "s");
    assert_eq!(parsed.title, "测:试");
    let (book, rows) = import_records(&parsed, "s").unwrap();
    assert_eq!(book.filename, "测_试");
    assert_eq!(book.word_count, 4);
    assert_eq!(rows.len(), 2);
    assert_eq!(rows[1].0.chapter_order, 2);
    assert_eq!(rows[1].1[0].content, "丁");
    let mut untitled = parsed.clone();
    untitled.title = String::new();
    assert_eq!(import_records(&untitled, "stem").unwrap_err(), "无法解析书名: stem");
}

#[test]
fn sections_join_back_to_content() {
    let secs = split_content_into_sections("abcdefg", 1, 3);
    let joined: String = secs.iter().map(|s| s.content.as_str()).collect();
    assert_eq!(joined, "abcdefg");
    assert_eq!(secs.iter().map(|s| s.content.chars().count()).collect::<Vec<_>>(), vec![3, 3, 1]);
}

#[test]
fn epub_book_from_metadata() {
    let b = epub_book(Some("书".to_string()), Some("作者".to_string()), "stem");
    assert_eq!(b.title, "书");
    assert_eq!(b.author, "作者");
    assert_eq!(b.chapters.len(), 1);
    assert_eq!(b.chapters[0].title, "正文");
    assert_eq!(b.chapters[0].content, "");
    let c = epub_book(Some(String::new()), None, "stem");
    assert_eq!(c.title, "stem");
    assert_eq!(c.author, "");
    assert_eq!(epub_book(None, None, "x").title, "x");
}

#[test]
fn title_pattern_escapes_the_title() {
    let pat = chapter_title_pattern("a.b(c)");
    assert_eq!(pat, "^a\\.b\\(c\\)[零一二三四五六七八九十百千万\\d]+");
    assert!(is_chapter_title("a.b(c)12", &pat));
    assert!(!is_chapter_title("axbc12", &pat));
}
