use banzhu_spider::export::{
    build_chapter_xhtml, build_nav, build_ncx, build_opf, escape_xml, export_txt, group_by_chapter,
    sanitize_filename, txt_file_content, local_txt_content, local_txt_dir, local_txt_path,
    existing_txt_path, epub_entries,
};
use banzhu_spider::parse::{Book, Chapter, Section};
use banzhu_spider::models::{BookRecord, ChapterRecord, SectionRecord};

fn book() -> BookRecord {
    BookRecord {
        id: 1,
        website_book_id: None,
        path_num: 0,
        title: "测试小说".to_string(),
        filename: "测试小说".to_string(),
        author: "测试作者".to_string(),
        category: "玄幻".to_string(),
        introduce: "这是简介".to_string(),
        likes: 100,
        word_count: 500000,
        page_count: 5,
        created_at: 0,
        updated_at: 0,
    }
}

fn chapter(id: i64, title: &str) -> ChapterRecord {
    ChapterRecord { id, book_id: 1, title: title.to_string(), url: String::new(), chapter_order: id, word_count: 0 }
}

fn section(chapter_id: i64, content: &str) -> SectionRecord {
    SectionRecord { id: 0, chapter_id, book_id: 1, url: String::new(), content: content.to_string(), section_order: 1 }
}

#[test]
fn test_export_txt() {
    let content = txt_file_content(&book(), &vec![chapter(1, "第一章 测试")], &vec![section(1, "这是章节内容。")]);
    assert!(content.contains("测试小说"));
    assert!(content.contains("测试作者"));
    assert!(content.contains("这是章节内容"));
    assert_eq!(
        content,
        "书名：测试小说\n作者：测试作者\n分类：玄幻\n字数：500000\n简介：这是简介\n\n\n第一章 测试\n\n\t这是章节内容。"
    );
}

#[test]
fn grouping_follows_chapter_order() {
    let g = group_by_chapter(
        vec![chapter(2, "b"), chapter(1, "a"), chapter(2, "again")],
        vec![section(1, "x"), section(2, "y"), section(1, "z")],
    );
    assert_eq!(g, vec![
        ("b".to_string(), "y".to_string()),
        ("a".to_string(), "xz".to_string()),
        ("again".to_string(), String::new()),
    ]);
}

#[test]
fn web_txt_export() {
    let (name, body) = export_txt(book(), vec![chapter(1, "一")], vec![section(1, " 正文 ")]);
    assert_eq!(name, "测试小说");
    assert_eq!(body, "测试小说\n\n作者：测试作者\n\n\n\n一\n\n正文\n");
}

#[test]
fn xml_helpers() {
    assert_eq!(escape_xml("a<b>&\"'"), "a&lt;b&gt;&amp;&quot;&apos;");
    assert_eq!(sanitize_filename("a/b"), "a_b");
    assert_eq!(sanitize_filename("  "), "book");
}

#[test]
fn epub_documents() {
    let grouped = vec![("第<1>章".to_string(), "甲\n\n 乙 ".to_string())];
    let nav = build_nav(&grouped);
    assert!(nav.contains("<li><a href=\"chapter_1.xhtml\">第&lt;1&gt;章</a></li>"));
    let ncx = build_ncx(&book(), &grouped);
    assert!(ncx.contains("<navPoint id=\"chapter_1\" playOrder=\"1\">"));
    assert!(ncx.contains("urn:banzhu:book:1"));
    let opf = build_opf(&book(), 2, "2024-01-01T00:00:00Z");
    assert!(opf.contains("<itemref idref=\"chapter_2\"/>"));
    assert!(opf.contains("<meta property=\"dcterms:modified\">2024-01-01T00:00:00Z</meta>"));
    let x = build_chapter_xhtml("t", "甲\n\n 乙 ");
    assert!(x.contains("    <h1>t</h1>\n    <p>甲</p>\n    <p>乙</p>\n  </body>"));
    let empty = build_chapter_xhtml("t", "  ");
    assert!(empty.contains("<h1>t</h1>\n  </body>"));
}

fn fetched_book(category: &str) -> Book {
    Book {
        num: 1, id: 1001, title: "书名A".to_string(), filename: "书名A.txt".to_string(), page: 1,
        author: "作者B".to_string(), category: category.to_string(), introduce: "简介C".to_string(),
        likes: 0, count: 0,
    }
}

#[test]
fn local_txt_layout() {
    let chapters = vec![
        Chapter {
            title: "第一章".to_string(), url: "u1".to_string(),
            sections: Some(vec![
                Section { url: "s1".to_string(), content: Some("\t正文一".to_string()) },
                Section { url: "s2".to_string(), content: None },
                Section { url: "s3".to_string(), content: Some("\t正文二".to_string()) },
            ]),
        },
        Chapter { title: "第二章".to_string(), url: "u2".to_string(), sections: None },
    ];
    assert_eq!(
        local_txt_content(&fetched_book("玄幻"), &chapters),
        "书名：书名A\n作者：作者B\n简介：简介C\n\n\n第一章\n\n\t正文一\n\t正文二\n\n第二章\n\n"
    );
}

#[test]
fn local_txt_paths() {
    assert_eq!(local_txt_dir("book", &fetched_book("玄幻")), "book/玄幻");
    assert_eq!(local_txt_dir("book", &fetched_book("")), "book/其他分类");
    assert_eq!(local_txt_path("book", &fetched_book("")), "book/其他分类/书名A.txt");
    assert_eq!(existing_txt_path("book", &fetched_book("")), "book//书名A.txt");
}

#[test]
fn epub_entries_layout() {
    let entries = epub_entries(
        &book(),
        vec![chapter(1, "第一章"), chapter(2, "第二章")],
        vec![section(1, "甲"), section(2, "乙")],
        "2024-01-02T03:04:05Z",
    );
    assert_eq!(entries.len(), 7);
    assert_eq!(entries[0], ("mimetype".to_string(), "application/epub+zip".to_string(), true));
    assert_eq!(entries[1].0, "META-INF/container.xml");
    assert_eq!(entries[2].0, "OEBPS/content.opf");
    assert!(entries[2].1.contains("2024-01-02T03:04:05Z"));
    assert!(entries[2].1.contains("chapter_2.xhtml"));
    assert_eq!(entries[3].0, "OEBPS/toc.ncx");
    assert_eq!(entries[4].0, "OEBPS/nav.xhtml");
    assert_eq!(entries[5].0, "OEBPS/chapter_1.xhtml");
    assert!(entries[5].1.contains("第一章"));
    assert!(entries[6].1.contains("乙"));
    assert!(!entries[6].2);
}
