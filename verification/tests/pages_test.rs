use base64::Engine;
use cipher::{BlockEncryptMut, KeyIvInit};
use banzhu_spider::dict::{init_font_fanpa_dict, init_img_fanpa_dict, FanpaDict};
use banzhu_spider::crawl::{post_content, section_content, SectionContent};
use banzhu_spider::pages::{
    format_content_html, needs_section_post, parse_chapter_list, parse_section_urls,
    parse_section_urls_checked, try_section_data1, try_section_data3, try_section_data4,
};

const CHAPTER_PAGE: &str = r#"<html><body>
<div class="chapter-list"><div class="bd"><ul class="list"><li><a href="/x/0.html">latest</a></li></ul></div></div>
<div class="chapter-list"><div class="bd"><ul class="list">
<li><a href="/12/12345_1/23456.html">第1章 开始</a></li>
<li><a href="/12/12345_1/23457.html">第2章 继续</a></li>
<li><a href="/12/12345_1/23456.html">第1章 开始</a></li>
<li><a href="/12/12345_1/23458.html">第3章 结束</a></li>
</ul></div></div>
<div class="chapterPages"><a>【1】</a><a>【2】</a><a>【3】</a></div>
</body></html>"#;

#[test]
fn chapter_list_second_block_deduplicated() {
    let chapters = parse_chapter_list(CHAPTER_PAGE, "https://www.bz555555555.com").unwrap();
    assert_eq!(chapters.len(), 3);
    assert_eq!(chapters[0].title, "第1章 开始");
    assert_eq!(chapters[0].url, "https://www.bz555555555.com/12/12345_1/23456.html");
    assert!(parse_chapter_list("<p></p>", "r").unwrap().is_empty());
}

#[test]
fn section_urls_from_page_numbers() {
    let url = "https://www.bz555555555.com/12/12345_1/23456.html";
    let sections = parse_section_urls(url, CHAPTER_PAGE).unwrap();
    assert_eq!(sections.len(), 3);
    assert_eq!(sections[0].url, "https://www.bz555555555.com/12/12345_1/23456_1.html");
    assert_eq!(sections[2].url, "https://www.bz555555555.com/12/12345_1/23456_3.html");
    assert!(sections[0].content.is_none());
}

#[test]
fn section_urls_without_numbers_count_links() {
    let html = r#"<div class="chapterPages"><a>next</a><a>prev</a></div>"#;
    let sections = parse_section_urls("https://h/1/2.html", html).unwrap();
    assert_eq!(sections.len(), 3);
    assert_eq!(sections[2].url, "https://h/1/2_3.html");
    assert_eq!(
        parse_section_urls("no-html-suffix", html).unwrap_err().message(),
        "章节URL格式异常: no-html-suffix"
    );
    assert!(parse_section_urls_checked("https://h/1/2.html", html).is_some());
}

fn dicts() -> (FanpaDict, FanpaDict) {
    let font = init_font_fanpa_dict("\\u4e66\t书\n\\u6e2c \t测\n");
    let img = init_img_fanpa_dict("好 abc.png\n");
    (font, img)
}

#[test]
fn content_strategy_one_substitutes() {
    let (font, img) = dicts();
    let html = r#"<div class="page-content"><p>书<br>x<img src="/toimg/data/abc.png">y</p></div>"#;
    assert_eq!(try_section_data1(html, &font, &img).unwrap(), "书\n\nx好y");
    assert_eq!(
        format_content_html(None, None, &font, &img).unwrap_err().message(),
        "参数错误"
    );
    assert_eq!(
        format_content_html(Some("<p>no content</p>"), None, &font, &img).unwrap_err().message(),
        "没有page-content节点"
    );
}

#[test]
fn strategy_signals() {
    assert!(needs_section_post("x $.post('',{'j':'1'},function(e) y"));
    assert!(!needs_section_post("plain"));
    assert_eq!(try_section_data3("no ns here").unwrap(), "");
    assert_eq!(try_section_data4("no secret here").unwrap(), "");
}

#[test]
fn dictionaries_trim_their_entries() {
    let (font, img) = dicts();
    assert_eq!(font.get("\\u4e66"), Some("书".to_string()));
    assert_eq!(font.get("\\u6e2c"), Some("测".to_string()));
    assert_eq!(img.get("abc.png"), Some("好".to_string()));
    assert_eq!(img.get("missing"), None);
}

fn site_cipher(plain: &[u8], code: &str) -> String {
    let hex = format!("{:x}", md5::compute(code.as_bytes()));
    let iv = &hex.as_bytes()[..16];
    let key = &hex.as_bytes()[16..];
    let ct = cbc::Encryptor::<aes::Aes128>::new_from_slices(key, iv)
        .unwrap()
        .encrypt_padded_vec_mut::<cipher::block_padding::Pkcs7>(plain);
    base64::engine::general_purpose::STANDARD.encode(ct)
}

#[test]
fn strategy_four_decrypts_utf8_and_gbk() {
    let utf8 = format!("<script>var chapter = secret(\"{}\", \"c0de\", 1);</script>", site_cipher("正文内容".as_bytes(), "c0de"));
    assert_eq!(try_section_data4(&utf8).unwrap(), "正文内容");
    // "中文" in GBK: D6 D0 CE C4
    let gbk = format!("var chapter = secret('{}', 'c0de', 1);", site_cipher(&[0xD6, 0xD0, 0xCE, 0xC4], "c0de"));
    assert_eq!(try_section_data4(&gbk).unwrap(), "中文");
}

#[test]
fn section_content_strategies() {
    let (font, img) = dicts();
    let page = r#"<div class="page-content"><p>x<br>y</p></div>"#;
    match section_content(page, &font, &img) {
        SectionContent::Text(t) => assert_eq!(t, "x\n\ny"),
        SectionContent::Post => panic!("no post expected"),
    }
    assert!(matches!(section_content("a $.post('',{'j':'1'},function(e) b", &font, &img), SectionContent::Post));
    match section_content("<p>nothing</p>", &font, &img) {
        SectionContent::Text(t) => assert_eq!(t, ""),
        SectionContent::Post => panic!("no post expected"),
    }
    assert_eq!(post_content(r#"<div class="page-content"><p>书<img src="/toimg/data/abc.png"></p></div>"#, &font, &img), "书好");
    assert_eq!(post_content("<p>none</p>", &font, &img), "");
}
