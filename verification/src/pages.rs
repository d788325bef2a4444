//! Reading the site's pages: the book detail page, the chapter list, the
//! section links of a chapter, and the text of a section under the four
//! ways the site serves it.

use vstd::prelude::*;
use vstd::string::*;
use crate::ext::{
    html_first_texts, html_inner_htmls, html_texts_of_first, regex_capture, regex_group,
    select_first_texts, select_inner_htmls, select_texts_of_first,
};
use crate::numfmt::{
    digits_spec, int_error_message, int_error_message_spec, parse_u32, parse_u8,
    parse_unsigned_spec, u64_to_dec,
};
use crate::ext::{
    from_utf8, from_utf8_lossy, gbk_decode, gbk_decoded, html_descendants, html_links,
    regex_is_match, regex_matches, select_descendants, select_links, str_bytes, utf8_lossy,
    HtmlNode, NodeView,
};
use crate::crypto::{aes_scheme_spec, decrpyt_aes_128_cbc, decrypt_section_data, decrypt_section_spec};
use crate::dict::FanpaDict;
use crate::parse::{char_to_unicode, char_to_unicode_spec, format_novel_content, format_novel_content_spec};
use crate::text::{byte_len, byte_len_is, chars_of, push_char, str_eq};
use vstd::utf8::{decode_utf8, encode_utf8, valid_utf8};
use crate::parse::{
    arr_dup_rem_linked, clean_filename, clean_filename_cuttable, clean_filename_spec, dedup_seq,
    lemma_chapter_obeys_view_eq, lemma_dedup_views_map, lemma_section_obeys_view_eq,
    split_second, split_second_spec, Book, Chapter, ChapterView, ParseError, Section, SectionView,
};
use crate::text::concat;

verus! {

/// Pagination text of the detail page: `(第<n>/<pages>页)当前<k>条/页`.
pub const PAGE_REGEX: &'static str = "\\(第(\\d+?)/(?P<page>\\d+?)页\\)当前\\d+?条/页";

/// A page number in a chapter's page links: `【<num>】`.
pub const SECTION_NUM_REGEX: &'static str = "【(?P<num>\\d+?)】";

/// A chapter URL: `<left>/<right>.html`.
pub const SECTION_PAGE_REGEX: &'static str = "^(?P<left>.+?)/(?P<right>\\d+?)\\.html";

/// A page whose text is fetched by a form POST.
pub const SECTION_DATA_REGEX2: &'static str = "\\$\\.post\\('',\\{'j':'1'\\},function\\(e\\)";

/// A page whose text is scrambled under an index list: `var ns='<ns>'`.
pub const SECTION_DATA_REGEX3: &'static str = "var ns='(?P<ns>.+?)'";

/// A page whose text is AES-encrypted: `var chapter = secret("<cipher>", "<code>", ...);`.
pub const SECTION_DATA_REGEX4: &'static str =
    "(?s)var chapter = secret\\(\\s*[\"'](?P<cipher>.+?)[\"'],\\s*[\"'](?P<code>.+?)[\"'],.+?\\);";

/// An obfuscated word drawn as an image: `/toimg/data/<url>`.
pub const IMG_PANFA_REGEX: &'static str = "/toimg/data/(?P<url>.+?.png)";

/// The abstract form of a book's metadata.
pub struct BookView {
    pub num: nat,
    pub id: nat,
    pub title: Seq<char>,
    pub filename: Seq<char>,
    pub page: u8,
    pub author: Seq<char>,
    pub category: Seq<char>,
    pub introduce: Seq<char>,
    pub likes: u32,
    pub count: u32,
}

impl View for Book {
    type V = BookView;

    open spec fn view(&self) -> BookView {
        BookView {
            num: self.num as nat,
            id: self.id as nat,
            title: self.title@,
            filename: self.filename@,
            page: self.page,
            author: self.author@,
            category: self.category@,
            introduce: self.introduce@,
            likes: self.likes,
            count: self.count,
        }
    }
}

/// The view of an optional string.
pub open spec fn opt_view(o: Option<String>) -> Option<Seq<char>> {
    match o {
        Some(s) => Some(s@),
        None => None,
    }
}

/// The views of a sequence of optional strings.
pub open spec fn opt_views(v: Seq<Option<String>>) -> Seq<Option<Seq<char>>> {
    v.map_values(|o: Option<String>| opt_view(o))
}

/// The view of an optional list of strings.
pub open spec fn opt_list_view(o: Option<Vec<String>>) -> Option<Seq<Seq<char>>> {
    match o {
        Some(v) => Some(v@.map_values(|x: String| x@)),
        None => None,
    }
}

/// A detail-page error about book `book_id`: `book:<id> <what>`.
pub open spec fn book_error(book_id: nat, what: Seq<char>) -> Seq<char> {
    "book:"@ + digits_spec(book_id, 10) + " "@ + what
}

fn book_msg(book_id: usize, what: &str) -> (res: ParseError)
    ensures
        res.message@ == book_error(book_id as nat, what@),
{
    let id = u64_to_dec(book_id as u64);
    let head = concat("book:", id.as_str());
    let head2 = concat(head.as_str(), " ");
    ParseError { message: concat(head2.as_str(), what) }
}

/// The four `.info` lines read in order: author, category, word count, likes.
/// Each must be present, hold the full-width colon `：`, and the counts must
/// be `u32` numbers.
pub open spec fn info_spec(book_id: nat, t: Seq<Seq<char>>) -> Result<(Seq<char>, Seq<char>, u32, u32), Seq<char>> {
    if t.len() < 1 {
        Err(book_error(book_id, "缺少作者信息"@))
    } else {
        match split_second_spec(t[0], "："@) {
            None => Err("解析错误"@),
            Some(author) => if t.len() < 2 {
                Err(book_error(book_id, "缺少分类信息"@))
            } else {
                match split_second_spec(t[1], "："@) {
                    None => Err("解析错误"@),
                    Some(category) => if t.len() < 3 {
                        Err(book_error(book_id, "缺少字数信息"@))
                    } else {
                        match split_second_spec(t[2], "："@) {
                            None => Err("解析错误"@),
                            Some(cs) => match parse_unsigned_spec(cs, u32::MAX as nat) {
                                Err(_) => Err(book_error(book_id, "字数解析失败"@)),
                                Ok(count) => if t.len() < 4 {
                                    Err(book_error(book_id, "缺少喜欢数信息"@))
                                } else {
                                    match split_second_spec(t[3], "："@) {
                                        None => Err("解析错误"@),
                                        Some(ls) => match parse_unsigned_spec(ls, u32::MAX as nat) {
                                            Err(_) => Err(book_error(book_id, "喜欢数解析失败"@)),
                                            Ok(likes) => Ok((author, category, count as u32, likes as u32)),
                                        },
                                    }
                                },
                            },
                        }
                    },
                }
            },
        }
    }
}

/// The title's cut to a file name does not split a character (or there is no
/// title to cut).
pub open spec fn title_cuttable(titles: Seq<Option<Seq<char>>>) -> bool {
    titles.len() > 0 && titles[0] is Some ==> clean_filename_cuttable(titles[0]->0)
}

/// The book read from the parts of its detail page: `page` is `None` without
/// a pagination element, `Some(None)` when its text does not match
/// `PAGE_REGEX`, else the `page` group; `titles` and `intros` are the first
/// texts of the `h1` and `.bd` elements; `info` the texts of the first `.info`
/// element. Errors come in this order: pagination, page number, title, info.
pub open spec fn book_parts_spec(
    book_id: nat,
    page: Option<Option<Seq<char>>>,
    titles: Seq<Option<Seq<char>>>,
    intros: Seq<Option<Seq<char>>>,
    info: Option<Seq<Seq<char>>>,
) -> Result<BookView, Seq<char>> {
    match page {
        None => Err(book_error(book_id, "未找到分页元素"@)),
        Some(None) => Err(book_error(book_id, "分页格式异常"@)),
        Some(Some(g)) => match parse_unsigned_spec(g, u8::MAX as nat) {
            Err(k) => Err(int_error_message_spec(k)),
            Ok(pg) => if titles.len() == 0 {
                Err(book_error(book_id, "未找到书名(h1)"@))
            } else if titles[0] is None {
                Err(book_error(book_id, "h1无文本"@))
            } else {
                let title = titles[0]->0;
                let introduce = if intros.len() > 0 && intros[0] is Some { intros[0]->0 } else { Seq::empty() };
                match info {
                    None => Err(book_error(book_id, "未找到.info元素"@)),
                    Some(t) => match info_spec(book_id, t) {
                        Err(e) => Err(e),
                        Ok((author, category, count, likes)) => Ok(BookView {
                            num: 0,
                            id: 0,
                            title,
                            filename: clean_filename_spec(title),
                            page: pg as u8,
                            author,
                            category,
                            introduce,
                            likes,
                            count,
                        }),
                    },
                }
            },
        },
    }
}

fn info_fields(book_id: usize, t: &Vec<String>) -> (res: Result<(String, String, u32, u32), ParseError>)
    ensures
        match res {
            Ok((a, c, n, l)) => info_spec(book_id as nat, t@.map_values(|x: String| x@)) == Ok::<
                (Seq<char>, Seq<char>, u32, u32),
                Seq<char>,
            >((a@, c@, n, l)),
            Err(e) => info_spec(book_id as nat, t@.map_values(|x: String| x@)) == Err::<
                (Seq<char>, Seq<char>, u32, u32),
                Seq<char>,
            >(e.message@),
        },
{
    let ghost tv = t@.map_values(|x: String| x@);
    if t.len() < 1 {
        return Err(book_msg(book_id, "缺少作者信息"));
    }
    assert(tv[0] == t@[0]@);
    let author = split_second(t[0].as_str(), "：")?;
    if t.len() < 2 {
        return Err(book_msg(book_id, "缺少分类信息"));
    }
    assert(tv[1] == t@[1]@);
    let category = split_second(t[1].as_str(), "：")?;
    if t.len() < 3 {
        return Err(book_msg(book_id, "缺少字数信息"));
    }
    assert(tv[2] == t@[2]@);
    let cs = split_second(t[2].as_str(), "：")?;
    let count = match parse_u32(cs.as_str()) {
        Ok(n) => n,
        Err(_) => return Err(book_msg(book_id, "字数解析失败")),
    };
    if t.len() < 4 {
        return Err(book_msg(book_id, "缺少喜欢数信息"));
    }
    assert(tv[3] == t@[3]@);
    let ls = split_second(t[3].as_str(), "：")?;
    let likes = match parse_u32(ls.as_str()) {
        Ok(n) => n,
        Err(_) => return Err(book_msg(book_id, "喜欢数解析失败")),
    };
    Ok((author, category, count, likes))
}

/// Builds the book from the parts of its detail page (see `book_parts_spec`).
/// `num` and `id` are left 0; `book_id` only names the book in errors.
pub fn book_from_parts(
    book_id: usize,
    page: Option<Option<String>>,
    titles: &Vec<Option<String>>,
    intros: &Vec<Option<String>>,
    info: &Option<Vec<String>>,
) -> (res: Result<Book, ParseError>)
    requires
        title_cuttable(opt_views(titles@)),
    ensures
        match res {
            Ok(b) => book_parts_spec(
                book_id as nat,
                match page { None => None, Some(p) => Some(opt_view(p)) },
                opt_views(titles@),
                opt_views(intros@),
                opt_list_view(*info),
            ) == Ok::<BookView, Seq<char>>(b@),
            Err(e) => book_parts_spec(
                book_id as nat,
                match page { None => None, Some(p) => Some(opt_view(p)) },
                opt_views(titles@),
                opt_views(intros@),
                opt_list_view(*info),
            ) == Err::<BookView, Seq<char>>(e.message@),
        },
{
    let group = match page {
        None => return Err(book_msg(book_id, "未找到分页元素")),
        Some(None) => return Err(book_msg(book_id, "分页格式异常")),
        Some(Some(g)) => g,
    };
    let pg = match parse_u8(group.as_str()) {
        Ok(p) => p,
        Err(k) => return Err(ParseError { message: int_error_message(k) }),
    };
    if titles.len() == 0 {
        return Err(book_msg(book_id, "未找到书名(h1)"));
    }
    assert(opt_views(titles@)[0] == opt_view(titles@[0]));
    let title = match &titles[0] {
        None => return Err(book_msg(book_id, "h1无文本")),
        Some(t) => t.clone(),
    };
    let mut introduce = String::new();
    if intros.len() > 0 {
        assert(opt_views(intros@)[0] == opt_view(intros@[0]));
        match &intros[0] {
            Some(t) => {
                introduce = t.clone();
            },
            None => {},
        }
    }
    let t = match info {
        None => return Err(book_msg(book_id, "未找到.info元素")),
        Some(t) => t,
    };
    let (author, category, count, likes) = info_fields(book_id, t)?;
    let filename = clean_filename(title.as_str());
    Ok(Book { num: 0, id: 0, title, filename, page: pg, author, category, introduce, likes, count })
}

/// The page count a detail page's pagination box `text` shows: the `page`
/// group of `PAGE_REGEX`, when it matches.
pub fn page_capture(text: &str) -> (res: Option<String>)
    ensures
        match res {
            Some(p) => regex_group(PAGE_REGEX@, text@, "page"@) == Some(p@),
            None => regex_group(PAGE_REGEX@, text@, "page"@) is None,
        },
{
    regex_capture(PAGE_REGEX, text, "page")
}

/// Whether the detail page `html` has a title whose file-name cut does not
/// split a character.
pub open spec fn page_title_cuttable(html: Seq<char>) -> bool {
    title_cuttable(html_first_texts(html, "h1"@))
}

/// The book described by the detail page `html`, from the pagination box
/// (`.pagelistbox .page`), the `h1` title, the `.bd` introduction and the
/// `.info` lines. `num` and `id` are left 0.
pub fn parse_book_info(book_id: usize, html: &str) -> (res: Result<Book, ParseError>)
    requires
        page_title_cuttable(html@),
    ensures
        match res {
            Ok(b) => book_parts_spec(
                book_id as nat,
                if html_inner_htmls(html@, ".pagelistbox .page"@).len() == 0 {
                    None
                } else {
                    Some(regex_group(PAGE_REGEX@, html_inner_htmls(html@, ".pagelistbox .page"@)[0], "page"@))
                },
                html_first_texts(html@, "h1"@),
                html_first_texts(html@, ".bd"@),
                html_texts_of_first(html@, ".info"@),
            ) == Ok::<BookView, Seq<char>>(b@),
            Err(e) => book_parts_spec(
                book_id as nat,
                if html_inner_htmls(html@, ".pagelistbox .page"@).len() == 0 {
                    None
                } else {
                    Some(regex_group(PAGE_REGEX@, html_inner_htmls(html@, ".pagelistbox .page"@)[0], "page"@))
                },
                html_first_texts(html@, "h1"@),
                html_first_texts(html@, ".bd"@),
                html_texts_of_first(html@, ".info"@),
            ) == Err::<BookView, Seq<char>>(e.message@),
        },
{
    let boxes = select_inner_htmls(html, ".pagelistbox .page");
    let page = if boxes.len() == 0 {
        None
    } else {
        assert(boxes@.map_values(|x: String| x@)[0] == boxes@[0]@);
        Some(regex_capture(PAGE_REGEX, boxes[0].as_str(), "page"))
    };
    let titles = select_first_texts(html, "h1");
    let intros = select_first_texts(html, ".bd");
    let info = select_texts_of_first(html, ".info");
    assert(opt_views(titles@) =~= html_first_texts(html@, "h1"@));
    assert(opt_views(intros@) =~= html_first_texts(html@, ".bd"@));
    book_from_parts(book_id, page, &titles, &intros, &info)
}

/// `parse_book_info` for any page: `None` when the title's file-name cut
/// would split a character, which `parse_book_info` does not accept.
pub fn parse_book_info_checked(book_id: usize, html: &str) -> (res: Option<Result<Book, ParseError>>)
    ensures
        res is None <==> !page_title_cuttable(html@),
        res matches Some(r) ==> (match r {
            Ok(b) => book_parts_spec(
                book_id as nat,
                if html_inner_htmls(html@, ".pagelistbox .page"@).len() == 0 {
                    None
                } else {
                    Some(regex_group(PAGE_REGEX@, html_inner_htmls(html@, ".pagelistbox .page"@)[0], "page"@))
                },
                html_first_texts(html@, "h1"@),
                html_first_texts(html@, ".bd"@),
                html_texts_of_first(html@, ".info"@),
            ) == Ok::<BookView, Seq<char>>(b@),
            Err(e) => book_parts_spec(
                book_id as nat,
                if html_inner_htmls(html@, ".pagelistbox .page"@).len() == 0 {
                    None
                } else {
                    Some(regex_group(PAGE_REGEX@, html_inner_htmls(html@, ".pagelistbox .page"@)[0], "page"@))
                },
                html_first_texts(html@, "h1"@),
                html_first_texts(html@, ".bd"@),
                html_texts_of_first(html@, ".info"@),
            ) == Err::<BookView, Seq<char>>(e.message@),
        }),
{
    let titles = select_first_texts(html, "h1");
    assert(opt_views(titles@) =~= html_first_texts(html@, "h1"@));
    if titles.len() > 0 {
        assert(opt_views(titles@)[0] == opt_view(titles@[0]));
        match &titles[0] {
            Some(t) => {
                if !crate::parse::clean_filename_is_cuttable(t.as_str()) {
                    return None;
                }
            },
            None => {},
        }
    }
    Some(parse_book_info(book_id, html))
}

} // verus!

verus! {

/// The views of (attribute, text) pairs.
pub open spec fn link_views(v: Seq<(Option<String>, Option<String>)>) -> Seq<(Option<Seq<char>>, Option<Seq<char>>)> {
    v.map_values(|x: (Option<String>, Option<String>)| (opt_view(x.0), opt_view(x.1)))
}

/// The views of a list of chapters.
pub open spec fn chapter_views(v: Seq<Chapter>) -> Seq<ChapterView> {
    v.map_values(|c: Chapter| c@)
}

/// The views of a list of sections.
pub open spec fn section_views(v: Seq<Section>) -> Seq<SectionView> {
    v.map_values(|c: Section| c@)
}

/// One chapter per link that has both an `href` and a text: titled by the
/// text, at `root` followed by the `href`.
pub open spec fn link_chapters(links: Seq<(Option<Seq<char>>, Option<Seq<char>>)>, root: Seq<char>) -> Seq<ChapterView>
    decreases links.len(),
{
    if links.len() == 0 {
        Seq::empty()
    } else {
        let r = link_chapters(links.drop_last(), root);
        match links.last() {
            (Some(href), Some(title)) => r.push((title, root + href, None)),
            _ => r,
        }
    }
}

/// The chapters of the links, later duplicates removed.
pub fn chapters_from_links(links: &Vec<(Option<String>, Option<String>)>, root_url: &str) -> (res: Vec<Chapter>)
    ensures
        chapter_views(res@) == dedup_seq(link_chapters(link_views(links@), root_url@)),
{
    let ghost lv = link_views(links@);
    let mut chapters: Vec<Chapter> = Vec::new();
    let mut i: usize = 0;
    while i < links.len()
        invariant
            i <= links.len(),
            lv == link_views(links@),
            chapter_views(chapters@) == link_chapters(lv.take(i as int), root_url@),
        decreases links.len() - i,
    {
        assert(lv.take(i + 1).drop_last() =~= lv.take(i as int));
        assert(lv.take(i + 1).last() == lv[i as int]);
        assert(lv[i as int] == (opt_view(links@[i as int].0), opt_view(links@[i as int].1)));
        match &links[i] {
            (Some(href), Some(title)) => {
                let url = concat(root_url, href.as_str());
                let ch = Chapter::new(url, title.clone());
                let ghost before = chapters@;
                chapters.push(ch);
                assert(chapter_views(chapters@) =~= chapter_views(before).push(ch@));
            },
            _ => {},
        }
        i = i + 1;
    }
    assert(lv.take(links.len() as int) =~= lv);
    let ghost all = chapters@;
    proof {
        lemma_chapter_obeys_view_eq();
        lemma_dedup_views_map(all);
    }
    arr_dup_rem_linked(chapters)
}

/// The chapter list: the links inside the second `.chapter-list` element
/// (`None` when there is none), made into chapters under `root`.
pub open spec fn chapter_list_spec(links: Option<Seq<(Option<Seq<char>>, Option<Seq<char>>)>>, root: Seq<char>) -> Seq<ChapterView> {
    match links {
        None => Seq::empty(),
        Some(l) => dedup_seq(link_chapters(l, root)),
    }
}

/// The chapters listed on a book's chapter page: each `.bd .list li a` link
/// of the second `.chapter-list` element, at `root_url` + `href`, titled by
/// its first text; later duplicates removed. Never fails.
pub fn parse_chapter_list(html: &str, root_url: &str) -> (res: Result<Vec<Chapter>, ParseError>)
    ensures
        res matches Ok(v) && chapter_views(v@) == chapter_list_spec(
            html_links(html@, ".chapter-list"@, 1, ".bd .list li a"@, "href"@),
            root_url@,
        ),
{
    match select_links(html, ".chapter-list", 1, ".bd .list li a", "href") {
        None => {
            let v: Vec<Chapter> = Vec::new();
            assert(chapter_views(v@) =~= Seq::<ChapterView>::empty());
            Ok(v)
        },
        Some(links) => {
            assert(link_views(links@) =~= links@.map_values(
                |x: (Option<String>, Option<String>)| (
                    match x.0 { Some(s) => Some(s@), None => None },
                    match x.1 { Some(s) => Some(s@), None => None },
                )));
            Ok(chapters_from_links(&links, root_url))
        },
    }
}

/// The page numbers found in the page links' texts (`【0】` standing for a
/// link without text): the `num` group of `SECTION_NUM_REGEX`, where it parses
/// as a `u8`.
pub open spec fn section_numbers(texts: Seq<Option<Seq<char>>>) -> Seq<u8>
    decreases texts.len(),
{
    if texts.len() == 0 {
        Seq::empty()
    } else {
        let r = section_numbers(texts.drop_last());
        let t = match texts.last() {
            Some(x) => x,
            None => "【0】"@,
        };
        match regex_group(SECTION_NUM_REGEX@, t, "num"@) {
            Some(n) => match parse_unsigned_spec(n, u8::MAX as nat) {
                Ok(v) => r.push(v as u8),
                Err(_) => r,
            },
            None => r,
        }
    }
}

/// The largest entry (0 for none).
pub open spec fn max_u8(s: Seq<u8>) -> u8
    decreases s.len(),
{
    if s.len() == 0 {
        0
    } else {
        let m = max_u8(s.drop_last());
        if s.last() > m { s.last() } else { m }
    }
}

/// The number of pages of a chapter: the largest page number in the links,
/// or, when there is none, one more than the number of links.
pub open spec fn page_count_spec(texts: Seq<Option<Seq<char>>>) -> nat {
    let nums = section_numbers(texts);
    if nums.len() > 0 { max_u8(nums) as nat } else { texts.len() + 1 }
}

/// The URL of page `i` of the chapter at `<left>/<right>.html`.
pub open spec fn section_url_spec(left: Seq<char>, right: Seq<char>, i: nat) -> Seq<char> {
    left + "/"@ + right + "_"@ + digits_spec(i, 10) + ".html"@
}

/// Pages `1..=n` of the chapter, not yet fetched.
pub open spec fn section_list_spec(left: Seq<char>, right: Seq<char>, n: nat) -> Seq<SectionView> {
    Seq::new(n, |k: int| (section_url_spec(left, right, (k + 1) as nat), None::<Seq<char>>))
}

/// The sections of the chapter at `url` whose page links have the texts
/// `texts`; an error when `url` does not match `SECTION_PAGE_REGEX`.
pub open spec fn section_urls_spec(url: Seq<char>, texts: Seq<Option<Seq<char>>>) -> Result<Seq<SectionView>, Seq<char>> {
    match (regex_group(SECTION_PAGE_REGEX@, url, "left"@), regex_group(SECTION_PAGE_REGEX@, url, "right"@)) {
        (Some(l), Some(r)) => Ok(dedup_seq(section_list_spec(l, r, page_count_spec(texts)))),
        _ => Err("章节URL格式异常: "@ + url),
    }
}

/// The sections of the chapter at `chapter_url`, given the first texts of its
/// page links (fewer than 255 of them, so the count fits a `u8`).
pub fn sections_from_links(chapter_url: &str, texts: &Vec<Option<String>>) -> (res: Result<Vec<Section>, ParseError>)
    requires
        texts@.len() < 255,
    ensures
        match res {
            Ok(v) => section_urls_spec(chapter_url@, opt_views(texts@)) == Ok::<Seq<SectionView>, Seq<char>>(section_views(v@)),
            Err(e) => section_urls_spec(chapter_url@, opt_views(texts@)) == Err::<Seq<SectionView>, Seq<char>>(e.message@),
        },
{
    let ghost tv = opt_views(texts@);
    let mut section_num: u8 = 1;
    let mut nums: Vec<u8> = Vec::new();
    let mut i: usize = 0;
    while i < texts.len()
        invariant
            i <= texts.len() < 255,
            tv == opt_views(texts@),
            section_num == i + 1,
            nums@ == section_numbers(tv.take(i as int)),
        decreases texts.len() - i,
    {
        section_num = section_num + 1;
        assert(tv.take(i + 1).drop_last() =~= tv.take(i as int));
        assert(tv.take(i + 1).last() == opt_view(texts@[i as int]));
        let t: String = match &texts[i] {
            Some(x) => x.clone(),
            None => "【0】".to_owned(),
        };
        match regex_capture(SECTION_NUM_REGEX, t.as_str(), "num") {
            Some(n) => {
                match parse_u8(n.as_str()) {
                    Ok(v) => {
                        nums.push(v);
                    },
                    Err(_) => {},
                }
            },
            None => {},
        }
        i = i + 1;
    }
    assert(tv.take(texts.len() as int) =~= tv);
    let mut max_num: u8 = section_num;
    if nums.len() > 0 {
        let mut m: u8 = 0;
        let mut k: usize = 0;
        while k < nums.len()
            invariant
                k <= nums.len(),
                m == max_u8(nums@.take(k as int)),
            decreases nums.len() - k,
        {
            assert(nums@.take(k + 1).drop_last() =~= nums@.take(k as int));
            if nums[k] > m {
                m = nums[k];
            }
            k = k + 1;
        }
        assert(nums@.take(nums.len() as int) =~= nums@);
        max_num = m;
    }
    let left = regex_capture(SECTION_PAGE_REGEX, chapter_url, "left");
    let right = regex_capture(SECTION_PAGE_REGEX, chapter_url, "right");
    let (l, r) = match (left, right) {
        (Some(l), Some(r)) => (l, r),
        _ => return Err(ParseError { message: concat("章节URL格式异常: ", chapter_url) }),
    };
    let mut sections: Vec<Section> = Vec::new();
    let mut j: u8 = 0;
    while j < max_num
        invariant
            j <= max_num,
            section_views(sections@) == section_list_spec(l@, r@, max_num as nat).take(j as int),
        decreases max_num - j,
    {
        let n = j + 1;
        let a = concat(l.as_str(), "/");
        let b = concat(a.as_str(), r.as_str());
        let c = concat(b.as_str(), "_");
        let d = crate::numfmt::u64_to_dec(n as u64);
        let e = concat(c.as_str(), d.as_str());
        let url = concat(e.as_str(), ".html");
        let sec = Section::new(url);
        let ghost before = sections@;
        sections.push(sec);
        assert(section_views(sections@) =~= section_views(before).push(sec@));
        assert(section_list_spec(l@, r@, max_num as nat).take(j + 1) =~= section_list_spec(l@, r@, max_num as nat).take(j as int).push(sec@));
        j = n;
    }
    assert(section_list_spec(l@, r@, max_num as nat).take(max_num as int) =~= section_list_spec(l@, r@, max_num as nat));
    let ghost all = sections@;
    proof {
        lemma_section_obeys_view_eq();
        lemma_dedup_views_map(all);
    }
    Ok(arr_dup_rem_linked(sections))
}

/// Whether the chapter page `html` has fewer than 255 page links.
pub open spec fn page_links_fit(html: Seq<char>) -> bool {
    html_first_texts(html, ".chapterPages a"@).len() < 255
}

/// The sections of the chapter at `chapter_url` from its page `html`: page
/// numbers from the `.chapterPages a` links (their largest `【n】`, else one
/// more than the number of links), URLs `<left>/<right>_<i>.html`.
pub fn parse_section_urls(chapter_url: &str, html: &str) -> (res: Result<Vec<Section>, ParseError>)
    requires
        page_links_fit(html@),
    ensures
        match res {
            Ok(v) => section_urls_spec(chapter_url@, html_first_texts(html@, ".chapterPages a"@))
                == Ok::<Seq<SectionView>, Seq<char>>(section_views(v@)),
            Err(e) => section_urls_spec(chapter_url@, html_first_texts(html@, ".chapterPages a"@))
                == Err::<Seq<SectionView>, Seq<char>>(e.message@),
        },
{
    let texts = select_first_texts(html, ".chapterPages a");
    assert(opt_views(texts@) =~= html_first_texts(html@, ".chapterPages a"@));
    sections_from_links(chapter_url, &texts)
}

/// `parse_section_urls` for any page: `None` when the page has 255 or more
/// page links, which `parse_section_urls` does not accept.
pub fn parse_section_urls_checked(chapter_url: &str, html: &str) -> (res: Option<Result<Vec<Section>, ParseError>>)
    ensures
        res is None <==> !page_links_fit(html@),
        res matches Some(r) ==> (match r {
            Ok(v) => section_urls_spec(chapter_url@, html_first_texts(html@, ".chapterPages a"@))
                == Ok::<Seq<SectionView>, Seq<char>>(section_views(v@)),
            Err(e) => section_urls_spec(chapter_url@, html_first_texts(html@, ".chapterPages a"@))
                == Err::<Seq<SectionView>, Seq<char>>(e.message@),
        }),
{
    let texts = select_first_texts(html, ".chapterPages a");
    assert(opt_views(texts@) =~= html_first_texts(html@, ".chapterPages a"@));
    if texts.len() >= 255 {
        return None;
    }
    Some(parse_section_urls(chapter_url, html))
}

} // verus!

verus! {

/// The text one node of a section's paragraph contributes: a three-byte text
/// node whose character has a font-dictionary entry is replaced by it, other
/// text is kept; `<br>` is a newline; an `<img>` whose `src` names a known
/// image contributes that image's word; anything else nothing.
pub open spec fn node_text(n: NodeView, font: Map<Seq<char>, Seq<char>>, img: Map<Seq<char>, Seq<char>>) -> Seq<char> {
    match n {
        NodeView::Text(w) => if byte_len(w) == 3 && font.contains_key(char_to_unicode_spec(w[0])) {
            font[char_to_unicode_spec(w[0])]
        } else {
            w
        },
        NodeView::Element(name, src) => if name == "br"@ {
            seq!['\n']
        } else if name == "img"@ && src is Some {
            match regex_group(IMG_PANFA_REGEX@, src->0, "url"@) {
                Some(u) => if img.contains_key(u) { img[u] } else { Seq::empty() },
                None => Seq::empty(),
            }
        } else {
            Seq::empty()
        },
        NodeView::Other => Seq::empty(),
    }
}

/// The texts of the nodes, concatenated in order.
pub open spec fn nodes_text(nodes: Seq<NodeView>, font: Map<Seq<char>, Seq<char>>, img: Map<Seq<char>, Seq<char>>) -> Seq<char>
    decreases nodes.len(),
{
    if nodes.len() == 0 {
        Seq::empty()
    } else {
        nodes_text(nodes.drop_last(), font, img) + node_text(nodes.last(), font, img)
    }
}

fn node_contribution(n: &HtmlNode, font: &FanpaDict, img: &FanpaDict) -> (res: String)
    ensures
        res@ == node_text(n@, font@, img@),
{
    match n {
        HtmlNode::Text(w) => {
            let cs = chars_of(w.as_str());
            if byte_len_is(cs.as_slice(), 3) {
                proof {
                    if cs@.len() == 0 {
                        assert(vstd::utf8::encode_utf8(cs@) =~= Seq::<u8>::empty());
                    }
                }
                let key = char_to_unicode(cs[0]);
                match font.get(key.as_str()) {
                    Some(v) => v,
                    None => w.clone(),
                }
            } else {
                w.clone()
            }
        },
        HtmlNode::Element(name, src) => {
            if str_eq(name.as_str(), "br") {
                let mut s = String::new();
                push_char(&mut s, '\n');
                assert(s@ =~= seq!['\n']);
                s
            } else if str_eq(name.as_str(), "img") {
                match src {
                    Some(u) => match regex_capture(IMG_PANFA_REGEX, u.as_str(), "url") {
                        Some(key) => match img.get(key.as_str()) {
                            Some(v) => v,
                            None => String::new(),
                        },
                        None => String::new(),
                    },
                    None => String::new(),
                }
            } else {
                String::new()
            }
        },
        HtmlNode::Other => String::new(),
    }
}

/// The text of a section's paragraph from its nodes (the paragraph element
/// first, then its descendants in document order), with the font and image
/// substitutions applied.
pub fn content_from_nodes(nodes: &Vec<HtmlNode>, font: &FanpaDict, img: &FanpaDict) -> (res: String)
    ensures
        res@ == nodes_text(nodes@.map_values(|x: HtmlNode| x@), font@, img@),
{
    let ghost nv = nodes@.map_values(|x: HtmlNode| x@);
    let mut content = String::new();
    let mut i: usize = 0;
    while i < nodes.len()
        invariant
            i <= nodes.len(),
            nv == nodes@.map_values(|x: HtmlNode| x@),
            content@ == nodes_text(nv.take(i as int), font@, img@),
        decreases nodes.len() - i,
    {
        assert(nv.take(i + 1).drop_last() =~= nv.take(i as int));
        assert(nv.take(i + 1).last() == nodes@[i as int]@);
        let piece = node_contribution(&nodes[i], font, img);
        content.append(piece.as_str());
        i = i + 1;
    }
    assert(nv.take(nodes.len() as int) =~= nv);
    content
}

proof fn lemma_nodes_text_append(a: Seq<NodeView>, b: Seq<NodeView>, font: Map<Seq<char>, Seq<char>>, img: Map<Seq<char>, Seq<char>>)
    ensures
        nodes_text(a + b, font, img) == nodes_text(a, font, img) + nodes_text(b, font, img),
    decreases b.len(),
{
    if b.len() == 0 {
        assert(a + b =~= a);
    } else {
        lemma_nodes_text_append(a, b.drop_last(), font, img);
        assert((a + b).drop_last() =~= a + b.drop_last());
        assert((a + b).last() == b.last());
    }
}

proof fn lemma_nodes_text_around(pre: Seq<NodeView>, n: NodeView, post: Seq<NodeView>, font: Map<Seq<char>, Seq<char>>, img: Map<Seq<char>, Seq<char>>)
    ensures
        nodes_text(pre + seq![n] + post, font, img)
            == nodes_text(pre, font, img) + node_text(n, font, img) + nodes_text(post, font, img),
{
    let one = seq![n];
    lemma_nodes_text_append(pre + one, post, font, img);
    lemma_nodes_text_append(pre, one, font, img);
    assert(one.drop_last() =~= Seq::<NodeView>::empty());
    assert(one.last() == n);
    assert(nodes_text(Seq::<NodeView>::empty(), font, img) == Seq::<char>::empty());
    assert(nodes_text(one, font, img) =~= node_text(n, font, img));
}

/// Font substitution: in a section's paragraph, a text node of three UTF-8
/// bytes whose first character `c` has an entry under `char_to_unicode(c)`
/// in the font dictionary contributes that entry in its place, and the nodes
/// around it contribute what they contribute on their own.
pub proof fn law_font_substitution(
    pre: Seq<NodeView>,
    w: Seq<char>,
    post: Seq<NodeView>,
    font: Map<Seq<char>, Seq<char>>,
    img: Map<Seq<char>, Seq<char>>,
)
    requires
        byte_len(w) == 3,
        font.contains_key(char_to_unicode_spec(w[0])),
    ensures
        nodes_text(pre + seq![NodeView::Text(w)] + post, font, img)
            == nodes_text(pre, font, img) + font[char_to_unicode_spec(w[0])] + nodes_text(post, font, img),
{
    lemma_nodes_text_around(pre, NodeView::Text(w), post, font, img);
}

/// Text kept as it is: a text node that is not three bytes long, or whose
/// first character has no font-dictionary entry, contributes its own text.
pub proof fn law_unknown_text_kept(
    pre: Seq<NodeView>,
    w: Seq<char>,
    post: Seq<NodeView>,
    font: Map<Seq<char>, Seq<char>>,
    img: Map<Seq<char>, Seq<char>>,
)
    requires
        !(byte_len(w) == 3 && font.contains_key(char_to_unicode_spec(w[0]))),
    ensures
        nodes_text(pre + seq![NodeView::Text(w)] + post, font, img)
            == nodes_text(pre, font, img) + w + nodes_text(post, font, img),
{
    lemma_nodes_text_around(pre, NodeView::Text(w), post, font, img);
}

/// Line breaks: a `<br>` element of the paragraph contributes one newline.
pub proof fn law_br_is_newline(
    pre: Seq<NodeView>,
    src: Option<Seq<char>>,
    post: Seq<NodeView>,
    font: Map<Seq<char>, Seq<char>>,
    img: Map<Seq<char>, Seq<char>>,
)
    ensures
        nodes_text(pre + seq![NodeView::Element("br"@, src)] + post, font, img)
            == nodes_text(pre, font, img) + seq!['\n'] + nodes_text(post, font, img),
{
    lemma_nodes_text_around(pre, NodeView::Element("br"@, src), post, font, img);
}

/// Image substitution: an `<img>` of the paragraph whose `src` yields, under
/// the image pattern, a name with an entry in the image dictionary
/// contributes that entry; an `<img>` without `src`, or whose name is not
/// found or has no entry, contributes nothing.
pub proof fn law_image_substitution(
    pre: Seq<NodeView>,
    src: Option<Seq<char>>,
    post: Seq<NodeView>,
    font: Map<Seq<char>, Seq<char>>,
    img: Map<Seq<char>, Seq<char>>,
)
    ensures
        ({
            let found = match src {
                Some(u) => match regex_group(IMG_PANFA_REGEX@, u, "url"@) {
                    Some(k) => if img.contains_key(k) { img[k] } else { Seq::empty() },
                    None => Seq::empty(),
                },
                None => Seq::empty(),
            };
            nodes_text(pre + seq![NodeView::Element("img"@, src)] + post, font, img)
                == nodes_text(pre, font, img) + found + nodes_text(post, font, img)
        }),
{
    lemma_nodes_text_around(pre, NodeView::Element("img"@, src), post, font, img);
    reveal_strlit("img");
    reveal_strlit("br");
    assert("img"@ != "br"@) by {
        assert("img"@[0] != "br"@[0]);
    }
}

/// Nodes that are neither text, `<br>` nor `<img>` (comments, other
/// elements) contribute nothing.
pub proof fn law_other_nodes_add_nothing(
    pre: Seq<NodeView>,
    name: Seq<char>,
    src: Option<Seq<char>>,
    post: Seq<NodeView>,
    font: Map<Seq<char>, Seq<char>>,
    img: Map<Seq<char>, Seq<char>>,
)
    requires
        name != "br"@,
        name != "img"@,
    ensures
        nodes_text(pre + seq![NodeView::Element(name, src)] + post, font, img)
            == nodes_text(pre, font, img) + nodes_text(post, font, img),
        nodes_text(pre + seq![NodeView::Other] + post, font, img)
            == nodes_text(pre, font, img) + nodes_text(post, font, img),
{
    lemma_nodes_text_around(pre, NodeView::Element(name, src), post, font, img);
    lemma_nodes_text_around(pre, NodeView::Other, post, font, img);
    assert(nodes_text(pre, font, img) + Seq::<char>::empty() =~= nodes_text(pre, font, img));
}

/// The recovered text of a page whose paragraph (with its descendants) holds
/// one obfuscated character `c` with a font-dictionary entry `v` between
/// other nodes: the text of the nodes before, then `v`, then the text of the
/// nodes after, with line breaks normalised.
pub proof fn law_section_text_uses_font_entry(
    html: Seq<char>,
    pre: Seq<NodeView>,
    w: Seq<char>,
    post: Seq<NodeView>,
    font: Map<Seq<char>, Seq<char>>,
    img: Map<Seq<char>, Seq<char>>,
)
    requires
        html_descendants(html, ".page-content p"@) == Some(pre + seq![NodeView::Text(w)] + post),
        byte_len(w) == 3,
        font.contains_key(char_to_unicode_spec(w[0])),
    ensures
        format_content_spec(Some(html), font, img) == Ok::<Seq<char>, Seq<char>>(format_novel_content_spec(
            nodes_text(pre, font, img) + font[char_to_unicode_spec(w[0])] + nodes_text(post, font, img),
        )),
{
    law_font_substitution(pre, w, post, font, img);
}

/// The page text chosen: `html_str` if given, else `html_text`.
pub open spec fn chosen_page(html_str: Option<Seq<char>>, html_text: Option<Seq<char>>) -> Option<Seq<char>> {
    match html_str {
        Some(s) => Some(s),
        None => html_text,
    }
}

/// The section text of a page: the nodes of its first `.page-content p`
/// element, substituted and joined, with line breaks normalised.
pub open spec fn format_content_spec(
    page: Option<Seq<char>>,
    font: Map<Seq<char>, Seq<char>>,
    img: Map<Seq<char>, Seq<char>>,
) -> Result<Seq<char>, Seq<char>> {
    match page {
        None => Err("参数错误"@),
        Some(h) => match html_descendants(h, ".page-content p"@) {
            None => Err("没有page-content节点"@),
            Some(nodes) => Ok(format_novel_content_spec(nodes_text(nodes, font, img))),
        },
    }
}

/// The text of a section page with the font and image obfuscation undone.
/// Either form of the page may be given (`html_str` is used first); with
/// neither the error is `参数错误`, and without a `.page-content p` element it
/// is `没有page-content节点`.
pub fn format_content_html(
    html_str: Option<&str>,
    html_text: Option<&str>,
    font_dict: &FanpaDict,
    img_dict: &FanpaDict,
) -> (res: Result<String, ParseError>)
    ensures
        match res {
            Ok(s) => format_content_spec(
                chosen_page(opt_str_view(html_str), opt_str_view(html_text)),
                font_dict@,
                img_dict@,
            ) == Ok::<Seq<char>, Seq<char>>(s@),
            Err(e) => format_content_spec(
                chosen_page(opt_str_view(html_str), opt_str_view(html_text)),
                font_dict@,
                img_dict@,
            ) == Err::<Seq<char>, Seq<char>>(e.message@),
        },
{
    let page: &str = match html_str {
        Some(s) => s,
        None => match html_text {
            Some(s) => s,
            None => return Err(ParseError { message: "参数错误".to_owned() }),
        },
    };
    let nodes = match select_descendants(page, ".page-content p") {
        Some(n) => n,
        None => return Err(ParseError { message: "没有page-content节点".to_owned() }),
    };
    let content = content_from_nodes(&nodes, font_dict, img_dict);
    Ok(format_novel_content(content.as_str()))
}

/// The view of an optional string slice.
pub open spec fn opt_str_view(o: Option<&str>) -> Option<Seq<char>> {
    match o {
        Some(s) => Some(s@),
        None => None,
    }
}

/// Strategy 1: the section text is in the page itself, under font and image
/// obfuscation.
pub fn try_section_data1(html_str: &str, font_dict: &FanpaDict, img_dict: &FanpaDict) -> (res: Result<String, ParseError>)
    ensures
        match res {
            Ok(s) => format_content_spec(Some(html_str@), font_dict@, img_dict@) == Ok::<Seq<char>, Seq<char>>(s@),
            Err(e) => format_content_spec(Some(html_str@), font_dict@, img_dict@) == Err::<Seq<char>, Seq<char>>(e.message@),
        },
{
    format_content_html(None, Some(html_str), font_dict, img_dict)
}

/// Strategy 2 signal: the page loads its text with a form POST.
pub fn needs_section_post(html_str: &str) -> (res: bool)
    ensures
        res == regex_matches(SECTION_DATA_REGEX2@, html_str@),
{
    regex_is_match(SECTION_DATA_REGEX2, html_str)
}

/// Strategy 3: the text scrambled under the index list `ns` of the page; the
/// empty text when the page has no `ns` or it cannot be used.
pub open spec fn section3_spec(html: Seq<char>) -> Seq<char> {
    match regex_group(SECTION_DATA_REGEX3@, html, "ns"@) {
        Some(ns) => match decrypt_section_spec(html, ns) {
            Some(c) => c,
            None => Seq::empty(),
        },
        None => Seq::empty(),
    }
}

/// Strategy 3: recovers a section scrambled with `var ns='...'`. Never fails;
/// gives the empty text when the page has no usable index list.
pub fn try_section_data3(html_str: &str) -> (res: Result<String, ParseError>)
    ensures
        res matches Ok(s) && s@ == section3_spec(html_str@),
{
    match regex_capture(SECTION_DATA_REGEX3, html_str, "ns") {
        Some(ns) => match decrypt_section_data(html_str, ns.as_str()) {
            Some(c) => Ok(c),
            None => Ok(String::new()),
        },
        None => Ok(String::new()),
    }
}

/// Decrypted bytes as text: UTF-8 when valid, else GBK (with replacement),
/// else lossy UTF-8.
pub open spec fn bytes_text_spec(b: Seq<u8>) -> Seq<char> {
    if valid_utf8(b) {
        decode_utf8(b)
    } else {
        match gbk_decoded(b) {
            Some(s) => s,
            None => utf8_lossy(b),
        }
    }
}

/// Strategy 4: the text of a page holding `var chapter = secret(cipher, code,
/// ...)`, decrypted with the site's AES scheme; the empty text when the page
/// has no such call.
pub open spec fn section4_spec(html: Seq<char>) -> Result<Seq<char>, Seq<char>> {
    match (regex_group(SECTION_DATA_REGEX4@, html, "cipher"@), regex_group(SECTION_DATA_REGEX4@, html, "code"@)) {
        (Some(c), Some(k)) => match aes_scheme_spec(encode_utf8(c), encode_utf8(k)) {
            Ok(b) => Ok(bytes_text_spec(b)),
            Err(m) => Err("Decoding error: "@ + m),
        },
        _ => Ok(Seq::empty()),
    }
}

/// Strategy 4: decrypts an AES-encrypted section.
pub fn try_section_data4(html_str: &str) -> (res: Result<String, ParseError>)
    ensures
        match res {
            Ok(s) => section4_spec(html_str@) == Ok::<Seq<char>, Seq<char>>(s@),
            Err(e) => section4_spec(html_str@) == Err::<Seq<char>, Seq<char>>(e.message@),
        },
{
    let cipher = regex_capture(SECTION_DATA_REGEX4, html_str, "cipher");
    let code = regex_capture(SECTION_DATA_REGEX4, html_str, "code");
    match (cipher, code) {
        (Some(c), Some(k)) => {
            let cb = str_bytes(c.as_str());
            let kb = str_bytes(k.as_str());
            match decrpyt_aes_128_cbc(cb.as_slice(), kb.as_slice()) {
                Ok(bytes) => {
                    let copy = bytes.clone();
                    assert(copy@ == bytes@);
                    match from_utf8(copy) {
                        Some(s) => Ok(s),
                        None => match gbk_decode(bytes.as_slice()) {
                            Some(s) => Ok(s),
                            None => Ok(from_utf8_lossy(bytes.as_slice())),
                        },
                    }
                },
                Err(e) => {
                    let m = e.message();
                    Err(ParseError { message: m })
                },
            }
        },
        _ => Ok(String::new()),
    }
}

} // verus!
