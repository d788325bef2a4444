//! What the crawl does on each kind of page: the items it emits and the
//! pages it goes on to, given what was read from the page.

use vstd::prelude::*;
use vstd::string::*;
use crate::dict::FanpaDict;
use crate::numfmt::{
    digits_spec, int_error_message, int_error_message_spec, parse_unsigned, parse_unsigned_spec, u64_to_dec,
    IntErrorKind,
};
use crate::pages::{format_content_spec, needs_section_post, section3_spec, try_section_data1, try_section_data3, SECTION_DATA_REGEX2};
use crate::ext::{regex_capture, regex_group, regex_matches};
use crate::parse::{Book, Chapter, Section};
use crate::pipeline::{FieldValue, FieldView, Item, ItemView};
use crate::text::{concat, occurs_at, trim_spec, trim_str};

verus! {

/// The view of an integer field written from an unsigned number: an integer
/// when it fits `i64`, else something `as_i64` does not read.
pub open spec fn u64_field(n: u64) -> FieldView {
    if n <= i64::MAX { FieldView::Int(n as int) } else { FieldView::Other }
}

fn field_u64(name: &str, n: u64) -> (res: (String, FieldValue))
    ensures
        res.0@ == name@,
        res.1@ == u64_field(n),
{
    let v = if n <= i64::MAX as u64 { FieldValue::Int(n as i64) } else { FieldValue::Other };
    (name.to_owned(), v)
}

fn field_i64(name: &str, n: i64) -> (res: (String, FieldValue))
    ensures
        res.0@ == name@,
        res.1@ == FieldView::Int(n as int),
{
    (name.to_owned(), FieldValue::Int(n))
}

fn field_str(name: &str, s: &str) -> (res: (String, FieldValue))
    ensures
        res.0@ == name@,
        res.1@ == FieldView::Str(s@),
{
    (name.to_owned(), FieldValue::Str(s.to_owned()))
}

/// The first chapter-list page to fetch for a book with `page` list pages of
/// which `existing` chapters (ten per page) are already stored: the page
/// holding the next chapter, at most the last page; page 1 for a new book.
pub open spec fn start_page_spec(existing: i64, page: u8) -> u8 {
    if existing > 0 {
        let from_count = (existing / 10) as u8;
        let last = if page >= 1 { (page - 1) as u8 } else { 0u8 };
        let m = if from_count < last { from_count } else { last };
        if m < 255 { (m + 1) as u8 } else { 255u8 }
    } else {
        1
    }
}

/// An incremental crawl never starts past a book's last chapter-list page
/// (page 1 for a book without pages) nor before page 1; and, while the
/// stored chapters number fewer than 2560 (so that their tens fit the page
/// type), it starts no earlier when more chapters are stored.
pub proof fn law_start_page_within_book(existing: i64, more: i64, page: u8)
    requires
        existing <= more,
    ensures
        1 <= start_page_spec(existing, page) <= (if page >= 1 { page } else { 1 }),
        more < 2560 ==> start_page_spec(existing, page) <= start_page_spec(more, page),
{
    if existing > 0 && more < 2560 {
        assert(existing / 10 <= more / 10) by (nonlinear_arith)
            requires existing <= more, existing > 0;
        assert(more / 10 < 256);
    }
}

/// The first chapter-list page to fetch (see `start_page_spec`).
pub fn start_page(existing_chapters: i64, page: u8) -> (res: u8)
    ensures
        res == start_page_spec(existing_chapters, page),
{
    if existing_chapters > 0 {
        let from_count = (existing_chapters / 10) as u8;
        from_count.min(page.saturating_sub(1)).saturating_add(1)
    } else {
        1
    }
}

/// A chapter-list page to fetch, with the book it belongs to.
#[derive(Debug, Clone)]
pub struct ChapterPageFollow {
    pub url: String,
    pub book_id: usize,
    pub book_num: usize,
    pub title: String,
    pub author: String,
}

/// The URL of chapter-list page `pg` of book `<num>/<id>`.
pub open spec fn chapter_page_url(root: Seq<char>, num: nat, id: nat, pg: nat) -> Seq<char> {
    root + "/"@ + digits_spec(num, 10) + "/"@ + digits_spec(id, 10) + "_"@ + digits_spec(pg, 10) + "/"@
}

/// The item a book's detail page emits.
pub open spec fn book_item_spec(book: Book, book_id: usize, book_num: usize) -> ItemView {
    seq![
        ("type"@, FieldView::Str("book"@)),
        ("website_book_id"@, u64_field(book_id as u64)),
        ("path_num"@, FieldView::Int(book_num as i64 as int)),
        ("title"@, FieldView::Str(book.title@)),
        ("filename"@, FieldView::Str(book.filename@)),
        ("author"@, FieldView::Str(book.author@)),
        ("category"@, FieldView::Str(book.category@)),
        ("introduce"@, FieldView::Str(book.introduce@)),
        ("likes"@, FieldView::Int(book.likes as int)),
        ("word_count"@, FieldView::Int(book.count as int)),
        ("page_count"@, FieldView::Int(book.page as int)),
    ]
}

/// What a book's detail page leads to, once read into `book`: the
/// chapter-list pages `start..=book.page` (`start` from the chapters already
/// stored) and the book item. The page's `book_id`/`book_num` replace the
/// book's.
pub fn book_detail_actions(
    root_url: &str,
    book: &Book,
    book_id: usize,
    book_num: usize,
    existing_chapters: i64,
) -> (res: (Vec<ChapterPageFollow>, Item))
    ensures
        res.1@ == book_item_spec(*book, book_id, book_num),
        res.0@.len() == (if start_page_spec(existing_chapters, book.page) <= book.page {
            book.page - start_page_spec(existing_chapters, book.page) + 1
        } else {
            0
        }),
        forall|k: int| 0 <= k < res.0@.len() ==> {
            &&& #[trigger] res.0@[k].url@ == chapter_page_url(
                root_url@,
                book_num as nat,
                book_id as nat,
                (start_page_spec(existing_chapters, book.page) + k) as nat,
            )
            &&& res.0@[k].book_id == book_id
            &&& res.0@[k].book_num == book_num
            &&& res.0@[k].title@ == book.title@
            &&& res.0@[k].author@ == book.author@
        },
{
    let start = start_page(existing_chapters, book.page);
    let mut follows: Vec<ChapterPageFollow> = Vec::new();
    let mut pg: u16 = start as u16;
    let num_s = u64_to_dec(book_num as u64);
    let id_s = u64_to_dec(book_id as u64);
    while pg <= book.page as u16
        invariant
            start <= pg <= 256,
            pg <= book.page + 1 || pg == start,
            num_s@ == digits_spec(book_num as nat, 10),
            id_s@ == digits_spec(book_id as nat, 10),
            follows@.len() == pg - start,
            forall|k: int| 0 <= k < follows@.len() ==> {
                &&& #[trigger] follows@[k].url@ == chapter_page_url(root_url@, book_num as nat, book_id as nat, (start + k) as nat)
                &&& follows@[k].book_id == book_id
                &&& follows@[k].book_num == book_num
                &&& follows@[k].title@ == book.title@
                &&& follows@[k].author@ == book.author@
            },
        decreases 256 - pg,
    {
        let mut url = concat(root_url, "/");
        url.append(num_s.as_str());
        url.append("/");
        url.append(id_s.as_str());
        url.append("_");
        url.append(u64_to_dec(pg as u64).as_str());
        url.append("/");
        let f = ChapterPageFollow {
            url,
            book_id,
            book_num,
            title: book.title.clone(),
            author: book.author.clone(),
        };
        let ghost before = follows@;
        let ghost fv = f;
        assert(fv.url@ == chapter_page_url(root_url@, book_num as nat, book_id as nat, (start + before.len()) as nat));
        follows.push(f);
        assert forall|k: int| 0 <= k < follows@.len() implies {
            &&& #[trigger] follows@[k].url@ == chapter_page_url(root_url@, book_num as nat, book_id as nat, (start + k) as nat)
            &&& follows@[k].book_id == book_id
            &&& follows@[k].book_num == book_num
            &&& follows@[k].title@ == book.title@
            &&& follows@[k].author@ == book.author@
        } by {
            if k < before.len() {
                assert(follows@[k] == before[k]);
            } else {
                assert(follows@[k] == fv);
            }
        }
        pg = pg + 1;
    }
    let mut fields: Vec<(String, FieldValue)> = Vec::new();
    fields.push(field_str("type", "book"));
    fields.push(field_u64("website_book_id", book_id as u64));
    fields.push(field_i64("path_num", book_num as i64));
    fields.push(field_str("title", book.title.as_str()));
    fields.push(field_str("filename", book.filename.as_str()));
    fields.push(field_str("author", book.author.as_str()));
    fields.push(field_str("category", book.category.as_str()));
    fields.push(field_str("introduce", book.introduce.as_str()));
    fields.push(field_i64("likes", book.likes as i64));
    fields.push(field_i64("word_count", book.count as i64));
    fields.push(field_i64("page_count", book.page as i64));
    let item = Item { fields };
    assert(item@ =~= book_item_spec(*book, book_id, book_num));
    (follows, item)
}

} // verus!

verus! {

/// A chapter page to fetch, with its place in the book.
#[derive(Debug, Clone)]
pub struct SectionFollow {
    pub url: String,
    pub book_id: u64,
    pub chapter_order: i64,
    pub chapter_title: String,
}

/// The item of chapter `order` (from 1) of book `book_id`.
pub open spec fn chapter_item_spec(book_id: u64, title: Seq<char>, url: Seq<char>, order: int) -> ItemView {
    seq![
        ("type"@, FieldView::Str("chapter"@)),
        ("website_book_id"@, u64_field(book_id)),
        ("title"@, FieldView::Str(title)),
        ("url"@, FieldView::Str(url)),
        ("chapter_order"@, FieldView::Int(order)),
    ]
}

/// What a chapter-list page leads to, once read into `chapters`: for each
/// chapter, in order and numbered from 1, its item and the fetch of its page.
pub fn chapter_actions(book_id: u64, chapters: &Vec<Chapter>) -> (res: Vec<(Item, SectionFollow)>)
    requires
        chapters@.len() < i64::MAX,
    ensures
        res@.len() == chapters@.len(),
        forall|k: int| 0 <= k < res@.len() ==> {
            &&& #[trigger] res@[k].0@ == chapter_item_spec(book_id, chapters@[k].title@, chapters@[k].url@, k + 1)
            &&& res@[k].1.url@ == chapters@[k].url@
            &&& res@[k].1.book_id == book_id
            &&& res@[k].1.chapter_order == k + 1
            &&& res@[k].1.chapter_title@ == chapters@[k].title@
        },
{
    let mut out: Vec<(Item, SectionFollow)> = Vec::new();
    let mut i: usize = 0;
    while i < chapters.len()
        invariant
            i <= chapters.len() < i64::MAX,
            out@.len() == i,
            forall|k: int| 0 <= k < i ==> {
                &&& #[trigger] out@[k].0@ == chapter_item_spec(book_id, chapters@[k].title@, chapters@[k].url@, k + 1)
                &&& out@[k].1.url@ == chapters@[k].url@
                &&& out@[k].1.book_id == book_id
                &&& out@[k].1.chapter_order == k + 1
                &&& out@[k].1.chapter_title@ == chapters@[k].title@
            },
        decreases chapters.len() - i,
    {
        let ch = &chapters[i];
        let order = (i as i64) + 1;
        let mut fields: Vec<(String, FieldValue)> = Vec::new();
        fields.push(field_str("type", "chapter"));
        fields.push(field_u64("website_book_id", book_id));
        fields.push(field_str("title", ch.title.as_str()));
        fields.push(field_str("url", ch.url.as_str()));
        fields.push(field_i64("chapter_order", order));
        let item = Item { fields };
        assert(item@ =~= chapter_item_spec(book_id, ch.title@, ch.url@, i + 1));
        let follow = SectionFollow {
            url: ch.url.clone(),
            book_id,
            chapter_order: order,
            chapter_title: ch.title.clone(),
        };
        let ghost before = out@;
        let ghost fv = follow;
        out.push((item, follow));
        assert forall|k: int| 0 <= k < i + 1 implies {
            &&& #[trigger] out@[k].0@ == chapter_item_spec(book_id, chapters@[k].title@, chapters@[k].url@, k + 1)
            &&& out@[k].1.url@ == chapters@[k].url@
            &&& out@[k].1.book_id == book_id
            &&& out@[k].1.chapter_order == k + 1
            &&& out@[k].1.chapter_title@ == chapters@[k].title@
        } by {
            if k < i {
                assert(out@[k] == before[k]);
            } else {
                assert(out@[k].1 == fv);
            }
        }
        i = i + 1;
    }
    out
}

/// A chapter page is scanned for further pages only on its first visit: at
/// page 1 and not at an explicit `_1.html` URL.
pub open spec fn scans_for_pages_spec(url: Seq<char>, section_order: i64) -> bool {
    section_order == 1 && !(url.len() >= "_1.html"@.len() && occurs_at(url, "_1.html"@, url.len() - "_1.html"@.len()))
}

/// Whether the chapter page at `url`, visited as page `section_order`, is
/// scanned for further pages.
pub fn scans_for_pages(url: &str, section_order: i64) -> (res: bool)
    ensures
        res == scans_for_pages_spec(url@, section_order),
{
    if section_order != 1 {
        return false;
    }
    proof {
        reveal_strlit("_1.html");
    }
    let cs = crate::text::chars_of(url);
    let suffix: [char; 7] = ['_', '1', '.', 'h', 't', 'm', 'l'];
    assert(suffix@ =~= "_1.html"@);
    if cs.len() >= 7 {
        !crate::text::occurs_at_exec(cs.as_slice(), &suffix, cs.len() - 7)
    } else {
        true
    }
}

/// The other pages of a chapter to fetch when its first page lists
/// `sections`: pages 2 onwards, with their page numbers (none for a
/// single-page chapter).
pub fn extra_page_follows(sections: &Vec<Section>) -> (res: Vec<(String, i64)>)
    requires
        sections@.len() < i64::MAX,
    ensures
        sections@.len() <= 1 ==> res@.len() == 0,
        sections@.len() > 1 ==> res@.len() == sections@.len() - 1,
        forall|k: int| 0 <= k < res@.len() ==> #[trigger] res@[k].0@ == sections@[k + 1].url@ && res@[k].1 == k + 2,
{
    let mut out: Vec<(String, i64)> = Vec::new();
    if sections.len() <= 1 {
        return out;
    }
    let mut i: usize = 1;
    while i < sections.len()
        invariant
            1 <= i <= sections.len() < i64::MAX,
            out@.len() == i - 1,
            forall|k: int| 0 <= k < out@.len() ==> #[trigger] out@[k].0@ == sections@[k + 1].url@ && out@[k].1 == k + 2,
        decreases sections.len() - i,
    {
        let u = sections[i].url.clone();
        let ghost before = out@;
        out.push((u, (i as i64) + 1));
        assert forall|k: int| 0 <= k < out@.len() implies #[trigger] out@[k].0@ == sections@[k + 1].url@ && out@[k].1 == k + 2 by {
            if k < before.len() {
                assert(out@[k] == before[k]);
            }
        }
        i = i + 1;
    }
    out
}

/// How a chapter page's text is obtained.
#[derive(Debug)]
pub enum SectionContent {
    /// The page loads its text with a form POST (`j=1`) to the same URL.
    Post,
    /// The text read from the page.
    Text(String),
}

/// The text of a chapter page: a POST is needed when the page says so; else
/// the text under font/image obfuscation when the page has it, else the text
/// scrambled under an index list (empty when there is none).
pub open spec fn section_content_spec(html: Seq<char>, font: Map<Seq<char>, Seq<char>>, img: Map<Seq<char>, Seq<char>>) -> Option<Seq<char>> {
    if regex_matches(SECTION_DATA_REGEX2@, html) {
        None
    } else {
        match format_content_spec(Some(html), font, img) {
            Ok(c) => Some(c),
            Err(_) => Some(section3_spec(html)),
        }
    }
}

/// Obtains a chapter page's text by the site's strategies in turn (see
/// `section_content_spec`).
pub fn section_content(html: &str, font_dict: &FanpaDict, img_dict: &FanpaDict) -> (res: SectionContent)
    ensures
        match res {
            SectionContent::Post => section_content_spec(html@, font_dict@, img_dict@) is None,
            SectionContent::Text(t) => section_content_spec(html@, font_dict@, img_dict@) == Some(t@),
        },
{
    if needs_section_post(html) {
        return SectionContent::Post;
    }
    match try_section_data1(html, font_dict, img_dict) {
        Ok(c) => SectionContent::Text(c),
        Err(_) => match try_section_data3(html) {
            Ok(c) => SectionContent::Text(c),
            Err(_) => SectionContent::Text(String::new()),
        },
    }
}

/// The text of a POST response: its obfuscated text restored, or empty.
pub fn post_content(html: &str, font_dict: &FanpaDict, img_dict: &FanpaDict) -> (res: String)
    ensures
        res@ == match format_content_spec(Some(html@), font_dict@, img_dict@) {
            Ok(c) => c,
            Err(_) => Seq::empty(),
        },
{
    match crate::pages::format_content_html(Some(html), None, font_dict, img_dict) {
        Ok(c) => c,
        Err(_) => String::new(),
    }
}

/// The item of page `section_order` of chapter `chapter_order`.
pub open spec fn section_item_spec(book_id: u64, chapter_order: i64, section_order: i64, url: Seq<char>, content: Seq<char>) -> ItemView {
    seq![
        ("type"@, FieldView::Str("section"@)),
        ("website_book_id"@, u64_field(book_id)),
        ("chapter_order"@, FieldView::Int(chapter_order as int)),
        ("section_order"@, FieldView::Int(section_order as int)),
        ("url"@, FieldView::Str(url)),
        ("content"@, FieldView::Str(content)),
    ]
}

/// The item a chapter page (or its POST response) emits.
pub fn section_item(book_id: u64, chapter_order: i64, section_order: i64, url: &str, content: &str) -> (res: Item)
    ensures
        res@ == section_item_spec(book_id, chapter_order, section_order, url@, content@),
{
    let mut fields: Vec<(String, FieldValue)> = Vec::new();
    fields.push(field_str("type", "section"));
    fields.push(field_u64("website_book_id", book_id));
    fields.push(field_i64("chapter_order", chapter_order));
    fields.push(field_i64("section_order", section_order));
    fields.push(field_str("url", url));
    fields.push(field_str("content", content));
    let item = Item { fields };
    assert(item@ =~= section_item_spec(book_id, chapter_order, section_order, url@, content@));
    item
}

/// A request that fetches a chapter page's text by form POST, with what it
/// carries of the page it comes from.
#[derive(Debug, Clone)]
pub struct PostFollow {
    /// The page's own URL.
    pub url: String,
    /// The HTTP method, `POST`.
    pub method: String,
    /// The form body, `j=1`.
    pub body: String,
    /// The `Content-Type` header, the URL-encoded form type.
    pub content_type: String,
    /// The handler of the response, `section_post`.
    pub callback: String,
    pub book_id: u64,
    pub chapter_order: i64,
    pub chapter_title: String,
    pub section_order: i64,
}

/// What a chapter page leads to: a POST for its text, or its item.
#[derive(Debug)]
pub enum SectionStep {
    Post(PostFollow),
    Emit(Item),
}

/// The POST of chapter page `url` for its text: method `POST`, body `j=1`,
/// form content type, handled by `section_post`, carrying the page's book,
/// chapter and page number.
pub open spec fn post_follow_spec(
    f: PostFollow,
    url: Seq<char>,
    book_id: u64,
    chapter_order: i64,
    chapter_title: Seq<char>,
    section_order: i64,
) -> bool {
    &&& f.url@ == url
    &&& f.method@ == "POST"@
    &&& f.body@ == "j=1"@
    &&& f.content_type@ == "application/x-www-form-urlencoded"@
    &&& f.callback@ == "section_post"@
    &&& f.book_id == book_id
    &&& f.chapter_order == chapter_order
    &&& f.chapter_title@ == chapter_title
    &&& f.section_order == section_order
}

/// What chapter page `url` (page `section_order` of chapter `chapter_order`
/// of book `book_id`) leads to once fetched as `html`: when the page loads
/// its text by POST, exactly that POST (see `post_follow_spec`) and no item;
/// otherwise the item of its text (see `section_content_spec`).
pub fn section_page_step(
    url: &str,
    html: &str,
    book_id: u64,
    chapter_order: i64,
    chapter_title: &str,
    section_order: i64,
    font_dict: &FanpaDict,
    img_dict: &FanpaDict,
) -> (res: SectionStep)
    ensures
        match section_content_spec(html@, font_dict@, img_dict@) {
            None => res matches SectionStep::Post(f)
                && post_follow_spec(f, url@, book_id, chapter_order, chapter_title@, section_order),
            Some(c) => res matches SectionStep::Emit(item)
                && item@ == section_item_spec(book_id, chapter_order, section_order, url@, c),
        },
{
    match section_content(html, font_dict, img_dict) {
        SectionContent::Post => SectionStep::Post(PostFollow {
            url: url.to_owned(),
            method: "POST".to_owned(),
            body: "j=1".to_owned(),
            content_type: "application/x-www-form-urlencoded".to_owned(),
            callback: "section_post".to_owned(),
            book_id,
            chapter_order,
            chapter_title: chapter_title.to_owned(),
            section_order,
        }),
        SectionContent::Text(t) => SectionStep::Emit(section_item(book_id, chapter_order, section_order, url, t.as_str())),
    }
}

/// The item of a POST response for chapter page `url`: its restored text
/// (see `post_content`).
pub fn section_post_item(
    url: &str,
    html: &str,
    book_id: u64,
    chapter_order: i64,
    section_order: i64,
    font_dict: &FanpaDict,
    img_dict: &FanpaDict,
) -> (res: Item)
    ensures
        res@ == section_item_spec(book_id, chapter_order, section_order, url@, match format_content_spec(
            Some(html@),
            font_dict@,
            img_dict@,
        ) {
            Ok(c) => c,
            Err(_) => Seq::empty(),
        }),
{
    let c = post_content(html, font_dict, img_dict);
    section_item(book_id, chapter_order, section_order, url, c.as_str())
}

} // verus!

verus! {

/// The priority of the list pages: pages of higher priority are fetched
/// first.
pub const LIST_PRIORITY: i32 = 0;

/// The priority of a book's detail page.
pub const BOOK_DETAIL_PRIORITY: i32 = 50;

/// The priority of the first page of a chapter's text.
pub const SECTION_PRIORITY: i32 = 100;

/// The priority of a chapter-list page of a book.
pub const CHAPTER_PAGE_PRIORITY: i32 = 150;

/// The priority of a further page (`_N.html`) of a chapter's text.
pub const SECTION_PAGE_PRIORITY: i32 = 200;

/// The kinds of page a crawl goes on to from another page.
#[derive(Debug, Clone, Copy, PartialEq, Eq, Structural)]
pub enum FollowKind {
    /// A book's detail page, from a list page.
    BookDetail,
    /// A chapter-list page, from a detail page.
    ChapterPage,
    /// The first page of a chapter's text, from a chapter-list page.
    Section,
    /// A further page of a chapter's text, from its first page.
    SectionPage,
}

/// The priority a followed page is fetched with.
pub open spec fn priority_spec(kind: FollowKind) -> i32 {
    match kind {
        FollowKind::BookDetail => BOOK_DETAIL_PRIORITY,
        FollowKind::ChapterPage => CHAPTER_PAGE_PRIORITY,
        FollowKind::Section => SECTION_PRIORITY,
        FollowKind::SectionPage => SECTION_PAGE_PRIORITY,
    }
}

/// The priority a followed page is fetched with (see `priority_spec`).
pub fn follow_priority(kind: FollowKind) -> (res: i32)
    ensures
        res == priority_spec(kind),
{
    match kind {
        FollowKind::BookDetail => BOOK_DETAIL_PRIORITY,
        FollowKind::ChapterPage => CHAPTER_PAGE_PRIORITY,
        FollowKind::Section => SECTION_PRIORITY,
        FollowKind::SectionPage => SECTION_PAGE_PRIORITY,
    }
}

/// Every page a book leads to is fetched before new list pages, so the
/// chain from a listed book to its text keeps the crawl busy; a chapter's
/// further pages come before its first pages, so chapters are completed
/// first; and chapter-list pages come before first text pages, so chapter
/// URLs are produced early.
pub proof fn law_content_chain_outranks_list_pages(kind: FollowKind)
    ensures
        priority_spec(kind) > LIST_PRIORITY,
        priority_spec(FollowKind::SectionPage) > priority_spec(FollowKind::Section),
        priority_spec(FollowKind::ChapterPage) > priority_spec(FollowKind::Section),
        priority_spec(FollowKind::Section) > priority_spec(FollowKind::BookDetail),
{
}

} // verus!

verus! {

/// The form a book page's URL must have: `https://<host>/<num>/<id>/`.
pub const BOOK_URL_REGEX: &'static str = "^https://.+?/(?P<num>\\d+)/(?P<id>\\d+)/$";

/// The URL of book `id`'s page: under the thousand it is filed under.
pub open spec fn book_page_url_spec(root: Seq<char>, id: u32) -> Seq<char> {
    root + "/"@ + digits_spec((id / 1000) as nat, 10) + "/"@ + digits_spec(id as nat, 10) + "/"@
}

/// The error of a book that could not be downloaded.
pub open spec fn download_error_spec(id: u32) -> Seq<char> {
    "下载失败: book_id="@ + digits_spec(id as nat, 10)
}

/// The page of book `id` to download, with the (number, id) read back from
/// its URL: the error of `download_error_spec` when the URL does not have a
/// book page's form, or the message of a failed number parse.
pub open spec fn book_target_spec(root: Seq<char>, id: u32) -> Result<(Seq<char>, nat, nat), Seq<char>> {
    let url = book_page_url_spec(root, id);
    match (regex_group(BOOK_URL_REGEX@, url, "num"@), regex_group(BOOK_URL_REGEX@, url, "id"@)) {
        (Some(n), Some(i)) => match parse_unsigned_spec(i, usize::MAX as nat) {
            Err(e) => Err(int_error_message_spec(e)),
            Ok(iv) => match parse_unsigned_spec(n, usize::MAX as nat) {
                Err(e) => Err(int_error_message_spec(e)),
                Ok(nv) => Ok((url, nv, iv)),
            },
        },
        _ => Err(download_error_spec(id)),
    }
}

/// The error of a book that could not be downloaded (see
/// `download_error_spec`).
pub fn download_error(book_id: u32) -> (res: String)
    ensures
        res@ == download_error_spec(book_id),
{
    concat("下载失败: book_id=", u64_to_dec(book_id as u64).as_str())
}

fn usize_of(s: &str) -> (res: Result<usize, String>)
    ensures
        match res {
            Ok(v) => parse_unsigned_spec(s@, usize::MAX as nat) == Ok::<nat, IntErrorKind>(v as nat),
            Err(m) => parse_unsigned_spec(s@, usize::MAX as nat) matches Err(e) && m@ == int_error_message_spec(e),
        },
{
    let cs = crate::text::chars_of(s);
    match parse_unsigned(cs.as_slice(), usize::MAX as u64) {
        Ok(v) => Ok(v as usize),
        Err(e) => Err(int_error_message(e)),
    }
}

/// The page of book `book_id` to download and its (number, id) (see
/// `book_target_spec`).
pub fn book_page_target(root_url: &str, book_id: u32) -> (res: Result<(String, usize, usize), String>)
    ensures
        match res {
            Ok((u, n, i)) => book_target_spec(root_url@, book_id) == Ok::<(Seq<char>, nat, nat), Seq<char>>((u@, n as nat, i as nat)),
            Err(m) => book_target_spec(root_url@, book_id) == Err::<(Seq<char>, nat, nat), Seq<char>>(m@),
        },
{
    let mut url = concat(root_url, "/");
    url.append(u64_to_dec((book_id / 1000) as u64).as_str());
    url.append("/");
    url.append(u64_to_dec(book_id as u64).as_str());
    url.append("/");
    let num = regex_capture(BOOK_URL_REGEX, url.as_str(), "num");
    let id = regex_capture(BOOK_URL_REGEX, url.as_str(), "id");
    match (num, id) {
        (Some(n), Some(i)) => {
            let iv = match usize_of(i.as_str()) {
                Ok(v) => v,
                Err(m) => return Err(m),
            };
            let nv = match usize_of(n.as_str()) {
                Ok(v) => v,
                Err(m) => return Err(m),
            };
            Ok((url, nv, iv))
        },
        _ => Err(download_error(book_id)),
    }
}

/// The text kept for a fetched section: nothing for an empty page, else its
/// trimmed text after a tab.
pub fn fetched_text(content: &str) -> (res: Option<String>)
    ensures
        match res {
            Some(t) => content@.len() > 0 && t@ == "\t"@ + trim_spec(content@),
            None => content@.len() == 0,
        },
{
    if content.is_empty() {
        None
    } else {
        Some(concat("\t", trim_str(content).as_str()))
    }
}

} // verus!
