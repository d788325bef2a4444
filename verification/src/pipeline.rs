//! Sorting the items a crawl emits into book, chapter and section records.

use vstd::prelude::*;
use vstd::string::*;
use crate::models::{BookRecord, ChapterRecord, SectionRecord};
use crate::text::str_eq;

verus! {

/// A field of an emitted item, as the records read it: a string, an integer
/// that fits `i64`, or anything else.
#[derive(Debug, Clone)]
pub enum FieldValue {
    Str(String),
    Int(i64),
    Other,
}

/// An item emitted by a page handler: its fields by name. When a name occurs
/// twice the first occurrence counts.
#[derive(Debug, Clone)]
pub struct Item {
    pub fields: Vec<(String, FieldValue)>,
}

/// The abstract form of a field value.
pub enum FieldView {
    Str(Seq<char>),
    Int(int),
    Other,
}

impl View for FieldValue {
    type V = FieldView;

    open spec fn view(&self) -> FieldView {
        match self {
            FieldValue::Str(s) => FieldView::Str(s@),
            FieldValue::Int(n) => FieldView::Int(*n as int),
            FieldValue::Other => FieldView::Other,
        }
    }
}

/// The abstract form of an item: its (name, value) pairs.
pub type ItemView = Seq<(Seq<char>, FieldView)>;

impl View for Item {
    type V = ItemView;

    open spec fn view(&self) -> ItemView {
        self.fields@.map_values(|f: (String, FieldValue)| (f.0@, f.1@))
    }
}

/// The value of the first field named `key`.
pub open spec fn field_of(item: ItemView, key: Seq<char>) -> Option<FieldView>
    decreases item.len(),
{
    if item.len() == 0 {
        None
    } else if item[0].0 == key {
        Some(item[0].1)
    } else {
        field_of(item.skip(1), key)
    }
}

/// The field as a string, if it is one.
pub open spec fn str_field(item: ItemView, key: Seq<char>) -> Option<Seq<char>> {
    match field_of(item, key) {
        Some(FieldView::Str(s)) => Some(s),
        _ => None,
    }
}

/// The field as an integer, if it is one.
pub open spec fn int_field(item: ItemView, key: Seq<char>) -> Option<int> {
    match field_of(item, key) {
        Some(FieldView::Int(n)) => Some(n),
        _ => None,
    }
}

/// The string field, or the empty string.
pub open spec fn str_or_empty(item: ItemView, key: Seq<char>) -> Seq<char> {
    match str_field(item, key) {
        Some(s) => s,
        None => Seq::empty(),
    }
}

/// The integer field, or 0.
pub open spec fn int_or_zero(item: ItemView, key: Seq<char>) -> int {
    match int_field(item, key) {
        Some(n) => n,
        None => 0,
    }
}

impl Item {
    fn lookup(&self, key: &str) -> (res: Option<&FieldValue>)
        ensures
            match res {
                Some(v) => field_of(self@, key@) == Some(v@),
                None => field_of(self@, key@) is None,
            },
    {
        let ghost iv = self@;
        let mut i: usize = 0;
        assert(iv.skip(0) =~= iv);
        while i < self.fields.len()
            invariant
                i <= self.fields.len(),
                iv == self@,
                iv.len() == self.fields.len(),
                field_of(iv, key@) == field_of(iv.skip(i as int), key@),
            decreases self.fields.len() - i,
        {
            assert(iv.skip(i as int)[0] == (self.fields@[i as int].0@, self.fields@[i as int].1@));
            assert(iv.skip(i as int).skip(1) =~= iv.skip(i + 1));
            if str_eq(self.fields[i].0.as_str(), key) {
                return Some(&self.fields[i].1);
            }
            i = i + 1;
        }
        None
    }

    /// The field named `key` if it is a string (`Value::get` then `as_str`).
    pub fn get_str(&self, key: &str) -> (res: Option<String>)
        ensures
            match res {
                Some(s) => str_field(self@, key@) == Some(s@),
                None => str_field(self@, key@) is None,
            },
    {
        match self.lookup(key) {
            Some(FieldValue::Str(s)) => Some(s.clone()),
            _ => None,
        }
    }

    /// The field named `key` if it is an integer (`Value::get` then `as_i64`).
    pub fn get_i64(&self, key: &str) -> (res: Option<i64>)
        ensures
            match res {
                Some(n) => int_field(self@, key@) == Some(n as int),
                None => int_field(self@, key@) is None,
            },
    {
        match self.lookup(key) {
            Some(FieldValue::Int(n)) => Some(*n),
            _ => None,
        }
    }

    fn str_or_default(&self, key: &str) -> (res: String)
        ensures
            res@ == str_or_empty(self@, key@),
    {
        match self.get_str(key) {
            Some(s) => s,
            None => String::new(),
        }
    }

    fn i64_or_zero(&self, key: &str) -> (res: i64)
        ensures
            res as int == int_or_zero(self@, key@),
    {
        match self.get_i64(key) {
            Some(n) => n,
            None => 0,
        }
    }
}

/// The abstract form of a book record.
pub struct BookRecordView {
    pub id: int,
    pub website_book_id: Option<int>,
    pub path_num: int,
    pub title: Seq<char>,
    pub filename: Seq<char>,
    pub author: Seq<char>,
    pub category: Seq<char>,
    pub introduce: Seq<char>,
    pub likes: int,
    pub word_count: int,
    pub page_count: int,
    pub created_at: int,
    pub updated_at: int,
}

impl View for BookRecord {
    type V = BookRecordView;

    open spec fn view(&self) -> BookRecordView {
        BookRecordView {
            id: self.id as int,
            website_book_id: match self.website_book_id { Some(n) => Some(n as int), None => None },
            path_num: self.path_num as int,
            title: self.title@,
            filename: self.filename@,
            author: self.author@,
            category: self.category@,
            introduce: self.introduce@,
            likes: self.likes as int,
            word_count: self.word_count as int,
            page_count: self.page_count as int,
            created_at: self.created_at as int,
            updated_at: self.updated_at as int,
        }
    }
}

/// The abstract form of a chapter record: (id, book id, title, url, order,
/// word count).
pub type ChapterRecordView = (int, int, Seq<char>, Seq<char>, int, int);

impl View for ChapterRecord {
    type V = ChapterRecordView;

    open spec fn view(&self) -> ChapterRecordView {
        (self.id as int, self.book_id as int, self.title@, self.url@, self.chapter_order as int, self.word_count as int)
    }
}

/// The abstract form of a section record: (id, chapter id, book id, url,
/// content, order).
pub type SectionRecordView = (int, int, int, Seq<char>, Seq<char>, int);

impl View for SectionRecord {
    type V = SectionRecordView;

    open spec fn view(&self) -> SectionRecordView {
        (self.id as int, self.chapter_id as int, self.book_id as int, self.url@, self.content@, self.section_order as int)
    }
}

/// The book record of a `book` item; the ids and times are left 0 for the
/// store to fill in.
pub open spec fn book_of(item: ItemView) -> BookRecordView {
    BookRecordView {
        id: 0,
        website_book_id: int_field(item, "website_book_id"@),
        path_num: int_or_zero(item, "path_num"@),
        title: str_or_empty(item, "title"@),
        filename: str_or_empty(item, "filename"@),
        author: str_or_empty(item, "author"@),
        category: str_or_empty(item, "category"@),
        introduce: str_or_empty(item, "introduce"@),
        likes: int_or_zero(item, "likes"@),
        word_count: int_or_zero(item, "word_count"@),
        page_count: int_or_zero(item, "page_count"@),
        created_at: 0,
        updated_at: 0,
    }
}

/// The chapter of a `chapter` item, keyed by the website's book id.
pub open spec fn chapter_of(item: ItemView) -> (int, ChapterRecordView) {
    (
        int_or_zero(item, "website_book_id"@),
        (0, 0, str_or_empty(item, "title"@), str_or_empty(item, "url"@), int_or_zero(item, "chapter_order"@), 0),
    )
}

/// The section of a `section` item, keyed by the website's book id and the
/// chapter's order.
pub open spec fn section_of(item: ItemView) -> (int, int, SectionRecordView) {
    (
        int_or_zero(item, "website_book_id"@),
        int_or_zero(item, "chapter_order"@),
        (0, 0, 0, str_or_empty(item, "url"@), str_or_empty(item, "content"@), int_or_zero(item, "section_order"@)),
    )
}

/// The abstract result of sorting items: books, keyed chapters, keyed sections.
pub type PartitionView = (Seq<BookRecordView>, Seq<(int, ChapterRecordView)>, Seq<(int, int, SectionRecordView)>);

/// Items sorted by their `type` field (`book`, `chapter`, `section`), in
/// order; items of another or no type are dropped.
pub open spec fn partition_spec(items: Seq<ItemView>) -> PartitionView
    decreases items.len(),
{
    if items.len() == 0 {
        (Seq::empty(), Seq::empty(), Seq::empty())
    } else {
        let (b, c, s) = partition_spec(items.drop_last());
        let it = items.last();
        match str_field(it, "type"@) {
            Some(t) => if t == "book"@ {
                (b.push(book_of(it)), c, s)
            } else if t == "chapter"@ {
                (b, c.push(chapter_of(it)), s)
            } else if t == "section"@ {
                (b, c, s.push(section_of(it)))
            } else {
                (b, c, s)
            },
            None => (b, c, s),
        }
    }
}

/// The integer under `key` in `item` (the first field of that name), or 0
/// when there is none or it is not an integer.
pub open spec fn int_value_or_zero(item: ItemView, key: Seq<char>) -> int {
    match field_of(item, key) {
        Some(FieldView::Int(n)) => n,
        _ => 0,
    }
}

/// The string under `key` in `item`, or the empty string.
pub open spec fn str_value_or_empty(item: ItemView, key: Seq<char>) -> Seq<char> {
    match field_of(item, key) {
        Some(FieldView::Str(v)) => v,
        _ => Seq::empty(),
    }
}

/// A `section` item adds one section record, after those of the items
/// before it, and changes neither the books nor the chapters. The record is
/// keyed by the item's `website_book_id` and `chapter_order`, and carries
/// the item's `url`, `content` and its own `section_order` (missing numbers
/// being 0 and missing strings empty).
pub proof fn law_section_item_record(items: Seq<ItemView>, it: ItemView)
    requires
        field_of(it, "type"@) == Some(FieldView::Str("section"@)),
    ensures
        partition_spec(items.push(it)).0 == partition_spec(items).0,
        partition_spec(items.push(it)).1 == partition_spec(items).1,
        partition_spec(items.push(it)).2 == partition_spec(items).2.push((
            int_value_or_zero(it, "website_book_id"@),
            int_value_or_zero(it, "chapter_order"@),
            (0int, 0int, 0int, str_value_or_empty(it, "url"@), str_value_or_empty(it, "content"@),
                int_value_or_zero(it, "section_order"@)),
        )),
{
    assert(items.push(it).drop_last() =~= items);
    assert(items.push(it).last() == it);
    reveal_strlit("section");
    reveal_strlit("book");
    reveal_strlit("chapter");
    assert("section"@.len() != "book"@.len());
    assert("section"@ != "chapter"@) by {
        assert("section"@[0] != "chapter"@[0]);
    }
}

/// A `chapter` item adds one chapter, after those of the items before it,
/// and changes neither the books nor the sections. The chapter is keyed by
/// the item's `website_book_id` and carries its `title`, `url` and its own
/// `chapter_order`; its ids and word count are left 0.
pub proof fn law_chapter_item_record(items: Seq<ItemView>, it: ItemView)
    requires
        field_of(it, "type"@) == Some(FieldView::Str("chapter"@)),
    ensures
        partition_spec(items.push(it)).0 == partition_spec(items).0,
        partition_spec(items.push(it)).2 == partition_spec(items).2,
        partition_spec(items.push(it)).1 == partition_spec(items).1.push((
            int_value_or_zero(it, "website_book_id"@),
            (0int, 0int, str_value_or_empty(it, "title"@), str_value_or_empty(it, "url"@),
                int_value_or_zero(it, "chapter_order"@), 0int),
        )),
{
    assert(items.push(it).drop_last() =~= items);
    assert(items.push(it).last() == it);
    reveal_strlit("book");
    reveal_strlit("chapter");
    assert("chapter"@.len() != "book"@.len());
}

/// A `book` item adds one book record, after those of the items before it,
/// and changes neither the chapters nor the sections. The record carries
/// the item's `website_book_id` (if it is an integer) and each of its named
/// fields, missing numbers being 0 and missing strings empty.
pub proof fn law_book_item_record(items: Seq<ItemView>, it: ItemView)
    requires
        field_of(it, "type"@) == Some(FieldView::Str("book"@)),
    ensures
        partition_spec(items.push(it)).1 == partition_spec(items).1,
        partition_spec(items.push(it)).2 == partition_spec(items).2,
        partition_spec(items.push(it)).0 == partition_spec(items).0.push(BookRecordView {
            id: 0,
            website_book_id: match field_of(it, "website_book_id"@) {
                Some(FieldView::Int(n)) => Some(n),
                _ => None,
            },
            path_num: int_value_or_zero(it, "path_num"@),
            title: str_value_or_empty(it, "title"@),
            filename: str_value_or_empty(it, "filename"@),
            author: str_value_or_empty(it, "author"@),
            category: str_value_or_empty(it, "category"@),
            introduce: str_value_or_empty(it, "introduce"@),
            likes: int_value_or_zero(it, "likes"@),
            word_count: int_value_or_zero(it, "word_count"@),
            page_count: int_value_or_zero(it, "page_count"@),
            created_at: 0,
            updated_at: 0,
        }),
{
    assert(items.push(it).drop_last() =~= items);
    assert(items.push(it).last() == it);
}

/// The abstract result of `partition_items`.
pub open spec fn partition_view(
    books: Seq<BookRecord>,
    chapters: Seq<(i64, ChapterRecord)>,
    sections: Seq<(i64, i64, SectionRecord)>,
) -> PartitionView {
    (
        books.map_values(|b: BookRecord| b@),
        chapters.map_values(|c: (i64, ChapterRecord)| (c.0 as int, c.1@)),
        sections.map_values(|s: (i64, i64, SectionRecord)| (s.0 as int, s.1 as int, s.2@)),
    )
}

fn book_from_item(item: &Item) -> (res: BookRecord)
    ensures
        res@ == book_of(item@),
{
    BookRecord {
        id: 0,
        website_book_id: item.get_i64("website_book_id"),
        path_num: item.i64_or_zero("path_num"),
        title: item.str_or_default("title"),
        filename: item.str_or_default("filename"),
        author: item.str_or_default("author"),
        category: item.str_or_default("category"),
        introduce: item.str_or_default("introduce"),
        likes: item.i64_or_zero("likes"),
        word_count: item.i64_or_zero("word_count"),
        page_count: item.i64_or_zero("page_count"),
        created_at: 0,
        updated_at: 0,
    }
}

fn chapter_from_item(item: &Item) -> (res: (i64, ChapterRecord))
    ensures
        (res.0 as int, res.1@) == chapter_of(item@),
{
    let c = ChapterRecord {
        id: 0,
        book_id: 0,
        title: item.str_or_default("title"),
        url: item.str_or_default("url"),
        chapter_order: item.i64_or_zero("chapter_order"),
        word_count: 0,
    };
    (item.i64_or_zero("website_book_id"), c)
}

fn section_from_item(item: &Item) -> (res: (i64, i64, SectionRecord))
    ensures
        (res.0 as int, res.1 as int, res.2@) == section_of(item@),
{
    let s = SectionRecord {
        id: 0,
        chapter_id: 0,
        book_id: 0,
        url: item.str_or_default("url"),
        content: item.str_or_default("content"),
        section_order: item.i64_or_zero("section_order"),
    };
    (item.i64_or_zero("website_book_id"), item.i64_or_zero("chapter_order"), s)
}

/// Sorts emitted items into book records, (website book id, chapter) pairs and
/// (website book id, chapter order, section) triples, keeping their order.
/// Missing string fields become empty and missing numbers 0.
pub fn partition_items(items: Vec<Item>) -> (res: (Vec<BookRecord>, Vec<(i64, ChapterRecord)>, Vec<(i64, i64, SectionRecord)>))
    ensures
        partition_view(res.0@, res.1@, res.2@) == partition_spec(items@.map_values(|i: Item| i@)),
{
    let ghost iv = items@.map_values(|i: Item| i@);
    let mut books: Vec<BookRecord> = Vec::new();
    let mut chapters: Vec<(i64, ChapterRecord)> = Vec::new();
    let mut sections: Vec<(i64, i64, SectionRecord)> = Vec::new();
    let mut k: usize = 0;
    while k < items.len()
        invariant
            k <= items.len(),
            iv == items@.map_values(|i: Item| i@),
            partition_view(books@, chapters@, sections@) == partition_spec(iv.take(k as int)),
        decreases items.len() - k,
    {
        let item = &items[k];
        assert(iv.take(k + 1).drop_last() =~= iv.take(k as int));
        assert(iv.take(k + 1).last() == item@);
        let ghost (b0, c0, s0) = (books@, chapters@, sections@);
        match item.get_str("type") {
            Some(t) => {
                if str_eq(t.as_str(), "book") {
                    let b = book_from_item(item);
                    books.push(b);
                    assert(books@.map_values(|b: BookRecord| b@) =~= b0.map_values(|b: BookRecord| b@).push(b@));
                } else if str_eq(t.as_str(), "chapter") {
                    let c = chapter_from_item(item);
                    chapters.push(c);
                    assert(chapters@.map_values(|c: (i64, ChapterRecord)| (c.0 as int, c.1@))
                        =~= c0.map_values(|c: (i64, ChapterRecord)| (c.0 as int, c.1@)).push(chapter_of(item@)));
                } else if str_eq(t.as_str(), "section") {
                    let s = section_from_item(item);
                    sections.push(s);
                    assert(sections@.map_values(|s: (i64, i64, SectionRecord)| (s.0 as int, s.1 as int, s.2@))
                        =~= s0.map_values(|s: (i64, i64, SectionRecord)| (s.0 as int, s.1 as int, s.2@)).push(section_of(item@)));
                }
            },
            None => {},
        }
        k = k + 1;
    }
    assert(iv.take(items.len() as int) =~= iv);
    (books, chapters, sections)
}

} // verus!
