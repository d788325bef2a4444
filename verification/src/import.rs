//! Importing local novels: which files are taken, how a text file's header
//! and chapters are read, and how a chapter is cut into stored sections.

use vstd::prelude::*;
use vstd::string::*;
use crate::ext::{regex_escape, regex_escaped, regex_is_match, regex_matches};
use crate::models::{BookRecord, ChapterRecord, SectionRecord};
use crate::numfmt::{digits_spec, u64_to_dec};
use crate::parse::{clean_filename, clean_filename_cuttable, clean_filename_spec};
use crate::pipeline::{BookRecordView, ChapterRecordView, SectionRecordView};
use crate::text::{
    byte_len, chars_of, concat, from_chars, join_chars, join_spec, lines_chars,
    lines_spec, lowercase_of, str_eq, subrange_chars, to_lowercase, trim_chars, trim_spec, views,
};

verus! {

/// The extension of the last component of `path` (`Path::extension`), when
/// it has one.
pub uninterp spec fn path_extension_of(path: Seq<char>) -> Option<Seq<char>>;

/// `std::path::Path::extension` of `path`, as a string; named
/// `path_extension_of`.
#[verifier::external_body]
fn path_extension(path: &str) -> (res: Option<String>)
    ensures
        match res {
            Some(e) => path_extension_of(path@) == Some(e@),
            None => path_extension_of(path@) is None,
        },
{
    std::path::Path::new(path).extension().and_then(|e| e.to_str()).map(|e| e.to_string())
}

/// Files with extension `txt` or `epub`, in any case, can be imported.
pub open spec fn supported_format_spec(path: Seq<char>) -> bool {
    match path_extension_of(path) {
        Some(e) => lowercase_of(e) == "txt"@ || lowercase_of(e) == "epub"@,
        None => false,
    }
}

/// Whether the file at `path` is a `.txt` or `.epub` file (extension in any case).
pub fn is_supported_format(path: &str) -> (res: bool)
    ensures
        res == supported_format_spec(path@),
{
    match path_extension(path) {
        Some(e) => {
            let lower = to_lowercase(e.as_str());
            str_eq(lower.as_str(), "txt") || str_eq(lower.as_str(), "epub")
        },
        None => false,
    }
}

/// `s` cut into consecutive pieces of `size` characters (the last may be
/// shorter); nothing for an empty `s`.
pub open spec fn chunk_list(s: Seq<char>, size: nat) -> Seq<Seq<char>>
    decreases s.len(),
{
    if s.len() == 0 || size == 0 {
        Seq::empty()
    } else if s.len() <= size {
        seq![s]
    } else {
        seq![s.take(size as int)] + chunk_list(s.skip(size as int), size)
    }
}

/// The section texts of a chapter: the whole text when it fits in one
/// section (also when it is empty), else its pieces of `size` characters.
pub open spec fn section_chunks(s: Seq<char>, size: nat) -> Seq<Seq<char>> {
    if s.len() <= size { seq![s] } else { chunk_list(s, size) }
}

/// The abstract form of a list of section records.
pub open spec fn section_record_views(v: Seq<SectionRecord>) -> Seq<SectionRecordView> {
    v.map_values(|s: SectionRecord| s@)
}

/// The sections of a chapter of book `book_id`, numbered from 1.
pub open spec fn sections_spec(content: Seq<char>, book_id: int, size: nat) -> Seq<SectionRecordView> {
    let chunks = section_chunks(content, size);
    Seq::new(chunks.len(), |k: int| (0int, 0int, book_id, Seq::<char>::empty(), chunks[k], k + 1))
}

proof fn lemma_chunk_step(s: Seq<char>, pos: int, size: nat)
    requires
        0 <= pos < s.len(),
        size > 0,
    ensures
        ({
            let end = if pos + size < s.len() { pos + size } else { s.len() as int };
            chunk_list(s.skip(pos), size) == seq![s.subrange(pos, end)] + chunk_list(s.skip(end), size)
        }),
{
    let sp = s.skip(pos);
    if sp.len() <= size {
        assert(sp =~= s.subrange(pos, s.len() as int));
        assert(s.skip(s.len() as int) =~= Seq::<char>::empty());
        assert(seq![sp] + Seq::<Seq<char>>::empty() =~= seq![sp]);
    } else {
        assert(sp.take(size as int) =~= s.subrange(pos, pos + size));
        assert(sp.skip(size as int) =~= s.skip(pos + size));
    }
}

/// Cuts a chapter's text into sections of `section_size` characters, numbered
/// from 1 (one section when it fits, even if empty). A non-empty text needs a
/// positive size.
pub fn split_content_into_sections(content: &str, book_id: i64, section_size: usize) -> (res: Vec<SectionRecord>)
    requires
        section_size > 0 || content@.len() == 0,
        content@.len() < i64::MAX,
    ensures
        section_record_views(res@) == sections_spec(content@, book_id as int, section_size as nat),
{
    let chars = chars_of(content);
    let total = chars.len();
    let ghost s = content@;
    if total <= section_size {
        let rec = SectionRecord {
            id: 0,
            chapter_id: 0,
            book_id,
            url: String::new(),
            content: content.to_owned(),
            section_order: 1,
        };
        let v = vec![rec];
        assert(section_record_views(v@) =~= sections_spec(s, book_id as int, section_size as nat));
        return v;
    }
    let mut sections: Vec<SectionRecord> = Vec::new();
    let ghost mut taken: Seq<Seq<char>> = Seq::empty();
    let mut pos: usize = 0;
    let mut order: i64 = 1;
    assert(s.skip(0) =~= s);
    while pos < total
        invariant
            pos <= total == chars@.len() == s.len(),
            chars@ == s,
            section_size > 0,
            s.len() < i64::MAX,
            taken.len() <= pos,
            order == taken.len() + 1,
            chunk_list(s, section_size as nat) == taken + chunk_list(s.skip(pos as int), section_size as nat),
            sections@.len() == taken.len(),
            forall|k: int| 0 <= k < taken.len() ==> #[trigger] sections@[k]@ == (0int, 0int, book_id as int, Seq::<char>::empty(), taken[k], k + 1),
        decreases total - pos,
    {
        let end = if total - pos > section_size { pos + section_size } else { total };
        proof {
            lemma_chunk_step(s, pos as int, section_size as nat);
        }
        let piece = subrange_chars(chars.as_slice(), pos, end);
        let text = from_chars(piece.as_slice());
        let rec = SectionRecord {
            id: 0,
            chapter_id: 0,
            book_id,
            url: String::new(),
            content: text,
            section_order: order,
        };
        sections.push(rec);
        proof {
            let old_taken = taken;
            taken = taken.push(s.subrange(pos as int, end as int));
            assert(taken + chunk_list(s.skip(end as int), section_size as nat)
                =~= old_taken + (seq![s.subrange(pos as int, end as int)] + chunk_list(s.skip(end as int), section_size as nat)));
        }
        pos = end;
        order = order + 1;
    }
    proof {
        assert(s.skip(pos as int) =~= Seq::<char>::empty());
        assert(taken + Seq::<Seq<char>>::empty() =~= taken);
    }
    assert(section_record_views(sections@) =~= sections_spec(s, book_id as int, section_size as nat));
    sections
}

/// The fixed chapter-heading forms: `第…章` and its kin, `Chapter n`,
/// `分卷阅读 n`, `(n) …`, `n、…`, `卷…`.
pub const CHAPTER_PATTERN_1: &'static str = "^第[零一二三四五六七八九十百千万\\d]+[章节回卷集部篇]";
pub const CHAPTER_PATTERN_2: &'static str = "^[Cc]hapter\\s*\\d+";
pub const CHAPTER_PATTERN_3: &'static str = "^分卷阅读\\s*\\d+";
pub const CHAPTER_PATTERN_4: &'static str = "^\\(\\d+\\)\\s*.+";
pub const CHAPTER_PATTERN_5: &'static str = "^\\d+[、.．]\\s*.+";
pub const CHAPTER_PATTERN_6: &'static str = "^卷[零一二三四五六七八九十百千万\\d]+";

/// Whether `line` is a chapter heading: non-empty, at most 100 bytes, and
/// matching one of the fixed forms or the book-title form `pat`.
pub open spec fn is_chapter_title_spec(line: Seq<char>, pat: Seq<char>) -> bool {
    &&& line.len() > 0
    &&& byte_len(line) <= 100
    &&& {
        ||| regex_matches(CHAPTER_PATTERN_1@, line)
        ||| regex_matches(CHAPTER_PATTERN_2@, line)
        ||| regex_matches(CHAPTER_PATTERN_3@, line)
        ||| regex_matches(CHAPTER_PATTERN_4@, line)
        ||| regex_matches(CHAPTER_PATTERN_5@, line)
        ||| regex_matches(CHAPTER_PATTERN_6@, line)
        ||| regex_matches(pat, line)
    }
}

/// Whether `line` is a chapter heading; `book_title_pattern` is the pattern
/// of headings that start with the book's title (see `chapter_title_pattern`).
pub fn is_chapter_title(line: &str, book_title_pattern: &str) -> (res: bool)
    ensures
        res == is_chapter_title_spec(line@, book_title_pattern@),
{
    let n = line.as_bytes().len();
    assert(n as nat == byte_len(line@));
    if line.is_empty() || n > 100 {
        return false;
    }
    regex_is_match(CHAPTER_PATTERN_1, line) || regex_is_match(CHAPTER_PATTERN_2, line)
        || regex_is_match(CHAPTER_PATTERN_3, line) || regex_is_match(CHAPTER_PATTERN_4, line)
        || regex_is_match(CHAPTER_PATTERN_5, line) || regex_is_match(CHAPTER_PATTERN_6, line)
        || regex_is_match(book_title_pattern, line)
}

/// Headings made of the book's title and a number: `^<escaped title>[零…\d]+`.
pub open spec fn chapter_pattern_spec(book_title: Seq<char>) -> Seq<char> {
    "^"@ + regex_escaped(book_title) + "[零一二三四五六七八九十百千万\\d]+"@
}

/// The pattern of headings that start with the book's title and a number.
pub fn chapter_title_pattern(book_title: &str) -> (res: String)
    ensures
        res@ == chapter_pattern_spec(book_title@),
{
    let esc = regex_escape(book_title);
    let a = concat("^", esc.as_str());
    concat(a.as_str(), "[零一二三四五六七八九十百千万\\d]+")
}

/// A chapter read from a local file.
#[derive(Debug, Clone)]
pub struct ParsedChapter {
    pub title: String,
    pub content: String,
}

impl View for ParsedChapter {
    type V = (Seq<char>, Seq<char>);

    open spec fn view(&self) -> (Seq<char>, Seq<char>) {
        (self.title@, self.content@)
    }
}

/// The views of a list of parsed chapters.
pub open spec fn parsed_views(v: Seq<ParsedChapter>) -> Seq<(Seq<char>, Seq<char>)> {
    v.map_values(|c: ParsedChapter| c@)
}

/// The state of the chapter scan: the chapters closed so far, the current
/// heading and the lines read under it.
pub struct ChapterScan {
    pub done: Seq<(Seq<char>, Seq<char>)>,
    pub title: Seq<char>,
    pub lines: Seq<Seq<char>>,
}

/// Closes the current chapter: it is kept when it has a heading or lines and
/// its lines hold more than white space. At the end of the text a chapter
/// without heading is called `正文`.
pub open spec fn close_chapter(
    done: Seq<(Seq<char>, Seq<char>)>,
    title: Seq<char>,
    lines: Seq<Seq<char>>,
    at_end: bool,
) -> Seq<(Seq<char>, Seq<char>)> {
    if title.len() > 0 || lines.len() > 0 {
        let c = join_spec(lines, "\n"@);
        if trim_spec(c).len() > 0 {
            done.push((if at_end && title.len() == 0 { "正文"@ } else { title }, c))
        } else {
            done
        }
    } else {
        done
    }
}

/// The chapter scan after `lines`: a heading line (trimmed) closes the
/// current chapter and opens a new one; any other line joins the current one.
pub open spec fn scan_chapters(lines: Seq<Seq<char>>, pat: Seq<char>) -> ChapterScan
    decreases lines.len(),
{
    if lines.len() == 0 {
        ChapterScan { done: Seq::empty(), title: Seq::empty(), lines: Seq::empty() }
    } else {
        let st = scan_chapters(lines.drop_last(), pat);
        let line = lines.last();
        let t = trim_spec(line);
        if is_chapter_title_spec(t, pat) {
            ChapterScan { done: close_chapter(st.done, st.title, st.lines, false), title: t, lines: Seq::empty() }
        } else {
            ChapterScan { done: st.done, title: st.title, lines: st.lines.push(line) }
        }
    }
}

/// Pieces numbered as chapters `第1章`, `第2章`, ...
pub open spec fn numbered_chunks(chunks: Seq<Seq<char>>) -> Seq<(Seq<char>, Seq<char>)> {
    Seq::new(chunks.len(), |k: int| ("第"@ + digits_spec((k + 1) as nat, 10) + "章"@, chunks[k]))
}

/// The chapters of a text: split at heading lines; a text without any is cut
/// into chapters of 2000 characters.
pub open spec fn parse_chapters_spec(content: Seq<char>, book_title: Seq<char>) -> Seq<(Seq<char>, Seq<char>)> {
    let st = scan_chapters(lines_spec(content), chapter_pattern_spec(book_title));
    let chs = close_chapter(st.done, st.title, st.lines, true);
    if chs.len() > 0 { chs } else { numbered_chunks(chunk_list(content, 2000)) }
}

fn close_chapter_exec(done: &mut Vec<ParsedChapter>, title: &String, lines: &Vec<Vec<char>>, at_end: bool)
    ensures
        parsed_views(final(done)@) == close_chapter(parsed_views(old(done)@), title@, views(lines@), at_end),
{
    if !title.as_str().is_empty() || lines.len() > 0 {
        let nl: [char; 1] = ['\n'];
        proof {
            reveal_strlit("\n");
        }
        assert(nl@ =~= "\n"@);
        let joined = join_chars(lines, &nl);
        let tr = trim_chars(joined.as_slice());
        if tr.len() > 0 {
            let t = if at_end && title.as_str().is_empty() { "正文".to_owned() } else { title.clone() };
            let ghost before = done@;
            let c = ParsedChapter { title: t, content: from_chars(joined.as_slice()) };
            done.push(c);
            assert(parsed_views(done@) =~= parsed_views(before).push(c@));
        }
    }
}

/// Splits the text of a book into chapters at heading lines (see
/// `is_chapter_title`); the text before the first heading forms a chapter of
/// its own, and chapters whose text is blank are dropped. A text with no
/// heading at all is cut into chapters `第n章` of 2000 characters.
pub fn parse_chapters(content: &str, book_title: &str) -> (res: Vec<ParsedChapter>)
    ensures
        parsed_views(res@) == parse_chapters_spec(content@, book_title@),
{
    let pat = chapter_title_pattern(book_title);
    let cs = chars_of(content);
    let lines = lines_chars(cs.as_slice());
    let ghost lv = views(lines@);
    let mut done: Vec<ParsedChapter> = Vec::new();
    let mut title = String::new();
    let mut cur: Vec<Vec<char>> = Vec::new();
    let mut i: usize = 0;
    while i < lines.len()
        invariant
            i <= lines.len(),
            lv == views(lines@),
            lv == lines_spec(content@),
            pat@ == chapter_pattern_spec(book_title@),
            ({
                let st = scan_chapters(lv.take(i as int), pat@);
                &&& parsed_views(done@) == st.done
                &&& title@ == st.title
                &&& views(cur@) == st.lines
            }),
        decreases lines.len() - i,
    {
        assert(lv.take(i + 1).drop_last() =~= lv.take(i as int));
        assert(lv.take(i + 1).last() == lines@[i as int]@);
        let t = from_chars(trim_chars(lines[i].as_slice()).as_slice());
        if is_chapter_title(t.as_str(), pat.as_str()) {
            close_chapter_exec(&mut done, &title, &cur, false);
            title = t;
            cur = Vec::new();
            assert(views(cur@) =~= Seq::<Seq<char>>::empty());
        } else {
            let copy = subrange_chars(lines[i].as_slice(), 0, lines[i].len());
            assert(copy@ =~= lines@[i as int]@);
            let ghost before = cur@;
            cur.push(copy);
            assert(views(cur@) =~= views(before).push(lines@[i as int]@));
        }
        i = i + 1;
    }
    assert(lv.take(lines.len() as int) =~= lv);
    close_chapter_exec(&mut done, &title, &cur, true);
    if done.len() > 0 {
        return done;
    }
    let total = cs.len();
    let mut out: Vec<ParsedChapter> = Vec::new();
    let ghost s = content@;
    let ghost mut taken: Seq<Seq<char>> = Seq::empty();
    let mut pos: usize = 0;
    let mut idx: u64 = 1;
    assert(s.skip(0) =~= s);
    while pos < total
        invariant
            pos <= total == cs@.len() == s.len(),
            cs@ == s,
            taken.len() <= pos,
            pos < total ==> idx == taken.len() + 1,
            chunk_list(s, 2000) == taken + chunk_list(s.skip(pos as int), 2000),
            parsed_views(out@) == numbered_chunks(taken),
        decreases total - pos,
    {
        let end = if total - pos > 2000 { pos + 2000 } else { total };
        proof {
            lemma_chunk_step(s, pos as int, 2000);
        }
        let piece = subrange_chars(cs.as_slice(), pos, end);
        let text = from_chars(piece.as_slice());
        let num = u64_to_dec(idx);
        let a = concat("第", num.as_str());
        let heading = concat(a.as_str(), "章");
        let c = ParsedChapter { title: heading, content: text };
        let ghost before = out@;
        out.push(c);
        proof {
            let old_taken = taken;
            taken = taken.push(s.subrange(pos as int, end as int));
            assert(taken + chunk_list(s.skip(end as int), 2000)
                =~= old_taken + (seq![s.subrange(pos as int, end as int)] + chunk_list(s.skip(end as int), 2000)));
            assert(c@ == numbered_chunks(taken)[old_taken.len() as int]);
            assert(parsed_views(out@) =~= parsed_views(before).push(c@));
            assert(numbered_chunks(taken) =~= numbered_chunks(old_taken).push(c@));
            assert(parsed_views(out@) =~= numbered_chunks(taken));
        }
        pos = end;
        if pos < total {
            idx = idx + 1;
        }
    }
    proof {
        assert(s.skip(pos as int) =~= Seq::<char>::empty());
        assert(taken + Seq::<Seq<char>>::empty() =~= taken);
    }
    out
}

} // verus!

verus! {

/// A header line giving the book's title, author or introduction.
pub const BOOK_TITLE_PATTERN: &'static str = "^书名[：:]";
pub const BOOK_AUTHOR_PATTERN: &'static str = "^作者[：:]";
pub const BOOK_INTRO_PATTERN: &'static str = "^简介[：:]";

/// Position of the first colon (full-width `：` or ASCII `:`) at or after `i`.
pub open spec fn first_colon_from(s: Seq<char>, i: int) -> Option<int>
    decreases s.len() - i,
{
    if i < 0 || i >= s.len() {
        None
    } else if s[i] == '：' || s[i] == ':' {
        Some(i)
    } else {
        first_colon_from(s, i + 1)
    }
}

/// The trimmed text after the first colon of a header line; empty when there
/// is none.
pub open spec fn after_colon_spec(s: Seq<char>) -> Seq<char> {
    match first_colon_from(s, 0) {
        Some(j) => trim_spec(s.skip(j + 1)),
        None => Seq::empty(),
    }
}

fn after_colon(s: &[char]) -> (res: Vec<char>)
    ensures
        res@ == after_colon_spec(s@),
{
    let mut i: usize = 0;
    while i < s.len()
        invariant
            i <= s.len(),
            first_colon_from(s@, 0) == first_colon_from(s@, i as int),
        decreases s.len() - i,
    {
        if s[i] == '：' || s[i] == ':' {
            let rest = subrange_chars(s, i + 1, s.len());
            assert(rest@ =~= s@.skip(i + 1));
            return trim_chars(rest.as_slice());
        }
        i = i + 1;
    }
    Vec::new()
}

/// The state of the header scan of a text file.
pub struct HeaderScan {
    pub title: Seq<char>,
    pub author: Seq<char>,
    pub introduce: Seq<char>,
    pub start: nat,
    pub stopped: bool,
}

/// The header scan after the first `k` lines: blank lines are skipped, each
/// `书名：`, `作者：` or `简介：` line sets its field and moves the start of
/// the body past it, and the first other line once a title is known ends the
/// header.
pub open spec fn header_scan(lines: Seq<Seq<char>>, k: nat) -> HeaderScan
    decreases k,
{
    if k == 0 {
        HeaderScan { title: Seq::empty(), author: Seq::empty(), introduce: Seq::empty(), start: 0, stopped: false }
    } else {
        let st = header_scan(lines, (k - 1) as nat);
        let t = trim_spec(lines[k - 1]);
        if st.stopped || t.len() == 0 {
            st
        } else if regex_matches(BOOK_TITLE_PATTERN@, t) {
            HeaderScan { title: after_colon_spec(t), author: st.author, introduce: st.introduce, start: k, stopped: false }
        } else if regex_matches(BOOK_AUTHOR_PATTERN@, t) {
            HeaderScan { title: st.title, author: after_colon_spec(t), introduce: st.introduce, start: k, stopped: false }
        } else if regex_matches(BOOK_INTRO_PATTERN@, t) {
            HeaderScan { title: st.title, author: st.author, introduce: after_colon_spec(t), start: k, stopped: false }
        } else if st.title.len() > 0 {
            HeaderScan { title: st.title, author: st.author, introduce: st.introduce, start: st.start, stopped: true }
        } else {
            st
        }
    }
}

/// A book read from a local file.
#[derive(Debug, Clone)]
pub struct ParsedBook {
    pub title: String,
    pub author: String,
    pub introduce: String,
    pub category: String,
    pub chapters: Vec<ParsedChapter>,
}

/// The abstract form of a parsed book.
pub struct ParsedBookView {
    pub title: Seq<char>,
    pub author: Seq<char>,
    pub introduce: Seq<char>,
    pub category: Seq<char>,
    pub chapters: Seq<(Seq<char>, Seq<char>)>,
}

impl View for ParsedBook {
    type V = ParsedBookView;

    open spec fn view(&self) -> ParsedBookView {
        ParsedBookView {
            title: self.title@,
            author: self.author@,
            introduce: self.introduce@,
            category: self.category@,
            chapters: parsed_views(self.chapters@),
        }
    }
}

/// The book in a text file: its header (title falling back to the file's
/// stem), and the chapters of the lines after the header.
pub open spec fn parse_txt_spec(content: Seq<char>, category: Seq<char>, file_stem: Seq<char>) -> ParsedBookView {
    let lines = lines_spec(content);
    let st = header_scan(lines, lines.len());
    let title = if st.title.len() == 0 { file_stem } else { st.title };
    let body = join_spec(lines.skip(st.start as int), "\n"@);
    ParsedBookView {
        title,
        author: st.author,
        introduce: st.introduce,
        category,
        chapters: parse_chapters_spec(body, title),
    }
}

proof fn lemma_header_start(lines: Seq<Seq<char>>, k: nat)
    requires
        k <= lines.len(),
    ensures
        header_scan(lines, k).start <= k,
    decreases k,
{
    if k > 0 {
        lemma_header_start(lines, (k - 1) as nat);
    }
}

/// Reads a text file's content: the header lines `书名：`, `作者：`, `简介：`
/// (either colon), then the chapters of the rest. `category` is the name of
/// the file's folder and `file_stem` the name it falls back to as title.
pub fn parse_txt_content(content: &str, category: &str, file_stem: &str) -> (res: ParsedBook)
    ensures
        res@ == parse_txt_spec(content@, category@, file_stem@),
{
    let cs = chars_of(content);
    let lines = lines_chars(cs.as_slice());
    let ghost lv = views(lines@);
    let mut title: Vec<char> = Vec::new();
    let mut author: Vec<char> = Vec::new();
    let mut introduce: Vec<char> = Vec::new();
    let mut start: usize = 0;
    let mut stopped = false;
    let mut i: usize = 0;
    while i < lines.len()
        invariant
            i <= lines.len(),
            lv == views(lines@),
            ({
                let st = header_scan(lv, i as nat);
                &&& title@ == st.title
                &&& author@ == st.author
                &&& introduce@ == st.introduce
                &&& start as nat == st.start
                &&& stopped == st.stopped
            }),
        decreases lines.len() - i,
    {
        assert(lv[i as int] == lines@[i as int]@);
        if !stopped {
            let t = trim_chars(lines[i].as_slice());
            if t.len() > 0 {
                let ts = from_chars(t.as_slice());
                if regex_is_match(BOOK_TITLE_PATTERN, ts.as_str()) {
                    title = after_colon(t.as_slice());
                    start = i + 1;
                } else if regex_is_match(BOOK_AUTHOR_PATTERN, ts.as_str()) {
                    author = after_colon(t.as_slice());
                    start = i + 1;
                } else if regex_is_match(BOOK_INTRO_PATTERN, ts.as_str()) {
                    introduce = after_colon(t.as_slice());
                    start = i + 1;
                } else if title.len() > 0 {
                    stopped = true;
                }
            }
        }
        i = i + 1;
    }
    proof {
        lemma_header_start(lv, lv.len());
    }
    let title_s: String = if title.len() == 0 { file_stem.to_owned() } else { from_chars(title.as_slice()) };
    let mut rest: Vec<Vec<char>> = Vec::new();
    let mut k: usize = start;
    while k < lines.len()
        invariant
            start <= k <= lines.len(),
            lv == views(lines@),
            views(rest@) == lv.subrange(start as int, k as int),
        decreases lines.len() - k,
    {
        let copy = subrange_chars(lines[k].as_slice(), 0, lines[k].len());
        assert(copy@ =~= lines@[k as int]@);
        let ghost before = rest@;
        rest.push(copy);
        assert(views(rest@) =~= views(before).push(lv[k as int]));
        k = k + 1;
    }
    assert(lv.subrange(start as int, lines.len() as int) =~= lv.skip(start as int));
    let nl: [char; 1] = ['\n'];
    proof {
        reveal_strlit("\n");
    }
    assert(nl@ =~= "\n"@);
    let body = from_chars(join_chars(&rest, &nl).as_slice());
    let chapters = parse_chapters(body.as_str(), title_s.as_str());
    ParsedBook {
        title: title_s,
        author: from_chars(author.as_slice()),
        introduce: from_chars(introduce.as_slice()),
        category: category.to_owned(),
        chapters,
    }
}

} // verus!

verus! {

/// The number of characters in all the chapters' texts.
pub open spec fn total_chars(chs: Seq<(Seq<char>, Seq<char>)>) -> nat
    decreases chs.len(),
{
    if chs.len() == 0 { 0 } else { total_chars(chs.drop_last()) + chs.last().1.len() }
}

/// The section size of imported chapters, in characters.
pub const SECTION_CHARS_WITH_CHAPTER: usize = 1000;

/// The stored form of an imported chapter: the record and its sections.
pub open spec fn import_chapter_spec(k: int, ch: (Seq<char>, Seq<char>)) -> (ChapterRecordView, Seq<SectionRecordView>) {
    ((0, 0, ch.0, Seq::empty(), k + 1, 0), sections_spec(ch.1, 0, SECTION_CHARS_WITH_CHAPTER as nat))
}

/// The records an imported book is stored as: an error when it has no title,
/// else the book (file name cleaned, word count the number of characters)
/// and its chapters numbered from 1, each cut into sections of 1000
/// characters.
pub open spec fn import_records_spec(b: ParsedBookView, file_stem: Seq<char>)
    -> Result<(BookRecordView, Seq<(ChapterRecordView, Seq<SectionRecordView>)>), Seq<char>> {
    if b.title.len() == 0 {
        Err("无法解析书名: "@ + file_stem)
    } else {
        Ok((
            BookRecordView {
                id: 0,
                website_book_id: None,
                path_num: 0,
                title: b.title,
                filename: clean_filename_spec(b.title),
                author: b.author,
                category: b.category,
                introduce: b.introduce,
                likes: 0,
                word_count: total_chars(b.chapters) as int,
                page_count: 0,
                created_at: 0,
                updated_at: 0,
            },
            Seq::new(b.chapters.len(), |k: int| import_chapter_spec(k, b.chapters[k])),
        ))
    }
}

/// The abstract form of stored chapters with their sections.
pub open spec fn chapter_rows_view(v: Seq<(ChapterRecord, Vec<SectionRecord>)>) -> Seq<(ChapterRecordView, Seq<SectionRecordView>)> {
    v.map_values(|r: (ChapterRecord, Vec<SectionRecord>)| (r.0@, section_record_views(r.1@)))
}

/// Builds the records an imported book is stored as (see
/// `import_records_spec`). `file_stem` names the file in the error for a
/// book without title. The title must be one `clean_filename` accepts, and
/// the text must have fewer than `i64::MAX` characters.
pub fn import_records(parsed: &ParsedBook, file_stem: &str)
    -> (res: Result<(BookRecord, Vec<(ChapterRecord, Vec<SectionRecord>)>), String>)
    requires
        clean_filename_cuttable(parsed.title@),
        total_chars(parsed@.chapters) < i64::MAX,
        parsed.chapters@.len() < i64::MAX,
    ensures
        match res {
            Ok((b, rows)) => import_records_spec(parsed@, file_stem@) == Ok::<
                (BookRecordView, Seq<(ChapterRecordView, Seq<SectionRecordView>)>),
                Seq<char>,
            >((b@, chapter_rows_view(rows@))),
            Err(m) => import_records_spec(parsed@, file_stem@) == Err::<
                (BookRecordView, Seq<(ChapterRecordView, Seq<SectionRecordView>)>),
                Seq<char>,
            >(m@),
        },
{
    if parsed.title.as_str().is_empty() {
        return Err(concat("无法解析书名: ", file_stem));
    }
    let ghost cv = parsed@.chapters;
    let mut word_count: i64 = 0;
    let mut rows: Vec<(ChapterRecord, Vec<SectionRecord>)> = Vec::new();
    let mut i: usize = 0;
    while i < parsed.chapters.len()
        invariant
            i <= parsed.chapters.len(),
            cv == parsed@.chapters,
            cv.len() == parsed.chapters.len(),
            cv.len() < i64::MAX,
            total_chars(cv) < i64::MAX,
            word_count as int == total_chars(cv.take(i as int)),
            chapter_rows_view(rows@) == Seq::new(i as nat, |k: int| import_chapter_spec(k, cv[k])),
        decreases parsed.chapters.len() - i,
    {
        let ch = &parsed.chapters[i];
        assert(cv[i as int] == ch@);
        proof {
            lemma_total_chars_prefix(cv, i as int + 1);
            assert(cv.take(i + 1).drop_last() =~= cv.take(i as int));
        }
        let n = chars_of(ch.content.as_str()).len();
        word_count = word_count + n as i64;
        let rec = ChapterRecord {
            id: 0,
            book_id: 0,
            title: ch.title.clone(),
            url: String::new(),
            chapter_order: (i as i64) + 1,
            word_count: 0,
        };
        let secs = split_content_into_sections(ch.content.as_str(), 0, SECTION_CHARS_WITH_CHAPTER);
        let ghost before = rows@;
        assert(rec@ == import_chapter_spec(i as int, cv[i as int]).0);
        assert(section_record_views(secs@) == import_chapter_spec(i as int, cv[i as int]).1);
        rows.push((rec, secs));
        assert(chapter_rows_view(rows@) =~= chapter_rows_view(before).push((rec@, section_record_views(secs@))));
        assert(chapter_rows_view(rows@) =~= Seq::new((i + 1) as nat, |k: int| import_chapter_spec(k, cv[k])));
        i = i + 1;
    }
    assert(cv.take(parsed.chapters.len() as int) =~= cv);
    let filename = clean_filename(parsed.title.as_str());
    let book = BookRecord {
        id: 0,
        website_book_id: None,
        path_num: 0,
        title: parsed.title.clone(),
        filename,
        author: parsed.author.clone(),
        category: parsed.category.clone(),
        introduce: parsed.introduce.clone(),
        likes: 0,
        word_count,
        page_count: 0,
        created_at: 0,
        updated_at: 0,
    };
    Ok((book, rows))
}

proof fn lemma_total_chars_prefix(chs: Seq<(Seq<char>, Seq<char>)>, k: int)
    requires
        0 <= k <= chs.len(),
    ensures
        total_chars(chs.take(k)) <= total_chars(chs),
    decreases chs.len() - k,
{
    if k < chs.len() {
        lemma_total_chars_prefix(chs, k + 1);
        assert(chs.take(k + 1).drop_last() =~= chs.take(k));
    } else {
        assert(chs.take(k) =~= chs);
    }
}

} // verus!

verus! {

/// Whether line `k` of `lines`, trimmed, is a chapter heading under `pat`.
pub open spec fn heading_at(lines: Seq<Seq<char>>, pat: Seq<char>, k: int) -> bool {
    is_chapter_title_spec(trim_spec(lines[k]), pat)
}

proof fn lemma_scan_unfold(lines: Seq<Seq<char>>, pat: Seq<char>, n: int)
    requires
        0 <= n < lines.len(),
    ensures
        ({
            let st = scan_chapters(lines.take(n), pat);
            let t = trim_spec(lines[n]);
            scan_chapters(lines.take(n + 1), pat) == if is_chapter_title_spec(t, pat) {
                ChapterScan { done: close_chapter(st.done, st.title, st.lines, false), title: t, lines: Seq::empty() }
            } else {
                ChapterScan { done: st.done, title: st.title, lines: st.lines.push(lines[n]) }
            }
        }),
{
    assert(lines.take(n + 1).drop_last() =~= lines.take(n));
    assert(lines.take(n + 1).last() == lines[n]);
}

proof fn lemma_scan_no_heading(lines: Seq<Seq<char>>, pat: Seq<char>, n: int)
    requires
        0 <= n <= lines.len(),
        forall|k: int| 0 <= k < n ==> !heading_at(lines, pat, k),
    ensures
        scan_chapters(lines.take(n), pat).done.len() == 0,
        scan_chapters(lines.take(n), pat).title.len() == 0,
        scan_chapters(lines.take(n), pat).lines == lines.take(n),
    decreases n,
{
    if n == 0 {
        assert(lines.take(0) =~= Seq::<Seq<char>>::empty());
    } else {
        lemma_scan_no_heading(lines, pat, n - 1);
        lemma_scan_unfold(lines, pat, n - 1);
        assert(!heading_at(lines, pat, n - 1));
        assert(lines.take(n - 1).push(lines[n - 1]) =~= lines.take(n));
    }
}

proof fn lemma_scan_after_heading(lines: Seq<Seq<char>>, pat: Seq<char>, j: int, n: int)
    requires
        0 <= j < n <= lines.len(),
        heading_at(lines, pat, j),
        forall|k: int| j < k < n ==> !heading_at(lines, pat, k),
    ensures
        scan_chapters(lines.take(n), pat).title == trim_spec(lines[j]),
        scan_chapters(lines.take(n), pat).lines == lines.subrange(j + 1, n),
    decreases n - j,
{
    if n == j + 1 {
        lemma_scan_unfold(lines, pat, j);
        assert(lines.subrange(j + 1, n) =~= Seq::<Seq<char>>::empty());
    } else {
        lemma_scan_after_heading(lines, pat, j, n - 1);
        lemma_scan_unfold(lines, pat, n - 1);
        assert(!heading_at(lines, pat, n - 1));
        assert(lines.subrange(j + 1, n - 1).push(lines[n - 1]) =~= lines.subrange(j + 1, n));
    }
}

proof fn lemma_close_keeps(done: Seq<(Seq<char>, Seq<char>)>, title: Seq<char>, ls: Seq<Seq<char>>, at_end: bool, x: (Seq<char>, Seq<char>))
    requires
        done.contains(x),
    ensures
        close_chapter(done, title, ls, at_end).contains(x),
{
    let r = close_chapter(done, title, ls, at_end);
    let i = choose|i: int| 0 <= i < done.len() && done[i] == x;
    if r != done {
        assert(r[i] == x);
    }
}

proof fn lemma_scan_done_grows(lines: Seq<Seq<char>>, pat: Seq<char>, n: int, m: int, x: (Seq<char>, Seq<char>))
    requires
        0 <= n <= m <= lines.len(),
        scan_chapters(lines.take(n), pat).done.contains(x),
    ensures
        scan_chapters(lines.take(m), pat).done.contains(x),
    decreases m - n,
{
    if n < m {
        lemma_scan_done_grows(lines, pat, n, m - 1, x);
        lemma_scan_unfold(lines, pat, m - 1);
        let st = scan_chapters(lines.take(m - 1), pat);
        if heading_at(lines, pat, m - 1) {
            lemma_close_keeps(st.done, st.title, st.lines, false, x);
        }
    }
}

/// Each heading titles its chapter: where line `j` of a text is a heading
/// and the next heading is line `e` (or the text ends there), the chapters
/// read from the text include the one titled with line `j`, trimmed, whose
/// text is the lines between, provided those are not blank. This holds for
/// the last chapter of the text as for any other.
pub proof fn law_heading_titles_its_chapter(content: Seq<char>, book_title: Seq<char>, j: int, e: int)
    requires
        0 <= j < e <= lines_spec(content).len(),
        heading_at(lines_spec(content), chapter_pattern_spec(book_title), j),
        forall|k: int| j < k < e ==> !heading_at(lines_spec(content), chapter_pattern_spec(book_title), k),
        e == lines_spec(content).len() || heading_at(lines_spec(content), chapter_pattern_spec(book_title), e),
        trim_spec(join_spec(lines_spec(content).subrange(j + 1, e), "\n"@)).len() > 0,
    ensures
        parse_chapters_spec(content, book_title).contains(
            (trim_spec(lines_spec(content)[j]), join_spec(lines_spec(content).subrange(j + 1, e), "\n"@)),
        ),
{
    let lines = lines_spec(content);
    let pat = chapter_pattern_spec(book_title);
    let x = (trim_spec(lines[j]), join_spec(lines.subrange(j + 1, e), "\n"@));
    let len = lines.len() as int;
    assert(lines.take(len) =~= lines);
    let st = scan_chapters(lines, pat);
    let chs = close_chapter(st.done, st.title, st.lines, true);
    if e < len {
        lemma_scan_after_heading(lines, pat, j, e);
        lemma_scan_unfold(lines, pat, e);
        let se = scan_chapters(lines.take(e), pat);
        assert(close_chapter(se.done, se.title, se.lines, false) == se.done.push(x));
        assert(se.done.push(x)[se.done.len() as int] == x);
        assert(scan_chapters(lines.take(e + 1), pat).done.contains(x));
        lemma_scan_done_grows(lines, pat, e + 1, len, x);
        lemma_close_keeps(st.done, st.title, st.lines, true, x);
    } else {
        lemma_scan_after_heading(lines, pat, j, len);
        assert(chs == st.done.push(x));
        assert(chs[st.done.len() as int] == x);
    }
    assert(chs.len() > 0);
}

/// The text before the first heading, when it is not blank, is read as a
/// chapter of its own, with an empty title.
pub proof fn law_text_before_first_heading(content: Seq<char>, book_title: Seq<char>, e: int)
    requires
        0 < e < lines_spec(content).len(),
        heading_at(lines_spec(content), chapter_pattern_spec(book_title), e),
        forall|k: int| 0 <= k < e ==> !heading_at(lines_spec(content), chapter_pattern_spec(book_title), k),
        trim_spec(join_spec(lines_spec(content).take(e), "\n"@)).len() > 0,
    ensures
        parse_chapters_spec(content, book_title).contains(
            (Seq::<char>::empty(), join_spec(lines_spec(content).take(e), "\n"@)),
        ),
{
    let lines = lines_spec(content);
    let pat = chapter_pattern_spec(book_title);
    let x = (Seq::<char>::empty(), join_spec(lines.take(e), "\n"@));
    let len = lines.len() as int;
    lemma_scan_no_heading(lines, pat, e);
    lemma_scan_unfold(lines, pat, e);
    let se = scan_chapters(lines.take(e), pat);
    assert(se.done =~= Seq::<(Seq<char>, Seq<char>)>::empty());
    assert(se.title =~= Seq::<char>::empty());
    assert(se.lines.len() > 0);
    assert(close_chapter(se.done, se.title, se.lines, false) == se.done.push(x));
    assert(se.done.push(x)[0] == x);
    assert(scan_chapters(lines.take(e + 1), pat).done.contains(x));
    lemma_scan_done_grows(lines, pat, e + 1, len, x);
    assert(lines.take(len) =~= lines);
    let st = scan_chapters(lines, pat);
    lemma_close_keeps(st.done, st.title, st.lines, true, x);
    assert(close_chapter(st.done, st.title, st.lines, true).len() > 0);
}

/// A text without headings that is not blank is read as one chapter, titled
/// `正文`, holding its lines.
pub proof fn law_text_without_headings(content: Seq<char>, book_title: Seq<char>)
    requires
        forall|k: int| 0 <= k < lines_spec(content).len() ==> !heading_at(lines_spec(content), chapter_pattern_spec(book_title), k),
        trim_spec(join_spec(lines_spec(content), "\n"@)).len() > 0,
    ensures
        parse_chapters_spec(content, book_title) == seq![("正文"@, join_spec(lines_spec(content), "\n"@))],
{
    let lines = lines_spec(content);
    let pat = chapter_pattern_spec(book_title);
    let len = lines.len() as int;
    lemma_scan_no_heading(lines, pat, len);
    assert(lines.take(len) =~= lines);
    if lines.len() == 0 {
        assert(join_spec(lines, "\n"@) == Seq::<char>::empty());
        assert(trim_spec(Seq::<char>::empty()).len() == 0);
    }
    let st = scan_chapters(lines, pat);
    assert(st.done =~= Seq::<(Seq<char>, Seq<char>)>::empty());
    assert(close_chapter(st.done, st.title, st.lines, true) =~= seq![("正文"@, join_spec(lines, "\n"@))]);
}

} // verus!

verus! {

/// The pieces joined back together, in order.
pub open spec fn concat_all(pieces: Seq<Seq<char>>) -> Seq<char>
    decreases pieces.len(),
{
    if pieces.len() == 0 { Seq::empty() } else { pieces[0] + concat_all(pieces.skip(1)) }
}

/// Cutting a chapter into sections loses nothing and adds nothing: the
/// sections' texts, in order, make up the chapter's text; every section but
/// the last is full, and none is longer than the section size.
pub proof fn law_sections_cover_content(s: Seq<char>, size: nat)
    requires
        size > 0,
    ensures
        concat_all(section_chunks(s, size)) == s,
        forall|k: int| 0 <= k < section_chunks(s, size).len() ==> #[trigger] section_chunks(s, size)[k].len() <= size,
        forall|k: int| 0 <= k < section_chunks(s, size).len() - 1 ==> #[trigger] section_chunks(s, size)[k].len() == size,
{
    if s.len() <= size {
        assert(seq![s].skip(1) =~= Seq::<Seq<char>>::empty());
        assert(concat_all(Seq::<Seq<char>>::empty()) == Seq::<char>::empty());
        assert(concat_all(seq![s]) == seq![s][0] + concat_all(seq![s].skip(1)));
        assert(s + Seq::<char>::empty() =~= s);
    } else {
        lemma_chunk_list(s, size);
    }
}

proof fn lemma_chunk_list(s: Seq<char>, size: nat)
    requires
        size > 0,
    ensures
        concat_all(chunk_list(s, size)) == s,
        forall|k: int| 0 <= k < chunk_list(s, size).len() ==> #[trigger] chunk_list(s, size)[k].len() <= size,
        forall|k: int| 0 <= k < chunk_list(s, size).len() - 1 ==> #[trigger] chunk_list(s, size)[k].len() == size,
    decreases s.len(),
{
    if s.len() == 0 {
        assert(s =~= Seq::<char>::empty());
    } else if s.len() <= size {
        assert(seq![s].skip(1) =~= Seq::<Seq<char>>::empty());
        assert(concat_all(Seq::<Seq<char>>::empty()) == Seq::<char>::empty());
        assert(concat_all(seq![s]) == seq![s][0] + concat_all(seq![s].skip(1)));
        assert(s + Seq::<char>::empty() =~= s);
    } else {
        let rest = s.skip(size as int);
        lemma_chunk_list(rest, size);
        let c = chunk_list(s, size);
        assert(c.skip(1) =~= chunk_list(rest, size));
        assert(concat_all(c) == c[0] + concat_all(c.skip(1)));
        assert(s.take(size as int) + rest =~= s);
        assert forall|k: int| 0 <= k < c.len() implies #[trigger] c[k].len() <= size by {
            if k > 0 {
                assert(c[k] == chunk_list(rest, size)[k - 1]);
            }
        }
        assert forall|k: int| 0 <= k < c.len() - 1 implies #[trigger] c[k].len() == size by {
            if k > 0 {
                assert(c[k] == chunk_list(rest, size)[k - 1]);
            }
        }
    }
}

} // verus!

verus! {

/// The book read from an EPUB file's metadata: its `title` (the file's stem
/// when there is none or it is empty) and `creator`, with one empty chapter
/// `正文`; the text itself is not read.
pub open spec fn epub_book_spec(title: Option<Seq<char>>, creator: Option<Seq<char>>, file_stem: Seq<char>) -> ParsedBookView {
    let t = match title { Some(t) => t, None => Seq::empty() };
    ParsedBookView {
        title: if t.len() == 0 { file_stem } else { t },
        author: match creator { Some(c) => c, None => Seq::empty() },
        introduce: Seq::empty(),
        category: Seq::empty(),
        chapters: seq![("正文"@, Seq::<char>::empty())],
    }
}

/// The book read from an EPUB file's first `title` and `creator` metadata
/// entries (see `epub_book_spec`).
pub fn epub_book(title: Option<String>, creator: Option<String>, file_stem: &str) -> (res: ParsedBook)
    ensures
        res@ == epub_book_spec(
            match title { Some(t) => Some(t@), None => None },
            match creator { Some(c) => Some(c@), None => None },
            file_stem@,
        ),
{
    let t = match title {
        Some(t) => t,
        None => String::new(),
    };
    let title = if t.as_str().is_empty() { file_stem.to_owned() } else { t };
    let author = match creator {
        Some(c) => c,
        None => String::new(),
    };
    let mut chapters: Vec<ParsedChapter> = Vec::new();
    chapters.push(ParsedChapter { title: "正文".to_owned(), content: String::new() });
    let res = ParsedBook { title, author, introduce: String::new(), category: String::new(), chapters };
    assert(parsed_views(res.chapters@) =~= seq![("正文"@, Seq::<char>::empty())]);
    res
}

} // verus!
