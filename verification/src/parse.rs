//! Parsing of the site's pages: book metadata, chapter lists, section pages,
//! and the recovery of obfuscated section text.

use vstd::prelude::*;
use vstd::string::*;
use vstd::std_specs::cmp::PartialEqSpec;
use crate::text::{
    byte_len, byte_len_is, byte_prefix, byte_prefix_spec, chars_of, concat, from_chars, split_chars,
    split_spec, trim_chars, trim_spec, views,
};
use crate::numfmt::{digits_spec, u64_to_dec, u64_to_hex};
use crate::ext::{regex_replace_all, regex_replaced};

verus! {

/// A parse failure, with the message shown to the user.
#[derive(Debug, Clone)]
pub struct ParseError {
    pub message: String,
}

impl ParseError {
    /// The error message.
    pub fn message(&self) -> (res: String)
        ensures
            res@ == self.message@,
    {
        self.message.clone()
    }
}

fn err_msg(m: String) -> (res: ParseError)
    ensures
        res.message@ == m@,
{
    ParseError { message: m }
}

/// A book's metadata as read from its detail page.
#[derive(Debug, Clone)]
pub struct Book {
    pub num: usize,
    pub id: usize,
    pub title: String,
    pub filename: String,
    pub page: u8,
    pub author: String,
    pub category: String,
    pub introduce: String,
    pub likes: u32,
    pub count: u32,
}

/// One page of a chapter: its URL and, once fetched, its text.
#[derive(Debug, Clone)]
pub struct Section {
    pub url: String,
    pub content: Option<String>,
}

/// A chapter: title, URL and, once known, its sections.
#[derive(Debug, Clone)]
pub struct Chapter {
    pub title: String,
    pub url: String,
    pub sections: Option<Vec<Section>>,
}

/// Abstract section: (url, content).
pub type SectionView = (Seq<char>, Option<Seq<char>>);

/// Abstract chapter: (title, url, sections).
pub type ChapterView = (Seq<char>, Seq<char>, Option<Seq<SectionView>>);

impl View for Section {
    type V = SectionView;

    open spec fn view(&self) -> SectionView {
        (self.url@, match self.content {
            Some(c) => Some(c@),
            None => None,
        })
    }
}

impl View for Chapter {
    type V = ChapterView;

    open spec fn view(&self) -> ChapterView {
        (self.title@, self.url@, match self.sections {
            Some(v) => Some(v@.map_values(|s: Section| s@)),
            None => None,
        })
    }
}

fn section_eq(a: &Section, b: &Section) -> (r: bool)
    ensures
        r == (a@ == b@),
{
    if !crate::text::str_eq(a.url.as_str(), b.url.as_str()) {
        return false;
    }
    match (&a.content, &b.content) {
        (Some(x), Some(y)) => crate::text::str_eq(x.as_str(), y.as_str()),
        (None, None) => true,
        _ => false,
    }
}

fn sections_eq(a: &Vec<Section>, b: &Vec<Section>) -> (r: bool)
    ensures
        r == (a@.map_values(|s: Section| s@) == b@.map_values(|s: Section| s@)),
{
    let ghost av = a@.map_values(|s: Section| s@);
    let ghost bv = b@.map_values(|s: Section| s@);
    if a.len() != b.len() {
        assert(av.len() != bv.len());
        return false;
    }
    let mut i: usize = 0;
    while i < a.len()
        invariant
            i <= a.len() == b.len(),
            av == a@.map_values(|s: Section| s@),
            bv == b@.map_values(|s: Section| s@),
            forall|k: int| 0 <= k < i ==> av[k] == bv[k],
        decreases a.len() - i,
    {
        if !section_eq(&a[i], &b[i]) {
            assert(av[i as int] != bv[i as int]);
            return false;
        }
        i = i + 1;
    }
    assert(av =~= bv);
    true
}

impl PartialEq for Section {
    fn eq(&self, other: &Self) -> (r: bool) {
        section_eq(self, other)
    }
}

impl vstd::std_specs::cmp::PartialEqSpecImpl for Section {
    open spec fn obeys_eq_spec() -> bool {
        true
    }

    open spec fn eq_spec(&self, other: &Section) -> bool {
        self@ == other@
    }
}

impl PartialEq for Chapter {
    fn eq(&self, other: &Self) -> (r: bool) {
        if !crate::text::str_eq(self.title.as_str(), other.title.as_str()) {
            return false;
        }
        if !crate::text::str_eq(self.url.as_str(), other.url.as_str()) {
            return false;
        }
        match (&self.sections, &other.sections) {
            (Some(x), Some(y)) => sections_eq(x, y),
            (None, None) => true,
            _ => false,
        }
    }
}

impl vstd::std_specs::cmp::PartialEqSpecImpl for Chapter {
    open spec fn obeys_eq_spec() -> bool {
        true
    }

    open spec fn eq_spec(&self, other: &Chapter) -> bool {
        self@ == other@
    }
}

impl Section {
    /// A section at `url` whose text is not fetched yet.
    pub fn new(url: String) -> (res: Section)
        ensures
            res@ == (url@, None::<Seq<char>>),
    {
        Section { url, content: None }
    }
}

/// How a book is shown: title, author, category, likes, word count and
/// introduction, each followed by a blank line.
pub open spec fn book_display_spec(b: Book) -> Seq<char> {
    "书名："@ + b.title@ + "\n\n作者: "@ + b.author@ + "\n\n分类: "@ + b.category@ + "\n\n喜欢: "@
        + digits_spec(b.likes as nat, 10) + "\n\n字数: "@ + digits_spec(b.count as nat, 10) + "\n\n简介: "@
        + b.introduce@ + "\n\n"@
}

impl Book {
    /// The book as shown to the user (see `book_display_spec`).
    pub fn display_text(&self) -> (res: String)
        ensures
            res@ == book_display_spec(*self),
    {
        let mut out = "书名：".to_owned();
        out.append(self.title.as_str());
        out.append("\n\n作者: ");
        out.append(self.author.as_str());
        out.append("\n\n分类: ");
        out.append(self.category.as_str());
        out.append("\n\n喜欢: ");
        out.append(u64_to_dec(self.likes as u64).as_str());
        out.append("\n\n字数: ");
        out.append(u64_to_dec(self.count as u64).as_str());
        out.append("\n\n简介: ");
        out.append(self.introduce.as_str());
        out.append("\n\n");
        out
    }
}

/// The number of sections of a chapter (none while they are not known).
pub open spec fn sections_in(c: Chapter) -> nat {
    match c.sections {
        Some(v) => v@.len(),
        None => 0,
    }
}

/// The number of sections over all chapters.
pub open spec fn section_total(chapters: Seq<Chapter>) -> nat
    decreases chapters.len(),
{
    if chapters.len() == 0 {
        0
    } else {
        section_total(chapters.drop_last()) + sections_in(chapters.last())
    }
}

proof fn lemma_section_total_prefix(chapters: Seq<Chapter>, i: int)
    requires
        0 <= i <= chapters.len(),
    ensures
        section_total(chapters.take(i)) <= section_total(chapters),
    decreases chapters.len() - i,
{
    if i < chapters.len() {
        lemma_section_total_prefix(chapters, i + 1);
        assert(chapters.take(i + 1).drop_last() =~= chapters.take(i));
    } else {
        assert(chapters.take(i) =~= chapters);
    }
}

/// The number of sections over all chapters, for sizing a progress display;
/// it must fit in `u64`.
pub fn get_chapter_section_num(chapters: &Vec<Chapter>) -> (res: u64)
    requires
        section_total(chapters@) <= u64::MAX,
    ensures
        res == section_total(chapters@),
{
    let mut num: u64 = 0;
    let mut i: usize = 0;
    while i < chapters.len()
        invariant
            i <= chapters.len(),
            section_total(chapters@) <= u64::MAX,
            num == section_total(chapters@.take(i as int)),
        decreases chapters.len() - i,
    {
        proof {
            assert(chapters@.take(i + 1).drop_last() =~= chapters@.take(i as int));
            lemma_section_total_prefix(chapters@, i + 1);
        }
        let n: usize = match &chapters[i].sections {
            Some(v) => v.len(),
            None => 0,
        };
        num = num + n as u64;
        i = i + 1;
    }
    assert(chapters@.take(chapters.len() as int) =~= chapters@);
    num
}

impl Chapter {
    /// A chapter at `href` titled `title`, sections not yet known.
    pub fn new(href: String, title: String) -> (res: Chapter)
        ensures
            res@ == (title@, href@, None::<Seq<SectionView>>),
    {
        Chapter { url: href, title, sections: None }
    }
}

/// Characters not allowed in file names.
pub open spec fn is_illegal_filename_char(c: char) -> bool {
    c == '\\' || c == '/' || c == ':' || c == '*' || c == '?' || c == '"' || c == '<' || c == '>' || c == '|'
}

/// `name` with every character not allowed in file names replaced by `_`.
pub open spec fn replace_illegal_spec(name: Seq<char>) -> Seq<char> {
    name.map_values(|c: char| if is_illegal_filename_char(c) { '_' } else { c })
}

/// The cleaned file name: illegal characters replaced by `_`, then cut to its
/// first 200 bytes of UTF-8.
pub open spec fn clean_filename_spec(name: Seq<char>) -> Seq<char> {
    byte_prefix_spec(replace_illegal_spec(name), 200)
}

/// Cutting at byte 200 falls between two characters (or the name is shorter).
pub open spec fn clean_filename_cuttable(name: Seq<char>) -> bool {
    let m = replace_illegal_spec(name);
    byte_len(m) >= 200 ==> byte_len(byte_prefix_spec(m, 200)) == 200
}

proof fn lemma_byte_prefix_whole(s: Seq<char>, n: int)
    requires
        byte_len(s) <= n,
    ensures
        byte_prefix_spec(s, n) == s,
    decreases s.len(),
{
    if s.len() > 0 {
        assert(s.drop_first() =~= s.skip(1));
        lemma_byte_prefix_whole(s.skip(1), n - width(s[0]));
        assert(seq![s[0]] + s.skip(1) =~= s);
    }
}

/// Replaces characters not allowed in file names by `_` and cuts the name to
/// 200 bytes. A cut that would split a character is not accepted.
pub fn clean_filename(name: &str) -> (res: String)
    requires
        clean_filename_cuttable(name@),
    ensures
        res@ == clean_filename_spec(name@),
        byte_len(replace_illegal_spec(name@)) < 200 ==> res@ == replace_illegal_spec(name@),
        byte_len(replace_illegal_spec(name@)) >= 200 ==> byte_len(res@) == 200,
{
    let m = replace_illegal(name);
    let p = byte_prefix(m.as_slice(), 200);
    proof {
        if byte_len(m@) < 200 {
            lemma_byte_prefix_whole(m@, 200);
        }
    }
    from_chars(p.as_slice())
}

fn replace_illegal(name: &str) -> (res: Vec<char>)
    ensures
        res@ == replace_illegal_spec(name@),
{
    let cs = chars_of(name);
    let mut m: Vec<char> = Vec::new();
    let mut i: usize = 0;
    while i < cs.len()
        invariant
            i <= cs.len(),
            cs@ == name@,
            m@ == replace_illegal_spec(name@).take(i as int),
        decreases cs.len() - i,
    {
        let c = cs[i];
        let d = if c == '\\' || c == '/' || c == ':' || c == '*' || c == '?' || c == '"' || c == '<' || c == '>' || c == '|' {
            '_'
        } else {
            c
        };
        m.push(d);
        assert(m@ =~= replace_illegal_spec(name@).take(i + 1));
        i = i + 1;
    }
    assert(m@ =~= replace_illegal_spec(name@));
    m
}

proof fn lemma_byte_prefix_props(s: Seq<char>, n: int)
    requires
        n >= 0,
    ensures
        byte_prefix_spec(s, n).len() <= s.len(),
        byte_prefix_spec(s, n) == s.take(byte_prefix_spec(s, n).len() as int),
        byte_len(byte_prefix_spec(s, n)) <= n,
        byte_prefix_spec(s, n).len() < s.len() ==> byte_len(s) > n,
    decreases s.len(),
{
    let p = byte_prefix_spec(s, n);
    if s.len() == 0 {
        assert(s.take(0) =~= s);
        assert(byte_len(Seq::<char>::empty()) == 0) by {
            assert(vstd::utf8::encode_utf8(Seq::<char>::empty()) =~= Seq::<u8>::empty());
        }
    } else {
        crate::text::lemma_byte_len_step(s);
        if width(s[0]) > n {
            assert(p =~= Seq::<char>::empty());
            assert(s.take(0) =~= p);
            assert(byte_len(Seq::<char>::empty()) == 0) by {
                assert(vstd::utf8::encode_utf8(Seq::<char>::empty()) =~= Seq::<u8>::empty());
            }
        } else {
            let r = s.skip(1);
            lemma_byte_prefix_props(r, n - width(s[0]));
            let q = byte_prefix_spec(r, n - width(s[0]));
            assert(p == seq![s[0]] + q);
            assert(p =~= s.take(p.len() as int));
            if p.len() > 0 {
                crate::text::lemma_byte_len_step(p);
                assert(p.skip(1) =~= q);
            }
        }
    }
}

/// Whether `clean_filename` accepts `name`: its cut at byte 200 does not
/// split a character.
pub fn clean_filename_is_cuttable(name: &str) -> (r: bool)
    ensures
        r == clean_filename_cuttable(name@),
{
    let m = replace_illegal(name);
    let p = byte_prefix(m.as_slice(), 200);
    proof {
        lemma_byte_prefix_props(m@, 200);
    }
    if byte_len_is(p.as_slice(), 200) {
        return true;
    }
    proof {
        if p@.len() == m@.len() {
            assert(m@.take(m@.len() as int) =~= m@);
        }
    }
    p.len() == m.len()
}

use crate::text::width;

/// `s.split(pattern).nth(1)`, trimmed; `None` when there is no second piece.
pub open spec fn split_second_spec(s: Seq<char>, pattern: Seq<char>) -> Option<Seq<char>> {
    if pattern.len() == 0 {
        if s.len() > 0 { Some(trim_spec(seq![s[0]])) } else { None }
    } else {
        let parts = split_spec(s, pattern);
        if parts.len() >= 2 { Some(trim_spec(parts[1])) } else { None }
    }
}

/// The trimmed text between the first and second occurrence of `pattern`
/// (to the end if there is no second); the error `解析错误` if `pattern` does
/// not occur.
pub fn split_second(s: &str, pattern: &str) -> (res: Result<String, ParseError>)
    ensures
        match res {
            Ok(v) => split_second_spec(s@, pattern@) == Some(v@),
            Err(e) => split_second_spec(s@, pattern@) is None && e.message@ == "解析错误"@,
        },
{
    let cs = chars_of(s);
    let ps = chars_of(pattern);
    if ps.len() == 0 {
        if cs.len() > 0 {
            let one: Vec<char> = vec![cs[0]];
            assert(one@ =~= seq![cs@[0]]);
            let t = trim_chars(one.as_slice());
            return Ok(from_chars(t.as_slice()));
        }
        return Err(err_msg("解析错误".to_owned()));
    }
    let parts = split_chars(cs.as_slice(), ps.as_slice());
    if parts.len() >= 2 {
        assert(views(parts@)[1] == parts@[1]@);
        let t = trim_chars(parts[1].as_slice());
        Ok(from_chars(t.as_slice()))
    } else {
        Err(err_msg("解析错误".to_owned()))
    }
}

/// `\u` followed by the lowercase hex digits of the code point, without
/// leading zeros (so `'A'` gives `\u41`).
pub open spec fn char_to_unicode_spec(c: char) -> Seq<char> {
    "\\u"@ + digits_spec(c as u32 as nat, 16)
}

/// The key under which the font dictionary stores a character.
pub fn char_to_unicode(c: char) -> (res: String)
    ensures
        res@ == char_to_unicode_spec(c),
{
    let h = u64_to_hex(c as u32 as u64);
    concat("\\u", h.as_str())
}

/// `s` with every element dropped whose view equals that of an earlier one.
pub open spec fn dedup_spec<T: View>(s: Seq<T>) -> Seq<T>
    decreases s.len(),
{
    if s.len() == 0 {
        Seq::empty()
    } else {
        let d = dedup_spec(s.drop_last());
        if s.drop_last().map_values(|x: T| x@).contains(s.last()@) { d } else { d.push(s.last()) }
    }
}

proof fn lemma_push_contains<V>(s: Seq<V>, a: V, v: V)
    ensures
        s.push(a).contains(v) == (s.contains(v) || a == v),
{
    if s.contains(v) {
        let k = choose|k: int| 0 <= k < s.len() && s[k] == v;
        assert(s.push(a)[k] == v);
    }
    if a == v {
        assert(s.push(a)[s.len() as int] == v);
    }
    if s.push(a).contains(v) {
        let k = choose|k: int| 0 <= k < s.len() + 1 && s.push(a)[k] == v;
        if k < s.len() {
            assert(s[k] == v);
        }
    }
}

proof fn lemma_dedup_views<T: View>(s: Seq<T>, v: T::V)
    ensures
        dedup_spec(s).map_values(|x: T| x@).contains(v) == s.map_values(|x: T| x@).contains(v),
    decreases s.len(),
{
    if s.len() > 0 {
        let p = s.drop_last();
        let l = s.last();
        lemma_dedup_views(p, v);
        let sv = s.map_values(|x: T| x@);
        let pv = p.map_values(|x: T| x@);
        assert(sv =~= pv.push(l@));
        lemma_push_contains(pv, l@, v);
        let d = dedup_spec(p);
        let dv = d.map_values(|x: T| x@);
        if pv.contains(l@) {
            assert(dedup_spec(s) == d);
            if l@ == v {
                lemma_dedup_views(p, l@);
            }
        } else {
            assert(dedup_spec(s) == d.push(l));
            assert(d.push(l).map_values(|x: T| x@) =~= dv.push(l@));
            lemma_push_contains(dv, l@, v);
        }
    }
}

/// `s` with every element dropped that equals an earlier one.
pub open spec fn dedup_seq<V>(s: Seq<V>) -> Seq<V>
    decreases s.len(),
{
    if s.len() == 0 {
        Seq::empty()
    } else {
        let d = dedup_seq(s.drop_last());
        if s.drop_last().contains(s.last()) { d } else { d.push(s.last()) }
    }
}

/// Deduplicating by views and then taking views is taking views and then
/// deduplicating.
pub proof fn lemma_dedup_views_map<T: View>(s: Seq<T>)
    ensures
        dedup_spec(s).map_values(|x: T| x@) == dedup_seq(s.map_values(|x: T| x@)),
    decreases s.len(),
{
    if s.len() > 0 {
        let p = s.drop_last();
        lemma_dedup_views_map(p);
        assert(s.map_values(|x: T| x@).drop_last() =~= p.map_values(|x: T| x@));
        let d = dedup_spec(p);
        assert(d.push(s.last()).map_values(|x: T| x@) =~= d.map_values(|x: T| x@).push(s.last()@));
    }
}

/// `Section`'s `==` compares views.
pub proof fn lemma_section_obeys_view_eq()
    ensures
        vstd::laws_eq::obeys_view_eq::<Section>(),
{
    reveal(vstd::laws_eq::obeys_view_eq);
}

/// `Chapter`'s `==` compares views.
pub proof fn lemma_chapter_obeys_view_eq()
    ensures
        vstd::laws_eq::obeys_view_eq::<Chapter>(),
{
    reveal(vstd::laws_eq::obeys_view_eq);
}

/// Removes later duplicates, keeping the first occurrence of each value, in
/// the order the values came. The element type's `==` must agree with equality of
/// views.
pub fn arr_dup_rem_linked<T: PartialEq + View>(arr: Vec<T>) -> (res: Vec<T>)
    requires
        vstd::laws_eq::obeys_view_eq::<T>(),
    ensures
        res@ == dedup_spec(arr@),
{
    assert(<T as PartialEqSpec>::obeys_eq_spec() && forall|a: T, b: T| (#[trigger] a.eq_spec(&b)) <==> (a@ == b@)) by {
        reveal(vstd::laws_eq::obeys_view_eq);
    }
    let ghost orig = arr@;
    let mut src = arr;
    let mut uniq: Vec<T> = Vec::new();
    let n = src.len();
    assert(orig.skip(0) =~= orig);
    while src.len() > 0
        invariant
            n == orig.len(),
            src@.len() <= n,
            src@ == orig.skip(n - src@.len()),
            uniq@ == dedup_spec(orig.take(n - src@.len())),
            <T as PartialEqSpec>::obeys_eq_spec(),
            forall|a: T, b: T| (#[trigger] a.eq_spec(&b)) <==> (a@ == b@),
        decreases src.len(),
    {
        let ghost i = n - src@.len();
        let ghost s0 = src@;
        let x = src.remove(0);
        assert(x == orig[i]);
        assert(src@ =~= orig.skip(i + 1));
        let ghost pre = orig.take(i);
        assert(orig.take(i + 1).drop_last() =~= pre);
        assert(orig.take(i + 1).last() == x);
        let mut found = false;
        let mut k: usize = 0;
        while k < uniq.len()
            invariant
                k <= uniq.len(),
                <T as PartialEqSpec>::obeys_eq_spec(),
                forall|a: T, b: T| (#[trigger] a.eq_spec(&b)) <==> (a@ == b@),
                found == exists|j: int| 0 <= j < k && uniq@[j]@ == x@,
            decreases uniq.len() - k,
        {
            if uniq[k] == x {
                found = true;
            }
            k = k + 1;
        }
        proof {
            lemma_dedup_views(pre, x@);
            let uv = uniq@.map_values(|y: T| y@);
            if found {
                let j = choose|j: int| 0 <= j < uniq@.len() && uniq@[j]@ == x@;
                assert(uv[j] == x@);
            } else {
                assert(!uv.contains(x@));
            }
        }
        if !found {
            uniq.push(x);
        }
    }
    assert(orig.take(n as int) =~= orig);
    uniq
}

/// Runs of `\r`/`\n` replaced by a blank line: `[\r\n]+` becomes `\n\n`.
pub open spec fn format_novel_content_spec(content: Seq<char>) -> Seq<char> {
    regex_replaced("[\\r\\n]+"@, content, "\n\n"@)
}

/// Normalises line breaks: every run of `\r` and `\n` becomes `\n\n`.
pub fn format_novel_content(content: &str) -> (res: String)
    ensures
        res@ == format_novel_content_spec(content@),
{
    regex_replace_all("[\\r\\n]+", content, "\n\n")
}

} // verus!

verus! {

/// Removing duplicates keeps exactly the values of the input, each once, and
/// doing it again changes nothing.
pub proof fn law_dedup_keeps_each_value_once<V>(s: Seq<V>)
    ensures
        forall|v: V| dedup_seq(s).contains(v) <==> s.contains(v),
        dedup_seq(s).no_duplicates(),
        dedup_seq(dedup_seq(s)) == dedup_seq(s),
    decreases s.len(),
{
    if s.len() > 0 {
        let p = s.drop_last();
        let l = s.last();
        law_dedup_keeps_each_value_once(p);
        assert(s =~= p.push(l));
        assert forall|v: V| dedup_seq(s).contains(v) <==> s.contains(v) by {
            lemma_push_contains(p, l, v);
            if !p.contains(l) {
                lemma_push_contains(dedup_seq(p), l, v);
            } else if v == l {
                assert(dedup_seq(p).contains(l));
            }
        }
        if !p.contains(l) {
            let d = dedup_seq(p);
            assert(!d.contains(l));
            assert forall|a: int, b: int| 0 <= a < d.push(l).len() && 0 <= b < d.push(l).len() && a != b
                implies d.push(l)[a] != d.push(l)[b] by {
                if a == d.len() {
                    assert(d[b] == d.push(l)[b]);
                } else if b == d.len() {
                    assert(d[a] == d.push(l)[a]);
                }
            }
        }
        lemma_dedup_of_unique(dedup_seq(s));
    }
}

proof fn lemma_dedup_of_unique<V>(s: Seq<V>)
    requires
        s.no_duplicates(),
    ensures
        dedup_seq(s) == s,
    decreases s.len(),
{
    if s.len() > 0 {
        let p = s.drop_last();
        assert(p.no_duplicates());
        lemma_dedup_of_unique(p);
        assert(!p.contains(s.last())) by {
            if p.contains(s.last()) {
                let k = choose|k: int| 0 <= k < p.len() && p[k] == s.last();
                assert(s[k] == s[s.len() - 1]);
            }
        }
        assert(p.push(s.last()) =~= s);
    }
}

/// A cleaned file name holds none of the characters not allowed in file
/// names, and at most 200 bytes.
pub proof fn law_clean_filename_is_legal(name: Seq<char>)
    ensures
        forall|i: int| 0 <= i < clean_filename_spec(name).len() ==> !is_illegal_filename_char(#[trigger] clean_filename_spec(name)[i]),
        byte_len(clean_filename_spec(name)) <= 200,
{
    let m = replace_illegal_spec(name);
    lemma_byte_prefix_props(m, 200);
    let p = clean_filename_spec(name);
    assert forall|i: int| 0 <= i < p.len() implies !is_illegal_filename_char(#[trigger] p[i]) by {
        assert(p[i] == m.take(p.len() as int)[i]);
    }
}

} // verus!
