//! Reading the site's "latest updates" list pages: the books they list, and
//! the book pages a crawl goes on to.

use vstd::prelude::*;
use vstd::string::*;
use crate::ext::{html_in_each, select_in_each};
use crate::models::BookSummary;
use crate::numfmt::{digits_spec, parse_unsigned, parse_unsigned_spec, u64_to_dec};
use crate::stop::{after_page, EmptyPageTracker};
use crate::text::{
    chars_of, concat, from_chars, split_chars, split_spec, subrange_chars, trim_chars,
    trim_spec, views,
};

verus! {

/// The first element of a list page entry that matches a selector: its
/// `href` and its first text.
pub type Found = Option<(Option<Seq<char>>, Option<Seq<char>>)>;

/// Entry `i` of a per-item list, `None` past its end.
pub open spec fn at(s: Seq<Found>, i: int) -> Found {
    if 0 <= i < s.len() { s[i] } else { None }
}

/// The first text of the found element, if any.
pub open spec fn found_text(f: Found) -> Option<Seq<char>> {
    match f {
        Some((_, t)) => t,
        None => None,
    }
}

/// The `href` of the found element, if any.
pub open spec fn found_href(f: Found) -> Option<Seq<char>> {
    match f {
        Some((h, _)) => h,
        None => None,
    }
}

/// `s` without leading `/` characters.
pub open spec fn strip_leading_slashes(s: Seq<char>) -> Seq<char>
    decreases s.len(),
{
    if s.len() > 0 && s[0] == '/' { strip_leading_slashes(s.skip(1)) } else { s }
}

/// `s` without trailing `/` characters.
pub open spec fn strip_trailing_slashes(s: Seq<char>) -> Seq<char>
    decreases s.len(),
{
    if s.len() > 0 && s.last() == '/' { strip_trailing_slashes(s.drop_last()) } else { s }
}

/// `str::trim_matches('/')`.
pub open spec fn trim_slashes(s: Seq<char>) -> Seq<char> {
    strip_trailing_slashes(strip_leading_slashes(s))
}

fn trim_slashes_exec(s: &[char]) -> (res: Vec<char>)
    ensures
        res@ == trim_slashes(s@),
{
    let mut lo: usize = 0;
    assert(s@.skip(0) =~= s@);
    while lo < s.len() && s[lo] == '/'
        invariant
            lo <= s.len(),
            strip_leading_slashes(s@) == strip_leading_slashes(s@.skip(lo as int)),
        decreases s.len() - lo,
    {
        assert(s@.skip(lo as int).skip(1) =~= s@.skip(lo + 1));
        lo = lo + 1;
    }
    let ghost mid = s@.skip(lo as int);
    assert(strip_leading_slashes(s@) == mid);
    let mut hi: usize = s.len();
    assert(mid =~= s@.subrange(lo as int, hi as int));
    while hi > lo && s[hi - 1] == '/'
        invariant
            lo <= hi <= s.len(),
            mid == s@.skip(lo as int),
            strip_trailing_slashes(mid) == strip_trailing_slashes(s@.subrange(lo as int, hi as int)),
        decreases hi,
    {
        assert(s@.subrange(lo as int, hi as int).drop_last() =~= s@.subrange(lo as int, hi - 1));
        hi = hi - 1;
    }
    subrange_chars(s, lo, hi)
}

/// The `/`-separated parts of a book link, outer slashes removed.
pub open spec fn link_parts(href: Seq<char>) -> Seq<Seq<char>> {
    split_spec(trim_slashes(href), "/"@)
}

/// A number of a book link, 0 when it is not one.
pub open spec fn num_or_zero(s: Seq<char>, max: nat) -> nat {
    match parse_unsigned_spec(s, max) {
        Ok(v) => v,
        Err(_) => 0,
    }
}

/// The category of a list entry: the first of the candidate elements whose
/// trimmed text is not empty.
pub open spec fn category_spec(a: Found, b: Found, c: Found) -> Seq<char> {
    if found_text(a) is Some && trim_spec(found_text(a)->0).len() > 0 {
        trim_spec(found_text(a)->0)
    } else if found_text(b) is Some && trim_spec(found_text(b)->0).len() > 0 {
        trim_spec(found_text(b)->0)
    } else if found_text(c) is Some && trim_spec(found_text(c)->0).len() > 0 {
        trim_spec(found_text(c)->0)
    } else {
        Seq::empty()
    }
}

/// The per-entry lookups of a list page, one list per selector.
pub struct ListColumns {
    pub names: Seq<Found>,
    pub updates: Seq<Found>,
    pub authors: Seq<Found>,
    pub words: Seq<Found>,
    pub cats_a: Seq<Found>,
    pub cats_b: Seq<Found>,
    pub cats_c: Seq<Found>,
}

/// The abstract form of a book summary: (id, number, title, author,
/// category, word count, latest chapter URL).
pub type SummaryView = (u32, u32, Seq<char>, Seq<char>, Seq<char>, u32, Seq<char>);

impl View for BookSummary {
    type V = SummaryView;

    open spec fn view(&self) -> SummaryView {
        (self.book_id, self.book_num, self.title@, self.author@, self.category@, self.word_count, self.latest_chapter_url@)
    }
}

/// The summary of list entry `i`, `None` when its name link is missing or
/// has fewer than two parts (`/<num>/<id>/`).
pub open spec fn summary_at(cols: ListColumns, i: int) -> Option<SummaryView> {
    let name = at(cols.names, i);
    match found_href(name) {
        None => None,
        Some(href) => {
            let parts = link_parts(href);
            if parts.len() < 2 {
                None
            } else {
                let title = match found_text(name) { Some(t) => t, None => Seq::empty() };
                let latest = match found_href(at(cols.updates, i)) { Some(h) => h, None => Seq::empty() };
                let author = match found_text(at(cols.authors, i)) { Some(t) => trim_spec(t), None => Seq::empty() };
                let words = match found_text(at(cols.words, i)) { Some(t) => t, None => "0"@ };
                Some((
                    num_or_zero(parts[1], u32::MAX as nat) as u32,
                    num_or_zero(parts[0], u32::MAX as nat) as u32,
                    title,
                    author,
                    category_spec(at(cols.cats_a, i), at(cols.cats_b, i), at(cols.cats_c, i)),
                    num_or_zero(words, u32::MAX as nat) as u32,
                    latest,
                ))
            }
        },
    }
}

/// The summaries of the first `n` entries, skipping those without one.
pub open spec fn summaries_upto(cols: ListColumns, n: nat) -> Seq<SummaryView>
    decreases n,
{
    if n == 0 {
        Seq::empty()
    } else {
        let r = summaries_upto(cols, (n - 1) as nat);
        match summary_at(cols, n - 1) {
            Some(v) => r.push(v),
            None => r,
        }
    }
}

/// The list page's columns, each read from the entries `li.column-2`.
pub open spec fn list_columns(html: Seq<char>) -> ListColumns {
    let li = "li.column-2"@;
    let h = "href"@;
    ListColumns {
        names: html_in_each(html, li, "a.name"@, h),
        updates: html_in_each(html, li, ".update a"@, h),
        authors: html_in_each(html, li, ".info .author"@, h),
        words: html_in_each(html, li, ".info .words"@, h),
        cats_a: html_in_each(html, li, ".info .cat"@, h),
        cats_b: html_in_each(html, li, ".info .category"@, h),
        cats_c: html_in_each(html, li, ".info .tags"@, h),
    }
}

/// The views of found-element lists.
pub open spec fn found_views(v: Seq<Option<(Option<String>, Option<String>)>>) -> Seq<Found> {
    v.map_values(|x: Option<(Option<String>, Option<String>)>| match x {
        Some(p) => Some((
            match p.0 { Some(s) => Some(s@), None => None },
            match p.1 { Some(s) => Some(s@), None => None },
        )),
        None => None,
    })
}

fn found_at(v: &Vec<Option<(Option<String>, Option<String>)>>, i: usize) -> (res: (Option<String>, Option<String>))
    ensures
        (match res.0 { Some(s) => Some(s@), None => None }) == found_href(at(found_views(v@), i as int)),
        (match res.1 { Some(s) => Some(s@), None => None }) == found_text(at(found_views(v@), i as int)),
{
    if i < v.len() {
        match &v[i] {
            Some((h, t)) => (h.clone(), t.clone()),
            None => (None, None),
        }
    } else {
        (None, None)
    }
}

fn trimmed(s: &String) -> (res: String)
    ensures
        res@ == trim_spec(s@),
{
    let cs = chars_of(s.as_str());
    from_chars(trim_chars(cs.as_slice()).as_slice())
}

fn number_or_zero(s: &[char]) -> (res: u32)
    ensures
        res as nat == num_or_zero(s@, u32::MAX as nat),
{
    match parse_unsigned(s, u32::MAX as u64) {
        Ok(v) => v as u32,
        Err(_) => 0,
    }
}

fn category_of(a: Option<String>, b: Option<String>, c: Option<String>) -> (res: String)
    ensures
        res@ == category_spec(
            Some((None, match a { Some(s) => Some(s@), None => None })),
            Some((None, match b { Some(s) => Some(s@), None => None })),
            Some((None, match c { Some(s) => Some(s@), None => None })),
        ),
{
    if let Some(t) = &a {
        let x = trimmed(t);
        if !x.as_str().is_empty() {
            return x;
        }
    }
    if let Some(t) = &b {
        let x = trimmed(t);
        if !x.as_str().is_empty() {
            return x;
        }
    }
    if let Some(t) = &c {
        let x = trimmed(t);
        if !x.as_str().is_empty() {
            return x;
        }
    }
    String::new()
}

proof fn lemma_category_text_only(a: Found, b: Found, c: Found)
    ensures
        category_spec(a, b, c) == category_spec(
            Some((None, found_text(a))),
            Some((None, found_text(b))),
            Some((None, found_text(c))),
        ),
{
}

/// The books listed on a "latest updates" page: one summary per entry
/// `li.column-2` whose `a.name` link reads `/<num>/<id>/`, with title, latest
/// chapter link, author, category (from `.cat`, `.category` or `.tags`) and
/// word count (0 when missing or not a number).
pub fn parse_latest_list(html: &str) -> (res: Vec<BookSummary>)
    ensures
        res@.map_values(|b: BookSummary| b@) == summaries_upto(list_columns(html@), html_in_each(html@, "li.column-2"@, "a.name"@, "href"@).len()),
{
    let names = select_in_each(html, "li.column-2", "a.name", "href");
    let updates = select_in_each(html, "li.column-2", ".update a", "href");
    let authors = select_in_each(html, "li.column-2", ".info .author", "href");
    let words = select_in_each(html, "li.column-2", ".info .words", "href");
    let cats_a = select_in_each(html, "li.column-2", ".info .cat", "href");
    let cats_b = select_in_each(html, "li.column-2", ".info .category", "href");
    let cats_c = select_in_each(html, "li.column-2", ".info .tags", "href");
    let ghost cols = list_columns(html@);
    assert(found_views(names@) =~= cols.names);
    assert(found_views(updates@) =~= cols.updates);
    assert(found_views(authors@) =~= cols.authors);
    assert(found_views(words@) =~= cols.words);
    assert(found_views(cats_a@) =~= cols.cats_a);
    assert(found_views(cats_b@) =~= cols.cats_b);
    assert(found_views(cats_c@) =~= cols.cats_c);
    let slash: [char; 1] = ['/'];
    proof {
        reveal_strlit("/");
    }
    assert(slash@ =~= "/"@);
    let mut books: Vec<BookSummary> = Vec::new();
    let mut i: usize = 0;
    while i < names.len()
        invariant
            i <= names.len(),
            slash@ == "/"@,
            cols == list_columns(html@),
            found_views(names@) == cols.names,
            found_views(updates@) == cols.updates,
            found_views(authors@) == cols.authors,
            found_views(words@) == cols.words,
            found_views(cats_a@) == cols.cats_a,
            found_views(cats_b@) == cols.cats_b,
            found_views(cats_c@) == cols.cats_c,
            books@.map_values(|b: BookSummary| b@) == summaries_upto(cols, i as nat),
        decreases names.len() - i,
    {
        let (href, text) = found_at(&names, i);
        if let Some(h) = href {
            let hc = chars_of(h.as_str());
            let core = trim_slashes_exec(hc.as_slice());
            let parts = split_chars(core.as_slice(), &slash);
            if parts.len() >= 2 {
                assert(views(parts@)[0] == parts@[0]@);
                assert(views(parts@)[1] == parts@[1]@);
                let book_num = number_or_zero(parts[0].as_slice());
                let book_id = number_or_zero(parts[1].as_slice());
                let title = match text {
                    Some(t) => t,
                    None => String::new(),
                };
                let (upd, _) = found_at(&updates, i);
                let latest = match upd {
                    Some(u) => u,
                    None => String::new(),
                };
                let (_, au) = found_at(&authors, i);
                let author = match au {
                    Some(a) => trimmed(&a),
                    None => String::new(),
                };
                let (_, wt) = found_at(&words, i);
                let wc = match wt {
                    Some(w) => number_or_zero(chars_of(w.as_str()).as_slice()),
                    None => {
                        let z: [char; 1] = ['0'];
                        proof {
                            reveal_strlit("0");
                        }
                        assert(z@ =~= "0"@);
                        number_or_zero(&z)
                    },
                };
                let (_, ca) = found_at(&cats_a, i);
                let (_, cb) = found_at(&cats_b, i);
                let (_, cc) = found_at(&cats_c, i);
                proof {
                    lemma_category_text_only(at(cols.cats_a, i as int), at(cols.cats_b, i as int), at(cols.cats_c, i as int));
                }
                let category = category_of(ca, cb, cc);
                let summary = BookSummary {
                    book_id,
                    book_num,
                    title,
                    author,
                    category,
                    word_count: wc,
                    latest_chapter_url: latest,
                };
                let ghost before = books@;
                books.push(summary);
                assert(books@.map_values(|b: BookSummary| b@) =~= before.map_values(|b: BookSummary| b@).push(summary@));
            }
        }
        i = i + 1;
    }
    books
}

} // verus!

verus! {

/// A book page the crawl goes on to from a list page, with what it already
/// knows of the book.
#[derive(Debug, Clone)]
pub struct ListFollow {
    pub href: String,
    pub book_id: u64,
    pub book_num: u64,
    pub title: String,
}

/// The abstract form of a follow: (href, book id, book number, title).
pub type FollowView = (Seq<char>, u64, u64, Seq<char>);

impl View for ListFollow {
    type V = FollowView;

    open spec fn view(&self) -> FollowView {
        (self.href@, self.book_id, self.book_num, self.title@)
    }
}

/// The follow of list entry `i`: its name link `/<num>/<id>/` with a
/// non-empty (trimmed) title and a non-zero id.
pub open spec fn follow_at(names: Seq<Found>, i: int) -> Option<FollowView> {
    let name = at(names, i);
    match found_href(name) {
        None => None,
        Some(href) => {
            let parts = link_parts(href);
            if parts.len() < 2 {
                None
            } else {
                let id = num_or_zero(parts[1], u64::MAX as nat);
                let num = num_or_zero(parts[0], u64::MAX as nat);
                let title = match found_text(name) { Some(t) => trim_spec(t), None => Seq::empty() };
                if title.len() == 0 || id == 0 { None } else { Some((href, id as u64, num as u64, title)) }
            }
        },
    }
}

/// The follows of the first `n` entries.
pub open spec fn follows_upto(names: Seq<Found>, n: nat) -> Seq<FollowView>
    decreases n,
{
    if n == 0 {
        Seq::empty()
    } else {
        let r = follows_upto(names, (n - 1) as nat);
        match follow_at(names, n - 1) {
            Some(f) => r.push(f),
            None => r,
        }
    }
}

/// The follows of a list page.
pub open spec fn list_follows_spec(html: Seq<char>) -> Seq<FollowView> {
    let names = html_in_each(html, "li.column-2"@, "a.name"@, "href"@);
    follows_upto(names, names.len())
}

fn number64_or_zero(s: &[char]) -> (res: u64)
    ensures
        res as nat == num_or_zero(s@, u64::MAX as nat),
{
    match parse_unsigned(s, u64::MAX) {
        Ok(v) => v,
        Err(_) => 0,
    }
}

/// The book pages a crawl follows from a list page: each entry `li.column-2`
/// whose `a.name` link reads `/<num>/<id>/` with a non-zero id and a title.
pub fn list_page_follows(html: &str) -> (res: Vec<ListFollow>)
    ensures
        res@.map_values(|f: ListFollow| f@) == list_follows_spec(html@),
{
    let names = select_in_each(html, "li.column-2", "a.name", "href");
    let ghost nv = found_views(names@);
    assert(nv =~= html_in_each(html@, "li.column-2"@, "a.name"@, "href"@));
    let slash: [char; 1] = ['/'];
    proof {
        reveal_strlit("/");
    }
    assert(slash@ =~= "/"@);
    let mut out: Vec<ListFollow> = Vec::new();
    let mut i: usize = 0;
    while i < names.len()
        invariant
            i <= names.len(),
            slash@ == "/"@,
            nv == found_views(names@),
            out@.map_values(|f: ListFollow| f@) == follows_upto(nv, i as nat),
        decreases names.len() - i,
    {
        let (href, text) = found_at(&names, i);
        if let Some(h) = href {
            let hc = chars_of(h.as_str());
            let core = trim_slashes_exec(hc.as_slice());
            let parts = split_chars(core.as_slice(), &slash);
            if parts.len() >= 2 {
                assert(views(parts@)[0] == parts@[0]@);
                assert(views(parts@)[1] == parts@[1]@);
                let book_num = number64_or_zero(parts[0].as_slice());
                let book_id = number64_or_zero(parts[1].as_slice());
                let title = match text {
                    Some(t) => trimmed(&t),
                    None => String::new(),
                };
                if !title.as_str().is_empty() && book_id != 0 {
                    let f = ListFollow { href: h, book_id, book_num, title };
                    let ghost before = out@;
                    out.push(f);
                    assert(out@.map_values(|f: ListFollow| f@) =~= before.map_values(|f: ListFollow| f@).push(f@));
                }
            }
        }
        i = i + 1;
    }
    out
}

/// Handles a list page: its follows, and the stop tracker told whether the
/// page was empty (no follow) or not.
pub fn list_page_step(html: &str, tracker: &mut EmptyPageTracker) -> (res: Vec<ListFollow>)
    ensures
        res@.map_values(|f: ListFollow| f@) == list_follows_spec(html@),
        final(tracker)@ == (after_page(old(tracker)@.0, list_follows_spec(html@).len() == 0), old(tracker)@.1),
{
    let follows = list_page_follows(html);
    if follows.len() > 0 {
        tracker.record_non_empty();
    } else {
        tracker.record_empty();
    }
    follows
}

} // verus!

verus! {

/// The last of the parts that is a `u32` number.
pub open spec fn last_number(parts: Seq<Seq<char>>) -> Option<u32>
    decreases parts.len(),
{
    if parts.len() == 0 {
        None
    } else {
        match parse_unsigned_spec(parts.last(), u32::MAX as nat) {
            Ok(v) => Some(v as u32),
            Err(_) => last_number(parts.drop_last()),
        }
    }
}

/// The book id in a book URL such as `https://host/52/52024/`: the last
/// `/`-separated part that is a number, once the URL is trimmed and its
/// trailing slashes dropped.
pub open spec fn book_id_from_url_spec(url: Seq<char>) -> Option<u32> {
    last_number(split_spec(strip_trailing_slashes(trim_spec(url)), "/"@))
}

/// Reads the book id from a book URL (see `book_id_from_url_spec`).
pub fn parse_book_id_from_url(url: &str) -> (res: Option<u32>)
    ensures
        res == book_id_from_url_spec(url@),
{
    let cs = chars_of(url);
    let t = trim_chars(cs.as_slice());
    let mut hi: usize = t.len();
    assert(t@.subrange(0, hi as int) =~= t@);
    while hi > 0 && t[hi - 1] == '/'
        invariant
            hi <= t.len(),
            strip_trailing_slashes(t@) == strip_trailing_slashes(t@.subrange(0, hi as int)),
        decreases hi,
    {
        assert(t@.subrange(0, hi as int).drop_last() =~= t@.subrange(0, hi - 1));
        hi = hi - 1;
    }
    let core = subrange_chars(t.as_slice(), 0, hi);
    assert(strip_trailing_slashes(core@) == core@);
    let slash: [char; 1] = ['/'];
    proof {
        reveal_strlit("/");
    }
    assert(slash@ =~= "/"@);
    let parts = split_chars(core.as_slice(), &slash);
    let ghost pv = views(parts@);
    assert(pv == split_spec(strip_trailing_slashes(trim_spec(url@)), "/"@));
    let mut k: usize = parts.len();
    assert(pv.take(k as int) =~= pv);
    while k > 0
        invariant
            k <= parts.len(),
            pv == views(parts@),
            pv == split_spec(strip_trailing_slashes(trim_spec(url@)), "/"@),
            last_number(pv) == last_number(pv.take(k as int)),
        decreases k,
    {
        assert(pv.take(k as int).last() == parts@[k - 1]@);
        assert(pv.take(k as int).drop_last() =~= pv.take(k - 1));
        match parse_unsigned(parts[k - 1].as_slice(), u32::MAX as u64) {
            Ok(v) => {
                return Some(v as u32);
            },
            Err(_) => {},
        }
        k = k - 1;
    }
    None
}

} // verus!

verus! {

/// The URL of list page `page` of the latest updates.
pub open spec fn list_page_url_spec(root: Seq<char>, page: nat) -> Seq<char> {
    root + "/shuku/0-lastupdate-0-"@ + digits_spec(page, 10) + ".html"@
}

/// The URL of list page `page` of the latest updates.
pub fn list_page_url(root_url: &str, page: u32) -> (res: String)
    ensures
        res@ == list_page_url_spec(root_url@, page as nat),
{
    let mut url = concat(root_url, "/shuku/0-lastupdate-0-");
    url.append(u64_to_dec(page as u64).as_str());
    url.append(".html");
    url
}

/// The pages a crawl starts from: list pages 1 to `pages_limit`, in order.
pub fn start_urls(root_url: &str, pages_limit: u32) -> (res: Vec<String>)
    ensures
        res@.len() == pages_limit,
        forall|k: int| 0 <= k < pages_limit ==> #[trigger] res@[k]@ == list_page_url_spec(root_url@, (k + 1) as nat),
{
    let mut out: Vec<String> = Vec::new();
    let mut p: u32 = 0;
    while p < pages_limit
        invariant
            p <= pages_limit,
            out@.len() == p,
            forall|k: int| 0 <= k < p ==> #[trigger] out@[k]@ == list_page_url_spec(root_url@, (k + 1) as nat),
        decreases pages_limit - p,
    {
        let ghost before = out@;
        out.push(list_page_url(root_url, p + 1));
        assert forall|k: int| 0 <= k < p + 1 implies #[trigger] out@[k]@ == list_page_url_spec(root_url@, (k + 1) as nat) by {
            if k < p {
                assert(out@[k] == before[k]);
            }
        }
        p = p + 1;
    }
    out
}

/// The headers sent with every page request besides the user agent, the
/// site's root as referrer.
pub open spec fn request_headers_spec(root: Seq<char>) -> Seq<(Seq<char>, Seq<char>)> {
    seq![
        ("Accept"@, "text/html,application/xhtml+xml,application/xml;q=0.9,*/*;q=0.8"@),
        ("Accept-Language"@, "zh-CN,zh;q=0.9,en;q=0.8"@),
        ("Referer"@, root),
        ("Connection"@, "keep-alive"@),
        ("Upgrade-Insecure-Requests"@, "1"@),
    ]
}

/// The headers sent with every page request besides the user agent (see
/// `request_headers_spec`).
pub fn request_headers(root_url: &str) -> (res: Vec<(String, String)>)
    ensures
        res@.map_values(|h: (String, String)| (h.0@, h.1@)) == request_headers_spec(root_url@),
{
    let mut out: Vec<(String, String)> = Vec::new();
    out.push(("Accept".to_owned(), "text/html,application/xhtml+xml,application/xml;q=0.9,*/*;q=0.8".to_owned()));
    out.push(("Accept-Language".to_owned(), "zh-CN,zh;q=0.9,en;q=0.8".to_owned()));
    out.push(("Referer".to_owned(), root_url.to_owned()));
    out.push(("Connection".to_owned(), "keep-alive".to_owned()));
    out.push(("Upgrade-Insecure-Requests".to_owned(), "1".to_owned()));
    assert(out@.map_values(|h: (String, String)| (h.0@, h.1@)) =~= request_headers_spec(root_url@));
    out
}

} // verus!
