//! The checks and small decisions of the web API: request validation,
//! clamped query parameters, chapter navigation and search parameters.

use vstd::prelude::*;
use vstd::string::*;
use crate::models::CrawlStatus;
use crate::search::SearchField;
use crate::text::{replace_spec, replace_str, str_eq, trim_spec, trim_str};

verus! {

/// Why a reported reading session is refused, if it is.
pub open spec fn session_error_spec(book_id: i64, duration_sec: i64) -> Option<Seq<char>> {
    if duration_sec <= 0 {
        Some("duration_sec 必须大于 0"@)
    } else if book_id <= 0 {
        Some("book_id 无效"@)
    } else {
        None
    }
}

/// Checks a reported reading session: the duration must be positive and the
/// book id valid.
pub fn validate_session(book_id: i64, duration_sec: i64) -> (res: Result<(), String>)
    ensures
        match res {
            Ok(()) => session_error_spec(book_id, duration_sec) is None,
            Err(m) => session_error_spec(book_id, duration_sec) == Some(m@),
        },
{
    if duration_sec <= 0 {
        return Err("duration_sec 必须大于 0".to_owned());
    }
    if book_id <= 0 {
        return Err("book_id 无效".to_owned());
    }
    Ok(())
}

/// Checks a new reading goal: neither count may be negative.
pub fn validate_goal(daily_minutes: i64, daily_chapters: i64) -> (res: Result<(), String>)
    ensures
        match res {
            Ok(()) => daily_minutes >= 0 && daily_chapters >= 0,
            Err(m) => (daily_minutes < 0 || daily_chapters < 0)
                && m@ == "daily_minutes 和 daily_chapters 不能为负数"@,
        },
{
    if daily_minutes < 0 || daily_chapters < 0 {
        return Err("daily_minutes 和 daily_chapters 不能为负数".to_owned());
    }
    Ok(())
}

/// `v` (or `default` when absent) clamped to `lo..=hi`.
pub open spec fn clamp_spec(v: Option<i64>, default: i64, lo: i64, hi: i64) -> i64 {
    let x = match v { Some(x) => x, None => default };
    if x < lo { lo } else if x > hi { hi } else { x }
}

/// A query parameter with its default, clamped to `lo..=hi` (`lo <= hi`).
pub fn clamp_param(v: Option<i64>, default: i64, lo: i64, hi: i64) -> (res: i64)
    requires
        lo <= hi,
    ensures
        res == clamp_spec(v, default, lo, hi),
        lo <= res <= hi,
{
    let x = match v {
        Some(x) => x,
        None => default,
    };
    if x < lo {
        lo
    } else if x > hi {
        hi
    } else {
        x
    }
}

/// The page of a listing: 1 by default, at least 1.
pub open spec fn page_param(page: Option<i64>) -> int {
    let p = match page { Some(p) => p, None => 1 };
    if p < 1 { 1 } else { p as int }
}

/// The page size of a listing: 20 by default, at most 100.
pub open spec fn limit_param(limit: Option<i64>) -> int {
    let l = match limit { Some(l) => l, None => 20 };
    if l > 100 { 100 } else { l as int }
}

/// The (page size, offset) of a page of the book list or of search results:
/// the offset skips the pages before it. The offset must fit in `i64`.
pub fn list_paging(page: Option<i64>, limit: Option<i64>) -> (res: (i64, i64))
    requires
        i64::MIN <= (page_param(page) - 1) * limit_param(limit) <= i64::MAX,
    ensures
        res.0 == limit_param(limit),
        res.1 == (page_param(page) - 1) * limit_param(limit),
{
    let p0: i64 = match page { Some(p) => p, None => 1 };
    let p: i64 = if p0 < 1 { 1 } else { p0 };
    let l0: i64 = match limit { Some(l) => l, None => 20 };
    let l: i64 = if l0 > 100 { 100 } else { l0 };
    (l, (p - 1) * l)
}

/// The days of the reading timeline: 7 by default, between 1 and 365.
pub fn timeline_days(days: Option<i64>) -> (res: i32)
    ensures
        res as i64 == clamp_spec(days, 7, 1, 365),
{
    clamp_param(days, 7, 1, 365) as i32
}

/// The number of reading-history rows: 20 by default, between 1 and 100.
pub fn history_limit(limit: Option<i64>) -> (res: i64)
    ensures
        res == clamp_spec(limit, 20, 1, 100),
{
    clamp_param(limit, 20, 1, 100)
}

/// The number of crawl-log lines: 100 by default, between 1 and 500.
pub fn log_limit(limit: Option<i64>) -> (res: i64)
    ensures
        res == clamp_spec(limit, 100, 1, 500),
{
    clamp_param(limit, 100, 1, 500)
}

/// The largest order below `order`, if any.
pub open spec fn prev_order_spec(orders: Seq<i64>, order: i64) -> Option<i64>
    decreases orders.len(),
{
    if orders.len() == 0 {
        None
    } else {
        let r = prev_order_spec(orders.drop_last(), order);
        let o = orders.last();
        if o < order {
            match r {
                Some(p) => if o > p { Some(o) } else { Some(p) },
                None => Some(o),
            }
        } else {
            r
        }
    }
}

/// The smallest order above `order`, if any.
pub open spec fn next_order_spec(orders: Seq<i64>, order: i64) -> Option<i64>
    decreases orders.len(),
{
    if orders.len() == 0 {
        None
    } else {
        let r = next_order_spec(orders.drop_last(), order);
        let o = orders.last();
        if o > order {
            match r {
                Some(p) => if o < p { Some(o) } else { Some(p) },
                None => Some(o),
            }
        } else {
            r
        }
    }
}

/// The chapters before and after chapter `order` among the book's chapter
/// orders: the closest order below and the closest above.
pub fn neighbor_orders(orders: &Vec<i64>, order: i64) -> (res: (Option<i64>, Option<i64>))
    ensures
        res.0 == prev_order_spec(orders@, order),
        res.1 == next_order_spec(orders@, order),
{
    let mut prev: Option<i64> = None;
    let mut next: Option<i64> = None;
    let mut i: usize = 0;
    while i < orders.len()
        invariant
            i <= orders.len(),
            prev == prev_order_spec(orders@.take(i as int), order),
            next == next_order_spec(orders@.take(i as int), order),
        decreases orders.len() - i,
    {
        assert(orders@.take(i + 1).drop_last() =~= orders@.take(i as int));
        let o = orders[i];
        if o < order {
            prev = match prev {
                Some(p) => if o > p { Some(o) } else { Some(p) },
                None => Some(o),
            };
        }
        if o > order {
            next = match next {
                Some(p) => if o < p { Some(o) } else { Some(p) },
                None => Some(o),
            };
        }
        i = i + 1;
    }
    assert(orders@.take(orders.len() as int) =~= orders@);
    (prev, next)
}

/// A book with pages listed is still being published.
pub fn book_status(page_count: i64) -> (res: String)
    ensures
        res@ == if page_count > 0 { "连载中"@ } else { "已完结"@ },
{
    if page_count > 0 { "连载中".to_owned() } else { "已完结".to_owned() }
}

/// The search keyword of a request: the `q` parameter trimmed, when it is
/// present and not blank.
pub fn search_keyword(q: Option<&str>) -> (res: Option<String>)
    ensures
        match res {
            Some(k) => q matches Some(s) && k@ == trim_spec(s@) && k@.len() > 0,
            None => !(q matches Some(s) && trim_spec(s@).len() > 0),
        },
{
    match q {
        Some(s) => {
            let t = trim_str(s);
            if t.as_str().is_empty() { None } else { Some(t) }
        },
        None => None,
    }
}

/// The search scope of a request: `title`, `author` or `content` exactly;
/// anything else searches all fields.
pub fn web_search_field(field: Option<&str>) -> (res: SearchField)
    ensures
        res == match field {
            Some(f) => if f@ == "title"@ {
                SearchField::Title
            } else if f@ == "author"@ {
                SearchField::Author
            } else if f@ == "content"@ {
                SearchField::Content
            } else {
                SearchField::All
            },
            None => SearchField::All,
        },
{
    match field {
        Some(f) => {
            if str_eq(f, "title") {
                SearchField::Title
            } else if str_eq(f, "author") {
                SearchField::Author
            } else if str_eq(f, "content") {
                SearchField::Content
            } else {
                SearchField::All
            }
        },
        None => SearchField::All,
    }
}

/// A highlighted snippet with its terminal colour codes turned back into the
/// markers `>>>` and `<<<`.
pub fn plain_snippet(snippet: &str) -> (res: String)
    ensures
        res@ == replace_spec(replace_spec(snippet@, "\x1b[33m"@, ">>>"@), "\x1b[0m"@, "<<<"@),
{
    let a = replace_str(snippet, "\x1b[33m", ">>>");
    replace_str(a.as_str(), "\x1b[0m", "<<<")
}

/// A manual crawl trigger: refused while a crawl runs; otherwise the crawl is
/// marked running at once, so that a second trigger is refused.
pub fn claim_crawl(status: &mut CrawlStatus) -> (res: bool)
    ensures
        res == !old(status).running,
        final(status).running,
        final(status).current_page == old(status).current_page,
        final(status).pages_limit == old(status).pages_limit,
        final(status).message@ == old(status).message@,
{
    if status.running {
        return false;
    }
    status.running = true;
    true
}

} // verus!
