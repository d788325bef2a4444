//! The command line: its commands, and the argument checks and text
//! shaping the commands rely on.

use vstd::prelude::*;
use vstd::string::*;
use crate::numfmt::{parse_u32, parse_unsigned_spec};
use crate::search::{field_of_lower, SearchField};
use crate::text::{lowercase_of, all_ascii, ascii_lower};
use crate::text::{
    chars_of, concat, contains_spec, contains_str, from_chars, push_char, split_spec, split_str,
    str_views, trim_spec, trim_str,
};

verus! {

/// The parsed command line.
pub struct Cli {
    pub command: Commands,
}

/// The commands of the tool.
pub enum Commands {
    /// Download books by id range into the store.
    Download { id_range: String },
    /// Export one book (or all) as txt or epub.
    Export { id: Option<i64>, format: String, output: String },
    /// Full-text search.
    Search {
        keyword: String,
        exact: bool,
        field: String,
        limit: i64,
        offset: i64,
        prev: bool,
        next: bool,
        rebuild_index: bool,
    },
    /// Show a chapter of a stored book.
    Preview { id: i64, chapter_num: i64 },
    /// Import local txt/epub files.
    Import { path: String },
    /// Show or change the configuration.
    Config { action: ConfigAction },
}

/// What the `config` command does.
pub enum ConfigAction {
    /// Print the configuration.
    Show,
    /// Set one key.
    SetValue { key: String, value: String },
}

/// The id range given on the command line: `min-max` or a single id.
pub open spec fn parse_id_range_spec(r: Seq<char>) -> Result<(u32, u32), Seq<char>> {
    if contains_spec(r, "-"@) {
        let parts = split_spec(r, "-"@);
        if parts.len() != 2 {
            Err("ID范围格式错误，正确格式: minid-maxid (如: 10-100)"@)
        } else {
            match parse_unsigned_spec(trim_spec(parts[0]), u32::MAX as nat) {
                Err(_) => Err("起始ID必须是数字"@),
                Ok(s) => match parse_unsigned_spec(trim_spec(parts[1]), u32::MAX as nat) {
                    Err(_) => Err("结束ID必须是数字"@),
                    Ok(e) => if s > e { Err("起始ID不能大于结束ID"@) } else { Ok((s as u32, e as u32)) },
                },
            }
        }
    } else {
        match parse_unsigned_spec(r, u32::MAX as nat) {
            Err(_) => Err("ID必须是数字或范围格式 (如: 10-100)"@),
            Ok(v) => Ok((v as u32, v as u32)),
        }
    }
}

/// Reads an id range `min-max` (each side trimmed, `min <= max`) or a single
/// id `n`, which stands for `n-n`.
pub fn parse_id_range(range: &str) -> (res: Result<(u32, u32), String>)
    ensures
        match res {
            Ok(p) => parse_id_range_spec(range@) == Ok::<(u32, u32), Seq<char>>(p),
            Err(m) => parse_id_range_spec(range@) == Err::<(u32, u32), Seq<char>>(m@),
        },
{
    if contains_str(range, "-") {
        proof {
            reveal_strlit("-");
        }
        let parts = split_str(range, "-");
        if parts.len() != 2 {
            return Err("ID范围格式错误，正确格式: minid-maxid (如: 10-100)".to_owned());
        }
        assert(str_views(parts@)[0] == parts@[0]@);
        assert(str_views(parts@)[1] == parts@[1]@);
        let a = trim_str(parts[0].as_str());
        let start = match parse_u32(a.as_str()) {
            Ok(v) => v,
            Err(_) => return Err("起始ID必须是数字".to_owned()),
        };
        let b = trim_str(parts[1].as_str());
        let end = match parse_u32(b.as_str()) {
            Ok(v) => v,
            Err(_) => return Err("结束ID必须是数字".to_owned()),
        };
        if start > end {
            return Err("起始ID不能大于结束ID".to_owned());
        }
        Ok((start, end))
    } else {
        match parse_u32(range) {
            Ok(v) => Ok((v, v)),
            Err(_) => Err("ID必须是数字或范围格式 (如: 10-100)".to_owned()),
        }
    }
}

/// The error for an unknown search scope.
pub open spec fn search_field_error(s: Seq<char>) -> Seq<char> {
    "不支持的搜索范围: "@ + s + "，可选: all, title, author, content"@
}

/// The search scope named on the command line (`all`, `title`, `author` or
/// `content`, in any case).
pub fn parse_search_field(s: &str) -> (res: Result<SearchField, String>)
    ensures
        match res {
            Ok(f) => field_of_lower(lowercase_of(s@)) == Some(f),
            Err(m) => field_of_lower(lowercase_of(s@)) is None && m@ == search_field_error(s@),
        },
        all_ascii(s@) ==> match res {
            Ok(f) => field_of_lower(s@.map_values(|c: char| ascii_lower(c))) == Some(f),
            Err(_) => field_of_lower(s@.map_values(|c: char| ascii_lower(c))) is None,
        },
{
    match SearchField::from_str(s) {
        Some(f) => Ok(f),
        None => {
            let a = concat("不支持的搜索范围: ", s);
            Err(concat(a.as_str(), "，可选: all, title, author, content"))
        },
    }
}

/// `s` cut to at most `max_len` characters: when longer, its first
/// `max_len - 1` characters and `…`.
pub open spec fn truncate_spec(s: Seq<char>, max_len: nat) -> Seq<char> {
    if s.len() > max_len {
        s.take(max_len - 1).push('…')
    } else {
        s
    }
}

/// Shortens `s` for a table column of `max_len` characters. A string longer
/// than the column needs a column of at least one character.
pub fn truncate_str(s: &str, max_len: usize) -> (res: String)
    requires
        s@.len() > max_len ==> max_len > 0,
    ensures
        res@ == truncate_spec(s@, max_len as nat),
{
    let chars = chars_of(s);
    if chars.len() > max_len {
        let mut out: Vec<char> = Vec::new();
        let mut i: usize = 0;
        while i < max_len - 1
            invariant
                max_len > 0,
                i <= max_len - 1 < chars.len(),
                out@ == chars@.take(i as int),
            decreases max_len - 1 - i,
        {
            out.push(chars[i]);
            i = i + 1;
        }
        let mut r = from_chars(out.as_slice());
        push_char(&mut r, '…');
        r
    } else {
        s.to_owned()
    }
}

} // verus!

verus! {

/// Why a search is refused before it runs.
#[derive(Debug, Clone, Copy, PartialEq, Eq, Structural)]
pub enum SearchPlanError {
    /// The keyword has fewer than two characters.
    KeywordTooShort,
    /// Both `--prev` and `--next` were given.
    BothDirections,
}

impl SearchPlanError {
    /// The message shown for the refusal.
    pub fn message(&self) -> (res: String)
        ensures
            res@ == match *self {
                SearchPlanError::KeywordTooShort => "搜索关键词长度至少需要 2 个字符"@,
                SearchPlanError::BothDirections => "不能同时使用 --prev 和 --next 参数"@,
            },
    {
        match self {
            SearchPlanError::KeywordTooShort => "搜索关键词长度至少需要 2 个字符".to_owned(),
            SearchPlanError::BothDirections => "不能同时使用 --prev 和 --next 参数".to_owned(),
        }
    }
}

/// The offset moved one page back (not below 0) for `--prev`, one page on
/// for `--next`.
pub open spec fn moved_offset(limit: i64, offset: i64, prev: bool, next: bool) -> int {
    if prev {
        if offset - limit < 0 { 0 } else { offset - limit }
    } else if next {
        offset + limit
    } else {
        offset as int
    }
}

/// Whether the offset step of `moved_offset` stays within `i64`.
pub open spec fn offset_step_fits(limit: i64, offset: i64, prev: bool, next: bool) -> bool {
    &&& prev ==> i64::MIN <= offset - limit <= i64::MAX
    &&& (!prev && next) ==> offset + limit <= i64::MAX && offset + limit >= i64::MIN
}

/// The search's checks and page offset, in the order the command applies
/// them: a keyword of fewer than two characters is refused; `--prev` with
/// `--next` is refused; else the offset is moved by `moved_offset`.
pub open spec fn search_plan_spec(keyword: Seq<char>, limit: i64, offset: i64, prev: bool, next: bool) -> Result<int, SearchPlanError> {
    if keyword.len() < 2 {
        Err(SearchPlanError::KeywordTooShort)
    } else if prev && next {
        Err(SearchPlanError::BothDirections)
    } else {
        Ok(moved_offset(limit, offset, prev, next))
    }
}

/// Whether the search gets past its checks to the offset step.
pub open spec fn reaches_offset_step(keyword: Seq<char>, prev: bool, next: bool) -> bool {
    keyword.len() >= 2 && !(prev && next)
}

/// The search's checks and the offset it runs at (see `search_plan_spec`).
/// The offset step, when reached, must stay within `i64`.
pub fn search_plan(keyword: &str, limit: i64, offset: i64, prev: bool, next: bool) -> (res: Result<i64, SearchPlanError>)
    requires
        reaches_offset_step(keyword@, prev, next) ==> offset_step_fits(limit, offset, prev, next),
    ensures
        match (res, search_plan_spec(keyword@, limit, offset, prev, next)) {
            (Ok(a), Ok(b)) => a == b,
            (Err(a), Err(b)) => a == b,
            _ => false,
        },
{
    let cs = chars_of(keyword);
    if cs.len() < 2 {
        return Err(SearchPlanError::KeywordTooShort);
    }
    if prev && next {
        return Err(SearchPlanError::BothDirections);
    }
    if prev {
        let o = offset - limit;
        Ok(if o < 0 { 0 } else { o })
    } else if next {
        Ok(offset + limit)
    } else {
        Ok(offset)
    }
}

/// `search_plan` for any input: `None` when the offset step is reached and
/// would leave `i64`, which `search_plan` does not accept.
pub fn search_plan_checked(keyword: &str, limit: i64, offset: i64, prev: bool, next: bool)
    -> (res: Option<Result<i64, SearchPlanError>>)
    ensures
        res is None <==> reaches_offset_step(keyword@, prev, next) && !offset_step_fits(limit, offset, prev, next),
        res matches Some(r) ==> match (r, search_plan_spec(keyword@, limit, offset, prev, next)) {
            (Ok(a), Ok(b)) => a == b,
            (Err(a), Err(b)) => a == b,
            _ => false,
        },
{
    let fits = if chars_of(keyword).len() < 2 || (prev && next) {
        true
    } else if prev {
        offset.checked_sub(limit).is_some()
    } else if next {
        offset.checked_add(limit).is_some()
    } else {
        true
    };
    if fits { Some(search_plan(keyword, limit, offset, prev, next)) } else { None }
}

/// Integer division rounding toward zero, as Rust's `/` on signed integers.
pub open spec fn trunc_div(a: int, b: int) -> int {
    let q = (if a < 0 { -a } else { a }) / (if b < 0 { -b } else { b });
    if (a < 0) == (b < 0) { q } else { -q }
}

fn div_i64(a: i64, b: i64) -> (r: i64)
    requires
        b != 0,
        !(a == i64::MIN && b == -1),
    ensures
        r == trunc_div(a as int, b as int),
{
    if b > 0 {
        a / b
    } else if b == i64::MIN {
        if a == i64::MIN { 1 } else { 0 }
    } else {
        let nb: i64 = -b;
        let q = a / nb;
        proof {
            if nb == 1 {
                assert(q == a);
            } else {
                let m: int = if a < 0 { -(a as int) } else { a as int };
                assert(m / (nb as int) <= m) by (nonlinear_arith)
                    requires m >= 0, nb >= 2;
                assert(m / (nb as int) >= 0) by (nonlinear_arith)
                    requires m >= 0, nb >= 2;
                assert(m / (nb as int) < 0x8000_0000_0000_0000) by (nonlinear_arith)
                    requires 0 <= m <= 0x8000_0000_0000_0000, nb >= 2;
            }
        }
        -q
    }
}

/// The page line after search results.
#[derive(Debug, Clone, Copy, PartialEq, Eq)]
pub struct SearchFooter {
    pub current_page: i64,
    pub total_pages: i64,
    /// The offset of the previous page, shown from page 2 on.
    pub prev_offset: Option<i64>,
    /// The offset of the next page, shown before the last page.
    pub next_offset: Option<i64>,
}

/// The page `offset` falls on, from 1.
pub open spec fn current_page_spec(limit: i64, offset: i64) -> int {
    trunc_div(offset as int, limit as int) + 1
}

/// The number of pages of `total` results.
pub open spec fn total_pages_spec(total: i64, limit: i64) -> int {
    trunc_div(total + limit - 1, limit as int)
}

/// Whether the footer's arithmetic stays within `i64` and divides by a
/// non-zero page size (it is only computed when `total > limit`).
pub open spec fn footer_fits(total: i64, limit: i64, offset: i64) -> bool {
    total > limit ==> {
        &&& limit != 0
        &&& !(offset == i64::MIN && limit == -1)
        &&& current_page_spec(limit, offset) <= i64::MAX
        &&& i64::MIN <= total + limit <= i64::MAX
        &&& i64::MIN <= total + limit - 1
        &&& !(total + limit - 1 == i64::MIN && limit == -1)
        &&& current_page_spec(limit, offset) > 1 ==> i64::MIN <= offset - limit <= i64::MAX
        &&& current_page_spec(limit, offset) < total_pages_spec(total, limit) ==> i64::MIN <= offset + limit <= i64::MAX
    }
}

/// The page line after `total` results shown `limit` to a page from
/// `offset`: none when they fit one page (`total <= limit`); else the
/// current page, the page count, and the offsets of the previous page (from
/// page 2 on) and the next page (before the last page).
pub fn search_footer(total: i64, limit: i64, offset: i64) -> (res: Option<SearchFooter>)
    requires
        footer_fits(total, limit, offset),
    ensures
        match res {
            None => total <= limit,
            Some(f) => total > limit
                && f.current_page == current_page_spec(limit, offset)
                && f.total_pages == total_pages_spec(total, limit)
                && f.prev_offset == (if current_page_spec(limit, offset) > 1 { Some((offset - limit) as i64) } else { None })
                && f.next_offset == (if current_page_spec(limit, offset) < total_pages_spec(total, limit) {
                    Some((offset + limit) as i64)
                } else {
                    None
                }),
        },
{
    if total <= limit {
        return None;
    }
    let current_page = div_i64(offset, limit) + 1;
    let total_pages = div_i64(total + limit - 1, limit);
    let prev_offset = if current_page > 1 { Some(offset - limit) } else { None };
    let next_offset = if current_page < total_pages { Some(offset + limit) } else { None };
    Some(SearchFooter { current_page, total_pages, prev_offset, next_offset })
}

/// `search_footer` for any input: `None` when its arithmetic would overflow
/// or divide by zero, which `search_footer` does not accept.
pub fn search_footer_checked(total: i64, limit: i64, offset: i64) -> (res: Option<Option<SearchFooter>>)
    ensures
        res is None <==> !footer_fits(total, limit, offset),
        res matches Some(r) ==> match r {
            None => total <= limit,
            Some(f) => total > limit
                && f.current_page == current_page_spec(limit, offset)
                && f.total_pages == total_pages_spec(total, limit)
                && f.prev_offset == (if current_page_spec(limit, offset) > 1 { Some((offset - limit) as i64) } else { None })
                && f.next_offset == (if current_page_spec(limit, offset) < total_pages_spec(total, limit) {
                    Some((offset + limit) as i64)
                } else {
                    None
                }),
        },
{
    if total <= limit {
        return Some(search_footer(total, limit, offset));
    }
    if limit == 0 || (offset == i64::MIN && limit == -1) {
        return None;
    }
    let q = div_i64(offset, limit);
    if q == i64::MAX {
        return None;
    }
    let current_page = q + 1;
    let last = match total.checked_add(limit) {
        Some(v) => v.checked_sub(1),
        None => None,
    };
    let last = match last {
        Some(v) => v,
        None => return None,
    };
    if last == i64::MIN && limit == -1 {
        return None;
    }
    let total_pages = div_i64(last, limit);
    if current_page > 1 && offset.checked_sub(limit).is_none() {
        return None;
    }
    if current_page < total_pages && offset.checked_add(limit).is_none() {
        return None;
    }
    Some(search_footer(total, limit, offset))
}

} // verus!
