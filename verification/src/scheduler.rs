//! The crawl scheduler's decisions: whether a triggered crawl runs, how it
//! is configured, and how the shown status changes when it starts and ends.

use vstd::prelude::*;
use vstd::string::*;
use crate::models::{BookRecord, ChapterRecord, CrawlStatus, SectionRecord};
use crate::parse::{Book, Chapter, Section};
use crate::pipeline::{BookRecordView, ChapterRecordView, SectionRecordView};
use crate::numfmt::{digits_spec, u64_to_dec};
use crate::text::{concat, str_eq};

verus! {

/// What a crawl trigger leads to.
#[derive(Debug)]
pub enum CrawlDecision {
    /// Nothing is done (crawling switched off, or a crawl is running).
    Skip,
    /// The trigger is refused with this message.
    Refuse(String),
    /// A crawl of this many list pages starts.
    Run(u32),
}

/// Scheduled (incremental) crawl: skipped when `cron.enabled` is false or a
/// crawl is running; else it runs over `cron.pages_limit` list pages (50 when
/// unset, the setting truncated to `u32`).
pub open spec fn crawl_once_spec(cron_enabled: Option<bool>, running: bool, pages_limit: Option<i64>) -> CrawlDecision {
    if !(match cron_enabled { Some(b) => b, None => true }) {
        CrawlDecision::Skip
    } else if running {
        CrawlDecision::Skip
    } else {
        CrawlDecision::Run(match pages_limit { Some(n) => n as u32, None => 50 })
    }
}

/// The decision of a scheduled crawl trigger, from the settings
/// `cron.enabled` and `cron.pages_limit` (as read, `None` when unset) and
/// whether a crawl is running.
pub fn crawl_once_decision(cron_enabled: Option<bool>, running: bool, pages_limit: Option<i64>) -> (res: CrawlDecision)
    ensures
        match (res, crawl_once_spec(cron_enabled, running, pages_limit)) {
            (CrawlDecision::Skip, CrawlDecision::Skip) => true,
            (CrawlDecision::Run(a), CrawlDecision::Run(b)) => a == b,
            _ => false,
        },
{
    let enabled = match cron_enabled {
        Some(b) => b,
        None => true,
    };
    if !enabled {
        return CrawlDecision::Skip;
    }
    if running {
        return CrawlDecision::Skip;
    }
    CrawlDecision::Run(match pages_limit {
        Some(n) => n as u32,
        None => 50,
    })
}

/// The message of a refused full crawl.
pub open spec fn full_disabled_message() -> Seq<char> {
    "全量爬取未启用（crawl.full_enabled=false）"@
}

/// Full crawl: refused when `crawl.full_enabled` is false; skipped while a
/// crawl runs; else it runs over `crawl.full_pages_limit` list pages (5000
/// when unset).
pub open spec fn crawl_full_spec(full_enabled: Option<bool>, running: bool, pages_limit: Option<i64>) -> Option<Option<u32>> {
    if !(match full_enabled { Some(b) => b, None => true }) {
        None
    } else if running {
        Some(None)
    } else {
        Some(Some(match pages_limit { Some(n) => n as u32, None => 5000 }))
    }
}

/// The decision of a full crawl trigger (`None` in the spec is a refusal,
/// `Some(None)` a skip, `Some(Some(n))` a run over `n` pages).
pub fn crawl_full_decision(full_enabled: Option<bool>, running: bool, pages_limit: Option<i64>) -> (res: CrawlDecision)
    ensures
        match (res, crawl_full_spec(full_enabled, running, pages_limit)) {
            (CrawlDecision::Refuse(m), None) => m@ == full_disabled_message(),
            (CrawlDecision::Skip, Some(None)) => true,
            (CrawlDecision::Run(a), Some(Some(b))) => a == b,
            _ => false,
        },
{
    let enabled = match full_enabled {
        Some(b) => b,
        None => true,
    };
    if !enabled {
        return CrawlDecision::Refuse("全量爬取未启用（crawl.full_enabled=false）".to_owned());
    }
    if running {
        return CrawlDecision::Skip;
    }
    CrawlDecision::Run(match pages_limit {
        Some(n) => n as u32,
        None => 5000,
    })
}

/// A crawl never starts while another one runs, whichever way it is triggered.
pub proof fn law_crawls_exclude_each_other(
    cron_enabled: Option<bool>,
    full_enabled: Option<bool>,
    once_limit: Option<i64>,
    full_limit: Option<i64>,
)
    ensures
        !(crawl_once_spec(cron_enabled, true, once_limit) is Run),
        !(crawl_full_spec(full_enabled, true, full_limit) matches Some(Some(_))),
{
}

/// The status message while a crawl in `mode` (`增量` or `全量`) runs.
pub open spec fn start_message(mode: Seq<char>, pages_limit: u32) -> Seq<char> {
    mode + "爬取中：开始抓取列表页（前 "@ + digits_spec(pages_limit as nat, 10) + " 页）"@
}

/// Marks a crawl over `pages_limit` list pages as started: running, counters
/// reset, the start message set; the time of the last run is kept.
pub fn begin_crawl(status: &mut CrawlStatus, pages_limit: u32, mode: &str)
    ensures
        final(status).running,
        final(status).current_page == 0,
        final(status).pages_limit == pages_limit,
        final(status).books_found == 0,
        final(status).books_downloaded == 0,
        final(status).books_failed == 0,
        final(status).books_skipped == 0,
        final(status).last_run@ == old(status).last_run@,
        final(status).message@ == start_message(mode@, pages_limit),
{
    status.running = true;
    status.current_page = 0;
    status.pages_limit = pages_limit;
    status.books_found = 0;
    status.books_downloaded = 0;
    status.books_failed = 0;
    status.books_skipped = 0;
    let a = concat(mode, "爬取中：开始抓取列表页（前 ");
    let b = concat(a.as_str(), u64_to_dec(pages_limit as u64).as_str());
    status.message = concat(b.as_str(), " 页）");
}

/// `new` is `old` with a crawl over `pages_limit` list pages in `mode`
/// started (see `begin_crawl`).
pub open spec fn begun(old: CrawlStatus, new: CrawlStatus, pages_limit: u32, mode: Seq<char>) -> bool {
    &&& new.running
    &&& new.current_page == 0
    &&& new.pages_limit == pages_limit
    &&& new.books_found == 0
    &&& new.books_downloaded == 0
    &&& new.books_failed == 0
    &&& new.books_skipped == 0
    &&& new.last_run@ == old.last_run@
    &&& new.message@ == start_message(mode, pages_limit)
}

/// The list pages a trigger starts a crawl over, if it starts one: a full
/// crawl (`full`) or a scheduled one, with its enabling setting and page
/// limit, while a crawl is running or not.
pub open spec fn trigger_spec(full: bool, enabled: Option<bool>, running: bool, pages_limit: Option<i64>) -> Option<u32> {
    if full {
        match crawl_full_spec(enabled, running, pages_limit) {
            Some(Some(n)) => Some(n),
            _ => None,
        }
    } else {
        match crawl_once_spec(enabled, running, pages_limit) {
            CrawlDecision::Run(n) => Some(n),
            _ => None,
        }
    }
}

/// One trigger, tested and acted on in one step: when it starts a crawl over
/// `n` pages, `started` is `Some(n)` and the status shows the crawl begun;
/// otherwise `started` is `None` and the status is unchanged.
pub open spec fn trigger_step(
    full: bool,
    enabled: Option<bool>,
    pages_limit: Option<i64>,
    old: CrawlStatus,
    new: CrawlStatus,
    started: Option<u32>,
) -> bool {
    match trigger_spec(full, enabled, old.running, pages_limit) {
        Some(n) => started == Some(n) && begun(old, new, n, if full { "全量"@ } else { "增量"@ }),
        None => started is None && new == old,
    }
}

/// A scheduled crawl trigger, tested and started in one step on the shared
/// status (see `trigger_step`): it starts only when crawling is enabled and
/// no crawl runs, and then marks the status running at once.
pub fn start_crawl_once(status: &mut CrawlStatus, cron_enabled: Option<bool>, pages_limit: Option<i64>) -> (started: Option<u32>)
    ensures
        trigger_step(false, cron_enabled, pages_limit, *old(status), *final(status), started),
        (started is Some) == (cron_enabled != Some(false) && !old(status).running),
        started is Some ==> final(status).running,
        started is None ==> *final(status) == *old(status),
{
    match crawl_once_decision(cron_enabled, status.running, pages_limit) {
        CrawlDecision::Run(n) => {
            begin_crawl(status, n, "增量");
            Some(n)
        },
        _ => None,
    }
}

/// A full crawl trigger, tested and started in one step on the shared status
/// (see `trigger_step` and `crawl_full_decision`): refused when full crawls
/// are switched off, skipped while a crawl runs, else started at once.
pub fn start_crawl_full(status: &mut CrawlStatus, full_enabled: Option<bool>, pages_limit: Option<i64>) -> (res: CrawlDecision)
    ensures
        match (res, crawl_full_spec(full_enabled, old(status).running, pages_limit)) {
            (CrawlDecision::Refuse(m), None) => m@ == full_disabled_message(),
            (CrawlDecision::Skip, Some(None)) => true,
            (CrawlDecision::Run(a), Some(Some(b))) => a == b,
            _ => false,
        },
        trigger_step(true, full_enabled, pages_limit, *old(status), *final(status), match res {
            CrawlDecision::Run(n) => Some(n),
            _ => None,
        }),
        (res is Run) == (full_enabled != Some(false) && !old(status).running),
        res is Run ==> final(status).running,
        !(res is Run) ==> *final(status) == *old(status),
{
    let d = crawl_full_decision(full_enabled, status.running, pages_limit);
    if let CrawlDecision::Run(n) = d {
        begin_crawl(status, n, "全量");
    }
    d
}

/// Of two triggers acted on one after the other on the same status (the
/// shared status is locked for each step), at most one starts a crawl,
/// whatever their kinds and settings; once the first started, the second
/// leaves the status as it is; and a trigger that finds a crawl running
/// starts nothing and changes nothing.
pub proof fn law_triggers_start_at_most_one_crawl(
    first_full: bool,
    first_enabled: Option<bool>,
    first_limit: Option<i64>,
    second_full: bool,
    second_enabled: Option<bool>,
    second_limit: Option<i64>,
    s0: CrawlStatus,
    s1: CrawlStatus,
    s2: CrawlStatus,
    first: Option<u32>,
    second: Option<u32>,
)
    requires
        trigger_step(first_full, first_enabled, first_limit, s0, s1, first),
        trigger_step(second_full, second_enabled, second_limit, s1, s2, second),
    ensures
        !(first is Some && second is Some),
        first is Some ==> second is None && s2 == s1,
        s0.running ==> first is None && s1 == s0,
{
}

/// Marks the crawl as finished at `now` (`%Y-%m-%d %H:%M:%S`), with the
/// engine's `summary`; the counters stay as the crawl left them.
pub fn finish_crawl(status: &mut CrawlStatus, now: &str, summary: &str)
    ensures
        !final(status).running,
        final(status).last_run@ == now@,
        final(status).message@ == "wisp 爬取完成: "@ + summary@,
        final(status).current_page == old(status).current_page,
        final(status).pages_limit == old(status).pages_limit,
        final(status).books_found == old(status).books_found,
        final(status).books_downloaded == old(status).books_downloaded,
        final(status).books_failed == old(status).books_failed,
        final(status).books_skipped == old(status).books_skipped,
{
    status.running = false;
    status.last_run = now.to_owned();
    status.message = concat("wisp 爬取完成: ", summary);
}

/// How pages are fetched.
#[derive(Debug, Clone, Copy, PartialEq, Eq, Structural)]
pub enum FetchMode {
    Http,
    Dynamic,
    Stealth,
    Auto,
}

/// The fetch mode named by `wisp.fetch_mode`: `http`, `dynamic`, `stealth`,
/// anything else `Auto`.
pub open spec fn fetch_mode_spec(s: Seq<char>) -> FetchMode {
    if s == "http"@ {
        FetchMode::Http
    } else if s == "dynamic"@ {
        FetchMode::Dynamic
    } else if s == "stealth"@ {
        FetchMode::Stealth
    } else {
        FetchMode::Auto
    }
}

/// Reads the `wisp.fetch_mode` setting.
pub fn fetch_mode_of(s: &str) -> (res: FetchMode)
    ensures
        res == fetch_mode_spec(s@),
{
    if str_eq(s, "http") {
        FetchMode::Http
    } else if str_eq(s, "dynamic") {
        FetchMode::Dynamic
    } else if str_eq(s, "stealth") {
        FetchMode::Stealth
    } else {
        FetchMode::Auto
    }
}

/// The proxy used: `wisp.proxy.url` when it is set, non-empty, and
/// `wisp.proxy.enabled` is true (false when unset).
pub fn proxy_choice(url: Option<String>, enabled: Option<bool>) -> (res: Option<String>)
    ensures
        match res {
            Some(u) => url matches Some(v) && v@ == u@ && v@.len() > 0 && enabled == Some(true),
            None => !(url matches Some(v) && v@.len() > 0 && enabled == Some(true)),
        },
{
    match url {
        Some(u) => {
            if !u.as_str().is_empty() && matches!(enabled, Some(true)) {
                Some(u)
            } else {
                None
            }
        },
        None => None,
    }
}

/// The settings a crawl engine is run with, read from the configuration.
#[derive(Debug)]
pub struct CrawlSettings {
    /// Pages fetched at once (`cron.book_concurrency`, 4 when unset).
    pub concurrency: usize,
    /// How pages are fetched (`wisp.fetch_mode`, `auto` when unset).
    pub fetch_mode: FetchMode,
    /// The proxy (see `proxy_choice`).
    pub proxy: Option<String>,
    /// The most pages fetched (`wisp.max_pages`), unbounded when unset.
    pub max_pages: Option<usize>,
    /// Seconds between progress saves (`wisp.checkpoint_interval_secs`), when positive.
    pub checkpoint_interval_secs: Option<u64>,
    /// Wait between requests in milliseconds (`wisp.download_delay_ms`, 500 when unset).
    pub download_delay_ms: u64,
    /// Whether `robots.txt` is obeyed (`wisp.obey_robots`, false when unset).
    pub obey_robots: bool,
    /// Whether the browser runs without a window (`wisp.stealth.headless`, false when unset).
    pub headless: bool,
    /// Seconds a browser check may take (`wisp.stealth.challenge_timeout_secs`, 60 when unset).
    pub challenge_timeout_secs: u64,
    /// Whether the browser acts like a person (`wisp.stealth.human_mode`, true when unset).
    pub human_mode: bool,
    /// Seconds the check's cookies are kept (`wisp.stealth.cf_cookie_ttl_secs`, 1800 when unset).
    pub cf_cookie_ttl_secs: u64,
}

/// The value of an optional setting, or its default.
pub open spec fn or_default<T>(v: Option<T>, d: T) -> T {
    match v {
        Some(x) => x,
        None => d,
    }
}

impl CrawlSettings {
    /// The engine settings from the raw configuration values; numbers are
    /// converted with `as`.
    pub fn from_settings(
        book_concurrency: Option<i64>,
        fetch_mode: Option<String>,
        proxy_url: Option<String>,
        proxy_enabled: Option<bool>,
        max_pages: Option<i64>,
        checkpoint_interval_secs: Option<i64>,
        download_delay_ms: Option<i64>,
        obey_robots: Option<bool>,
        headless: Option<bool>,
        challenge_timeout_secs: Option<i64>,
        human_mode: Option<bool>,
        cf_cookie_ttl_secs: Option<i64>,
    ) -> (res: Self)
        ensures
            res.concurrency == or_default(book_concurrency, 4) as usize,
            res.fetch_mode == (match fetch_mode {
                Some(m) => fetch_mode_spec(m@),
                None => FetchMode::Auto,
            }),
            match res.proxy {
                Some(u) => proxy_url matches Some(v) && v@ == u@ && v@.len() > 0 && proxy_enabled == Some(true),
                None => !(proxy_url matches Some(v) && v@.len() > 0 && proxy_enabled == Some(true)),
            },
            res.max_pages == (match max_pages {
                Some(n) => Some(n as usize),
                None => None,
            }),
            res.checkpoint_interval_secs == (match checkpoint_interval_secs {
                Some(n) => if n > 0 { Some(n as u64) } else { None },
                None => None,
            }),
            res.download_delay_ms == or_default(download_delay_ms, 500) as u64,
            res.obey_robots == or_default(obey_robots, false),
            res.headless == or_default(headless, false),
            res.challenge_timeout_secs == or_default(challenge_timeout_secs, 60) as u64,
            res.human_mode == or_default(human_mode, true),
            res.cf_cookie_ttl_secs == or_default(cf_cookie_ttl_secs, 1800) as u64,
    {
        let c: i64 = match book_concurrency { Some(v) => v, None => 4 };
        let mode = match &fetch_mode {
            Some(m) => fetch_mode_of(m.as_str()),
            None => FetchMode::Auto,
        };
        let delay: i64 = match download_delay_ms { Some(v) => v, None => 500 };
        let challenge: i64 = match challenge_timeout_secs { Some(v) => v, None => 60 };
        let ttl: i64 = match cf_cookie_ttl_secs { Some(v) => v, None => 1800 };
        CrawlSettings {
            concurrency: c as usize,
            fetch_mode: mode,
            proxy: proxy_choice(proxy_url, proxy_enabled),
            max_pages: match max_pages {
                Some(n) => Some(n as usize),
                None => None,
            },
            checkpoint_interval_secs: match checkpoint_interval_secs {
                Some(n) => if n > 0 { Some(n as u64) } else { None },
                None => None,
            },
            download_delay_ms: delay as u64,
            obey_robots: match obey_robots { Some(b) => b, None => false },
            headless: match headless { Some(b) => b, None => false },
            challenge_timeout_secs: challenge as u64,
            human_mode: match human_mode { Some(b) => b, None => true },
            cf_cookie_ttl_secs: ttl as u64,
        }
    }
}

} // verus!

verus! {

/// The progress of an incremental crawl over the latest-update list pages.
pub struct IncrementalCrawl {
    next_page: u64,
    pages_limit: u32,
    streak: u32,
    found: u32,
    downloaded: u32,
    stopped: bool,
}

/// The abstract progress: (next page, page limit, empty pages in a row, books
/// found, books saved, stopped).
pub type CrawlView = (nat, nat, nat, nat, nat, bool);

impl View for IncrementalCrawl {
    type V = CrawlView;

    closed spec fn view(&self) -> CrawlView {
        (
            self.next_page as nat,
            self.pages_limit as nat,
            self.streak as nat,
            self.found as nat,
            self.downloaded as nat,
            self.stopped,
        )
    }
}

/// The empty list pages in a row at which the crawl stops.
pub open spec fn empty_pages_to_stop() -> nat {
    3
}

/// The progress after a list page with `count` books (`None` when it could
/// not be fetched): an empty page adds to the run of empty pages and stops the
/// crawl at the third; a page with books resets the run and adds its books;
/// a page that failed changes neither. Either way the crawl moves on a page.
pub open spec fn after_list_page(v: CrawlView, count: Option<nat>) -> CrawlView {
    match count {
        None => (v.0 + 1, v.1, v.2, v.3, v.4, v.5),
        Some(n) => if n == 0 {
            (v.0 + 1, v.1, v.2 + 1, v.3, v.4, v.2 + 1 >= empty_pages_to_stop())
        } else {
            (v.0 + 1, v.1, 0, v.3 + n, v.4, v.5)
        },
    }
}

impl IncrementalCrawl {
    /// A running crawl has seen fewer than three empty pages in a row.
    #[verifier::type_invariant]
    spec fn well_formed(self) -> bool {
        self.streak <= 3 && (self.stopped || self.streak < 3)
    }

    /// A crawl of at most `pages_limit` list pages, starting at page 1.
    pub fn new(pages_limit: u32) -> (res: Self)
        ensures
            res@ == (1nat, pages_limit as nat, 0nat, 0nat, 0nat, false),
    {
        IncrementalCrawl { next_page: 1, pages_limit, streak: 0, found: 0, downloaded: 0, stopped: false }
    }

    /// The list page to fetch next, or `None` when the crawl is over (stopped,
    /// or past the page limit).
    pub fn next_list_page(&self) -> (res: Option<u32>)
        ensures
            match res {
                Some(p) => !self@.5 && self@.0 <= self@.1 && p == self@.0,
                None => self@.5 || self@.0 > self@.1,
            },
    {
        if self.stopped || self.next_page > self.pages_limit as u64 {
            None
        } else {
            Some(self.next_page as u32)
        }
    }

    /// Records a fetched list page with `count` books. The crawl must not be
    /// over, and the number of books found must stay within `u32`.
    pub fn record_list_page(&mut self, count: u32)
        requires
            !old(self)@.5,
            old(self)@.0 <= old(self)@.1,
            old(self)@.3 + count <= u32::MAX,
        ensures
            final(self)@ == after_list_page(old(self)@, Some(count as nat)),
    {
        proof {
            use_type_invariant(&*self);
        }
        if count == 0 {
            let run = self.streak + 1;
            if run >= 3 {
                self.stopped = true;
            }
            self.streak = run;
        } else {
            self.streak = 0;
            self.found = self.found + count;
        }
        self.next_page = self.next_page + 1;
    }

    /// Records a list page that could not be fetched.
    pub fn record_list_error(&mut self)
        requires
            !old(self)@.5,
            old(self)@.0 <= old(self)@.1,
        ensures
            final(self)@ == after_list_page(old(self)@, None),
    {
        proof {
            use_type_invariant(&*self);
        }
        self.next_page = self.next_page + 1;
    }

    /// Records a book saved to the store.
    pub fn record_saved(&mut self)
        requires
            old(self)@.4 < u32::MAX,
        ensures
            final(self)@ == (old(self)@.0, old(self)@.1, old(self)@.2, old(self)@.3, old(self)@.4 + 1, old(self)@.5),
    {
        proof {
            use_type_invariant(&*self);
        }
        self.downloaded = self.downloaded + 1;
    }

    /// Books found so far.
    pub fn books_found(&self) -> (res: u32)
        ensures
            res == self@.3,
    {
        self.found
    }

    /// Books saved so far.
    pub fn books_downloaded(&self) -> (res: u32)
        ensures
            res == self@.4,
    {
        self.downloaded
    }

    /// The closing numbers of the crawl: pages reported (the page limit, at
    /// most the books found and at least 1), books found, saved, and failed
    /// (found minus saved, at least 0).
    pub fn summary(&self) -> (res: (u32, u32, u32, u32))
        ensures
            res.0 == (if self@.1 < (if self@.3 > 1 { self@.3 } else { 1 }) { self@.1 } else { if self@.3 > 1 { self@.3 } else { 1 } }),
            res.1 == self@.3,
            res.2 == self@.4,
            res.3 == (if self@.3 >= self@.4 { self@.3 - self@.4 } else { 0 }),
    {
        let floor = if self.found > 1 { self.found } else { 1 };
        let pages = if self.pages_limit < floor { self.pages_limit } else { floor };
        (pages, self.found, self.downloaded, self.found.saturating_sub(self.downloaded))
    }
}

/// The list pages of a crawl, as outcomes: the number of books on the page,
/// or `None` for a page that could not be fetched. The progress after them,
/// from a new crawl, stopping at the third empty page in a row.
pub open spec fn progress_after(limit: nat, pages: Seq<Option<nat>>) -> CrawlView
    decreases pages.len(),
{
    if pages.len() == 0 {
        (1, limit, 0, 0, 0, false)
    } else {
        let v = progress_after(limit, pages.drop_last());
        if v.5 { v } else { after_list_page(v, pages.last()) }
    }
}

/// The empty pages since the last page with books (failed pages skipped).
pub open spec fn empties_since_books(pages: Seq<Option<nat>>) -> nat
    decreases pages.len(),
{
    if pages.len() == 0 {
        0
    } else {
        match pages.last() {
            Some(n) => if n == 0 { empties_since_books(pages.drop_last()) + 1 } else { 0 },
            None => empties_since_books(pages.drop_last()),
        }
    }
}

/// An incremental crawl stops exactly when three list pages in a row came
/// back empty (pages that failed to load neither count nor break the run):
/// while it runs, its run of empty pages is the number of empty pages since
/// the last page with books, below three; once it stops, some prefix of the
/// pages ended in such a run of three.
pub proof fn law_crawl_stops_after_three_empty_pages(limit: nat, pages: Seq<Option<nat>>)
    ensures
        !progress_after(limit, pages).5 ==> progress_after(limit, pages).2 == empties_since_books(pages)
            && empties_since_books(pages) < 3,
        progress_after(limit, pages).5 ==> exists|k: int| 0 < k <= pages.len() && empties_since_books(#[trigger] pages.take(k)) == 3,
    decreases pages.len(),
{
    if pages.len() > 0 {
        let p = pages.drop_last();
        law_crawl_stops_after_three_empty_pages(limit, p);
        assert(pages.take(pages.len() as int) =~= pages);
        if progress_after(limit, p).5 {
            let k = choose|k: int| 0 < k <= p.len() && empties_since_books(#[trigger] p.take(k)) == 3;
            assert(pages.take(k) =~= p.take(k));
        }
    }
}

/// How a listed book is fetched.
#[derive(Debug, Clone, Copy, PartialEq, Eq, Structural)]
pub enum DownloadMode {
    /// The whole book.
    Full,
    /// Only the chapters after the ones already stored.
    Incremental(i64),
}

/// A book already stored with chapters is updated from its last chapter on;
/// any other book is fetched whole.
pub fn download_mode(exists: bool, existing_chapters: i64) -> (res: DownloadMode)
    ensures
        res == (if exists && existing_chapters > 0 { DownloadMode::Incremental(existing_chapters) } else { DownloadMode::Full }),
{
    if exists && existing_chapters > 0 {
        DownloadMode::Incremental(existing_chapters)
    } else {
        DownloadMode::Full
    }
}

/// The stored section of page `j` (from 1) of a fetched chapter; a page never
/// fetched has empty content.
pub open spec fn fetched_section(s: Section, j: int) -> SectionRecordView {
    (0, 0, 0, s.url@, match s.content { Some(c) => c@, None => Seq::empty() }, j)
}

/// The stored records of a fetched book: the book keyed by its website id,
/// times `now`, and its chapters and their pages numbered from 1.
pub open spec fn fetched_book_spec(website_id: u32, book: Book, now: i64) -> BookRecordView {
    BookRecordView {
        id: 0,
        website_book_id: Some(website_id as int),
        path_num: book.num as i64 as int,
        title: book.title@,
        filename: book.filename@,
        author: book.author@,
        category: book.category@,
        introduce: book.introduce@,
        likes: book.likes as int,
        word_count: book.count as int,
        page_count: book.page as int,
        created_at: now as int,
        updated_at: now as int,
    }
}

/// The stored form of fetched chapter `i` (from 0).
pub open spec fn fetched_chapter_spec(ch: Chapter, i: int) -> (ChapterRecordView, Seq<SectionRecordView>) {
    (
        (0, 0, ch.title@, ch.url@, i + 1, 0),
        match ch.sections {
            Some(v) => Seq::new(v@.len(), |j: int| fetched_section(v@[j], j + 1)),
            None => Seq::empty(),
        },
    )
}

fn fetched_sections(v: &Vec<Section>) -> (res: Vec<SectionRecord>)
    requires
        v@.len() < i64::MAX,
    ensures
        res@.len() == v@.len(),
        forall|j: int| 0 <= j < v@.len() ==> #[trigger] res@[j]@ == fetched_section(v@[j], j + 1),
{
    let mut out: Vec<SectionRecord> = Vec::new();
    let mut j: usize = 0;
    while j < v.len()
        invariant
            j <= v.len() < i64::MAX,
            out@.len() == j,
            forall|k: int| 0 <= k < j ==> #[trigger] out@[k]@ == fetched_section(v@[k], k + 1),
        decreases v.len() - j,
    {
        let content = match &v[j].content {
            Some(c) => c.clone(),
            None => String::new(),
        };
        let rec = SectionRecord {
            id: 0,
            chapter_id: 0,
            book_id: 0,
            url: v[j].url.clone(),
            content,
            section_order: (j as i64) + 1,
        };
        let ghost before = out@;
        out.push(rec);
        assert forall|k: int| 0 <= k < j + 1 implies #[trigger] out@[k]@ == fetched_section(v@[k], k + 1) by {
            if k < j {
                assert(out@[k] == before[k]);
            }
        }
        j = j + 1;
    }
    out
}

/// The records a fetched book is stored as (see `fetched_book_spec` and
/// `fetched_chapter_spec`). Chapter and page counts must fit `i64`.
pub fn fetched_book_records(website_id: u32, book: &Book, chapters: &Vec<Chapter>, now: i64)
    -> (res: (BookRecord, Vec<(ChapterRecord, Vec<SectionRecord>)>))
    requires
        chapters@.len() < i64::MAX,
        forall|i: int| 0 <= i < chapters@.len() ==> (#[trigger] chapters@[i].sections matches Some(v) ==> v@.len() < i64::MAX),
    ensures
        res.0@ == fetched_book_spec(website_id, *book, now),
        res.1@.len() == chapters@.len(),
        forall|i: int| 0 <= i < chapters@.len() ==> (#[trigger] res.1@[i].0@, section_views_of_records(res.1@[i].1@))
            == fetched_chapter_spec(chapters@[i], i),
{
    let rec = BookRecord {
        id: 0,
        website_book_id: Some(website_id as i64),
        path_num: book.num as i64,
        title: book.title.clone(),
        filename: book.filename.clone(),
        author: book.author.clone(),
        category: book.category.clone(),
        introduce: book.introduce.clone(),
        likes: book.likes as i64,
        word_count: book.count as i64,
        page_count: book.page as i64,
        created_at: now,
        updated_at: now,
    };
    let mut rows: Vec<(ChapterRecord, Vec<SectionRecord>)> = Vec::new();
    let mut i: usize = 0;
    while i < chapters.len()
        invariant
            i <= chapters.len() < i64::MAX,
            forall|q: int| 0 <= q < chapters@.len() ==> (#[trigger] chapters@[q].sections matches Some(v) ==> v@.len() < i64::MAX),
            rows@.len() == i,
            forall|k: int| 0 <= k < i ==> (#[trigger] rows@[k].0@, section_views_of_records(rows@[k].1@))
                == fetched_chapter_spec(chapters@[k], k),
        decreases chapters.len() - i,
    {
        let ch = &chapters[i];
        let secs = match &ch.sections {
            Some(v) => fetched_sections(v),
            None => Vec::new(),
        };
        let crec = ChapterRecord {
            id: 0,
            book_id: 0,
            title: ch.title.clone(),
            url: ch.url.clone(),
            chapter_order: (i as i64) + 1,
            word_count: 0,
        };
        assert(section_views_of_records(secs@) =~= fetched_chapter_spec(*ch, i as int).1);
        let ghost before = rows@;
        rows.push((crec, secs));
        assert forall|k: int| 0 <= k < i + 1 implies (#[trigger] rows@[k].0@, section_views_of_records(rows@[k].1@))
            == fetched_chapter_spec(chapters@[k], k) by {
            if k < i {
                assert(rows@[k] == before[k]);
            }
        }
        i = i + 1;
    }
    (rec, rows)
}

/// The views of stored sections.
pub open spec fn section_views_of_records(v: Seq<SectionRecord>) -> Seq<SectionRecordView> {
    v.map_values(|s: SectionRecord| s@)
}

/// What a store write of one batch came to.
#[derive(Debug, Clone, Copy)]
pub enum BatchResult {
    /// Nothing of this kind was in the batch.
    Skipped,
    /// Written; the number of records.
    Saved(u32),
    /// The write failed.
    Failed,
}

/// The website ids of the books that could not be written: those of the
/// books, chapters and sections whose write failed, in that order.
pub open spec fn failed_ids_spec(
    books: Seq<BookRecord>,
    chapters: Seq<(i64, ChapterRecord)>,
    sections: Seq<(i64, i64, SectionRecord)>,
    b: BatchResult,
    c: BatchResult,
    s: BatchResult,
) -> Seq<i64> {
    (if b is Failed { book_ids(books) } else { Seq::empty() })
        + (if c is Failed { chapters.map_values(|x: (i64, ChapterRecord)| x.0) } else { Seq::empty() })
        + (if s is Failed { sections.map_values(|x: (i64, i64, SectionRecord)| x.0) } else { Seq::empty() })
}

/// The website ids of the books that have one.
pub open spec fn book_ids(books: Seq<BookRecord>) -> Seq<i64>
    decreases books.len(),
{
    if books.len() == 0 {
        Seq::empty()
    } else {
        let r = book_ids(books.drop_last());
        match books.last().website_book_id {
            Some(id) => r.push(id),
            None => r,
        }
    }
}

/// Records the outcome of writing one batch of crawled items: written books
/// count as downloaded; each record of a failed write counts as a failed book.
/// Returns the website ids to mark as failed (see `failed_ids_spec`). The
/// counters must stay within `u32`.
pub fn record_flush(
    status: &mut CrawlStatus,
    books: &Vec<BookRecord>,
    chapters: &Vec<(i64, ChapterRecord)>,
    sections: &Vec<(i64, i64, SectionRecord)>,
    book_result: BatchResult,
    chapter_result: BatchResult,
    section_result: BatchResult,
) -> (res: Vec<i64>)
    requires
        old(status).books_downloaded + (match book_result { BatchResult::Saved(n) => n as int, _ => 0 }) <= u32::MAX,
        old(status).books_failed
            + (if book_result is Failed { books@.len() as int } else { 0 })
            + (if chapter_result is Failed { chapters@.len() as int } else { 0 })
            + (if section_result is Failed { sections@.len() as int } else { 0 }) <= u32::MAX,
    ensures
        final(status).books_downloaded == old(status).books_downloaded + (match book_result {
            BatchResult::Saved(n) => n as int,
            _ => 0,
        }),
        final(status).books_failed == old(status).books_failed
            + (if book_result is Failed { books@.len() as int } else { 0 })
            + (if chapter_result is Failed { chapters@.len() as int } else { 0 })
            + (if section_result is Failed { sections@.len() as int } else { 0 }),
        final(status).running == old(status).running,
        final(status).books_found == old(status).books_found,
        final(status).message@ == old(status).message@,
        res@ == failed_ids_spec(books@, chapters@, sections@, book_result, chapter_result, section_result),
{
    let mut failed: Vec<i64> = Vec::new();
    match book_result {
        BatchResult::Saved(n) => {
            status.books_downloaded = status.books_downloaded + n;
        },
        BatchResult::Failed => {
            status.books_failed = status.books_failed + books.len() as u32;
            let mut i: usize = 0;
            while i < books.len()
                invariant
                    i <= books.len(),
                    failed@ == book_ids(books@.take(i as int)),
                decreases books.len() - i,
            {
                assert(books@.take(i + 1).drop_last() =~= books@.take(i as int));
                if let Some(id) = books[i].website_book_id {
                    failed.push(id);
                }
                i = i + 1;
            }
            assert(books@.take(books.len() as int) =~= books@);
        },
        BatchResult::Skipped => {},
    }
    let ghost after_books = failed@;
    if let BatchResult::Failed = chapter_result {
        status.books_failed = status.books_failed + chapters.len() as u32;
        let mut i: usize = 0;
        while i < chapters.len()
            invariant
                i <= chapters.len(),
                failed@ == after_books + chapters@.take(i as int).map_values(|x: (i64, ChapterRecord)| x.0),
            decreases chapters.len() - i,
        {
            failed.push(chapters[i].0);
            assert(chapters@.take(i + 1).map_values(|x: (i64, ChapterRecord)| x.0)
                =~= chapters@.take(i as int).map_values(|x: (i64, ChapterRecord)| x.0).push(chapters@[i as int].0));
            i = i + 1;
        }
        assert(chapters@.take(chapters.len() as int) =~= chapters@);
    }
    let ghost after_chapters = failed@;
    if let BatchResult::Failed = section_result {
        status.books_failed = status.books_failed + sections.len() as u32;
        let mut i: usize = 0;
        while i < sections.len()
            invariant
                i <= sections.len(),
                failed@ == after_chapters + sections@.take(i as int).map_values(|x: (i64, i64, SectionRecord)| x.0),
            decreases sections.len() - i,
        {
            failed.push(sections[i].0);
            assert(sections@.take(i + 1).map_values(|x: (i64, i64, SectionRecord)| x.0)
                =~= sections@.take(i as int).map_values(|x: (i64, i64, SectionRecord)| x.0).push(sections@[i as int].0));
            i = i + 1;
        }
        assert(sections@.take(sections.len() as int) =~= sections@);
    }
    assert(failed@ =~= failed_ids_spec(books@, chapters@, sections@, book_result, chapter_result, section_result));
    failed
}

} // verus!
