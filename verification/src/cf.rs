//! Recognising the Cloudflare challenge page that stands in for the site's
//! own pages until the browser check is passed.

use vstd::prelude::*;
use vstd::string::*;
use crate::text::{
    byte_len, byte_len_exceeds, chars_of, concat, contains_spec, contains_str, join_chars, join_spec, str_eq,
    views,
};

verus! {

/// A page is the challenge page when it holds one of its four marks.
pub open spec fn is_cf_challenge_spec(html: Seq<char>) -> bool {
    ||| contains_spec(html, "Just a moment"@)
    ||| contains_spec(html, "请稍候"@)
    ||| contains_spec(html, "cf-browser-verify"@)
    ||| contains_spec(html, "challenges.cloudflare.com"@)
}

/// Whether `html` is the Cloudflare challenge page.
pub fn is_cf_challenge(html: &str) -> (res: bool)
    ensures
        res == is_cf_challenge_spec(html@),
{
    contains_str(html, "Just a moment") || contains_str(html, "请稍候")
        || contains_str(html, "cf-browser-verify") || contains_str(html, "challenges.cloudflare.com")
}

/// Whether the challenge has been passed: `html` is not the challenge page.
pub fn is_bypassed(html: &str) -> (res: bool)
    ensures
        res == !is_cf_challenge_spec(html@),
{
    !is_cf_challenge(html)
}

/// The second look at a freshly fetched page: whether it has passed the
/// Cloudflare check, that is, whether it is not the challenge page.
pub fn is_bypassed_after_fetch(html: &str) -> (res: bool)
    ensures
        res == !is_cf_challenge_spec(html@),
{
    !is_cf_challenge(html)
}

} // verus!

verus! {

/// The flags Chrome is started with for the browser check: five that hide
/// automation, then the proxy the page requests also go through, if any.
pub open spec fn chrome_args_spec(proxy_url: Option<Seq<char>>) -> Seq<Seq<char>> {
    seq![
        "--disable-blink-features=AutomationControlled"@,
        "--disable-infobars"@,
        "--disable-gpu"@,
        "--no-first-run"@,
        "--no-default-browser-check"@,
    ] + match proxy_url {
        Some(p) => seq!["--proxy-server="@ + p],
        None => Seq::empty(),
    }
}

/// The flags Chrome is started with (see `chrome_args_spec`).
pub fn chrome_args(proxy_url: &Option<String>) -> (res: Vec<String>)
    ensures
        res@.map_values(|a: String| a@) == chrome_args_spec(match proxy_url {
            Some(p) => Some(p@),
            None => None,
        }),
{
    let mut args: Vec<String> = Vec::new();
    args.push("--disable-blink-features=AutomationControlled".to_owned());
    args.push("--disable-infobars".to_owned());
    args.push("--disable-gpu".to_owned());
    args.push("--no-first-run".to_owned());
    args.push("--no-default-browser-check".to_owned());
    if let Some(p) = proxy_url {
        args.push(concat("--proxy-server=", p.as_str()));
    }
    let ghost want = chrome_args_spec(match proxy_url {
        Some(p) => Some(p@),
        None => None,
    });
    assert(args@.map_values(|a: String| a@) =~= want);
    args
}

/// The longest the browser check is waited for, in nanoseconds.
pub open spec fn check_timeout_ns() -> u64 {
    120_000_000_000
}

/// The wait before the first click, and between clicks, in nanoseconds.
pub open spec fn click_interval_ns() -> u64 {
    2_000_000_000
}

/// What the browser check does at one look at the page.
#[derive(Debug, Clone, Copy, PartialEq, Eq, Structural)]
pub enum WatchStep {
    /// The time is up: take whatever cookies there are.
    TimedOut,
    /// The site's own page is showing.
    Passed,
    /// The clearance cookie is set.
    CookieSeen,
    /// Click the widget; the number of this click, from 1.
    Click(u32),
    /// Look again shortly.
    Wait,
}

/// One look at the page during the browser check, `elapsed_ns` after it
/// started and `since_click_ns` after the last click (or the start): past two
/// minutes it gives up; a page that is not the challenge and is over 1000
/// bytes long passes; a clearance cookie passes; after two seconds it clicks
/// the widget every two seconds; otherwise it waits.
pub open spec fn watch_step_spec(
    elapsed_ns: u64,
    since_click_ns: u64,
    page: Option<Seq<char>>,
    has_clearance: bool,
    clicks: u32,
) -> WatchStep {
    if elapsed_ns > check_timeout_ns() {
        WatchStep::TimedOut
    } else if page matches Some(h) && !is_cf_challenge_spec(h) && byte_len(h) > 1000 {
        WatchStep::Passed
    } else if has_clearance {
        WatchStep::CookieSeen
    } else if elapsed_ns > click_interval_ns() && since_click_ns >= click_interval_ns() {
        WatchStep::Click((clicks + 1) as u32)
    } else {
        WatchStep::Wait
    }
}

/// One look at the page during the browser check (see `watch_step_spec`);
/// `page` is the page's HTML when it could be read, `clicks` the clicks so far.
pub fn watch_step(elapsed_ns: u64, since_click_ns: u64, page: &Option<String>, has_clearance: bool, clicks: u32)
    -> (res: WatchStep)
    requires
        clicks < u32::MAX,
    ensures
        res == watch_step_spec(elapsed_ns, since_click_ns, match page {
            Some(h) => Some(h@),
            None => None,
        }, has_clearance, clicks),
{
    if elapsed_ns > 120_000_000_000 {
        return WatchStep::TimedOut;
    }
    if let Some(h) = page {
        if is_bypassed(h.as_str()) {
            let cs = chars_of(h.as_str());
            if byte_len_exceeds(cs.as_slice(), 1000) {
                return WatchStep::Passed;
            }
        }
    }
    if has_clearance {
        WatchStep::CookieSeen
    } else if elapsed_ns > 2_000_000_000 && since_click_ns >= 2_000_000_000 {
        WatchStep::Click(clicks + 1)
    } else {
        WatchStep::Wait
    }
}

/// `name=value` for each cookie that passes `keep`, in order.
pub open spec fn cookie_parts(cookies: Seq<(String, String)>, only_clearance: bool) -> Seq<Seq<char>>
    decreases cookies.len(),
{
    if cookies.len() == 0 {
        Seq::empty()
    } else {
        let c = cookies.last();
        let rest = cookie_parts(cookies.drop_last(), only_clearance);
        if only_clearance && c.0@ != "cf_clearance"@ {
            rest
        } else {
            rest.push(c.0@ + "="@ + c.1@)
        }
    }
}

/// The cookie header sent with the site's requests: the clearance cookies
/// joined by `; `, or all cookies when there is none.
pub open spec fn cookie_header_spec(cookies: Seq<(String, String)>) -> Seq<char> {
    let cf = join_spec(cookie_parts(cookies, true), "; "@);
    if cf.len() == 0 { join_spec(cookie_parts(cookies, false), "; "@) } else { cf }
}

fn cookie_parts_of(cookies: &Vec<(String, String)>, only_clearance: bool) -> (res: Vec<Vec<char>>)
    ensures
        views(res@) == cookie_parts(cookies@, only_clearance),
{
    let mut out: Vec<Vec<char>> = Vec::new();
    let mut i: usize = 0;
    while i < cookies.len()
        invariant
            i <= cookies.len(),
            views(out@) == cookie_parts(cookies@.take(i as int), only_clearance),
        decreases cookies.len() - i,
    {
        assert(cookies@.take(i + 1).drop_last() =~= cookies@.take(i as int));
        assert(cookies@.take(i + 1).last() == cookies@[i as int]);
        let keep = !only_clearance || str_eq(cookies[i].0.as_str(), "cf_clearance");
        if keep {
            let mut part = concat(cookies[i].0.as_str(), "=");
            part.append(cookies[i].1.as_str());
            let ghost before = out@;
            out.push(chars_of(part.as_str()));
            assert(views(out@) =~= views(before).push(part@));
        }
        i = i + 1;
    }
    assert(cookies@.take(cookies.len() as int) =~= cookies@);
    out
}

/// The cookie header sent with the site's requests, from the browser's
/// cookies as (name, value) pairs (see `cookie_header_spec`).
pub fn cookie_header(cookies: &Vec<(String, String)>) -> (res: String)
    ensures
        res@ == cookie_header_spec(cookies@),
{
    let sep = chars_of("; ");
    let cf = join_chars(&cookie_parts_of(cookies, true), sep.as_slice());
    if cf.len() == 0 {
        crate::text::from_chars(join_chars(&cookie_parts_of(cookies, false), sep.as_slice()).as_slice())
    } else {
        crate::text::from_chars(cf.as_slice())
    }
}

/// The user agent of a desktop Chrome, sent when no other is known.
pub const DEFAULT_USER_AGENT: &'static str = "Mozilla/5.0 (Windows NT 10.0; Win64; x64) AppleWebKit/537.36 (KHTML, like Gecko) Chrome/137.0.0.0 Safari/537.36";

/// The user agent Chrome reported, or `DEFAULT_USER_AGENT` when it reported
/// none.
pub fn browser_user_agent(reported: Option<String>) -> (res: String)
    ensures
        res@ == match reported {
            Some(ua) => ua@,
            None => DEFAULT_USER_AGENT@,
        },
{
    match reported {
        Some(ua) => ua,
        None => DEFAULT_USER_AGENT.to_owned(),
    }
}

} // verus!

verus! {

/// Cookies obtained from the browser check, with the time they were
/// obtained (milliseconds on the caller's clock).
#[derive(Debug, Clone)]
pub struct CachedCookies {
    pub cookie: String,
    pub user_agent: String,
    pub obtained_at_ms: u64,
}

/// The state of the Cloudflare cookie manager: the cookies last obtained,
/// how long they are trusted, and how the browser is started.
pub struct CfManager {
    cached: Option<CachedCookies>,
    ttl_ms: u64,
    headless: bool,
    proxy_url: Option<String>,
}

/// The abstract manager: (cached (cookie, user agent, obtained at), time to
/// live, headless, proxy).
pub type CfManagerView = (Option<(Seq<char>, Seq<char>, u64)>, u64, bool, Option<Seq<char>>);

impl View for CfManager {
    type V = CfManagerView;

    closed spec fn view(&self) -> CfManagerView {
        (
            match self.cached {
                Some(c) => Some((c.cookie@, c.user_agent@, c.obtained_at_ms)),
                None => None,
            },
            self.ttl_ms,
            self.headless,
            match self.proxy_url {
                Some(p) => Some(p@),
                None => None,
            },
        )
    }
}

/// The time cookies are trusted by default: twenty minutes.
pub open spec fn default_ttl_ms() -> u64 {
    1_200_000
}

/// The cookies still trusted at `now_ms`: those cached, when they were
/// obtained less than the time to live ago (no time has passed when the
/// clock reads earlier than they were obtained).
pub open spec fn fresh_cookies(v: CfManagerView, now_ms: u64) -> Option<(Seq<char>, Seq<char>)> {
    match v.0 {
        Some(c) => {
            let age: int = if now_ms >= c.2 { now_ms - c.2 } else { 0 };
            if age < v.1 { Some((c.0, c.1)) } else { None }
        },
        None => None,
    }
}

impl CfManager {
    /// A manager with nothing cached, trusting cookies for twenty minutes,
    /// with a visible browser and no proxy.
    pub fn new() -> (res: Self)
        ensures
            res@ == (None::<(Seq<char>, Seq<char>, u64)>, default_ttl_ms(), false, None::<Seq<char>>),
    {
        CfManager { cached: None, ttl_ms: 1_200_000, headless: false, proxy_url: None }
    }

    /// A manager with nothing cached and the given settings; the browser
    /// goes through the same proxy as the page requests.
    pub fn with_config(ttl_ms: u64, headless: bool, proxy_url: Option<String>) -> (res: Self)
        ensures
            res@ == (None::<(Seq<char>, Seq<char>, u64)>, ttl_ms, headless, match proxy_url {
                Some(p) => Some(p@),
                None => None,
            }),
    {
        CfManager { cached: None, ttl_ms, headless, proxy_url }
    }

    /// A manager from the settings `cf_bypass.cookie_ttl_secs` (converted
    /// with `as`, 1200 when unset; in milliseconds, held at the `u64` limit)
    /// and `cf_bypass.headless` (false when unset), with the proxy chosen for
    /// the page requests.
    pub fn from_settings(ttl_secs: Option<i64>, headless: Option<bool>, proxy_url: Option<String>) -> (res: Self)
        ensures
            res@.0 is None,
            res@.1 == ({
                let secs = (match ttl_secs { Some(v) => v, None => 1200 }) as u64;
                if secs * 1000 > u64::MAX { u64::MAX } else { (secs * 1000) as u64 }
            }),
            res@.2 == (match headless { Some(h) => h, None => false }),
            res@.3 == (match proxy_url {
                Some(p) => Some(p@),
                None => None::<Seq<char>>,
            }),
    {
        let secs_i: i64 = match ttl_secs { Some(v) => v, None => 1200 };
        let secs = secs_i as u64;
        let ttl_ms = match secs.checked_mul(1000) {
            Some(v) => v,
            None => u64::MAX,
        };
        let h = match headless { Some(h) => h, None => false };
        CfManager::with_config(ttl_ms, h, proxy_url)
    }

    /// A manager with nothing cached and the given time to live.
    pub fn with_ttl(ttl_ms: u64) -> (res: Self)
        ensures
            res@ == (None::<(Seq<char>, Seq<char>, u64)>, ttl_ms, false, None::<Seq<char>>),
    {
        CfManager { cached: None, ttl_ms, headless: false, proxy_url: None }
    }

    /// The cached (cookie, user agent) when still trusted at `now_ms`; when
    /// this is `None` the browser check has to be run again.
    pub fn cached_cookies(&self, now_ms: u64) -> (res: Option<(String, String)>)
        ensures
            match res {
                Some(r) => fresh_cookies(self@, now_ms) == Some((r.0@, r.1@)),
                None => fresh_cookies(self@, now_ms) is None,
            },
    {
        match &self.cached {
            Some(c) => {
                let age = now_ms.saturating_sub(c.obtained_at_ms);
                if age < self.ttl_ms {
                    Some((c.cookie.clone(), c.user_agent.clone()))
                } else {
                    None
                }
            },
            None => None,
        }
    }

    /// Caches the cookies of a browser check finished at `now_ms`,
    /// replacing what was cached.
    pub fn store(&mut self, cookie: String, user_agent: String, now_ms: u64)
        ensures
            final(self)@ == (Some((cookie@, user_agent@, now_ms)), old(self)@.1, old(self)@.2, old(self)@.3),
    {
        self.cached = Some(CachedCookies { cookie, user_agent, obtained_at_ms: now_ms });
    }

    /// Whether the browser runs without a window.
    pub fn headless(&self) -> (res: bool)
        ensures
            res == self@.2,
    {
        self.headless
    }

    /// The proxy the browser goes through.
    pub fn proxy_url(&self) -> (res: Option<String>)
        ensures
            match res {
                Some(p) => self@.3 == Some(p@),
                None => self@.3 is None,
            },
    {
        self.proxy_url.clone()
    }
}

impl Default for CfManager {
    fn default() -> (res: Self)
        ensures
            res@ == (None::<(Seq<char>, Seq<char>, u64)>, default_ttl_ms(), false, None::<Seq<char>>),
    {
        CfManager::new()
    }
}

/// Cookies just stored are given back for as long as they are trusted, and
/// no longer: for a check finished at `t`, a look at `now` (not earlier than
/// `t`) finds them exactly when fewer than the time to live have passed.
pub proof fn law_stored_cookies_kept_for_ttl(v: CfManagerView, cookie: Seq<char>, ua: Seq<char>, t: u64, now: u64)
    requires
        t <= now,
    ensures
        fresh_cookies((Some((cookie, ua, t)), v.1, v.2, v.3), now)
            == (if now - t < v.1 { Some((cookie, ua)) } else { None::<(Seq<char>, Seq<char>)> }),
{
}

} // verus!
