//! The older Cloudflare check, which drove a browser script and clicked the
//! widget it found in a screenshot: its reading of page titles, the pause
//! it keeps between two checks, and the headers and saved record it keeps.

use vstd::prelude::*;
use vstd::string::*;
use crate::cf::DEFAULT_USER_AGENT;
use crate::ext::{regex_capture, regex_group};
use crate::numfmt::{digits_spec, parse_u128, parse_unsigned_spec, u128_to_dec};
use crate::text::{contains_spec, contains_str};

verus! {

/// The pattern of a page's title.
pub const TITLE_PATTERN: &'static str = "<title>(?P<title>.*?)</title>";

/// Whether a title is the challenge page's, in one of the languages the
/// site serves it in.
pub open spec fn title_is_challenge(title: Seq<char>) -> bool {
    contains_spec(title, "Just a moment"@) || contains_spec(title, "请稍候"@)
}

/// A page has passed the check unless its title is the challenge page's.
pub open spec fn page_passed_spec(html: Seq<char>) -> bool {
    match regex_group(TITLE_PATTERN@, html, "title"@) {
        Some(t) => !title_is_challenge(t),
        None => true,
    }
}

fn title_marks_challenge(title: &str) -> (r: bool)
    ensures
        r == title_is_challenge(title@),
{
    contains_str(title, "Just a moment") || contains_str(title, "请稍候")
}

/// Whether a page has passed the check, judged by its title (see
/// `page_passed_spec`).
pub fn is_bypassed(html: &str) -> (res: bool)
    ensures
        res == page_passed_spec(html@),
{
    match regex_capture(TITLE_PATTERN, html, "title") {
        Some(t) => !title_marks_challenge(t.as_str()),
        None => true,
    }
}

/// The least time between two runs of the check, in milliseconds.
pub open spec fn bypass_pause_ms() -> u128 {
    60_000
}

/// The state of the older check: the site, whether the widget was clicked,
/// when the check last ran (milliseconds since the epoch), and the cookie
/// and user agent it obtained.
#[derive(Debug, Clone)]
pub struct CloudflareBypass {
    pub url: String,
    pub is_click: bool,
    pub last_bypassed: u128,
    pub cookie: Option<String>,
    pub user_agent: Option<String>,
}

/// The text of an optional string.
pub open spec fn opt_text(o: Option<String>) -> Option<Seq<char>> {
    match o {
        Some(s) => Some(s@),
        None => None,
    }
}

/// The entries of the saved record at `now`: `Cookie` and `User-Agent`
/// where kept, then `last_bypassed` with `now` in decimal.
pub open spec fn saved_record_spec(b: CloudflareBypass, now: u128) -> Seq<(Seq<char>, Seq<char>)> {
    (match b.cookie {
        Some(c) => seq![("Cookie"@, c@)],
        None => Seq::empty(),
    }) + (match b.user_agent {
        Some(u) => seq![("User-Agent"@, u@)],
        None => Seq::empty(),
    }) + seq![("last_bypassed"@, digits_spec(now as nat, 10))]
}

impl CloudflareBypass {
    /// A check of `url` that has not run yet.
    pub fn new(url: String) -> (res: Self)
        ensures
            res.url@ == url@,
            !res.is_click,
            res.last_bypassed == 0,
            res.cookie is None,
            res.user_agent is None,
    {
        CloudflareBypass { url, is_click: false, last_bypassed: 0, cookie: None, user_agent: None }
    }

    /// Whether a page with the title `page_title` has passed the check.
    pub fn is_bypassed(&self, page_title: &str) -> (res: bool)
        ensures
            res == !title_is_challenge(page_title@),
    {
        !title_marks_challenge(page_title)
    }

    /// The headers of a request to the site: the user agent (the one
    /// obtained, or `DEFAULT_USER_AGENT`), the cookie when one was obtained,
    /// and the accepted encodings.
    pub fn header_values(&self) -> (res: (String, Option<String>, String))
        ensures
            res.0@ == match self.user_agent {
                Some(u) => u@,
                None => DEFAULT_USER_AGENT@,
            },
            opt_text(res.1) == opt_text(self.cookie),
            res.2@ == "gzip, deflate, zstd"@,
    {
        let ua = match &self.user_agent {
            Some(u) => u.clone(),
            None => DEFAULT_USER_AGENT.to_owned(),
        };
        let cookie = match &self.cookie {
            Some(c) => Some(c.clone()),
            None => None,
        };
        (ua, cookie, "gzip, deflate, zstd".to_owned())
    }

    /// Takes over a saved record: its cookie and user agent where present,
    /// and the time of the last check, read as a number (0 when it is not
    /// one) where present.
    pub fn apply_saved(&mut self, cookie: Option<String>, user_agent: Option<String>, last_bypassed: Option<String>)
        ensures
            final(self).url@ == old(self).url@,
            final(self).is_click == old(self).is_click,
            opt_text(final(self).cookie) == (if cookie is Some { opt_text(cookie) } else { opt_text(old(self).cookie) }),
            opt_text(final(self).user_agent) == (if user_agent is Some { opt_text(user_agent) } else { opt_text(old(self).user_agent) }),
            final(self).last_bypassed == match last_bypassed {
                Some(v) => match parse_unsigned_spec(v@, u128::MAX as nat) {
                    Ok(n) => n as u128,
                    Err(_) => 0u128,
                },
                None => old(self).last_bypassed,
            },
    {
        if cookie.is_some() {
            self.cookie = cookie;
        }
        if user_agent.is_some() {
            self.user_agent = user_agent;
        }
        if let Some(v) = last_bypassed {
            self.last_bypassed = match parse_u128(v.as_str()) {
                Ok(n) => n,
                Err(_) => 0,
            };
        }
    }

    /// Whether the check may run again at `now`: more than a minute has
    /// passed since it last ran. The clock must not run backwards.
    pub fn bypass_due(&self, now: u128) -> (res: bool)
        requires
            now >= self.last_bypassed,
        ensures
            res == (now - self.last_bypassed > bypass_pause_ms()),
    {
        now - self.last_bypassed > 60_000
    }

    /// Records a finished check: a non-empty cookie and a non-empty user
    /// agent replace the ones kept, and the check counts as run at
    /// `finished_at`. Returns whether a cookie or user agent is now kept
    /// (the record is then saved).
    pub fn finish_bypass(&mut self, user_agent: String, cookie: String, finished_at: u128) -> (res: bool)
        ensures
            final(self).url@ == old(self).url@,
            final(self).is_click == old(self).is_click,
            opt_text(final(self).cookie) == (if cookie@.len() > 0 { Some(cookie@) } else { opt_text(old(self).cookie) }),
            opt_text(final(self).user_agent) == (if user_agent@.len() > 0 { Some(user_agent@) } else { opt_text(old(self).user_agent) }),
            final(self).last_bypassed == finished_at,
            res == (final(self).cookie is Some || final(self).user_agent is Some),
    {
        if !cookie.as_str().is_empty() {
            self.cookie = Some(cookie);
        }
        if !user_agent.as_str().is_empty() {
            self.user_agent = Some(user_agent);
        }
        self.last_bypassed = finished_at;
        self.cookie.is_some() || self.user_agent.is_some()
    }

    /// The entries of the saved record at `now` (see `saved_record_spec`);
    /// their order carries no meaning.
    pub fn saved_record(&self, now: u128) -> (res: Vec<(String, String)>)
        ensures
            res@.map_values(|e: (String, String)| (e.0@, e.1@)) == saved_record_spec(*self, now),
    {
        let mut out: Vec<(String, String)> = Vec::new();
        if let Some(c) = &self.cookie {
            out.push(("Cookie".to_owned(), c.clone()));
        }
        if let Some(u) = &self.user_agent {
            out.push(("User-Agent".to_owned(), u.clone()));
        }
        out.push(("last_bypassed".to_owned(), u128_to_dec(now)));
        assert(out@.map_values(|e: (String, String)| (e.0@, e.1@)) =~= saved_record_spec(*self, now));
        out
    }
}

} // verus!
