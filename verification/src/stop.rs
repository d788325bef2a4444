//! The stop condition of a crawl over list pages: stop once a given number
//! of list pages in a row came back empty.

use vstd::prelude::*;

verus! {

/// Counts consecutive empty list pages and says when to stop.
pub struct EmptyPageTracker {
    streak: usize,
    max_streak: usize,
}

/// The abstract tracker: (current streak, streak at which to stop).
pub type TrackerView = (nat, nat);

impl View for EmptyPageTracker {
    type V = TrackerView;

    closed spec fn view(&self) -> TrackerView {
        (self.streak as nat, self.max_streak as nat)
    }
}

/// The streak after one more list page: an empty page adds one (wrapping to 0
/// past the `usize` limit), a non-empty page resets it.
pub open spec fn after_page(streak: nat, empty: bool) -> nat {
    if empty {
        if streak + 1 > usize::MAX { 0 } else { streak + 1 }
    } else {
        0
    }
}

/// The streak after the pages `pages` (`true` for an empty page), from a new
/// tracker.
pub open spec fn streak_after(pages: Seq<bool>) -> nat
    decreases pages.len(),
{
    if pages.len() == 0 {
        0
    } else {
        after_page(streak_after(pages.drop_last()), pages.last())
    }
}

/// The number of empty pages at the end of `pages`.
pub open spec fn trailing_empty(pages: Seq<bool>) -> nat
    decreases pages.len(),
{
    if pages.len() == 0 || !pages.last() {
        0
    } else {
        trailing_empty(pages.drop_last()) + 1
    }
}

impl EmptyPageTracker {
    /// A tracker that stops after `max_streak` empty list pages in a row.
    pub fn new(max_streak: usize) -> (res: Self)
        ensures
            res@ == (0nat, max_streak as nat),
    {
        EmptyPageTracker { streak: 0, max_streak }
    }

    /// Records a list page that parsed to nothing.
    pub fn record_empty(&mut self)
        ensures
            final(self)@ == (after_page(old(self)@.0, true), old(self)@.1),
    {
        self.streak = self.streak.wrapping_add(1);
    }

    /// Records a list page that held books.
    pub fn record_non_empty(&mut self)
        ensures
            final(self)@ == (after_page(old(self)@.0, false), old(self)@.1),
    {
        self.streak = 0;
    }

    /// Whether the crawl should stop dispatching new requests.
    pub fn should_stop(&self) -> (res: bool)
        ensures
            res == (self@.0 >= self@.1),
    {
        self.streak >= self.max_streak
    }
}

/// A crawl stops exactly when the last `max` or more list pages were empty:
/// after any run of fewer than `usize::MAX` pages, the streak is the number of
/// trailing empty pages, so a non-empty page resets the count.
pub proof fn law_stop_after_empty_streak(pages: Seq<bool>, max: nat)
    requires
        pages.len() < usize::MAX,
    ensures
        streak_after(pages) == trailing_empty(pages),
        (streak_after(pages) >= max) <==> (trailing_empty(pages) >= max),
    decreases pages.len(),
{
    if pages.len() > 0 {
        law_stop_after_empty_streak(pages.drop_last(), max);
        lemma_trailing_bound(pages.drop_last());
    }
}

proof fn lemma_trailing_bound(pages: Seq<bool>)
    ensures
        trailing_empty(pages) <= pages.len(),
    decreases pages.len(),
{
    if pages.len() > 0 {
        lemma_trailing_bound(pages.drop_last());
    }
}

} // verus!
