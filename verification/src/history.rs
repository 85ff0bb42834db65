//! The per-page navigation history that `back()` and `forward()` walk.
//!
//! The engine keeps no history that survives a navigation, so the extension
//! keeps its own: every successful `goto()` records where the page landed, a
//! new navigation drops whatever lay ahead, and `back()`/`forward()` fail with
//! an error, rather than doing nothing, when there is nowhere to go.

use vstd::prelude::*;
use crate::text::str_eq;

verus! {

/// The abstract state of a page's history: the URLs in order, and which of them
/// the page is on.
#[verifier::ext_equal]
pub struct HistoryView {
    pub entries: Seq<Seq<char>>,
    pub current: nat,
}

/// What a `back()`, `forward()` or `reload()` asks the browser to do.
#[derive(Clone, Copy, Debug, PartialEq, Eq, Structural)]
pub enum HistoryMove {
    /// Load the page's current URL again.
    Reload,
    /// Navigate to the history entry at this index.
    Go(usize),
}

/// Why a history move cannot happen.
#[derive(Clone, Copy, Debug, PartialEq, Eq, Structural)]
pub enum HistoryError {
    /// The page has not navigated anywhere yet.
    NotNavigated,
    /// `back()` from the first entry.
    NoEarlier,
    /// `forward()` from the last entry.
    NoLater,
}

impl HistoryError {
    /// The message the extension raises for this error.
    pub fn message(&self) -> (m: String)
        ensures
            m@ == self.spec_message(),
    {
        match self {
            HistoryError::NotNavigated => String::from_str("this page has not navigated anywhere yet"),
            HistoryError::NoEarlier => String::from_str("no earlier page in this page's history"),
            HistoryError::NoLater => String::from_str("no later page in this page's history"),
        }
    }

    pub open spec fn spec_message(&self) -> Seq<char> {
        match self {
            HistoryError::NotNavigated => "this page has not navigated anywhere yet"@,
            HistoryError::NoEarlier => "no earlier page in this page's history"@,
            HistoryError::NoLater => "no later page in this page's history"@,
        }
    }
}

/// Whether a history state is one the extension can be in: empty before the
/// first navigation, and otherwise positioned on one of its entries.
pub open spec fn history_wf(h: HistoryView) -> bool {
    if h.entries.len() == 0 {
        h.current == 0
    } else {
        h.current < h.entries.len()
    }
}

/// The history after a navigation that landed on `landed`: entries ahead of
/// the current one are dropped, and `landed` becomes the current entry,
/// appended unless it already is the last one.
pub open spec fn history_after_navigation(h: HistoryView, landed: Seq<char>) -> HistoryView {
    let kept = if h.entries.len() == 0 {
        h.entries
    } else {
        h.entries.take(h.current as int + 1)
    };
    if kept.len() > 0 && kept.last() == landed {
        HistoryView { entries: kept, current: (kept.len() - 1) as nat }
    } else {
        HistoryView { entries: kept.push(landed), current: kept.len() }
    }
}

/// What a step of `delta` entries asks for: 0 reloads, a negative step goes
/// back, a positive one goes forward.
pub open spec fn history_plan(h: HistoryView, delta: int) -> Result<HistoryMove, HistoryError> {
    if delta == 0 {
        Ok(HistoryMove::Reload)
    } else if h.entries.len() == 0 {
        Err(HistoryError::NotNavigated)
    } else if delta < 0 {
        if -delta <= h.current {
            Ok(HistoryMove::Go((h.current + delta) as usize))
        } else {
            Err(HistoryError::NoEarlier)
        }
    } else {
        if h.current + delta < h.entries.len() {
            Ok(HistoryMove::Go((h.current + delta) as usize))
        } else {
            Err(HistoryError::NoLater)
        }
    }
}

/// A page's navigation history.
pub struct NavHistory {
    entries: Vec<String>,
    current: usize,
}

impl NavHistory {
    pub closed spec fn view(&self) -> HistoryView {
        HistoryView {
            entries: self.entries@.map_values(|s: String| s@),
            current: self.current as nat,
        }
    }

    #[verifier::type_invariant]
    closed spec fn inv(&self) -> bool {
        history_wf(self.view())
    }

    /// A history with no entries: the page has not navigated yet.
    pub fn new() -> (h: NavHistory)
        ensures
            h.view() == (HistoryView { entries: Seq::empty(), current: 0 }),
    {
        let h = NavHistory { entries: Vec::new(), current: 0 };
        assert(h.view() =~= HistoryView { entries: Seq::empty(), current: 0 });
        h
    }

    /// The number of entries.
    pub fn len(&self) -> (n: usize)
        ensures
            n == self.view().entries.len(),
    {
        self.entries.len()
    }

    /// The index of the current entry.
    pub fn current(&self) -> (i: usize)
        ensures
            i == self.view().current,
    {
        self.current
    }

    /// The URL of entry `index`.
    pub fn url_at(&self, index: usize) -> (u: String)
        requires
            index < self.view().entries.len(),
        ensures
            u@ == self.view().entries[index as int],
    {
        self.entries[index].clone()
    }

    /// Records a navigation that landed on `landed`.
    pub fn record_navigation(&mut self, landed: String)
        ensures
            final(self).view() == history_after_navigation(old(self).view(), landed@),
    {
        proof {
            use_type_invariant(&*self);
        }
        let ghost old_view = self.view();
        let cur = self.current;
        self.current = 0;
        let mut entries: Vec<String> = Vec::new();
        std::mem::swap(&mut entries, &mut self.entries);
        if entries.len() > 0 {
            entries.truncate(cur + 1);
        }
        let ghost kept = if old_view.entries.len() == 0 {
            old_view.entries
        } else {
            old_view.entries.take(cur + 1)
        };
        assert(entries@.map_values(|s: String| s@) =~= kept);
        let n = entries.len();
        let same = n > 0 && str_eq(entries[n - 1].as_str(), landed.as_str());
        if same {
            self.entries = entries;
            self.current = n - 1;
        } else {
            entries.push(landed);
            assert(entries@.map_values(|s: String| s@) =~= kept.push(landed@));
            self.entries = entries;
            self.current = n;
        }
    }

    /// What a step of `delta` entries would do, or why it cannot happen.
    pub fn plan(&self, delta: i32) -> (r: Result<HistoryMove, HistoryError>)
        ensures
            r == history_plan(self.view(), delta as int),
            r matches Ok(HistoryMove::Go(t)) ==> t < self.view().entries.len(),
    {
        proof {
            use_type_invariant(self);
        }
        if delta == 0 {
            Ok(HistoryMove::Reload)
        } else if self.entries.len() == 0 {
            Err(HistoryError::NotNavigated)
        } else if delta < 0 {
            let back: u64 = (0i64 - (delta as i64)) as u64;
            if back <= self.current as u64 {
                Ok(HistoryMove::Go(self.current - (back as usize)))
            } else {
                Err(HistoryError::NoEarlier)
            }
        } else {
            let ahead = delta as usize;
            if ahead < self.entries.len() - self.current {
                Ok(HistoryMove::Go(self.current + ahead))
            } else {
                Err(HistoryError::NoLater)
            }
        }
    }

    /// Makes entry `index` the current one, once the browser has got there.
    pub fn commit(&mut self, index: usize)
        requires
            index < old(self).view().entries.len(),
        ensures
            final(self).view().entries == old(self).view().entries,
            final(self).view().current == index,
    {
        self.current = index;
    }
}

/// Going back after navigating somewhere new returns to the page the
/// navigation started from.
pub proof fn law_back_returns_to_previous_page(h: HistoryView, landed: Seq<char>)
    requires
        history_wf(h),
        h.entries.len() > 0,
        h.entries[h.current as int] != landed,
    ensures
        ({
            let after = history_after_navigation(h, landed);
            &&& history_plan(after, -1) == Ok::<HistoryMove, HistoryError>(HistoryMove::Go(h.current as usize))
            &&& after.entries[h.current as int] == h.entries[h.current as int]
        }),
{
    let kept = h.entries.take(h.current as int + 1);
    assert(kept.last() == h.entries[h.current as int]);
}

/// Going back and then forward returns to where the page was.
pub proof fn law_back_then_forward_returns(h: HistoryView, t: usize)
    requires
        history_wf(h),
        h.entries.len() <= usize::MAX,
        history_plan(h, -1) == Ok::<HistoryMove, HistoryError>(HistoryMove::Go(t)),
    ensures
        history_plan(HistoryView { entries: h.entries, current: t as nat }, 1) == Ok::<
            HistoryMove,
            HistoryError,
        >(HistoryMove::Go(h.current as usize)),
{
}

/// A navigation after going back drops the entries that lay ahead, so there is
/// nothing to go forward to.
pub proof fn law_navigation_truncates_forward(h: HistoryView, landed: Seq<char>)
    requires
        history_wf(h),
        h.entries.len() > 0,
    ensures
        history_wf(history_after_navigation(h, landed)),
        history_plan(history_after_navigation(h, landed), 1) == Err::<HistoryMove, HistoryError>(
            HistoryError::NoLater,
        ),
{
}

/// Before the first navigation, `back()` and `forward()` fail rather than do
/// nothing; after it, the first entry has nothing before it.
pub proof fn law_nowhere_to_go_is_an_error(h: HistoryView, delta: int, landed: Seq<char>)
    requires
        h.entries.len() == 0,
        h.current == 0,
        delta != 0,
    ensures
        history_plan(h, delta) == Err::<HistoryMove, HistoryError>(HistoryError::NotNavigated),
        history_plan(history_after_navigation(h, landed), -1) == Err::<HistoryMove, HistoryError>(
            HistoryError::NoEarlier,
        ),
        history_plan(history_after_navigation(h, landed), 1) == Err::<HistoryMove, HistoryError>(
            HistoryError::NoLater,
        ),
{
}

/// Every navigation leaves the history well formed and positioned on the URL it
/// landed on.
pub proof fn law_navigation_lands_on_url(h: HistoryView, landed: Seq<char>)
    requires
        history_wf(h),
    ensures
        ({
            let after = history_after_navigation(h, landed);
            &&& history_wf(after)
            &&& after.entries[after.current as int] == landed
            &&& after.current + 1 == after.entries.len()
        }),
{
}

} // verus!
