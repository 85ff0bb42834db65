//! The bookkeeping of the browser service: which browser contexts and pages
//! exist, who owns what, each page's history and capture state, and which
//! protocol servers run. The engine objects themselves live with the service
//! thread; every decision about them is made here.

use vstd::prelude::*;
use std::collections::{HashMap, HashSet};
use vstd::std_specs::iter::IteratorSpec;
use vstd::utf8::encode_utf8;
use crate::glob::{glob_matches, matches_cdp_pattern};
use crate::text::{clone_pairs, concat3, decimal, decimal_text};
use crate::history::{
    history_after_navigation, history_plan, history_wf, HistoryError, HistoryMove, HistoryView, NavHistory,
};

verus! {

broadcast use vstd::std_specs::hash::group_hash_axioms;

/// Whether some page is owned by `browser`.
pub open spec fn owns_a_page(owner: Map<u64, u64>, browser: u64) -> bool {
    exists|p: u64| owner.contains_key(p) && owner[p] == browser
}

/// The pages in `owner` that belong to `browser`.
fn pages_owned_by(owner: &HashMap<u64, u64>, browser: u64) -> (v: Vec<u64>)
    ensures
        forall|p: u64| v@.contains(p) <==> pages_of(owner@, browser).contains(p),
{
    broadcast use vstd::seq_lib::group_seq_properties;
    let mut out: Vec<u64> = Vec::new();
    let ghost all: Seq<u64> = vstd::std_specs::hash::spec_keys_iter(owner).remaining().unref();
    for k in it: owner.keys()
        invariant
            all == it.seq().unref(),
            all.to_set() == owner@.dom(),
            forall|p: u64| out@.contains(p) <==> (all.take(it.index()).contains(p) && owner@[p] == browser),
    {
        let ghost idx = it.index();
        let ghost before = out@;
        assert(all[idx] == *k);
        assert(all.take(idx + 1) =~= all.take(idx).push(*k));
        assert(owner@.contains_key(*k)) by {
            assert(all.contains(*k));
        }
        let hit = match owner.get(k) {
            Some(b) => *b == browser,
            None => false,
        };
        if hit {
            out.push(*k);
        }
        proof {
            assert(hit == (owner@[*k] == browser));
            assert forall|p: u64| out@.contains(p) <==> (all.take(idx + 1).contains(p) && owner@[p]
                == browser) by {
                assert(all.take(idx + 1) =~= all.take(idx).push(*k));
                vstd::seq_lib::lemma_seq_contains_after_push(all.take(idx), *k, p);
                if hit {
                    assert(out@ == before.push(*k));
                    vstd::seq_lib::lemma_seq_contains_after_push(before, *k, p);
                } else {
                    assert(out@ == before);
                }
            }
        }
    }
    proof {
        assert(all.take(all.len() as int) =~= all);
        assert forall|p: u64| out@.contains(p) <==> pages_of(owner@, browser).contains(p) by {
            if pages_of(owner@, browser).contains(p) {
                assert(all.to_set().contains(p));
            }
        }
    }
    out
}

/// Whether any page in `owner` belongs to `browser`.
fn any_page_of(owner: &HashMap<u64, u64>, browser: u64) -> (r: bool)
    ensures
        r == owns_a_page(owner@, browser),
{
    let mut found = false;
    let ghost all: Seq<u64> = vstd::std_specs::hash::spec_values_iter(owner).remaining().unref();
    let ghost mut idx: int = 0;
    for b in it: owner.values()
        invariant
            all == it.seq().unref(),
            all.to_set() == owner@.values(),
            idx == it.index(),
            found == (exists|k: int| 0 <= k < idx && all[k] == browser),
    {
        assert(all[idx] == *b);
        if *b == browser {
            found = true;
        }
        proof {
            idx = idx + 1;
        }
    }
    assert(idx == all.len());
    proof {
        if found {
            let k = choose|k: int| 0 <= k < idx && all[k] == browser;
            assert(all.to_set().contains(browser));
            assert(owner@.values().contains(browser));
        } else {
            if owns_a_page(owner@, browser) {
                let p = choose|p: u64| owner@.contains_key(p) && owner@[p] == browser;
                assert(owner@.values().contains(browser));
                assert(all.to_set().contains(browser));
                let k = choose|k: int| 0 <= k < all.len() && all[k] == browser;
                assert(false);
            }
        }
    }
    found
}


/// The abstract state of the service's bookkeeping.
#[verifier::ext_equal]
pub struct BookView {
    /// Each live browser context, and whether its CFML handle is still alive.
    pub contexts: Map<u64, bool>,
    /// Each open page, and the browser context it belongs to.
    pub owner: Map<u64, u64>,
    /// Each page's navigation history, once it has navigated.
    pub histories: Map<u64, HistoryView>,
    /// Each page's request blocklist.
    pub blocked: Map<u64, Seq<Seq<char>>>,
    /// Pages whose subresources have been pulled through the page's own
    /// transport since their last navigation.
    pub prepared: Set<u64>,
    /// Pages whose requests are being intercepted for mocking.
    pub intercepting: Set<u64>,
    /// Each page's mock rules, in the order they were added.
    pub mocks: Map<u64, Seq<MockView>>,
    /// Ports with a protocol server.
    pub servers: Set<u16>,
    /// The next page id to hand out.
    pub next_page: u64,
    /// The next browser id to hand out.
    pub next_browser: u64,
}

/// The states the bookkeeping can be in: ids are handed out from 1 upwards,
/// every page's context is alive, a context whose handle is gone lives only
/// while a page still uses it, every history is positioned on one of its
/// entries, and no page state outlives its page.
pub open spec fn book_wf(v: BookView) -> bool {
    &&& 1 <= v.next_page
    &&& 1 <= v.next_browser
    &&& forall|b: u64| #[trigger] v.contexts.contains_key(b) ==> 1 <= b < v.next_browser
    &&& forall|p: u64| #[trigger] v.owner.contains_key(p) ==> 1 <= p < v.next_page
    &&& forall|p: u64| #[trigger] v.owner.contains_key(p) ==> v.contexts.contains_key(v.owner[p])
    &&& forall|b: u64| #[trigger] v.contexts.contains_key(b) ==> v.contexts[b] || owns_a_page(v.owner, b)
    &&& forall|p: u64| #[trigger] v.histories.contains_key(p) ==> v.owner.contains_key(p)
    &&& forall|p: u64| #[trigger] v.histories.contains_key(p) ==> history_wf(v.histories[p])
    &&& forall|p: u64| #[trigger] v.blocked.contains_key(p) ==> v.owner.contains_key(p)
    &&& forall|p: u64| #[trigger] v.prepared.contains(p) ==> v.owner.contains_key(p)
    &&& forall|p: u64| #[trigger] v.intercepting.contains(p) ==> v.owner.contains_key(p)
    &&& forall|p: u64| #[trigger] v.mocks.contains_key(p) ==> v.owner.contains_key(p)
}

/// The bookkeeping before anything has happened.
pub open spec fn book_initial() -> BookView {
    BookView {
        contexts: Map::empty(),
        owner: Map::empty(),
        histories: Map::empty(),
        blocked: Map::empty(),
        prepared: Set::empty(),
        intercepting: Set::empty(),
        mocks: Map::empty(),
        servers: Set::empty(),
        next_page: 1,
        next_browser: 1,
    }
}

/// Drops the context `b` once its handle is gone and no page uses it.
pub open spec fn book_reap(v: BookView, b: u64) -> BookView {
    if v.contexts.contains_key(b) && !v.contexts[b] && !owns_a_page(v.owner, b) {
        BookView { contexts: v.contexts.remove(b), ..v }
    } else {
        v
    }
}

/// `Browser()`: a fresh context whose handle is alive.
pub open spec fn book_after_new_browser(v: BookView) -> BookView {
    BookView {
        contexts: v.contexts.insert(v.next_browser, true),
        next_browser: (v.next_browser + 1) as u64,
        ..v
    }
}

/// The CFML handle of `b` was dropped without `close()`: its context stays
/// while pages use it, so `Browser().newPage()` keeps working.
pub open spec fn book_after_release_browser(v: BookView, b: u64) -> BookView {
    let marked = if v.contexts.contains_key(b) {
        BookView { contexts: v.contexts.insert(b, false), ..v }
    } else {
        v
    };
    book_reap(marked, b)
}

/// The pages that browser `b` owns.
pub open spec fn pages_of(owner: Map<u64, u64>, b: u64) -> Set<u64> {
    Set::new(|p: u64| owner.contains_key(p) && owner[p] == b)
}

/// The bookkeeping with the pages `gone` and everything kept about them
/// forgotten.
pub open spec fn book_without_pages(v: BookView, gone: Set<u64>) -> BookView {
    BookView {
        owner: v.owner.remove_keys(gone),
        histories: v.histories.remove_keys(gone),
        blocked: v.blocked.remove_keys(gone),
        prepared: v.prepared.difference(gone),
        intercepting: v.intercepting.difference(gone),
        mocks: v.mocks.remove_keys(gone),
        ..v
    }
}

/// `close()` on browser `b`: its context and every page it owns go.
pub open spec fn book_after_close_browser(v: BookView, b: u64) -> BookView {
    BookView { contexts: v.contexts.remove(b), ..book_without_pages(v, pages_of(v.owner, b)) }
}

/// `newPage()` on `b`, which must still have its context.
pub open spec fn book_after_new_page(v: BookView, b: u64) -> BookView {
    BookView { owner: v.owner.insert(v.next_page, b), next_page: (v.next_page + 1) as u64, ..v }
}

/// Closing page `p`: everything kept about it goes, and its context goes too
/// if its handle is gone and this was its last page.
pub open spec fn book_after_close_page(v: BookView, p: u64) -> BookView {
    let cleared = BookView {
        owner: v.owner.remove(p),
        histories: v.histories.remove(p),
        blocked: v.blocked.remove(p),
        prepared: v.prepared.remove(p),
        intercepting: v.intercepting.remove(p),
        mocks: v.mocks.remove(p),
        ..v
    };
    if v.owner.contains_key(p) {
        book_reap(cleared, v.owner[p])
    } else {
        cleared
    }
}

/// The mock rules of page `p`, none before its first `mock()`.
pub open spec fn book_mocks(v: BookView, p: u64) -> Seq<MockView> {
    if v.mocks.contains_key(p) {
        v.mocks[p]
    } else {
        Seq::empty()
    }
}

/// The history of page `p`, empty before its first navigation.
pub open spec fn book_history(v: BookView, p: u64) -> HistoryView {
    if v.histories.contains_key(p) {
        v.histories[p]
    } else {
        HistoryView { entries: Seq::empty(), current: 0 }
    }
}

/// A successful `goto()` on page `p` that landed on `landed`.
pub open spec fn book_after_goto(v: BookView, p: u64, landed: Seq<char>) -> BookView {
    BookView {
        histories: v.histories.insert(p, history_after_navigation(book_history(v, p), landed)),
        prepared: v.prepared.remove(p),
        ..v
    }
}

/// Page `p` is now on entry `t` of its history.
pub open spec fn book_after_commit(v: BookView, p: u64, t: nat) -> BookView {
    BookView {
        histories: v.histories.insert(
            p,
            HistoryView { entries: book_history(v, p).entries, current: t },
        ),
        ..v
    }
}

/// The bookkeeping of the service.
pub struct ServiceBook {
    contexts: HashMap<u64, bool>,
    owner: HashMap<u64, u64>,
    histories: HashMap<u64, NavHistory>,
    blocked: HashMap<u64, Vec<String>>,
    prepared: HashSet<u64>,
    intercepting: HashSet<u64>,
    mocks: HashMap<u64, Vec<MockRule>>,
    servers: HashSet<u16>,
    next_page: u64,
    next_browser: u64,
}

impl ServiceBook {
    pub closed spec fn view(&self) -> BookView {
        BookView {
            contexts: self.contexts@,
            owner: self.owner@,
            histories: self.histories@.map_values(|h: NavHistory| h.view()),
            blocked: self.blocked@.map_values(|v: Vec<String>| v@.map_values(|s: String| s@)),
            prepared: self.prepared@,
            intercepting: self.intercepting@,
            mocks: self.mocks@.map_values(|v: Vec<MockRule>| v@.map_values(|r: MockRule| r.view())),
            servers: self.servers@,
            next_page: self.next_page,
            next_browser: self.next_browser,
        }
    }

    /// Empty bookkeeping: no browsers, no pages, no servers.
    pub fn new() -> (b: ServiceBook)
        ensures
            b.view() == book_initial(),
            book_wf(b.view()),
    {
        let b = ServiceBook {
            contexts: HashMap::new(),
            owner: HashMap::new(),
            histories: HashMap::new(),
            blocked: HashMap::new(),
            prepared: HashSet::new(),
            intercepting: HashSet::new(),
            mocks: HashMap::new(),
            servers: HashSet::new(),
            next_page: 1,
            next_browser: 1,
        };
        assert(b.view().histories =~= Map::<u64, HistoryView>::empty());
        assert(b.view().blocked =~= Map::<u64, Seq<Seq<char>>>::empty());
        assert(b.view().mocks =~= Map::<u64, Seq<MockView>>::empty());
        b
    }

    /// Whether another browser id can be handed out.
    pub fn can_open_browser(&self) -> (r: bool)
        ensures
            r == (self.view().next_browser < u64::MAX),
    {
        self.next_browser < u64::MAX
    }

    /// Whether another page id can be handed out.
    pub fn can_open_page(&self) -> (r: bool)
        ensures
            r == (self.view().next_page < u64::MAX),
    {
        self.next_page < u64::MAX
    }

    /// Whether the context of browser `b` still exists.
    pub fn browser_open(&self, b: u64) -> (r: bool)
        ensures
            r == self.view().contexts.contains_key(b),
    {
        self.contexts.contains_key(&b)
    }

    /// Whether page `p` is open.
    pub fn page_open(&self, p: u64) -> (r: bool)
        ensures
            r == self.view().owner.contains_key(p),
    {
        self.owner.contains_key(&p)
    }

    fn reap(&mut self, b: u64)
        ensures
            final(self).view() == book_reap(old(self).view(), b),
    {
        let drop = match self.contexts.get(&b) {
            Some(alive) => !*alive && !any_page_of(&self.owner, b),
            None => false,
        };
        if drop {
            self.contexts.remove(&b);
        }
        assert(self.view() =~= book_reap(old(self).view(), b));
    }

    /// Registers a new browser context whose CFML handle is alive, and returns
    /// its id.
    pub fn open_browser(&mut self) -> (id: u64)
        requires
            book_wf(old(self).view()),
            old(self).view().next_browser < u64::MAX,
        ensures
            id == old(self).view().next_browser,
            !old(self).view().contexts.contains_key(id),
            final(self).view() == book_after_new_browser(old(self).view()),
            book_wf(final(self).view()),
    {
        let id = self.next_browser;
        self.contexts.insert(id, true);
        self.next_browser = id + 1;
        assert(self.view() =~= book_after_new_browser(old(self).view()));
        id
    }

    /// The CFML handle of browser `b` was dropped without `close()`. Its
    /// context is dropped now if no page uses it, otherwise when its last page
    /// closes.
    pub fn release_browser(&mut self, b: u64)
        requires
            book_wf(old(self).view()),
        ensures
            final(self).view() == book_after_release_browser(old(self).view(), b),
            book_wf(final(self).view()),
    {
        if self.contexts.contains_key(&b) {
            self.contexts.insert(b, false);
        }
        self.reap(b);
        assert(self.view() =~= book_after_release_browser(old(self).view(), b));
        proof {
            let v = self.view();
            assert forall|c: u64| #[trigger] v.contexts.contains_key(c) implies v.contexts[c]
                || owns_a_page(v.owner, c) by {
                if c != b {
                    assert(old(self).view().contexts.contains_key(c));
                }
            }
        }
    }

    /// `close()` on browser `b`: drops its context and every page it owns,
    /// with everything kept about those pages.
    pub fn close_browser(&mut self, b: u64)
        requires
            book_wf(old(self).view()),
        ensures
            final(self).view() == book_after_close_browser(old(self).view(), b),
            book_wf(final(self).view()),
    {
        let ghost o = self.view();
        let gone = pages_owned_by(&self.owner, b);
        let ghost all = pages_of(o.owner, b);
        let mut i: usize = 0;
        while i < gone.len()
            invariant
                i <= gone.len(),
                forall|p: u64| gone@.contains(p) <==> all.contains(p),
                self.view() == book_without_pages(o, gone@.take(i as int).to_set()),
            decreases gone.len() - i,
        {
            let p = gone[i];
            let ghost h0 = self.view();
            self.owner.remove(&p);
            self.histories.remove(&p);
            self.blocked.remove(&p);
            self.prepared.remove(&p);
            self.intercepting.remove(&p);
            self.mocks.remove(&p);
            proof {
                let before = gone@.take(i as int).to_set();
                let after = gone@.take(i + 1).to_set();
                assert(gone@.take(i + 1) =~= gone@.take(i as int).push(p));
                gone@.take(i as int).lemma_push_to_set_commute(p);
                let w = book_without_pages(o, after);
                let w0 = book_without_pages(o, before);
                assert(self.view().owner =~= w.owner);
                assert(self.view().histories =~= h0.histories.remove(p));
                assert(h0.histories.remove(p) =~= w.histories);
                assert(self.view().blocked =~= h0.blocked.remove(p));
                assert(h0.blocked.remove(p) =~= w.blocked);
                assert(self.view().mocks =~= h0.mocks.remove(p));
                assert(h0.mocks.remove(p) =~= w.mocks);
                assert(self.view().prepared =~= w.prepared);
                assert(self.view().intercepting =~= w.intercepting);
                assert(self.view() =~= book_without_pages(o, after));
            }
            i += 1;
        }
        self.contexts.remove(&b);
        proof {
            assert(gone@.take(gone.len() as int) =~= gone@);
            assert(gone@.to_set() =~= all);
            assert(self.view() =~= book_after_close_browser(o, b));
            let v = self.view();
            assert forall|q: u64| #[trigger] v.owner.contains_key(q) implies v.contexts.contains_key(
                v.owner[q],
            ) by {
                assert(o.owner.contains_key(q) && !all.contains(q));
            }
            assert forall|c: u64| #[trigger] v.contexts.contains_key(c) implies v.contexts[c]
                || owns_a_page(v.owner, c) by {
                if !o.contexts[c] {
                    let q = choose|q: u64| o.owner.contains_key(q) && o.owner[q] == c;
                    assert(!all.contains(q));
                    assert(v.owner.contains_key(q) && v.owner[q] == c);
                }
            }
        }
    }

    /// Opens a page in browser `b`, or fails when its context is gone.
    pub fn open_page(&mut self, b: u64) -> (r: Result<u64, ()>)
        requires
            book_wf(old(self).view()),
            old(self).view().next_page < u64::MAX,
        ensures
            match r {
                Ok(id) => {
                    &&& old(self).view().contexts.contains_key(b)
                    &&& id == old(self).view().next_page
                    &&& !old(self).view().owner.contains_key(id)
                    &&& final(self).view() == book_after_new_page(old(self).view(), b)
                },
                Err(()) => {
                    &&& !old(self).view().contexts.contains_key(b)
                    &&& final(self).view() == old(self).view()
                },
            },
            book_wf(final(self).view()),
    {
        if !self.contexts.contains_key(&b) {
            return Err(());
        }
        let id = self.next_page;
        self.owner.insert(id, b);
        self.next_page = id + 1;
        assert(self.view() =~= book_after_new_page(old(self).view(), b));
        proof {
            let v = self.view();
            let o = old(self).view();
            assert forall|c: u64| #[trigger] v.contexts.contains_key(c) implies v.contexts[c]
                || owns_a_page(v.owner, c) by {
                if !o.contexts[c] {
                    let p = choose|p: u64| o.owner.contains_key(p) && o.owner[p] == c;
                    assert(v.owner.contains_key(p) && v.owner[p] == c);
                }
            }
        }
        Ok(id)
    }

    /// Closes page `p`: its history, blocklist and capture state go with it,
    /// and so does its context if the browser handle is gone and this was its
    /// last page.
    pub fn close_page(&mut self, p: u64)
        requires
            book_wf(old(self).view()),
        ensures
            final(self).view() == book_after_close_page(old(self).view(), p),
            book_wf(final(self).view()),
    {
        let owner = self.owner.remove(&p);
        self.histories.remove(&p);
        self.blocked.remove(&p);
        self.prepared.remove(&p);
        self.intercepting.remove(&p);
        self.mocks.remove(&p);
        let ghost o = old(self).view();
        let ghost cleared = BookView {
            owner: o.owner.remove(p),
            histories: o.histories.remove(p),
            blocked: o.blocked.remove(p),
            prepared: o.prepared.remove(p),
            intercepting: o.intercepting.remove(p),
            mocks: o.mocks.remove(p),
            ..o
        };
        assert(self.view().histories =~= cleared.histories);
        assert(self.view().blocked =~= cleared.blocked);
        assert(self.view().mocks =~= cleared.mocks);
        assert(self.view() =~= cleared);
        match owner {
            Some(b) => {
                self.reap(b);
            },
            None => {},
        }
        assert(self.view() =~= book_after_close_page(o, p));
        proof {
            let v = self.view();
            assert forall|q: u64| #[trigger] v.owner.contains_key(q) implies v.contexts.contains_key(
                v.owner[q],
            ) by {
                assert(o.owner.contains_key(q));
            }
            assert forall|c: u64| #[trigger] v.contexts.contains_key(c) implies v.contexts[c]
                || owns_a_page(v.owner, c) by {
                assert(o.contexts.contains_key(c));
                if !o.contexts[c] {
                    if owner != Some(c) {
                        let q = choose|q: u64| o.owner.contains_key(q) && o.owner[q] == c;
                        assert(q != p);
                        assert(v.owner.contains_key(q) && v.owner[q] == c);
                    }
                }
            }
        }
    }

    /// The history of page `p`.
    pub closed spec fn spec_history(&self, p: u64) -> HistoryView {
        book_history(self.view(), p)
    }

    /// Records that page `p` navigated and landed on `landed`: its history
    /// moves on and its subresources need preparing again.
    pub fn record_goto(&mut self, p: u64, landed: String)
        requires
            book_wf(old(self).view()),
            old(self).view().owner.contains_key(p),
        ensures
            final(self).view() == book_after_goto(old(self).view(), p, landed@),
            book_wf(final(self).view()),
    {
        let ghost o = old(self).view();
        let mut h = match self.histories.remove(&p) {
            Some(h) => h,
            None => NavHistory::new(),
        };
        assert(h.view() == book_history(o, p));
        h.record_navigation(landed);
        self.histories.insert(p, h);
        self.prepared.remove(&p);
        assert(self.view() =~= book_after_goto(o, p, landed@));
    }

    /// What a history step of `delta` on page `p` asks for.
    pub fn plan_history(&self, p: u64, delta: i32) -> (r: Result<HistoryMove, HistoryError>)
        ensures
            r == history_plan(book_history(self.view(), p), delta as int),
            r matches Ok(HistoryMove::Go(t)) ==> t < book_history(self.view(), p).entries.len(),
    {
        match self.histories.get(&p) {
            Some(h) => h.plan(delta),
            None => {
                let h = NavHistory::new();
                assert(h.view() == book_history(self.view(), p));
                h.plan(delta)
            },
        }
    }

    /// The URL of entry `t` of page `p`'s history.
    pub fn history_url(&self, p: u64, t: usize) -> (u: String)
        requires
            t < book_history(self.view(), p).entries.len(),
        ensures
            u@ == book_history(self.view(), p).entries[t as int],
    {
        match self.histories.get(&p) {
            Some(h) => h.url_at(t),
            None => String::new(),
        }
    }

    /// Page `p` reached entry `t` of its history.
    pub fn commit_history(&mut self, p: u64, t: usize)
        requires
            book_wf(old(self).view()),
            t < book_history(old(self).view(), p).entries.len(),
        ensures
            final(self).view() == book_after_commit(old(self).view(), p, t as nat),
            book_wf(final(self).view()),
    {
        let ghost o = old(self).view();
        match self.histories.remove(&p) {
            Some(mut h) => {
                h.commit(t);
                self.histories.insert(p, h);
                assert(self.view() =~= book_after_commit(o, p, t as nat));
            },
            None => {
                assert(false);
            },
        }
    }

    /// Replaces page `p`'s blocklist.
    pub fn set_blocked(&mut self, p: u64, patterns: Vec<String>)
        requires
            book_wf(old(self).view()),
            old(self).view().owner.contains_key(p),
        ensures
            final(self).view() == (BookView {
                blocked: old(self).view().blocked.insert(p, patterns@.map_values(|s: String| s@)),
                ..old(self).view()
            }),
            book_wf(final(self).view()),
    {
        self.blocked.insert(p, patterns);
        assert(self.view() =~= BookView {
            blocked: old(self).view().blocked.insert(p, patterns@.map_values(|s: String| s@)),
            ..old(self).view()
        });
    }

    /// Marks page `p`'s subresources as prepared for capture, and says whether
    /// they still needed it: once per navigation, not once per capture.
    pub fn claim_preparation(&mut self, p: u64) -> (first: bool)
        requires
            book_wf(old(self).view()),
            old(self).view().owner.contains_key(p),
        ensures
            first == !old(self).view().prepared.contains(p),
            final(self).view() == (BookView {
                prepared: old(self).view().prepared.insert(p),
                ..old(self).view()
            }),
            book_wf(final(self).view()),
    {
        let first = self.prepared.insert(p);
        assert(self.view() =~= BookView {
            prepared: old(self).view().prepared.insert(p),
            ..old(self).view()
        });
        first
    }

    /// Marks page `p` as intercepted, and says whether interception still had
    /// to be switched on: later mocks join the rules already in force.
    pub fn claim_interception(&mut self, p: u64) -> (first: bool)
        requires
            book_wf(old(self).view()),
            old(self).view().owner.contains_key(p),
        ensures
            first == !old(self).view().intercepting.contains(p),
            final(self).view() == (BookView {
                intercepting: old(self).view().intercepting.insert(p),
                ..old(self).view()
            }),
            book_wf(final(self).view()),
    {
        let first = self.intercepting.insert(p);
        assert(self.view() =~= BookView {
            intercepting: old(self).view().intercepting.insert(p),
            ..old(self).view()
        });
        first
    }

    /// Adds a mock rule to page `p`, after the rules already in force: an
    /// earlier rule keeps answering the requests it matches.
    pub fn add_mock(&mut self, p: u64, rule: MockRule)
        requires
            book_wf(old(self).view()),
            old(self).view().owner.contains_key(p),
        ensures
            final(self).view() == (BookView {
                mocks: old(self).view().mocks.insert(p, book_mocks(old(self).view(), p).push(rule.view())),
                ..old(self).view()
            }),
            book_wf(final(self).view()),
    {
        let ghost o = self.view();
        let mut rules = match self.mocks.remove(&p) {
            Some(v) => v,
            None => Vec::new(),
        };
        let ghost rv = rule.view();
        assert(rules@.map_values(|r: MockRule| r.view()) == book_mocks(o, p));
        rules.push(rule);
        assert(rules@.map_values(|r: MockRule| r.view()) =~= book_mocks(o, p).push(rv));
        self.mocks.insert(p, rules);
        assert(self.view().mocks =~= o.mocks.insert(p, book_mocks(o, p).push(rv)));
        assert(self.view() =~= BookView { mocks: o.mocks.insert(p, book_mocks(o, p).push(rv)), ..o });
    }

    /// A copy of page `p`'s mock rules, in the order they were added.
    pub fn mock_rules(&self, p: u64) -> (rules: Vec<MockRule>)
        ensures
            rules@.map_values(|r: MockRule| r.view()) == book_mocks(self.view(), p),
    {
        let mut out: Vec<MockRule> = Vec::new();
        match self.mocks.get(&p) {
            Some(v) => {
                let mut i: usize = 0;
                while i < v.len()
                    invariant
                        i <= v.len(),
                        out.len() == i,
                        forall|j: int| 0 <= j < i ==> #[trigger] out@[j].view() == v@[j].view(),
                    decreases v.len() - i,
                {
                    let c = v[i].clone_rule();
                    out.push(c);
                    i += 1;
                }
                assert(out@.map_values(|r: MockRule| r.view()) =~= v@.map_values(|r: MockRule| r.view()));
            },
            None => {
                assert(out@.map_values(|r: MockRule| r.view()) =~= Seq::<MockView>::empty());
            },
        }
        out
    }

    /// Whether a protocol server runs on `port`.
    pub fn server_running(&self, port: u16) -> (r: bool)
        ensures
            r == self.view().servers.contains(port),
    {
        self.servers.contains(&port)
    }

    /// Records a protocol server on `port`.
    pub fn add_server(&mut self, port: u16)
        requires
            book_wf(old(self).view()),
        ensures
            final(self).view() == (BookView {
                servers: old(self).view().servers.insert(port),
                ..old(self).view()
            }),
            book_wf(final(self).view()),
    {
        self.servers.insert(port);
        assert(self.view() =~= BookView {
            servers: old(self).view().servers.insert(port),
            ..old(self).view()
        });
    }

    /// Forgets the protocol server on `port`, and says whether there was one.
    pub fn remove_server(&mut self, port: u16) -> (was: bool)
        requires
            book_wf(old(self).view()),
        ensures
            was == old(self).view().servers.contains(port),
            final(self).view() == (BookView {
                servers: old(self).view().servers.remove(port),
                ..old(self).view()
            }),
            book_wf(final(self).view()),
    {
        let was = self.servers.remove(&port);
        assert(self.view() =~= BookView {
            servers: old(self).view().servers.remove(port),
            ..old(self).view()
        });
        was
    }
}


/// Ids are never reused: the next browser and page ids are not in use.
pub proof fn law_fresh_ids(v: BookView)
    requires
        book_wf(v),
    ensures
        !v.contexts.contains_key(v.next_browser),
        !v.owner.contains_key(v.next_page),
{
}

/// Dropping a `Browser()` handle without `close()` keeps its context alive
/// while one of its pages is still open: `Browser().newPage()` gives a page
/// that keeps its cookie jar.
pub proof fn law_context_lives_while_pages_use_it(v: BookView, p: u64)
    requires
        book_wf(v),
        v.owner.contains_key(p),
    ensures
        book_after_release_browser(v, v.owner[p]).contexts.contains_key(v.owner[p]),
        book_after_release_browser(v, v.owner[p]).owner == v.owner,
{
    assert(owns_a_page(v.owner, v.owner[p]));
}

/// `close()` on a browser drops its profile and its pages: afterwards neither
/// the context nor any page it owned is open, nothing is kept about those
/// pages, and every other page and context is untouched.
pub proof fn law_close_drops_profile_and_pages(v: BookView, b: u64)
    requires
        book_wf(v),
    ensures
        ({
            let after = book_after_close_browser(v, b);
            &&& !after.contexts.contains_key(b)
            &&& !owns_a_page(after.owner, b)
            &&& forall|p: u64| #[trigger] v.owner.contains_key(p) && v.owner[p] == b ==> {
                &&& !after.owner.contains_key(p)
                &&& !after.histories.contains_key(p)
                &&& !after.blocked.contains_key(p)
                &&& !after.prepared.contains(p)
                &&& !after.intercepting.contains(p)
                &&& !after.mocks.contains_key(p)
            }
            &&& forall|p: u64| #[trigger] v.owner.contains_key(p) && v.owner[p] != b ==> after.owner.contains_key(p)
                && after.owner[p] == v.owner[p]
            &&& forall|c: u64| #[trigger] v.contexts.contains_key(c) && c != b ==> after.contexts.contains_key(c)
                && after.contexts[c] == v.contexts[c]
        }),
{
}

/// A context whose handle is gone is dropped with its last page: a leaked
/// `Browser()` does not pin its profile.
pub proof fn law_last_page_releases_context(v: BookView, p: u64)
    requires
        book_wf(v),
        v.owner.contains_key(p),
        !v.contexts[v.owner[p]],
        forall|q: u64| #[trigger] v.owner.contains_key(q) && q != p ==> v.owner[q] != v.owner[p],
    ensures
        !book_after_close_page(v, p).contexts.contains_key(v.owner[p]),
{
    let b = v.owner[p];
    let o2 = v.owner.remove(p);
    assert(!owns_a_page(o2, b)) by {
        if owns_a_page(o2, b) {
            let q = choose|q: u64| o2.contains_key(q) && o2[q] == b;
            assert(v.owner.contains_key(q) && q != p);
        }
    }
}

/// A dropped handle with no pages has its context dropped at once.
pub proof fn law_unused_context_dropped_on_release(v: BookView, b: u64)
    requires
        book_wf(v),
        !owns_a_page(v.owner, b),
    ensures
        !book_after_release_browser(v, b).contexts.contains_key(b),
{
}

/// Closing a page forgets everything kept about it.
pub proof fn law_closed_page_leaves_nothing(v: BookView, p: u64)
    requires
        book_wf(v),
    ensures
        ({
            let after = book_after_close_page(v, p);
            &&& !after.owner.contains_key(p)
            &&& !after.histories.contains_key(p)
            &&& !after.blocked.contains_key(p)
            &&& !after.prepared.contains(p)
            &&& !after.intercepting.contains(p)
            &&& !after.mocks.contains_key(p)
            &&& book_history(after, p).entries.len() == 0
            &&& book_mocks(after, p).len() == 0
        }),
{
}

/// A later `mock()` never takes over from an earlier rule: when rule `i` is
/// the first of page `p`'s rules to match `url`, it still is after another
/// rule is added.
pub proof fn law_earlier_mock_keeps_answering(v: BookView, p: u64, rule: MockView, url: Seq<char>, i: int)
    requires
        0 <= i < book_mocks(v, p).len(),
        glob_matches(book_mocks(v, p)[i].pattern, url),
        forall|j: int| 0 <= j < i ==> !glob_matches(#[trigger] book_mocks(v, p)[j].pattern, url),
    ensures
        ({
            let after = book_mocks(BookView { mocks: v.mocks.insert(p, book_mocks(v, p).push(rule)), ..v }, p);
            &&& i < after.len()
            &&& after[i] == book_mocks(v, p)[i]
            &&& glob_matches(after[i].pattern, url)
            &&& forall|j: int| 0 <= j < i ==> !glob_matches(#[trigger] after[j].pattern, url)
        }),
{
    let after = book_mocks(BookView { mocks: v.mocks.insert(p, book_mocks(v, p).push(rule)), ..v }, p);
    assert forall|j: int| 0 <= j < i implies !glob_matches(#[trigger] after[j].pattern, url) by {
        assert(after[j] == book_mocks(v, p)[j]);
    }
}

/// A navigation makes the next capture prepare the page's subresources again.
pub proof fn law_navigation_resets_preparation(v: BookView, p: u64, landed: Seq<char>)
    ensures
        !book_after_goto(v, p, landed).prepared.contains(p),
{
}


/// A mocked response: requests whose URL the CDP glob `pattern` matches are
/// answered with `status`, `headers` and `body` instead of going out.
#[derive(Clone)]
pub struct MockRule {
    pub pattern: String,
    pub status: u16,
    pub headers: Vec<(String, String)>,
    pub body: String,
}

/// The abstract value of a mock rule.
pub struct MockView {
    pub pattern: Seq<char>,
    pub status: u16,
    pub headers: Seq<(String, String)>,
    pub body: Seq<char>,
}

impl MockRule {
    pub open spec fn view(&self) -> MockView {
        MockView { pattern: self.pattern@, status: self.status, headers: self.headers@, body: self.body@ }
    }

    /// A copy of the rule.
    pub fn clone_rule(&self) -> (r: MockRule)
        ensures
            r.view() == self.view(),
    {
        MockRule {
            pattern: self.pattern.clone(),
            status: self.status,
            headers: clone_pairs(&self.headers),
            body: self.body.clone(),
        }
    }
}

/// How a browser context is set up.
pub struct BrowserOpts {
    pub storage_dir: Option<String>,
    pub proxy: Option<String>,
    pub user_agent: Option<String>,
    pub stealth: bool,
}

impl Default for BrowserOpts {
    fn default() -> (o: BrowserOpts)
        ensures
            o.storage_dir is None,
            o.proxy is None,
            o.user_agent is None,
            !o.stealth,
    {
        BrowserOpts { storage_dir: None, proxy: None, user_agent: None, stealth: false }
    }
}

/// One cookie of a browser's session, in the shape CFML sees it.
#[derive(Clone)]
pub struct CookieRow {
    pub name: String,
    pub value: String,
    pub domain: String,
    pub path: String,
    pub secure: bool,
    pub http_only: bool,
    pub same_site: String,
    pub expires: Option<i64>,
}

/// The abstract value of a cookie.
pub struct CookieView {
    pub name: Seq<char>,
    pub value: Seq<char>,
    pub domain: Seq<char>,
    pub path: Seq<char>,
    pub secure: bool,
    pub http_only: bool,
    pub same_site: Seq<char>,
    pub expires: Option<i64>,
}

impl CookieRow {
    pub open spec fn view(&self) -> CookieView {
        CookieView {
            name: self.name@,
            value: self.value@,
            domain: self.domain@,
            path: self.path@,
            secure: self.secure,
            http_only: self.http_only,
            same_site: self.same_site@,
            expires: self.expires,
        }
    }

    /// A copy of the cookie.
    pub fn clone_row(&self) -> (c: CookieRow)
        ensures
            c.view() == self.view(),
    {
        CookieRow {
            name: self.name.clone(),
            value: self.value.clone(),
            domain: self.domain.clone(),
            path: self.path.clone(),
            secure: self.secure,
            http_only: self.http_only,
            same_site: self.same_site.clone(),
            expires: self.expires,
        }
    }
}

/// What a wait polls for.
pub enum WaitCond {
    /// An element matching this selector exists.
    Selector(String),
    /// The page's visible text contains this text, case-blind.
    Text(String),
}

/// Selector-driven reads of a page's DOM.
pub enum Query {
    Text(String),
    Count(String),
    Attr(String, String),
    Extract(String),
    Links,
}

/// What a `Query` gives back.
pub enum QueryOut {
    Text(Option<String>),
    Count(usize),
    Rows(Vec<(String, Vec<(String, String)>)>),
    List(Vec<String>),
}

/// A page's URL, title, HTML and visible text, taken together.
pub struct Snapshot {
    pub url: String,
    pub title: String,
    pub html: String,
    pub text: String,
}

impl Default for Snapshot {
    fn default() -> (s: Snapshot)
        ensures
            s.url@.len() == 0,
            s.title@.len() == 0,
            s.html@.len() == 0,
            s.text@.len() == 0,
    {
        Snapshot {
            url: String::new(),
            title: String::new(),
            html: String::new(),
            text: String::new(),
        }
    }
}

/// The index of the first rule whose pattern matches `url`: the rule that
/// answers the request.
pub fn first_matching_rule(rules: &Vec<MockRule>, url: &str) -> (r: Option<usize>)
    ensures
        match r {
            Some(i) => i < rules.len() && glob_matches(rules@[i as int].pattern@, url@) && forall|
                j: int,
            |
                0 <= j < i ==> !glob_matches(#[trigger] rules@[j].pattern@, url@),
            None => forall|j: int|
                0 <= j < rules.len() ==> !glob_matches(#[trigger] rules@[j].pattern@, url@),
        },
{
    let mut i: usize = 0;
    while i < rules.len()
        invariant
            i <= rules.len(),
            forall|j: int| 0 <= j < i ==> !glob_matches(#[trigger] rules@[j].pattern@, url@),
        decreases rules.len() - i,
    {
        if matches_cdp_pattern(rules[i].pattern.as_str(), url) {
            return Some(i);
        }
        i += 1;
    }
    None
}

/// The character standing for the six-bit value `i` in the standard base64
/// alphabet.
pub open spec fn base64_digit(i: int) -> char {
    if i < 26 {
        ('A' as int + i) as char
    } else if i < 52 {
        ('a' as int + (i - 26)) as char
    } else if i < 62 {
        ('0' as int + (i - 52)) as char
    } else if i == 62 {
        '+'
    } else {
        '/'
    }
}

/// Standard base64 with `=` padding (RFC 4648, section 4).
pub open spec fn base64_standard(b: Seq<u8>) -> Seq<char>
    decreases b.len(),
{
    if b.len() == 0 {
        Seq::empty()
    } else if b.len() == 1 {
        seq![base64_digit(b[0] as int / 4), base64_digit((b[0] as int % 4) * 16), '=', '=']
    } else if b.len() == 2 {
        seq![
            base64_digit(b[0] as int / 4),
            base64_digit((b[0] as int % 4) * 16 + b[1] as int / 16),
            base64_digit((b[1] as int % 16) * 4),
            '=',
        ]
    } else {
        seq![
            base64_digit(b[0] as int / 4),
            base64_digit((b[0] as int % 4) * 16 + b[1] as int / 16),
            base64_digit((b[1] as int % 16) * 4 + b[2] as int / 64),
            base64_digit(b[2] as int % 64),
        ] + base64_standard(b.skip(3))
    }
}

/// `base64::Engine::encode` with `general_purpose::STANDARD`: the standard
/// alphabet, with padding.
#[verifier::external_body]
fn encode_base64(bytes: &[u8]) -> (r: String)
    ensures
        r@ == base64_standard(bytes@),
{
    base64::Engine::encode(&base64::engine::general_purpose::STANDARD, bytes)
}

/// How a mocked request is answered.
pub struct MockReply {
    pub status: u16,
    pub headers: Vec<(String, String)>,
    pub body: String,
    /// The body's UTF-8 bytes in standard base64, for the protocol path.
    pub body_base64: String,
}

/// The answer a rule gives: its status, headers and body, with the body's
/// UTF-8 bytes in base64 beside it.
pub fn mock_reply(rule: &MockRule) -> (r: MockReply)
    ensures
        r.status == rule.status,
        r.headers@ == rule.headers@,
        r.body@ == rule.body@,
        r.body_base64@ == base64_standard(encode_utf8(rule.body@)),
{
    MockReply {
        status: rule.status,
        headers: clone_pairs(&rule.headers),
        body: rule.body.clone(),
        body_base64: encode_base64(rule.body.as_str().as_bytes()),
    }
}


/// The error for a command on a page that is gone.
pub fn page_closed_message(page: u64) -> (m: String)
    ensures
        m@ == "page "@ + decimal_text(page as nat) + " is closed"@,
{
    let shown = decimal(page);
    concat3("page ", shown.as_str(), " is closed")
}

/// The error for a command on a browser whose context is gone.
pub const BROWSER_CLOSED: &'static str = "browser is closed";

/// The error for a DOM query before the page has a document.
pub const NO_DOCUMENT: &'static str = "page has no document yet — call goto() first";

/// The error for starting a second protocol server on a port.
pub fn server_running_message(port: u16) -> (m: String)
    ensures
        m@ == "a browser server is already running on "@ + decimal_text(port as nat),
{
    let mut m = String::from_str("a browser server is already running on ");
    m.append(decimal(port as u64).as_str());
    m
}

/// How many times stopping a protocol server checks that its port is free
/// again before it reports the server stuck.
pub const STOP_PROBES: u32 = 20;

/// How long stopping a protocol server waits after a check that found the
/// port still taken, in milliseconds.
pub const STOP_PROBE_WAIT_MS: u64 = 100;

/// What stopping a protocol server does after one check of its port.
#[derive(Clone, Copy, Debug, PartialEq, Eq, Structural)]
pub enum StopProbe {
    /// The port is free: the server has stopped.
    Released,
    /// The port is still taken: wait this many milliseconds, then check
    /// again, or give up when this was the last check.
    Wait { ms: u64, last: bool },
}

/// Aborting the server task is no proof that its listener closed, so the
/// port is checked: check number `probe` (from 0) found it free or not.
pub fn stop_probe_step(probe: u32, port_free: bool) -> (s: StopProbe)
    requires
        probe < STOP_PROBES,
    ensures
        port_free ==> s == StopProbe::Released,
        !port_free ==> s == (StopProbe::Wait { ms: STOP_PROBE_WAIT_MS, last: probe + 1 == STOP_PROBES }),
{
    if port_free {
        StopProbe::Released
    } else {
        StopProbe::Wait { ms: STOP_PROBE_WAIT_MS, last: probe + 1 == STOP_PROBES }
    }
}

/// The error when a protocol server would not let go of its port.
pub fn server_stuck_message(port: u16) -> (m: String)
    ensures
        m@ == "the CDP server on port "@ + decimal_text(port as nat)
            + " did not shut down — it keeps its listener open until the process exits. Treat a browser server as process-lifetime."@,
{
    let shown = decimal(port as u64);
    concat3(
        "the CDP server on port ",
        shown.as_str(),
        " did not shut down — it keeps its listener open until the process exits. Treat a browser server as process-lifetime.",
    )
}

/// The error when a command's reply did not come within its budget.
pub fn call_timeout_message(budget_ms: u64) -> (m: String)
    ensures
        m@ == "browser operation timed out after "@ + decimal_text(budget_ms as nat) + "ms"@,
{
    let shown = decimal(budget_ms);
    concat3("browser operation timed out after ", shown.as_str(), "ms")
}

/// The name of browser context `id` in the engine.
pub fn context_name(id: u64) -> (m: String)
    ensures
        m@ == "rustcfml-"@ + decimal_text(id as nat),
{
    let mut m = String::from_str("rustcfml-");
    m.append(decimal(id).as_str());
    m
}

/// The name of page `id` in the engine.
pub fn page_name(id: u64) -> (m: String)
    ensures
        m@ == "page-"@ + decimal_text(id as nat),
{
    let mut m = String::from_str("page-");
    m.append(decimal(id).as_str());
    m
}

} // verus!
