//! Waiting for a page: polling a condition until it holds or the budget runs
//! out. The polling itself runs with the page; what counts as a hit, how often
//! to poll and what a timeout says are decided here.

use vstd::prelude::*;
use crate::service::WaitCond;
use crate::text::{chars_of, contains_run, decimal, decimal_text};

verus! {

/// The full Unicode lower-case mapping that `str::to_lowercase` applies.
pub uninterp spec fn unicode_lowercase(s: Seq<char>) -> Seq<char>;

/// `str::to_lowercase`: the contract names the result
/// `unicode_lowercase(s)` and says nothing of the Unicode case tables.
#[verifier::external_body]
fn to_lowercase(s: &str) -> (r: String)
    ensures
        r@ == unicode_lowercase(s@),
{
    s.to_lowercase()
}

/// Whether `needle` occurs in `hay`.
pub fn contains_text(hay: &str, needle: &str) -> (r: bool)
    ensures
        r == contains_run(hay@, needle@),
{
    let h = chars_of(hay);
    let n = chars_of(needle);
    if n.len() > h.len() {
        proof {
            if contains_run(hay@, needle@) {
                let k = choose|k: int| 0 <= k <= hay@.len() - needle@.len() && #[trigger] hay@.subrange(k, k + needle@.len()) == needle@;
            }
        }
        return false;
    }
    let last = h.len() - n.len();
    let mut k: usize = 0;
    loop
        invariant
            h@ == hay@,
            n@ == needle@,
            n.len() <= h.len(),
            k <= last,
            last == h.len() - n.len(),
            forall|j: int| 0 <= j < k ==> #[trigger] hay@.subrange(j, j + needle@.len()) != needle@,
        ensures
            forall|j: int| 0 <= j <= last ==> #[trigger] hay@.subrange(j, j + needle@.len()) != needle@,
        decreases last - k,
    {
        let mut i: usize = 0;
        while i < n.len() && h[k + i] == n[i]
            invariant
                i <= n.len(),
                k <= last,
                last == h.len() - n.len(),
                forall|m: int| 0 <= m < i ==> h@[k + m] == n@[m],
            decreases n.len() - i,
        {
            i += 1;
        }
        if i == n.len() {
            assert(hay@.subrange(k as int, k + needle@.len()) =~= needle@);
            return true;
        }
        assert(hay@.subrange(k as int, k + needle@.len())[i as int] != needle@[i as int]);
        if k == last {
            break;
        }
        k += 1;
    }
    proof {
        if contains_run(hay@, needle@) {
            let j = choose|j: int| 0 <= j <= hay@.len() - needle@.len() && #[trigger] hay@.subrange(j, j + needle@.len()) == needle@;
            assert(j <= last);
        }
    }
    false
}

/// Whether the page's visible text contains `needle`, ignoring case.
pub fn text_condition_met(visible: &str, needle: &str) -> (r: bool)
    ensures
        r == contains_run(unicode_lowercase(visible@), unicode_lowercase(needle@)),
{
    let v = to_lowercase(visible);
    let n = to_lowercase(needle);
    contains_text(v.as_str(), n.as_str())
}

/// How often to poll: the asked interval, at least ten milliseconds.
pub fn poll_interval_ms(poll_ms: u64) -> (ms: u64)
    ensures
        ms == if poll_ms < 10 {
            10
        } else {
            poll_ms
        },
{
    if poll_ms < 10 {
        10
    } else {
        poll_ms
    }
}

/// What the poll loop does next.
#[derive(Clone, Copy, Debug, PartialEq, Eq, Structural)]
pub enum WaitStep {
    /// The condition holds: the wait succeeds.
    Done,
    /// The budget ran out: the wait fails.
    TimedOut,
    /// Let the page run for one interval, then look again.
    Poll,
}

/// The condition is checked before the deadline, so a condition that already
/// holds succeeds even with no time left.
pub fn wait_step(hit: bool, past_deadline: bool) -> (s: WaitStep)
    ensures
        s == if hit {
            WaitStep::Done
        } else if past_deadline {
            WaitStep::TimedOut
        } else {
            WaitStep::Poll
        },
{
    if hit {
        WaitStep::Done
    } else if past_deadline {
        WaitStep::TimedOut
    } else {
        WaitStep::Poll
    }
}

/// What a wait that ran out of time says.
pub open spec fn timeout_message(cond: WaitCond, timeout_ms: u64) -> Seq<char> {
    match cond {
        WaitCond::Selector(s) => "timed out after "@ + decimal_text(timeout_ms as nat)
            + "ms waiting for selector ["@ + s@ + "]"@,
        WaitCond::Text(t) => "timed out after "@ + decimal_text(timeout_ms as nat)
            + "ms waiting for text ["@ + t@ + "]"@,
    }
}

/// The message of a wait that ran out of time.
pub fn wait_timeout_message(cond: &WaitCond, timeout_ms: u64) -> (m: String)
    ensures
        m@ == timeout_message(*cond, timeout_ms),
{
    let mut m = String::from_str("timed out after ");
    m.append(decimal(timeout_ms).as_str());
    match cond {
        WaitCond::Selector(s) => {
            m.append("ms waiting for selector [");
            m.append(s.as_str());
        },
        WaitCond::Text(t) => {
            m.append("ms waiting for text [");
            m.append(t.as_str());
        },
    }
    m.append("]");
    m
}

/// The message of a selector the engine cannot parse.
pub fn bad_selector_message(selector: &str, detail: &str) -> (m: String)
    ensures
        m@ == "bad selector ["@ + selector@ + "]: "@ + detail@,
{
    let mut m = String::from_str("bad selector [");
    m.append(selector);
    m.append("]: ");
    m.append(detail);
    m
}

} // verus!
