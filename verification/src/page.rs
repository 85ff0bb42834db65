//! The CFML `Page` object: which method a call names, how its arguments are
//! read, and what its replies mean. The page itself lives with the browser
//! service; a `CfmlPage` holds its id, its default budget and whether it has
//! been closed.

use vstd::prelude::*;
use crate::dom::ExtractedRow;
use crate::error::{CfmlError, ErrorKind};
use crate::json::{json_str_of, JsonValue};
use crate::service::{MockRule, QueryOut, WaitCond};
use crate::text::{
    ascii_lower, ascii_lowercase, chars_of, concat3, eq_ascii_case_blind, eq_ignore_ascii_case,
    is_text, is_white_space, is_ws, string_of, trim_start_ws,
};

verus! {

/// A method of the CFML `Page` object.
#[derive(Clone, Copy, Debug, PartialEq, Eq, Structural)]
pub enum PageMethod {
    Goto,
    Evaluate,
    Text,
    Count,
    Exists,
    Extract,
    ExtractQuery,
    Attr,
    Screenshot,
    Pdf,
    WaitForSelector,
    WaitForText,
    Click,
    Fill,
    Type,
    Press,
    SelectOption,
    Scroll,
    Settle,
    Markdown,
    BoundingBox,
    Block,
    Mock,
    Fonts,
    Requests,
    ConsoleMessages,
    Back,
    Forward,
    Reload,
    SetViewport,
    Url,
    Title,
    Content,
    Links,
    Close,
}

/// The method a lower-case name calls.
pub open spec fn page_method_named(n: Seq<char>) -> Option<PageMethod> {
    if n == "goto"@ {
        Some(PageMethod::Goto)
    } else if n == "evaluate"@ {
        Some(PageMethod::Evaluate)
    } else if n == "text"@ {
        Some(PageMethod::Text)
    } else if n == "count"@ {
        Some(PageMethod::Count)
    } else if n == "exists"@ {
        Some(PageMethod::Exists)
    } else if n == "extract"@ {
        Some(PageMethod::Extract)
    } else if n == "extractquery"@ {
        Some(PageMethod::ExtractQuery)
    } else if n == "attr"@ {
        Some(PageMethod::Attr)
    } else if n == "screenshot"@ {
        Some(PageMethod::Screenshot)
    } else if n == "pdf"@ {
        Some(PageMethod::Pdf)
    } else if n == "waitforselector"@ {
        Some(PageMethod::WaitForSelector)
    } else if n == "waitfortext"@ {
        Some(PageMethod::WaitForText)
    } else if n == "click"@ {
        Some(PageMethod::Click)
    } else if n == "fill"@ {
        Some(PageMethod::Fill)
    } else if n == "type"@ {
        Some(PageMethod::Type)
    } else if n == "press"@ {
        Some(PageMethod::Press)
    } else if n == "selectoption"@ {
        Some(PageMethod::SelectOption)
    } else if n == "scroll"@ {
        Some(PageMethod::Scroll)
    } else if n == "settle"@ {
        Some(PageMethod::Settle)
    } else if n == "markdown"@ {
        Some(PageMethod::Markdown)
    } else if n == "boundingbox"@ {
        Some(PageMethod::BoundingBox)
    } else if n == "block"@ {
        Some(PageMethod::Block)
    } else if n == "mock"@ {
        Some(PageMethod::Mock)
    } else if n == "fonts"@ {
        Some(PageMethod::Fonts)
    } else if n == "requests"@ {
        Some(PageMethod::Requests)
    } else if n == "consolemessages"@ {
        Some(PageMethod::ConsoleMessages)
    } else if n == "back"@ {
        Some(PageMethod::Back)
    } else if n == "forward"@ {
        Some(PageMethod::Forward)
    } else if n == "reload"@ {
        Some(PageMethod::Reload)
    } else if n == "setviewport"@ {
        Some(PageMethod::SetViewport)
    } else if n == "url"@ {
        Some(PageMethod::Url)
    } else if n == "title"@ {
        Some(PageMethod::Title)
    } else if n == "content"@ {
        Some(PageMethod::Content)
    } else if n == "links"@ {
        Some(PageMethod::Links)
    } else if n == "close"@ {
        Some(PageMethod::Close)
    } else {
        None
    }
}

/// Each method of `Page` is called by its own name in lower case: `back`
/// calls `back()`, `forward` calls `forward()`, and so on for every method.
pub proof fn law_each_method_called_by_its_name()
    ensures
        page_method_named("goto"@) == Some(PageMethod::Goto),
        page_method_named("evaluate"@) == Some(PageMethod::Evaluate),
        page_method_named("text"@) == Some(PageMethod::Text),
        page_method_named("count"@) == Some(PageMethod::Count),
        page_method_named("exists"@) == Some(PageMethod::Exists),
        page_method_named("extract"@) == Some(PageMethod::Extract),
        page_method_named("extractquery"@) == Some(PageMethod::ExtractQuery),
        page_method_named("attr"@) == Some(PageMethod::Attr),
        page_method_named("screenshot"@) == Some(PageMethod::Screenshot),
        page_method_named("pdf"@) == Some(PageMethod::Pdf),
        page_method_named("waitforselector"@) == Some(PageMethod::WaitForSelector),
        page_method_named("waitfortext"@) == Some(PageMethod::WaitForText),
        page_method_named("click"@) == Some(PageMethod::Click),
        page_method_named("fill"@) == Some(PageMethod::Fill),
        page_method_named("type"@) == Some(PageMethod::Type),
        page_method_named("press"@) == Some(PageMethod::Press),
        page_method_named("selectoption"@) == Some(PageMethod::SelectOption),
        page_method_named("scroll"@) == Some(PageMethod::Scroll),
        page_method_named("settle"@) == Some(PageMethod::Settle),
        page_method_named("markdown"@) == Some(PageMethod::Markdown),
        page_method_named("boundingbox"@) == Some(PageMethod::BoundingBox),
        page_method_named("block"@) == Some(PageMethod::Block),
        page_method_named("mock"@) == Some(PageMethod::Mock),
        page_method_named("fonts"@) == Some(PageMethod::Fonts),
        page_method_named("requests"@) == Some(PageMethod::Requests),
        page_method_named("consolemessages"@) == Some(PageMethod::ConsoleMessages),
        page_method_named("back"@) == Some(PageMethod::Back),
        page_method_named("forward"@) == Some(PageMethod::Forward),
        page_method_named("reload"@) == Some(PageMethod::Reload),
        page_method_named("setviewport"@) == Some(PageMethod::SetViewport),
        page_method_named("url"@) == Some(PageMethod::Url),
        page_method_named("title"@) == Some(PageMethod::Title),
        page_method_named("content"@) == Some(PageMethod::Content),
        page_method_named("links"@) == Some(PageMethod::Links),
        page_method_named("close"@) == Some(PageMethod::Close),
{
    reveal_strlit("goto");
    reveal_strlit("evaluate");
    reveal_strlit("text");
    reveal_strlit("count");
    reveal_strlit("exists");
    reveal_strlit("extract");
    reveal_strlit("extractquery");
    reveal_strlit("attr");
    reveal_strlit("screenshot");
    reveal_strlit("pdf");
    reveal_strlit("waitforselector");
    reveal_strlit("waitfortext");
    reveal_strlit("click");
    reveal_strlit("fill");
    reveal_strlit("type");
    reveal_strlit("press");
    reveal_strlit("selectoption");
    reveal_strlit("scroll");
    reveal_strlit("settle");
    reveal_strlit("markdown");
    reveal_strlit("boundingbox");
    reveal_strlit("block");
    reveal_strlit("mock");
    reveal_strlit("fonts");
    reveal_strlit("requests");
    reveal_strlit("consolemessages");
    reveal_strlit("back");
    reveal_strlit("forward");
    reveal_strlit("reload");
    reveal_strlit("setviewport");
    reveal_strlit("url");
    reveal_strlit("title");
    reveal_strlit("content");
    reveal_strlit("links");
    reveal_strlit("close");
    assert("goto"@.len() == 4);
    assert("evaluate"@.len() == 8);
    assert("text"@.len() == 4);
    assert("count"@.len() == 5);
    assert("exists"@.len() == 6);
    assert("extract"@.len() == 7);
    assert("extractquery"@.len() == 12);
    assert("attr"@.len() == 4);
    assert("screenshot"@.len() == 10);
    assert("pdf"@.len() == 3);
    assert("waitforselector"@.len() == 15);
    assert("waitfortext"@.len() == 11);
    assert("click"@.len() == 5);
    assert("fill"@.len() == 4);
    assert("type"@.len() == 4);
    assert("press"@.len() == 5);
    assert("selectoption"@.len() == 12);
    assert("scroll"@.len() == 6);
    assert("settle"@.len() == 6);
    assert("markdown"@.len() == 8);
    assert("boundingbox"@.len() == 11);
    assert("block"@.len() == 5);
    assert("mock"@.len() == 4);
    assert("fonts"@.len() == 5);
    assert("requests"@.len() == 8);
    assert("consolemessages"@.len() == 15);
    assert("back"@.len() == 4);
    assert("forward"@.len() == 7);
    assert("reload"@.len() == 6);
    assert("setviewport"@.len() == 11);
    assert("url"@.len() == 3);
    assert("title"@.len() == 5);
    assert("content"@.len() == 7);
    assert("links"@.len() == 5);
    assert("close"@.len() == 5);
    assert("text"@[0] != "goto"@[0]);
    assert("attr"@[0] != "goto"@[0]);
    assert("attr"@[0] != "text"@[0]);
    assert("click"@[1] != "count"@[1]);
    assert("fill"@[0] != "goto"@[0]);
    assert("fill"@[0] != "text"@[0]);
    assert("fill"@[0] != "attr"@[0]);
    assert("type"@[0] != "goto"@[0]);
    assert("type"@[1] != "text"@[1]);
    assert("type"@[0] != "attr"@[0]);
    assert("type"@[0] != "fill"@[0]);
    assert("press"@[0] != "count"@[0]);
    assert("press"@[0] != "click"@[0]);
    assert("selectoption"@[0] != "extractquery"@[0]);
    assert("scroll"@[0] != "exists"@[0]);
    assert("settle"@[0] != "exists"@[0]);
    assert("settle"@[1] != "scroll"@[1]);
    assert("markdown"@[0] != "evaluate"@[0]);
    assert("boundingbox"@[0] != "waitfortext"@[0]);
    assert("block"@[0] != "count"@[0]);
    assert("block"@[0] != "click"@[0]);
    assert("block"@[0] != "press"@[0]);
    assert("mock"@[0] != "goto"@[0]);
    assert("mock"@[0] != "text"@[0]);
    assert("mock"@[0] != "attr"@[0]);
    assert("mock"@[0] != "fill"@[0]);
    assert("mock"@[0] != "type"@[0]);
    assert("fonts"@[0] != "count"@[0]);
    assert("fonts"@[0] != "click"@[0]);
    assert("fonts"@[0] != "press"@[0]);
    assert("fonts"@[0] != "block"@[0]);
    assert("requests"@[0] != "evaluate"@[0]);
    assert("requests"@[0] != "markdown"@[0]);
    assert("consolemessages"@[0] != "waitforselector"@[0]);
    assert("back"@[0] != "goto"@[0]);
    assert("back"@[0] != "text"@[0]);
    assert("back"@[0] != "attr"@[0]);
    assert("back"@[0] != "fill"@[0]);
    assert("back"@[0] != "type"@[0]);
    assert("back"@[0] != "mock"@[0]);
    assert("forward"@[0] != "extract"@[0]);
    assert("reload"@[0] != "exists"@[0]);
    assert("reload"@[0] != "scroll"@[0]);
    assert("reload"@[0] != "settle"@[0]);
    assert("setviewport"@[0] != "waitfortext"@[0]);
    assert("setviewport"@[0] != "boundingbox"@[0]);
    assert("url"@[0] != "pdf"@[0]);
    assert("title"@[0] != "count"@[0]);
    assert("title"@[0] != "click"@[0]);
    assert("title"@[0] != "press"@[0]);
    assert("title"@[0] != "block"@[0]);
    assert("title"@[0] != "fonts"@[0]);
    assert("content"@[0] != "extract"@[0]);
    assert("content"@[0] != "forward"@[0]);
    assert("links"@[0] != "count"@[0]);
    assert("links"@[0] != "click"@[0]);
    assert("links"@[0] != "press"@[0]);
    assert("links"@[0] != "block"@[0]);
    assert("links"@[0] != "fonts"@[0]);
    assert("links"@[0] != "title"@[0]);
    assert("close"@[1] != "count"@[1]);
    assert("close"@[2] != "click"@[2]);
    assert("close"@[0] != "press"@[0]);
    assert("close"@[0] != "block"@[0]);
    assert("close"@[0] != "fonts"@[0]);
    assert("close"@[0] != "title"@[0]);
    assert("close"@[0] != "links"@[0]);
}

/// `back()` steps one entry back through the history and `forward()` one
/// entry forward, whatever case the caller spells them in.
pub proof fn law_back_goes_back_forward_goes_forward(name: Seq<char>)
    ensures
        ascii_lower(name) == "back"@ ==> page_method_named(ascii_lower(name)) == Some(PageMethod::Back),
        ascii_lower(name) == "forward"@ ==> page_method_named(ascii_lower(name)) == Some(PageMethod::Forward),
{
    law_each_method_called_by_its_name();
}

/// The parameter names a method declares, so named arguments bind by name.
pub open spec fn page_method_param_names(m: PageMethod) -> Seq<char> {
    match m {
        PageMethod::Goto => "url,options"@,
        PageMethod::Evaluate => "script"@,
        PageMethod::Text => "selector"@,
        PageMethod::Count => "selector"@,
        PageMethod::Exists => "selector"@,
        PageMethod::Extract => "selector"@,
        PageMethod::ExtractQuery => "selector"@,
        PageMethod::Attr => "selector,name"@,
        PageMethod::Screenshot => "options"@,
        PageMethod::Pdf => "options"@,
        PageMethod::WaitForSelector => "selector,timeout"@,
        PageMethod::WaitForText => "text,timeout"@,
        PageMethod::Click => "selector"@,
        PageMethod::Fill => "selector,value"@,
        PageMethod::Type => "selector,text"@,
        PageMethod::Press => "key,selector"@,
        PageMethod::SelectOption => "selector,value"@,
        PageMethod::Scroll => "x,y"@,
        PageMethod::Settle => "timeout"@,
        PageMethod::Markdown => "selector"@,
        PageMethod::BoundingBox => "selector"@,
        PageMethod::Block => "patterns"@,
        PageMethod::Mock => "pattern,response"@,
        PageMethod::Fonts => ""@,
        PageMethod::Requests => ""@,
        PageMethod::ConsoleMessages => ""@,
        PageMethod::Back => ""@,
        PageMethod::Forward => ""@,
        PageMethod::Reload => ""@,
        PageMethod::SetViewport => "width,height"@,
        PageMethod::Url => ""@,
        PageMethod::Title => ""@,
        PageMethod::Content => ""@,
        PageMethod::Links => ""@,
        PageMethod::Close => ""@,
    }
}

/// The method `name` calls, matched case-blind.
pub fn page_method(name: &str) -> (r: Option<PageMethod>)
    ensures
        r == page_method_named(ascii_lower(name@)),
{
    let n = ascii_lowercase(name);
    if is_text(&n, "goto") {
        Some(PageMethod::Goto)
    } else if is_text(&n, "evaluate") {
        Some(PageMethod::Evaluate)
    } else if is_text(&n, "text") {
        Some(PageMethod::Text)
    } else if is_text(&n, "count") {
        Some(PageMethod::Count)
    } else if is_text(&n, "exists") {
        Some(PageMethod::Exists)
    } else if is_text(&n, "extract") {
        Some(PageMethod::Extract)
    } else if is_text(&n, "extractquery") {
        Some(PageMethod::ExtractQuery)
    } else if is_text(&n, "attr") {
        Some(PageMethod::Attr)
    } else if is_text(&n, "screenshot") {
        Some(PageMethod::Screenshot)
    } else if is_text(&n, "pdf") {
        Some(PageMethod::Pdf)
    } else if is_text(&n, "waitforselector") {
        Some(PageMethod::WaitForSelector)
    } else if is_text(&n, "waitfortext") {
        Some(PageMethod::WaitForText)
    } else if is_text(&n, "click") {
        Some(PageMethod::Click)
    } else if is_text(&n, "fill") {
        Some(PageMethod::Fill)
    } else if is_text(&n, "type") {
        Some(PageMethod::Type)
    } else if is_text(&n, "press") {
        Some(PageMethod::Press)
    } else if is_text(&n, "selectoption") {
        Some(PageMethod::SelectOption)
    } else if is_text(&n, "scroll") {
        Some(PageMethod::Scroll)
    } else if is_text(&n, "settle") {
        Some(PageMethod::Settle)
    } else if is_text(&n, "markdown") {
        Some(PageMethod::Markdown)
    } else if is_text(&n, "boundingbox") {
        Some(PageMethod::BoundingBox)
    } else if is_text(&n, "block") {
        Some(PageMethod::Block)
    } else if is_text(&n, "mock") {
        Some(PageMethod::Mock)
    } else if is_text(&n, "fonts") {
        Some(PageMethod::Fonts)
    } else if is_text(&n, "requests") {
        Some(PageMethod::Requests)
    } else if is_text(&n, "consolemessages") {
        Some(PageMethod::ConsoleMessages)
    } else if is_text(&n, "back") {
        Some(PageMethod::Back)
    } else if is_text(&n, "forward") {
        Some(PageMethod::Forward)
    } else if is_text(&n, "reload") {
        Some(PageMethod::Reload)
    } else if is_text(&n, "setviewport") {
        Some(PageMethod::SetViewport)
    } else if is_text(&n, "url") {
        Some(PageMethod::Url)
    } else if is_text(&n, "title") {
        Some(PageMethod::Title)
    } else if is_text(&n, "content") {
        Some(PageMethod::Content)
    } else if is_text(&n, "links") {
        Some(PageMethod::Links)
    } else if is_text(&n, "close") {
        Some(PageMethod::Close)
    } else {
        None
    }
}

/// The parameter names of method `m`.
pub fn page_param_names(m: PageMethod) -> (r: &'static str)
    ensures
        r@ == page_method_param_names(m),
{
    match m {
        PageMethod::Goto => "url,options",
        PageMethod::Evaluate => "script",
        PageMethod::Text => "selector",
        PageMethod::Count => "selector",
        PageMethod::Exists => "selector",
        PageMethod::Extract => "selector",
        PageMethod::ExtractQuery => "selector",
        PageMethod::Attr => "selector,name",
        PageMethod::Screenshot => "options",
        PageMethod::Pdf => "options",
        PageMethod::WaitForSelector => "selector,timeout",
        PageMethod::WaitForText => "text,timeout",
        PageMethod::Click => "selector",
        PageMethod::Fill => "selector,value",
        PageMethod::Type => "selector,text",
        PageMethod::Press => "key,selector",
        PageMethod::SelectOption => "selector,value",
        PageMethod::Scroll => "x,y",
        PageMethod::Settle => "timeout",
        PageMethod::Markdown => "selector",
        PageMethod::BoundingBox => "selector",
        PageMethod::Block => "patterns",
        PageMethod::Mock => "pattern,response",
        PageMethod::Fonts => "",
        PageMethod::Requests => "",
        PageMethod::ConsoleMessages => "",
        PageMethod::Back => "",
        PageMethod::Forward => "",
        PageMethod::Reload => "",
        PageMethod::SetViewport => "width,height",
        PageMethod::Url => "",
        PageMethod::Title => "",
        PageMethod::Content => "",
        PageMethod::Links => "",
        PageMethod::Close => "",
    }
}

/// The parameter names of `method`, matched case-blind, or `None` for a name
/// that is not a method: the engine then refuses named arguments rather than
/// bind them by position.
pub fn method_params(method: &str) -> (r: Option<&'static str>)
    ensures
        match page_method_named(ascii_lower(method@)) {
            Some(m) => r matches Some(p) && p@ == page_method_param_names(m),
            None => r is None,
        },
{
    match page_method(method) {
        Some(m) => Some(page_param_names(m)),
        None => None,
    }
}

/// The error for a method name the page does not have.
pub fn no_such_method(method: &str) -> (e: CfmlError)
    ensures
        e.kind == ErrorKind::General,
        e.message@ == "Page has no method ["@ + ascii_lower(method@) + "]"@,
{
    let lower = string_of(&ascii_lowercase(method));
    CfmlError::new(concat3("Page has no method [", lower.as_str(), "]"))
}

/// A CFML page handle.
pub struct CfmlPage {
    id: u64,
    closed: bool,
    timeout_ms: u64,
}

impl CfmlPage {
    /// The page's id on the service.
    pub closed spec fn spec_id(&self) -> u64 {
        self.id
    }

    /// The page's id on the service.
    pub fn id(&self) -> (i: u64)
        ensures
            i == self.spec_id(),
    {
        self.id
    }

    /// The default per-command budget, in milliseconds.
    pub closed spec fn spec_timeout_ms(&self) -> u64 {
        self.timeout_ms
    }

    /// Whether the page has been closed.
    pub closed spec fn spec_closed(&self) -> bool {
        self.closed
    }

    /// A handle on page `id` with a default budget of `timeout_ms`.
    pub fn new(id: u64, timeout_ms: u64) -> (p: CfmlPage)
        ensures
            p.spec_id() == id,
            p.spec_timeout_ms() == timeout_ms,
            !p.spec_closed(),
    {
        CfmlPage { id, closed: false, timeout_ms }
    }

    /// How long to wait for a reply to an ordinary command, in milliseconds:
    /// the page's budget plus five seconds of headroom, so a command that fails on its
    /// own deadline reports its own error.
    pub fn budget(&self) -> (ms: u64)
        requires
            self.spec_timeout_ms() <= u64::MAX - 5000,
        ensures
            ms == self.spec_timeout_ms() + 5000,
    {
        self.timeout_ms + 5000
    }

    /// Fails once the page has been closed.
    pub fn live(&self) -> (r: Result<(), CfmlError>)
        ensures
            match r {
                Ok(()) => !self.spec_closed(),
                Err(e) => self.spec_closed() && e.kind == ErrorKind::General && e.message@
                    == "this page has been closed"@,
            },
    {
        if self.closed {
            Err(CfmlError::new(String::from_str("this page has been closed")))
        } else {
            Ok(())
        }
    }

    /// Marks the page closed, and says whether this call closed it: only the
    /// first close asks the service to release the page.
    pub fn close(&mut self) -> (first: bool)
        ensures
            first == !old(self).spec_closed(),
            final(self).spec_closed(),
            final(self).spec_id() == old(self).spec_id(),
            final(self).spec_timeout_ms() == old(self).spec_timeout_ms(),
    {
        let first = !self.closed;
        self.closed = true;
        first
    }

    /// Whether dropping the handle must release the page: a page not closed
    /// already must not stay pinned on the service thread.
    pub fn release_on_drop(&self) -> (r: bool)
        ensures
            r == !self.spec_closed(),
    {
        !self.closed
    }
}

/// How long `waitForSelector()`/`waitForText()` wait: the given number of
/// milliseconds, 5000 when none is given, and at least 1.
pub fn wait_timeout_ms(given: Option<i64>) -> (ms: u64)
    ensures
        ms as int == (match given {
            Some(t) => if t < 1 {
                1
            } else {
                t as int
            },
            None => 5000,
        }),
        ms <= i64::MAX,
{
    let t = match given {
        Some(t) => t,
        None => 5000,
    };
    if t < 1 {
        1
    } else {
        t as u64
    }
}

/// How long `settle()` lets the page run: the given number of milliseconds,
/// 1000 when none is given, and never negative.
pub fn settle_ms(given: Option<i64>) -> (ms: u64)
    ensures
        ms as int == (match given {
            Some(t) => if t < 0 {
                0
            } else {
                t as int
            },
            None => 1000,
        }),
        ms <= i64::MAX,
{
    let t = match given {
        Some(t) => t,
        None => 1000,
    };
    if t < 0 {
        0
    } else {
        t as u64
    }
}

/// What a wait method polls for.
pub fn wait_condition(method: PageMethod, target: String) -> (c: WaitCond)
    requires
        method == PageMethod::WaitForSelector || method == PageMethod::WaitForText,
    ensures
        method == PageMethod::WaitForSelector ==> (c matches WaitCond::Selector(s) && s@ == target@),
        method == PageMethod::WaitForText ==> (c matches WaitCond::Text(s) && s@ == target@),
{
    if method == PageMethod::WaitForSelector {
        WaitCond::Selector(target)
    } else {
        WaitCond::Text(target)
    }
}

/// The history step a navigation method takes: back one, forward one, or a
/// reload in place.
pub fn history_delta(method: PageMethod) -> (d: i32)
    requires
        method == PageMethod::Back || method == PageMethod::Forward || method == PageMethod::Reload,
    ensures
        method == PageMethod::Back ==> d == -1,
        method == PageMethod::Forward ==> d == 1,
        method == PageMethod::Reload ==> d == 0,
{
    match method {
        PageMethod::Back => -1,
        PageMethod::Forward => 1,
        _ => 0,
    }
}

/// What an interaction snippet's answer means: "ok" is success,
/// "error:notfound" names the selector that matched nothing, anything else is
/// a failure that quotes the answer.
pub open spec fn act_outcome_spec(answer: Option<Seq<char>>, what: Seq<char>, selector: Seq<char>) -> Result<(), Seq<char>> {
    match answer {
        Some(a) => if a == "ok"@ {
            Ok(())
        } else if a == "error:notfound"@ {
            Err(what + "() found no element matching ["@ + selector + "]"@)
        } else {
            Err(what + "() failed on ["@ + selector + "]: "@ + a)
        },
        None => Err(what + "() failed on ["@ + selector + "]: "@ + "no result"@),
    }
}

/// An interaction succeeds exactly when its snippet answered `ok`; any other
/// answer, or none, is an error that names the verb and the selector.
pub proof fn law_only_ok_succeeds(answer: Option<Seq<char>>, what: Seq<char>, selector: Seq<char>)
    ensures
        act_outcome_spec(answer, what, selector) is Ok <==> answer == Some("ok"@),
        act_outcome_spec(answer, what, selector) matches Err(m) ==> (what + "() "@).is_prefix_of(m)
            && exists|k: int| 0 <= k && k + selector.len() + 2 <= m.len() && #[trigger] m.subrange(k, k + selector.len() + 2)
            == seq!['['] + selector + seq![']'],
{
    reveal_strlit("() found no element matching [");
    reveal_strlit("() failed on [");
    reveal_strlit("]: ");
    reveal_strlit("]");
    reveal_strlit("() ");
    match act_outcome_spec(answer, what, selector) {
        Err(m) => {
            let w: int = what.len() as int;
            if answer == Some("error:notfound"@) {
                let k: int = w + 29;
                assert(m =~= what + "() found no element matching ["@ + selector + "]"@);
                assert(m.subrange(k, k + selector.len() + 2) =~= seq!['['] + selector + seq![']']);
                assert(m.subrange(0, w + 3) =~= what + "() "@);
            } else {
                let k: int = w + 13;
                assert(m.subrange(k, k + selector.len() + 2) =~= seq!['['] + selector + seq![']']);
                assert(m.subrange(0, w + 3) =~= what + "() "@);
            }
        },
        _ => {},
    }
}

/// Reads the answer of an interaction snippet.
pub fn act_outcome(answer: &JsonValue, what: &str, selector: &str) -> (r: Result<(), CfmlError>)
    ensures
        match r {
            Ok(()) => act_outcome_spec(json_str_of(*answer), what@, selector@) == Ok::<
                (),
                Seq<char>,
            >(()),
            Err(e) => act_outcome_spec(json_str_of(*answer), what@, selector@) == Err::<
                (),
                Seq<char>,
            >(e.message@) && e.kind == ErrorKind::General,
        },
{
    let detail: String = match answer {
        JsonValue::Str(a) => {
            let v = chars_of(a.as_str());
            if is_text(&v, "ok") {
                return Ok(());
            }
            if is_text(&v, "error:notfound") {
                let mut m = String::from_str(what);
                m.append("() found no element matching [");
                m.append(selector);
                m.append("]");
                return Err(CfmlError::new(m));
            }
            a.clone()
        },
        _ => String::from_str("no result"),
    };
    let mut m = String::from_str(what);
    m.append("() failed on [");
    m.append(selector);
    m.append("]: ");
    m.append(detail.as_str());
    Err(CfmlError::new(m))
}

/// Whether a header list already names a content type, case-blind.
pub open spec fn has_content_type(headers: Seq<(String, String)>) -> bool {
    exists|i: int| 0 <= i < headers.len() && eq_ascii_case_blind(#[trigger] headers[i].0@, "content-type"@)
}

/// Whether a mock body looks like JSON: after leading white space it opens
/// an object or an array.
pub open spec fn looks_like_json(body: Seq<char>) -> bool {
    let t = trim_start_ws(body);
    t.len() > 0 && (t[0] == '{' || t[0] == '[')
}

/// The headers of a mocked response: as given, plus a content type guessed
/// from the body when none is given, so mocking a JSON endpoint needs no
/// headers at all.
pub open spec fn mock_headers(headers: Seq<(String, String)>, body: Seq<char>) -> Seq<(Seq<char>, Seq<char>)> {
    let given = headers.map_values(|h: (String, String)| (h.0@, h.1@));
    if has_content_type(headers) {
        given
    } else if looks_like_json(body) {
        given.push(("content-type"@, "application/json"@))
    } else {
        given.push(("content-type"@, "text/plain"@))
    }
}

proof fn lemma_trim_start_at(s: Seq<char>, k: int)
    requires
        0 <= k < s.len(),
        forall|j: int| 0 <= j < k ==> is_white_space(#[trigger] s[j]),
        !is_white_space(s[k]),
    ensures
        trim_start_ws(s) == s.skip(k),
    decreases k,
{
    if k == 0 {
        assert(s.skip(0) =~= s);
    } else {
        let d = s.drop_first();
        assert forall|j: int| 0 <= j < k - 1 implies is_white_space(#[trigger] d[j]) by {
            assert(d[j] == s[j + 1]);
        }
        lemma_trim_start_at(d, k - 1);
        assert(d.skip(k - 1) =~= s.skip(k));
    }
}

proof fn lemma_trim_start_all_ws(s: Seq<char>)
    requires
        forall|j: int| 0 <= j < s.len() ==> is_white_space(#[trigger] s[j]),
    ensures
        trim_start_ws(s).len() == 0,
    decreases s.len(),
{
    if s.len() > 0 {
        let d = s.drop_first();
        assert forall|j: int| 0 <= j < d.len() implies is_white_space(#[trigger] d[j]) by {
            assert(d[j] == s[j + 1]);
        }
        lemma_trim_start_all_ws(d);
    }
}

/// The content type a mock gets when its headers name none: a body whose
/// first character that is not white space opens an object (`{`) or an
/// array (`[`) is served as `application/json`, any other body as
/// `text/plain`. Headers that name a content type, in any case, are kept as
/// given and nothing is added.
pub proof fn law_mock_content_type_guess(headers: Seq<(String, String)>, body: Seq<char>, k: int)
    ensures
        ({
            let given = headers.map_values(|h: (String, String)| (h.0@, h.1@));
            let none_named = forall|i: int| 0 <= i < headers.len() ==> !eq_ascii_case_blind(
                #[trigger] headers[i].0@,
                "content-type"@,
            );
            let first_visible = 0 <= k < body.len() && !is_white_space(body[k]) && forall|j: int|
                0 <= j < k ==> is_white_space(#[trigger] body[j]);
            &&& none_named && first_visible && (body[k] == '{' || body[k] == '[') ==> mock_headers(headers, body)
                == given.push(("content-type"@, "application/json"@))
            &&& none_named && first_visible && body[k] != '{' && body[k] != '[' ==> mock_headers(headers, body)
                == given.push(("content-type"@, "text/plain"@))
            &&& none_named && (forall|j: int| 0 <= j < body.len() ==> is_white_space(#[trigger] body[j]))
                ==> mock_headers(headers, body) == given.push(("content-type"@, "text/plain"@))
            &&& !none_named ==> mock_headers(headers, body) == given
        }),
{
    if 0 <= k < body.len() && !is_white_space(body[k]) && forall|j: int| 0 <= j < k ==> is_white_space(#[trigger] body[j]) {
        lemma_trim_start_at(body, k);
    }
    if forall|j: int| 0 <= j < body.len() ==> is_white_space(#[trigger] body[j]) {
        lemma_trim_start_all_ws(body);
    }
}

/// Whether the first character of `body` that is not white space opens a
/// JSON object or array.
fn body_looks_like_json(body: &str) -> (r: bool)
    ensures
        r == looks_like_json(body@),
{
    let v = chars_of(body);
    let mut i: usize = 0;
    assert(v@.skip(0) =~= v@);
    while i < v.len() && is_ws(v[i])
        invariant
            i <= v.len(),
            v@ == body@,
            trim_start_ws(body@) == trim_start_ws(v@.skip(i as int)),
        decreases v.len() - i,
    {
        assert(v@.skip(i as int).drop_first() =~= v@.skip(i + 1));
        i += 1;
    }
    if i < v.len() {
        assert(v@.skip(i as int)[0] == v[i as int]);
        v[i] == '{' || v[i] == '['
    } else {
        assert(v@.skip(i as int).len() == 0);
        false
    }
}

/// Adds the guessed content type to `headers` when they name none.
pub fn with_content_type(headers: Vec<(String, String)>, body: &str) -> (r: Vec<(String, String)>)
    ensures
        r@.map_values(|h: (String, String)| (h.0@, h.1@)) == mock_headers(headers@, body@),
{
    let mut found = false;
    let mut i: usize = 0;
    while i < headers.len()
        invariant
            i <= headers.len(),
            found == exists|k: int| 0 <= k < i && eq_ascii_case_blind(#[trigger] headers@[k].0@, "content-type"@),
        decreases headers.len() - i,
    {
        if eq_ignore_ascii_case(headers[i].0.as_str(), "content-type") {
            found = true;
        }
        i += 1;
    }
    let ghost given = headers@.map_values(|h: (String, String)| (h.0@, h.1@));
    let mut out = headers;
    if !found {
        let kind = if body_looks_like_json(body) {
            String::from_str("application/json")
        } else {
            String::from_str("text/plain")
        };
        out.push((String::from_str("content-type"), kind));
        assert(out@.map_values(|h: (String, String)| (h.0@, h.1@)) =~= given.push(
            (out@.last().0@, out@.last().1@),
        ));
    }
    out
}

/// The rule `mock( pattern, response )` installs: the status defaults to 200
/// (and is cut to 16 bits, as the engine takes it), the body to empty, and a
/// content type is guessed when the headers name none. A missing pattern is
/// an error.
pub fn mock_rule(
    pattern: Option<String>,
    status: Option<i64>,
    body: Option<String>,
    headers: Vec<(String, String)>,
) -> (r: Result<MockRule, CfmlError>)
    ensures
        match r {
            Ok(rule) => pattern matches Some(p) && rule.pattern@ == p@ && rule.status == (match status {
                Some(s) => s as u16,
                None => 200u16,
            }) && rule.body@ == (match body {
                Some(b) => b@,
                None => Seq::<char>::empty(),
            }) && rule.headers@.map_values(|h: (String, String)| (h.0@, h.1@)) == mock_headers(
                headers@,
                rule.body@,
            ),
            Err(e) => pattern is None && e.kind == ErrorKind::General && e.message@
                == "mock() needs a url pattern"@,
        },
{
    let pattern = match pattern {
        Some(p) => p,
        None => {
            return Err(CfmlError::new(String::from_str("mock() needs a url pattern")));
        },
    };
    let status: u16 = match status {
        Some(s) => s as u16,
        None => 200,
    };
    let body = match body {
        Some(b) => b,
        None => String::new(),
    };
    let headers = with_content_type(headers, body.as_str());
    Ok(MockRule { pattern, status, headers, body })
}


/// `cols` with `k` appended unless it is already there.
pub open spec fn add_column(cols: Seq<Seq<char>>, k: Seq<char>) -> Seq<Seq<char>> {
    if cols.contains(k) {
        cols
    } else {
        cols.push(k)
    }
}

/// `cols` after the lower-cased names of `attrs`, in order.
pub open spec fn columns_after(cols: Seq<Seq<char>>, attrs: Seq<(String, String)>) -> Seq<Seq<char>>
    decreases attrs.len(),
{
    if attrs.len() == 0 {
        cols
    } else {
        add_column(columns_after(cols, attrs.drop_last()), ascii_lower(attrs.last().0@))
    }
}

/// The columns of `extractQuery()`: `text` first, then each attribute name,
/// lower-cased, in the order it is first seen across the rows.
pub open spec fn query_columns_of(rows: Seq<ExtractedRow>) -> Seq<Seq<char>>
    decreases rows.len(),
{
    if rows.len() == 0 {
        seq!["text"@]
    } else {
        columns_after(query_columns_of(rows.drop_last()), rows.last().1@)
    }
}

/// The value of the first attribute whose name equals `col`, case-blind.
pub open spec fn attr_ci(attrs: Seq<(String, String)>, col: Seq<char>) -> Option<Seq<char>>
    decreases attrs.len(),
{
    if attrs.len() == 0 {
        None
    } else if eq_ascii_case_blind(attrs[0].0@, col) {
        Some(attrs[0].1@)
    } else {
        attr_ci(attrs.drop_first(), col)
    }
}

/// The cell of column `col` for a row: its text under `text`, else the value
/// of its attribute of that name, else empty, so the query is never ragged.
pub open spec fn query_cell(col: Seq<char>, text: Seq<char>, attrs: Seq<(String, String)>) -> Seq<char> {
    if col == "text"@ {
        text
    } else {
        match attr_ci(attrs, col) {
            Some(v) => v,
            None => Seq::empty(),
        }
    }
}

/// Whether `v` holds `k`.
fn has_column(v: &Vec<String>, k: &Vec<char>) -> (r: bool)
    ensures
        r == v@.map_values(|s: String| s@).contains(k@),
{
    let ghost views = v@.map_values(|s: String| s@);
    let mut i: usize = 0;
    while i < v.len()
        invariant
            i <= v.len(),
            views == v@.map_values(|s: String| s@),
            forall|j: int| 0 <= j < i ==> views[j] != k@,
        decreases v.len() - i,
    {
        if crate::text::chars_eq(&chars_of(v[i].as_str()), k) {
            assert(views[i as int] == k@);
            return true;
        }
        i += 1;
    }
    proof {
        if views.contains(k@) {
            let j = choose|j: int| 0 <= j < views.len() && views[j] == k@;
            assert(false);
        }
    }
    false
}

/// The columns of `extractQuery()` for these rows.
pub fn query_columns(rows: &Vec<ExtractedRow>) -> (cols: Vec<String>)
    ensures
        cols@.map_values(|s: String| s@) == query_columns_of(rows@),
{
    let mut cols: Vec<String> = Vec::new();
    cols.push(String::from_str("text"));
    assert(cols@.map_values(|s: String| s@) =~= seq!["text"@]);
    let mut r: usize = 0;
    while r < rows.len()
        invariant
            r <= rows.len(),
            cols@.map_values(|s: String| s@) == query_columns_of(rows@.take(r as int)),
        decreases rows.len() - r,
    {
        let ghost start = cols@.map_values(|s: String| s@);
        let attrs = &rows[r].1;
        let mut a: usize = 0;
        while a < attrs.len()
            invariant
                a <= attrs.len(),
                r < rows.len(),
                attrs == &rows@[r as int].1,
                cols@.map_values(|s: String| s@) == columns_after(start, attrs@.take(a as int)),
            decreases attrs.len() - a,
        {
            let k = ascii_lowercase(attrs[a].0.as_str());
            let ghost before = cols@.map_values(|s: String| s@);
            assert(attrs@.take(a + 1).drop_last() =~= attrs@.take(a as int));
            if !has_column(&cols, &k) {
                cols.push(string_of(&k));
                assert(cols@.map_values(|s: String| s@) =~= before.push(k@));
            }
            a += 1;
        }
        assert(attrs@.take(attrs.len() as int) =~= attrs@);
        assert(rows@.take(r + 1).drop_last() =~= rows@.take(r as int));
        r += 1;
    }
    assert(rows@.take(rows.len() as int) =~= rows@);
    cols
}

/// The value of the first attribute named `col`, case-blind, or empty.
fn attr_ci_or_empty(attrs: &Vec<(String, String)>, col: &str) -> (r: String)
    ensures
        r@ == match attr_ci(attrs@, col@) {
            Some(v) => v,
            None => Seq::<char>::empty(),
        },
{
    let mut i: usize = 0;
    assert(attrs@.skip(0) =~= attrs@);
    while i < attrs.len()
        invariant
            i <= attrs.len(),
            attr_ci(attrs@, col@) == attr_ci(attrs@.skip(i as int), col@),
        decreases attrs.len() - i,
    {
        let ghost rest = attrs@.skip(i as int);
        assert(rest[0] == attrs@[i as int]);
        assert(rest.drop_first() =~= attrs@.skip(i + 1));
        if eq_ignore_ascii_case(attrs[i].0.as_str(), col) {
            return attrs[i].1.clone();
        }
        i += 1;
    }
    String::new()
}

/// One query row: a cell per column, in column order.
pub fn query_cells(cols: &Vec<String>, text: &str, attrs: &Vec<(String, String)>) -> (cells: Vec<String>)
    ensures
        cells.len() == cols.len(),
        forall|i: int|
            0 <= i < cols.len() ==> (#[trigger] cells@[i])@ == query_cell(cols@[i]@, text@, attrs@),
{
    let mut cells: Vec<String> = Vec::new();
    let mut i: usize = 0;
    while i < cols.len()
        invariant
            i <= cols.len(),
            cells.len() == i,
            forall|j: int|
                0 <= j < i ==> (#[trigger] cells@[j])@ == query_cell(cols@[j]@, text@, attrs@),
        decreases cols.len() - i,
    {
        let cell = if is_text(&chars_of(cols[i].as_str()), "text") {
            String::from_str(text)
        } else {
            attr_ci_or_empty(attrs, cols[i].as_str())
        };
        cells.push(cell);
        i += 1;
    }
    cells
}

proof fn lemma_columns_after(cols: Seq<Seq<char>>, attrs: Seq<(String, String)>)
    requires
        cols.no_duplicates(),
        cols.len() > 0,
    ensures
        columns_after(cols, attrs).no_duplicates(),
        columns_after(cols, attrs).len() >= cols.len(),
        forall|i: int| 0 <= i < cols.len() ==> columns_after(cols, attrs)[i] == cols[i],
        forall|k: int| 0 <= k < attrs.len() ==> columns_after(cols, attrs).contains(ascii_lower(#[trigger] attrs[k].0@)),
        forall|c: Seq<char>| cols.contains(c) ==> columns_after(cols, attrs).contains(c),
    decreases attrs.len(),
{
    if attrs.len() > 0 {
        let d = attrs.drop_last();
        lemma_columns_after(cols, d);
        let prev = columns_after(cols, d);
        let k = ascii_lower(attrs.last().0@);
        if !prev.contains(k) {
            assert(prev.push(k).no_duplicates()) by {
                assert forall|i: int, j: int| 0 <= i < j < prev.len() + 1 implies prev.push(k)[i]
                    != prev.push(k)[j] by {
                    if j == prev.len() {
                        assert(prev[i] != k);
                    }
                }
            }
            assert forall|c: Seq<char>| prev.contains(c) implies prev.push(k).contains(c) by {
                let i = choose|i: int| 0 <= i < prev.len() && prev[i] == c;
                assert(prev.push(k)[i] == c);
            }
            assert(prev.push(k)[prev.len() as int] == k);
        }
        assert forall|m: int| 0 <= m < attrs.len() implies columns_after(cols, attrs).contains(
            ascii_lower(#[trigger] attrs[m].0@),
        ) by {
            if m < d.len() {
                assert(d[m] == attrs[m]);
                let c = ascii_lower(d[m].0@);
                assert(prev.contains(c));
                if !prev.contains(k) {
                    let i = choose|i: int| 0 <= i < prev.len() && prev[i] == c;
                    assert(prev.push(k)[i] == c);
                }
            } else {
                assert(attrs[m] == attrs.last());
                if !prev.contains(k) {
                    assert(prev.push(k)[prev.len() as int] == k);
                }
            }
        }
        assert forall|c: Seq<char>| cols.contains(c) implies columns_after(cols, attrs).contains(
            c,
        ) by {
            assert(prev.contains(c));
            if !prev.contains(k) {
                let i = choose|i: int| 0 <= i < prev.len() && prev[i] == c;
                assert(prev.push(k)[i] == c);
            }
        }
    }
}

/// The columns of `extractQuery()` start with `text`, never repeat, and
/// include the lower-cased name of every attribute of every row.
pub proof fn law_query_columns(rows: Seq<ExtractedRow>)
    ensures
        query_columns_of(rows).len() > 0,
        query_columns_of(rows)[0] == "text"@,
        query_columns_of(rows).no_duplicates(),
        forall|r: int, k: int|
            0 <= r < rows.len() && 0 <= k < rows[r].1@.len() ==> query_columns_of(rows).contains(
                ascii_lower(#[trigger] rows[r].1@[k].0@),
            ),
    decreases rows.len(),
{
    if rows.len() > 0 {
        let d = rows.drop_last();
        law_query_columns(d);
        lemma_columns_after(query_columns_of(d), rows.last().1@);
        assert forall|r: int, k: int|
            0 <= r < rows.len() && 0 <= k < rows[r].1@.len() implies query_columns_of(
            rows,
        ).contains(ascii_lower(#[trigger] rows[r].1@[k].0@)) by {
            if r < d.len() {
                assert(d[r] == rows[r]);
                assert(query_columns_of(d).contains(ascii_lower(d[r].1@[k].0@)));
            } else {
                assert(rows[r] == rows.last());
            }
        }
    } else {
        assert(seq!["text"@].no_duplicates());
    }
}


/// The HTML `markdown()` converts: the page body (the document when the body
/// cannot be read) with no selector, else the first match, whose absence is
/// an error.
pub fn markdown_source(selector: Option<&str>, found_html: Option<String>, document_html: String) -> (r: Result<String, CfmlError>)
    ensures
        match selector {
            None => r matches Ok(h) && h@ == (match found_html {
                Some(f) => f@,
                None => document_html@,
            }),
            Some(sel) => match found_html {
                Some(f) => r matches Ok(h) && h@ == f@,
                None => r matches Err(e) && e.kind == ErrorKind::General && e.message@
                    == "markdown() found no element matching ["@ + sel@ + "]"@,
            },
        },
{
    match selector {
        None => match found_html {
            Some(f) => Ok(f),
            None => Ok(document_html),
        },
        Some(sel) => match found_html {
            Some(f) => Ok(f),
            None => Err(CfmlError::new(concat3("markdown() found no element matching [", sel, "]"))),
        },
    }
}

/// What `count()` answers for a query's result: the match count, 0 for any
/// other reply.
pub fn count_of(out: &QueryOut) -> (n: usize)
    ensures
        n == match out {
            QueryOut::Count(k) => *k,
            _ => 0,
        },
{
    match out {
        QueryOut::Count(k) => *k,
        _ => 0,
    }
}

/// What `exists()` answers for a query's result: whether anything matched.
pub fn exists_of(out: &QueryOut) -> (b: bool)
    ensures
        b == match out {
            QueryOut::Count(k) => *k > 0,
            _ => false,
        },
{
    count_of(out) > 0
}

} // verus!
