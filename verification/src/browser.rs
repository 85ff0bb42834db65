//! The module's entry points: `Browser()` handles and their methods,
//! `browserFetch()`, `browserServer()` and the `waitUntil` spellings.

use vstd::prelude::*;
use crate::error::{CfmlError, ErrorKind};
use crate::service::{BrowserOpts, CookieRow, CookieView};
use vstd::string::StrSliceExecFns;
use crate::text::{
    ascii_lower, ascii_lower_char, ascii_lowercase, concat3, decimal, decimal_text, eq_ascii_case_blind,
    eq_ignore_ascii_case, is_text, signed_decimal, signed_decimal_text, string_of,
};

verus! {

/// When a navigation counts as done.
#[derive(Clone, Copy, Debug, PartialEq, Eq, Structural)]
pub enum WaitUntil {
    Load,
    DomContentLoaded,
    NetworkIdle0,
    NetworkIdle2,
}

/// The `waitUntil` spellings, matched case-blind; empty means `load`.
pub open spec fn wait_until_named(name: Seq<char>) -> Option<WaitUntil> {
    let n = ascii_lower(name);
    if n == "load"@ || n.len() == 0 {
        Some(WaitUntil::Load)
    } else if n == "domcontentloaded"@ {
        Some(WaitUntil::DomContentLoaded)
    } else if n == "networkidle0"@ {
        Some(WaitUntil::NetworkIdle0)
    } else if n == "networkidle2"@ {
        Some(WaitUntil::NetworkIdle2)
    } else {
        None
    }
}

/// Maps CFML's `waitUntil` onto the engine's. An unknown value is an error,
/// not a silent fall back: a typo that quietly changes when a capture happens
/// is the kind of bug nobody finds.
pub fn wait_until(name: &str) -> (r: Result<WaitUntil, CfmlError>)
    ensures
        match r {
            Ok(w) => wait_until_named(name@) == Some(w),
            Err(e) => wait_until_named(name@) is None && e.kind == ErrorKind::General
                && e.message@ == "unknown waitUntil ["@ + ascii_lower(name@)
                + "] — expected load, domcontentloaded, networkidle0 or networkidle2"@,
        },
{
    let n = ascii_lowercase(name);
    if is_text(&n, "load") || n.len() == 0 {
        Ok(WaitUntil::Load)
    } else if is_text(&n, "domcontentloaded") {
        Ok(WaitUntil::DomContentLoaded)
    } else if is_text(&n, "networkidle0") {
        Ok(WaitUntil::NetworkIdle0)
    } else if is_text(&n, "networkidle2") {
        Ok(WaitUntil::NetworkIdle2)
    } else {
        let shown = string_of(&n);
        Err(
            CfmlError::new(
                concat3(
                    "unknown waitUntil [",
                    shown.as_str(),
                    "] — expected load, domcontentloaded, networkidle0 or networkidle2",
                ),
            ),
        )
    }
}

/// A per-command budget in milliseconds: the given one, 30000 when none is
/// given, and at least 1.
pub fn command_timeout_ms(given: Option<i64>) -> (ms: u64)
    ensures
        ms as int == (match given {
            Some(t) => if t < 1 {
                1
            } else {
                t as int
            },
            None => 30000,
        }),
        ms <= i64::MAX,
{
    let t = match given {
        Some(t) => t,
        None => 30000,
    };
    if t < 1 {
        1
    } else {
        t as u64
    }
}

/// How long to wait for a reply: the command's own budget plus five seconds,
/// so a command that fails on its own deadline reports its own error.
pub fn reply_budget_ms(timeout_ms: u64) -> (ms: u64)
    requires
        timeout_ms <= i64::MAX,
    ensures
        ms == timeout_ms + 5000,
{
    timeout_ms + 5000
}

/// What `browserFetch( url, options )` does: navigate `url`, waiting as
/// `waitUntil` says, within `timeout_ms`.
pub struct FetchPlan {
    pub url: String,
    pub wait_until: WaitUntil,
    pub timeout_ms: u64,
}

/// Reads the arguments of `browserFetch()`: a url is required; `waitUntil`
/// defaults to `load` and must be a known spelling; the timeout defaults to
/// 30 seconds.
pub fn fetch_plan(url: Option<String>, wait: Option<String>, timeout: Option<i64>) -> (r: Result<
    FetchPlan,
    CfmlError,
>)
    ensures
        match r {
            Ok(p) => url matches Some(u) && p.url@ == u@ && wait_until_named(
                match wait {
                    Some(w) => w@,
                    None => "load"@,
                },
            ) == Some(p.wait_until) && p.timeout_ms as int == (match timeout {
                Some(t) => if t < 1 {
                    1
                } else {
                    t as int
                },
                None => 30000,
            }),
            Err(e) => e.kind == ErrorKind::General && match url {
                None => e.message@ == "browserFetch() needs a url"@,
                Some(_) => {
                    let w = match wait {
                        Some(w) => w@,
                        None => "load"@,
                    };
                    &&& wait_until_named(w) is None
                    &&& e.message@ == "unknown waitUntil ["@ + ascii_lower(w)
                        + "] — expected load, domcontentloaded, networkidle0 or networkidle2"@
                },
            },
        },
{
    let url = match url {
        Some(u) => u,
        None => {
            return Err(CfmlError::new(String::from_str("browserFetch() needs a url")));
        },
    };
    let wait_name = match wait {
        Some(w) => w,
        None => String::from_str("load"),
    };
    let until = match wait_until(wait_name.as_str()) {
        Ok(w) => w,
        Err(e) => {
            return Err(e);
        },
    };
    Ok(FetchPlan { url, wait_until: until, timeout_ms: command_timeout_ms(timeout) })
}

/// The options of `Browser( options )`, read from what CFML gave.
pub fn browser_options(
    storage_dir: Option<String>,
    proxy: Option<String>,
    user_agent: Option<String>,
    stealth: Option<bool>,
) -> (o: BrowserOpts)
    ensures
        o.storage_dir == storage_dir,
        o.proxy == proxy,
        o.user_agent == user_agent,
        o.stealth == (stealth == Some(true)),
{
    BrowserOpts {
        storage_dir,
        proxy,
        user_agent,
        stealth: match stealth {
            Some(s) => s,
            None => false,
        },
    }
}

/// A CFML `Browser()` handle: an isolated browser context and the default
/// budget of the pages made from it.
pub struct CfmlBrowser {
    pub id: u64,
    pub timeout_ms: u64,
}

/// A method of the CFML `Browser` object.
#[derive(Clone, Copy, Debug, PartialEq, Eq, Structural)]
pub enum BrowserMethod {
    NewPage,
    Cookies,
    SetCookies,
    ClearCookies,
    Close,
}

/// The method a lower-case name calls.
pub open spec fn browser_method_named(n: Seq<char>) -> Option<BrowserMethod> {
    if n == "newpage"@ {
        Some(BrowserMethod::NewPage)
    } else if n == "cookies"@ {
        Some(BrowserMethod::Cookies)
    } else if n == "setcookies"@ {
        Some(BrowserMethod::SetCookies)
    } else if n == "clearcookies"@ {
        Some(BrowserMethod::ClearCookies)
    } else if n == "close"@ {
        Some(BrowserMethod::Close)
    } else {
        None
    }
}

/// Each `Browser` method is called by its own name in lower case.
pub proof fn law_each_browser_method_called_by_its_name()
    ensures
        browser_method_named("newpage"@) == Some(BrowserMethod::NewPage),
        browser_method_named("cookies"@) == Some(BrowserMethod::Cookies),
        browser_method_named("setcookies"@) == Some(BrowserMethod::SetCookies),
        browser_method_named("clearcookies"@) == Some(BrowserMethod::ClearCookies),
        browser_method_named("close"@) == Some(BrowserMethod::Close),
{
    reveal_strlit("newpage");
    reveal_strlit("cookies");
    reveal_strlit("setcookies");
    reveal_strlit("clearcookies");
    reveal_strlit("close");
    assert("newpage"@.len() == 7);
    assert("cookies"@.len() == 7);
    assert("setcookies"@.len() == 10);
    assert("clearcookies"@.len() == 12);
    assert("close"@.len() == 5);
    assert("cookies"@[0] != "newpage"@[0]);
}

/// Each `BrowserServer` method is called by its own name in lower case.
pub proof fn law_each_server_method_called_by_its_name()
    ensures
        server_method_named("stop"@) == Some(ServerMethod::Stop),
        server_method_named("port"@) == Some(ServerMethod::Port),
        server_method_named("url"@) == Some(ServerMethod::Url),
{
    reveal_strlit("stop");
    reveal_strlit("port");
    reveal_strlit("url");
    assert("stop"@.len() == 4);
    assert("port"@.len() == 4);
    assert("url"@.len() == 3);
    assert("port"@[0] != "stop"@[0]);
}

/// Each `waitUntil` spelling names the engine event spelled the same way,
/// in any case, and an empty one means `load`.
pub proof fn law_wait_until_spellings(name: Seq<char>)
    ensures
        wait_until_named("load"@) == Some(WaitUntil::Load),
        wait_until_named(Seq::empty()) == Some(WaitUntil::Load),
        wait_until_named("domcontentloaded"@) == Some(WaitUntil::DomContentLoaded),
        wait_until_named("networkidle0"@) == Some(WaitUntil::NetworkIdle0),
        wait_until_named("networkidle2"@) == Some(WaitUntil::NetworkIdle2),
        wait_until_named(name) == wait_until_named(ascii_lower(name)),
{
    reveal_strlit("load");
    reveal_strlit("domcontentloaded");
    reveal_strlit("networkidle0");
    reveal_strlit("networkidle2");
    assert("load"@.len() == 4);
    assert("domcontentloaded"@.len() == 16);
    assert("networkidle0"@.len() == 12);
    assert("networkidle2"@.len() == 12);
    assert("networkidle2"@[11] != "networkidle0"@[11]);
    assert(ascii_lower("load"@) =~= "load"@);
    assert(ascii_lower("domcontentloaded"@) =~= "domcontentloaded"@);
    assert(ascii_lower("networkidle0"@) =~= "networkidle0"@);
    assert(ascii_lower("networkidle2"@) =~= "networkidle2"@);
    assert(ascii_lower(Seq::<char>::empty()) =~= Seq::<char>::empty());
    assert(ascii_lower(ascii_lower(name)) =~= ascii_lower(name)) by {
        assert forall|i: int| 0 <= i < name.len() implies ascii_lower(ascii_lower(name))[i] == ascii_lower(name)[i] by {
            let c = name[i];
            if 'A' <= c <= 'Z' {
                assert(ascii_lower_char(c) as u32 == c as u32 + 32);
            }
        }
    }
}

impl CfmlBrowser {
    /// A handle on browser `id` whose pages get `timeout_ms` by default.
    pub fn new(id: u64, timeout_ms: u64) -> (b: CfmlBrowser)
        ensures
            b.id == id,
            b.timeout_ms == timeout_ms,
    {
        CfmlBrowser { id, timeout_ms }
    }

    /// The method `name` calls, matched case-blind.
    pub fn method(name: &str) -> (r: Option<BrowserMethod>)
        ensures
            r == browser_method_named(ascii_lower(name@)),
    {
        let n = ascii_lowercase(name);
        if is_text(&n, "newpage") {
            Some(BrowserMethod::NewPage)
        } else if is_text(&n, "cookies") {
            Some(BrowserMethod::Cookies)
        } else if is_text(&n, "setcookies") {
            Some(BrowserMethod::SetCookies)
        } else if is_text(&n, "clearcookies") {
            Some(BrowserMethod::ClearCookies)
        } else if is_text(&n, "close") {
            Some(BrowserMethod::Close)
        } else {
            None
        }
    }

    /// The parameter names of `method`: `setCookies` takes `cookies`, the
    /// others take nothing; `None` for a name that is not a method.
    pub fn method_params(method: &str) -> (r: Option<&'static str>)
        ensures
            match browser_method_named(ascii_lower(method@)) {
                Some(BrowserMethod::SetCookies) => r matches Some(p) && p@ == "cookies"@,
                Some(_) => r matches Some(p) && p@ == ""@,
                None => r is None,
            },
    {
        match Self::method(method) {
            Some(BrowserMethod::SetCookies) => Some("cookies"),
            Some(_) => Some(""),
            None => None,
        }
    }

    /// The error for a name that is not a `Browser` method.
    pub fn no_such_method(method: &str) -> (e: CfmlError)
        ensures
            e.kind == ErrorKind::General,
            e.message@ == "Browser has no method ["@ + ascii_lower(method@) + "]"@,
    {
        let lower = string_of(&ascii_lowercase(method));
        CfmlError::new(concat3("Browser has no method [", lower.as_str(), "]"))
    }
}

/// The cookies `setCookies()` hands the browser: a cookie with no name is an
/// error naming its 1-based position, and a cookie with no path gets `/`.
pub open spec fn cookies_to_set(given: Seq<CookieView>) -> Result<Seq<CookieView>, Seq<char>>
    decreases given.len(),
{
    if given.len() == 0 {
        Ok(Seq::empty())
    } else {
        match cookies_to_set(given.drop_last()) {
            Err(e) => Err(e),
            Ok(done) => {
                let c = given.last();
                if c.name.len() == 0 {
                    Err("setCookies(): cookie "@ + decimal_text(given.len()) + " has no name"@)
                } else if c.path.len() == 0 {
                    Ok(done.push(CookieView { path: "/"@, ..c }))
                } else {
                    Ok(done.push(c))
                }
            },
        }
    }
}

proof fn lemma_cookie_error_propagates(s: Seq<CookieView>, k: int)
    requires
        0 <= k <= s.len(),
        cookies_to_set(s.take(k)) is Err,
    ensures
        cookies_to_set(s) == cookies_to_set(s.take(k)),
    decreases s.len() - k,
{
    if k < s.len() {
        assert(s.take(k + 1).drop_last() =~= s.take(k));
        lemma_cookie_error_propagates(s, k + 1);
    } else {
        assert(s.take(k) =~= s);
    }
}

/// `setCookies()` keeps every cookie it is given, in order and with every
/// field as given, except that an empty path becomes `/`; a cookie without a
/// name refuses the whole call, and the error counts from 1 to the first
/// such cookie.
pub proof fn law_cookies_kept_or_first_nameless_refused(given: Seq<CookieView>)
    ensures
        (forall|i: int| 0 <= i < given.len() ==> (#[trigger] given[i]).name.len() > 0) ==> (
        cookies_to_set(given) matches Ok(out) && out.len() == given.len() && forall|i: int|
            0 <= i < given.len() ==> {
                &&& (#[trigger] out[i]).name == given[i].name
                &&& out[i].value == given[i].value
                &&& out[i].domain == given[i].domain
                &&& out[i].secure == given[i].secure
                &&& out[i].http_only == given[i].http_only
                &&& out[i].same_site == given[i].same_site
                &&& out[i].expires == given[i].expires
                &&& out[i].path == (if given[i].path.len() == 0 {
                    "/"@
                } else {
                    given[i].path
                })
            }),
        forall|k: int|
            0 <= k < given.len() && (#[trigger] given[k]).name.len() == 0 && (forall|j: int|
                0 <= j < k ==> given[j].name.len() > 0) ==> cookies_to_set(given) == Err::<
                Seq<CookieView>,
                Seq<char>,
            >("setCookies(): cookie "@ + decimal_text((k + 1) as nat) + " has no name"@),
    decreases given.len(),
{
    if given.len() > 0 {
        let d = given.drop_last();
        law_cookies_kept_or_first_nameless_refused(d);
        assert forall|k: int|
            0 <= k < given.len() && (#[trigger] given[k]).name.len() == 0 && (forall|j: int|
                0 <= j < k ==> given[j].name.len() > 0) implies cookies_to_set(given) == Err::<
                Seq<CookieView>,
                Seq<char>,
            >("setCookies(): cookie "@ + decimal_text((k + 1) as nat) + " has no name"@) by {
            if k < d.len() {
                assert(d[k] == given[k]);
                assert forall|j: int| 0 <= j < k implies d[j].name.len() > 0 by {
                    assert(d[j] == given[j]);
                }
            } else {
                assert forall|i: int| 0 <= i < d.len() implies (#[trigger] d[i]).name.len() > 0 by {
                    assert(d[i] == given[i]);
                }
            }
        }
        if forall|i: int| 0 <= i < given.len() ==> (#[trigger] given[i]).name.len() > 0 {
            assert forall|i: int| 0 <= i < d.len() implies (#[trigger] d[i]).name.len() > 0 by {
                assert(d[i] == given[i]);
            }
            assert(given[given.len() - 1].name.len() > 0);
        }
    }
}

/// Checks and completes the cookies given to `setCookies()`.
pub fn cookies_for_set(given: Vec<CookieRow>) -> (r: Result<Vec<CookieRow>, CfmlError>)
    ensures
        match r {
            Ok(v) => cookies_to_set(given@.map_values(|c: CookieRow| c.view())) == Ok::<
                Seq<CookieView>,
                Seq<char>,
            >(v@.map_values(|c: CookieRow| c.view())),
            Err(e) => cookies_to_set(given@.map_values(|c: CookieRow| c.view())) == Err::<
                Seq<CookieView>,
                Seq<char>,
            >(e.message@) && e.kind == ErrorKind::General,
        },
{
    let ghost views = given@.map_values(|c: CookieRow| c.view());
    let mut out: Vec<CookieRow> = Vec::new();
    let n = given.len();
    let mut i: usize = 0;
    assert(views.take(0) =~= Seq::<CookieView>::empty());
    assert(out@.map_values(|c: CookieRow| c.view()) =~= Seq::<CookieView>::empty());
    while i < n
        invariant
            i <= n == given.len(),
            views == given@.map_values(|c: CookieRow| c.view()),
            cookies_to_set(views.take(i as int)) == Ok::<Seq<CookieView>, Seq<char>>(
                out@.map_values(|c: CookieRow| c.view()),
            ),
        decreases n - i,
    {
        let ghost before = out@.map_values(|c: CookieRow| c.view());
        assert(views.take(i + 1).drop_last() =~= views.take(i as int));
        assert(views.take(i + 1).last() == given@[i as int].view());
        let c = given[i].clone_row();
        if c.name.as_str().unicode_len() == 0 {
            let mut m = String::from_str("setCookies(): cookie ");
            m.append(decimal((i + 1) as u64).as_str());
            m.append(" has no name");
            proof {
                assert(views.take(i + 1).len() == i + 1);
                lemma_cookie_error_propagates(views, i + 1);
            }
            return Err(CfmlError::new(m));
        }
        let c = if c.path.as_str().unicode_len() == 0 {
            CookieRow { path: String::from_str("/"), ..c }
        } else {
            c
        };
        out.push(c);
        assert(out@.map_values(|c: CookieRow| c.view()) =~= before.push(out@.last().view()));
        i += 1;
    }
    assert(views.take(n as int) =~= views);
    Ok(out)
}


/// A running protocol server, as CFML holds it: the port it listens on.
pub struct CfmlServer {
    pub port: u16,
}

/// A method of the CFML `BrowserServer` object.
#[derive(Clone, Copy, Debug, PartialEq, Eq, Structural)]
pub enum ServerMethod {
    Stop,
    Port,
    Url,
}

/// The method a lower-case name calls.
pub open spec fn server_method_named(n: Seq<char>) -> Option<ServerMethod> {
    if n == "stop"@ {
        Some(ServerMethod::Stop)
    } else if n == "port"@ {
        Some(ServerMethod::Port)
    } else if n == "url"@ {
        Some(ServerMethod::Url)
    } else {
        None
    }
}

impl CfmlServer {
    /// A server object is made by `browserServer()` only.
    pub fn new() -> (r: Result<CfmlServer, CfmlError>)
        ensures
            r matches Err(e) && e.kind == ErrorKind::General && e.message@
                == "start a server with browserServer( kind, options )"@,
    {
        Err(CfmlError::new(String::from_str("start a server with browserServer( kind, options )")))
    }

    /// The method `name` calls, matched case-blind.
    pub fn method(name: &str) -> (r: Option<ServerMethod>)
        ensures
            r == server_method_named(ascii_lower(name@)),
    {
        let n = ascii_lowercase(name);
        if is_text(&n, "stop") {
            Some(ServerMethod::Stop)
        } else if is_text(&n, "port") {
            Some(ServerMethod::Port)
        } else if is_text(&n, "url") {
            Some(ServerMethod::Url)
        } else {
            None
        }
    }

    /// The parameter names of `method`: none for each method; `None` for a
    /// name that is not a method.
    pub fn method_params(method: &str) -> (r: Option<&'static str>)
        ensures
            match server_method_named(ascii_lower(method@)) {
                Some(_) => r matches Some(p) && p@ == ""@,
                None => r is None,
            },
    {
        match Self::method(method) {
            Some(_) => Some(""),
            None => None,
        }
    }

    /// The error for a name that is not a `BrowserServer` method.
    pub fn no_such_method(method: &str) -> (e: CfmlError)
        ensures
            e.kind == ErrorKind::General,
            e.message@ == "BrowserServer has no method ["@ + ascii_lower(method@) + "]"@,
    {
        let lower = string_of(&ascii_lowercase(method));
        CfmlError::new(concat3("BrowserServer has no method [", lower.as_str(), "]"))
    }

    /// The WebSocket address a protocol client connects to.
    pub fn url(&self) -> (u: String)
        ensures
            u@ == "ws://127.0.0.1:"@ + decimal_text(self.port as nat),
    {
        let mut u = String::from_str("ws://127.0.0.1:");
        u.append(decimal(self.port as u64).as_str());
        u
    }
}

/// The error for a server kind other than `cdp`.
pub open spec fn unknown_kind_message(kind: Seq<char>) -> Seq<char> {
    "browserServer(): unknown kind ["@ + kind + "] — only \"cdp\" is supported in this build"@
}

/// The error for a port outside 1 to 65535.
pub open spec fn bad_port_message(port: int) -> Seq<char> {
    "browserServer(): port "@ + signed_decimal_text(port) + " is out of range"@
}

/// The port `browserServer( kind, options )` starts a server on. The kind
/// defaults to `cdp` and must be `cdp`, case-blind; the port defaults to 9222
/// and must lie in 1 to 65535.
pub fn server_port(kind: Option<String>, port: Option<i64>) -> (r: Result<u16, CfmlError>)
    ensures
        ({
            let k = match kind {
                Some(k) => k@,
                None => "cdp"@,
            };
            let p: int = match port {
                Some(p) => p as int,
                None => 9222,
            };
            match r {
                Ok(n) => eq_ascii_case_blind(k, "cdp"@) && 1 <= p <= 65535 && n == p,
                Err(e) => e.kind == ErrorKind::General && if !eq_ascii_case_blind(k, "cdp"@) {
                    e.message@ == unknown_kind_message(k)
                } else {
                    !(1 <= p <= 65535) && e.message@ == bad_port_message(p)
                },
            }
        }),
{
    let kind = match kind {
        Some(k) => k,
        None => String::from_str("cdp"),
    };
    if !eq_ignore_ascii_case(kind.as_str(), "cdp") {
        return Err(
            CfmlError::new(
                concat3(
                    "browserServer(): unknown kind [",
                    kind.as_str(),
                    "] — only \"cdp\" is supported in this build",
                ),
            ),
        );
    }
    let port: i64 = match port {
        Some(p) => p,
        None => 9222,
    };
    if !(1 <= port && port <= 65535) {
        let shown = signed_decimal(port);
        return Err(
            CfmlError::new(concat3("browserServer(): port ", shown.as_str(), " is out of range")),
        );
    }
    Ok(port as u16)
}

/// Whether a native object is one of this module's: a `Browser` or a `Page`.
pub fn is_browser_class(class_name: Option<&str>) -> (r: bool)
    ensures
        r == (match class_name {
            Some(n) => n@ == "Browser"@ || n@ == "Page"@,
            None => false,
        }),
{
    match class_name {
        Some(n) => {
            let v = crate::text::chars_of(n);
            is_text(&v, "Browser") || is_text(&v, "Page")
        },
        None => false,
    }
}

} // verus!
