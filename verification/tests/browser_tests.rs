use cfml_browser::browser::{
    browser_options, command_timeout_ms, cookies_for_set, fetch_plan, is_browser_class, reply_budget_ms,
    server_port, wait_until, BrowserMethod, CfmlBrowser, CfmlServer, ServerMethod, WaitUntil,
};
use cfml_browser::service::CookieRow;

#[test]
fn wait_until_spellings() {
    assert_eq!(wait_until("load").ok(), Some(WaitUntil::Load));
    assert_eq!(wait_until("").ok(), Some(WaitUntil::Load));
    assert_eq!(wait_until("DOMContentLoaded").ok(), Some(WaitUntil::DomContentLoaded));
    assert_eq!(wait_until("networkIdle0").ok(), Some(WaitUntil::NetworkIdle0));
    assert_eq!(wait_until("networkidle2").ok(), Some(WaitUntil::NetworkIdle2));
    let e = wait_until("Idle").err().unwrap();
    assert_eq!(
        e.message,
        "unknown waitUntil [idle] — expected load, domcontentloaded, networkidle0 or networkidle2"
    );
}

#[test]
fn fetch_arguments() {
    let p = fetch_plan(Some("https://example.com/".into()), None, None).ok().unwrap();
    assert_eq!(p.url, "https://example.com/");
    assert_eq!(p.wait_until, WaitUntil::Load);
    assert_eq!(p.timeout_ms, 30_000);
    assert_eq!(reply_budget_ms(p.timeout_ms), 35_000);
    let p = fetch_plan(Some("u".into()), Some("networkidle0".into()), Some(-3)).ok().unwrap();
    assert_eq!(p.wait_until, WaitUntil::NetworkIdle0);
    assert_eq!(p.timeout_ms, 1);
    assert_eq!(fetch_plan(None, None, None).err().unwrap().message, "browserFetch() needs a url");
    assert_eq!(
        fetch_plan(Some("u".into()), Some("SOON".into()), None).err().unwrap().message,
        "unknown waitUntil [soon] — expected load, domcontentloaded, networkidle0 or networkidle2"
    );
    assert_eq!(command_timeout_ms(Some(1234)), 1234);
}

#[test]
fn browser_options_and_methods() {
    let o = browser_options(None, Some("http://proxy:8080".into()), None, None);
    assert_eq!(o.proxy.as_deref(), Some("http://proxy:8080"));
    assert!(!o.stealth);
    assert!(browser_options(None, None, None, Some(true)).stealth);
    let b = CfmlBrowser::new(3, 30_000);
    assert_eq!((b.id, b.timeout_ms), (3, 30_000));
    assert_eq!(CfmlBrowser::method("NewPage"), Some(BrowserMethod::NewPage));
    assert_eq!(CfmlBrowser::method_params("setCookies"), Some("cookies"));
    assert_eq!(CfmlBrowser::method_params("close"), Some(""));
    assert_eq!(CfmlBrowser::method_params("open"), None);
    assert_eq!(CfmlBrowser::no_such_method("Open").message, "Browser has no method [open]");
}

fn cookie(name: &str, path: &str) -> CookieRow {
    CookieRow {
        name: name.into(),
        value: "v".into(),
        domain: "a.test".into(),
        path: path.into(),
        secure: false,
        http_only: true,
        same_site: "Lax".into(),
        expires: None,
    }
}

#[test]
fn set_cookies_checks_and_defaults() {
    let out = cookies_for_set(vec![cookie("sid", ""), cookie("pref", "/app")]).ok().unwrap();
    assert_eq!(out[0].path, "/");
    assert_eq!(out[1].path, "/app");
    assert_eq!(out[0].name, "sid");
    let e = cookies_for_set(vec![cookie("a", "/"), cookie("", "/"), cookie("", "/")]).err().unwrap();
    assert_eq!(e.message, "setCookies(): cookie 2 has no name");
    assert!(cookies_for_set(vec![]).ok().unwrap().is_empty());
}

#[test]
fn server_arguments() {
    assert_eq!(server_port(None, None).ok(), Some(9222));
    assert_eq!(server_port(Some("CDP".into()), Some(9333)).ok(), Some(9333));
    assert_eq!(
        server_port(Some("bidi".into()), None).err().unwrap().message,
        "browserServer(): unknown kind [bidi] — only \"cdp\" is supported in this build"
    );
    assert_eq!(server_port(None, Some(0)).err().unwrap().message, "browserServer(): port 0 is out of range");
    assert_eq!(server_port(None, Some(70000)).err().unwrap().message, "browserServer(): port 70000 is out of range");
    assert_eq!(server_port(None, Some(-4)).err().unwrap().message, "browserServer(): port -4 is out of range");
    assert_eq!(server_port(None, Some(65535)).ok(), Some(65535));
}

#[test]
fn server_object() {
    let s = CfmlServer { port: 9222 };
    assert_eq!(s.url(), "ws://127.0.0.1:9222");
    assert_eq!(CfmlServer::method("STOP"), Some(ServerMethod::Stop));
    assert_eq!(CfmlServer::method_params("url"), Some(""));
    assert_eq!(CfmlServer::method_params("start"), None);
    assert_eq!(CfmlServer::no_such_method("Start").message, "BrowserServer has no method [start]");
    assert_eq!(
        CfmlServer::new().err().unwrap().message,
        "start a server with browserServer( kind, options )"
    );
}

#[test]
fn browser_object_classes() {
    assert!(is_browser_class(Some("Browser")));
    assert!(is_browser_class(Some("Page")));
    assert!(!is_browser_class(Some("BrowserServer")));
    assert!(!is_browser_class(None));
}
