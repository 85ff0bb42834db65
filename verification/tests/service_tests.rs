use cfml_browser::history::{HistoryError, HistoryMove};
use cfml_browser::service::{
    call_timeout_message, context_name, mock_reply, page_closed_message, page_name, server_running_message,
    server_stuck_message, stop_probe_step, BrowserOpts, MockRule, ServiceBook, Snapshot, StopProbe,
    STOP_PROBES, STOP_PROBE_WAIT_MS,
};

#[test]
fn ids_start_at_one_and_are_never_reused() {
    let mut book = ServiceBook::new();
    let b1 = book.open_browser();
    let b2 = book.open_browser();
    assert_eq!((b1, b2), (1, 2));
    let p1 = book.open_page(b1).ok().unwrap();
    let p2 = book.open_page(b1).ok().unwrap();
    assert_eq!((p1, p2), (1, 2));
    book.close_page(p1);
    let p3 = book.open_page(b2).ok().unwrap();
    assert_eq!(p3, 3);
}

#[test]
fn a_context_lives_while_its_pages_do() {
    let mut book = ServiceBook::new();
    let b = book.open_browser();
    let p = book.open_page(b).ok().unwrap();
    // `Browser().newPage()` drops the handle at once: the page still works.
    book.release_browser(b);
    assert!(book.browser_open(b));
    assert!(book.page_open(p));
    book.close_page(p);
    assert!(!book.browser_open(b));
    assert!(book.open_page(b).is_err());
}

#[test]
fn an_unused_context_is_dropped_with_its_handle() {
    let mut book = ServiceBook::new();
    let b = book.open_browser();
    book.release_browser(b);
    assert!(!book.browser_open(b));
}

#[test]
fn close_drops_the_profile_and_its_pages() {
    let mut book = ServiceBook::new();
    let b = book.open_browser();
    let other = book.open_browser();
    let p1 = book.open_page(b).ok().unwrap();
    let p2 = book.open_page(b).ok().unwrap();
    let q = book.open_page(other).ok().unwrap();
    book.record_goto(p1, "https://a.test/".to_string());
    book.set_blocked(p2, vec!["*.png".to_string()]);
    assert!(book.claim_interception(p2));
    book.add_mock(p2, MockRule { pattern: "*".into(), status: 200, headers: vec![], body: String::new() });
    book.close_browser(b);
    assert!(!book.browser_open(b));
    assert!(!book.page_open(p1));
    assert!(!book.page_open(p2));
    assert!(book.mock_rules(p2).is_empty());
    assert_eq!(book.plan_history(p1, -1), Err(HistoryError::NotNavigated));
    assert!(book.browser_open(other));
    assert!(book.page_open(q));
    assert!(book.open_page(b).is_err());
    assert_eq!(page_closed_message(p1), format!("page {p1} is closed"));
}

#[test]
fn mock_rules_keep_their_order() {
    let mut book = ServiceBook::new();
    let b = book.open_browser();
    let p = book.open_page(b).ok().unwrap();
    let rule = |pat: &str, status: u16| MockRule { pattern: pat.into(), status, headers: vec![], body: String::new() };
    book.add_mock(p, rule("*.json", 200));
    book.add_mock(p, rule("*", 404));
    let rules = book.mock_rules(p);
    assert_eq!(rules.len(), 2);
    assert_eq!((rules[0].pattern.as_str(), rules[0].status), ("*.json", 200));
    assert_eq!((rules[1].pattern.as_str(), rules[1].status), ("*", 404));
    assert_eq!(cfml_browser::service::first_matching_rule(&rules, "https://a.test/x.json"), Some(0));
    assert_eq!(cfml_browser::service::first_matching_rule(&rules, "https://a.test/x.png"), Some(1));
    book.close_page(p);
    assert!(book.mock_rules(p).is_empty());
}

#[test]
fn stopping_a_server_checks_its_port() {
    assert_eq!(STOP_PROBES, 20);
    assert_eq!(stop_probe_step(0, true), StopProbe::Released);
    assert_eq!(stop_probe_step(0, false), StopProbe::Wait { ms: STOP_PROBE_WAIT_MS, last: false });
    assert_eq!(stop_probe_step(19, false), StopProbe::Wait { ms: 100, last: true });
}

#[test]
fn a_live_handle_keeps_its_context_without_pages() {
    let mut book = ServiceBook::new();
    let b = book.open_browser();
    let p = book.open_page(b).ok().unwrap();
    book.close_page(p);
    assert!(book.browser_open(b));
}

#[test]
fn history_through_the_book() {
    let mut book = ServiceBook::new();
    let b = book.open_browser();
    let p = book.open_page(b).ok().unwrap();
    assert_eq!(book.plan_history(p, -1), Err(HistoryError::NotNavigated));
    assert_eq!(book.plan_history(p, 0), Ok(HistoryMove::Reload));
    book.record_goto(p, "https://a.test/".to_string());
    book.record_goto(p, "https://a.test/next".to_string());
    assert_eq!(book.plan_history(p, -1), Ok(HistoryMove::Go(0)));
    assert_eq!(book.history_url(p, 0), "https://a.test/");
    book.commit_history(p, 0);
    assert_eq!(book.plan_history(p, 1), Ok(HistoryMove::Go(1)));
    book.close_page(p);
    assert!(!book.page_open(p));
}

#[test]
fn capture_preparation_once_per_navigation() {
    let mut book = ServiceBook::new();
    let b = book.open_browser();
    let p = book.open_page(b).ok().unwrap();
    assert!(book.claim_preparation(p));
    assert!(!book.claim_preparation(p));
    book.record_goto(p, "https://a.test/".to_string());
    assert!(book.claim_preparation(p));
}

#[test]
fn interception_switched_on_once() {
    let mut book = ServiceBook::new();
    let b = book.open_browser();
    let p = book.open_page(b).ok().unwrap();
    assert!(book.claim_interception(p));
    assert!(!book.claim_interception(p));
    book.set_blocked(p, vec!["*.png*".to_string()]);
}

#[test]
fn servers_by_port() {
    let mut book = ServiceBook::new();
    assert!(!book.server_running(9222));
    book.add_server(9222);
    assert!(book.server_running(9222));
    assert!(book.remove_server(9222));
    assert!(!book.remove_server(9222));
    assert!(book.can_open_browser());
    assert!(book.can_open_page());
}

#[test]
fn mock_reply_carries_base64_body() {
    let rule = MockRule {
        pattern: "*".into(),
        status: 201,
        headers: vec![("x".into(), "1".into())],
        body: "hi".into(),
    };
    let r = mock_reply(&rule);
    assert_eq!(r.status, 201);
    assert_eq!(r.body, "hi");
    assert_eq!(r.body_base64, "aGk=");
    assert_eq!(r.headers, vec![("x".to_string(), "1".to_string())]);
    let r = mock_reply(&MockRule { pattern: "*".into(), status: 200, headers: vec![], body: "{\"a\":1}".into() });
    assert_eq!(r.body_base64, "eyJhIjoxfQ==");
    let r = mock_reply(&MockRule { pattern: "*".into(), status: 200, headers: vec![], body: "é".into() });
    assert_eq!(r.body_base64, "w6k=");
}

#[test]
fn service_messages() {
    assert_eq!(page_closed_message(12), "page 12 is closed");
    assert_eq!(server_running_message(9222), "a browser server is already running on 9222");
    assert!(server_stuck_message(9222).starts_with("the CDP server on port 9222 did not shut down"));
    assert_eq!(call_timeout_message(35000), "browser operation timed out after 35000ms");
    assert_eq!(context_name(4), "rustcfml-4");
    assert_eq!(page_name(10), "page-10");
}

#[test]
fn defaults() {
    let o = BrowserOpts::default();
    assert!(o.storage_dir.is_none() && o.proxy.is_none() && o.user_agent.is_none() && !o.stealth);
    let s = Snapshot::default();
    assert!(s.url.is_empty() && s.title.is_empty() && s.html.is_empty() && s.text.is_empty());
}
