use cfml_browser::dom::ExtractedRow;
use cfml_browser::json::JsonValue;
use cfml_browser::page::{
    act_outcome, count_of, exists_of, history_delta, markdown_source, method_params, mock_rule,
    no_such_method, page_method, query_cells, query_columns, settle_ms, wait_condition,
    wait_timeout_ms, with_content_type, CfmlPage, PageMethod,
};
use cfml_browser::service::{QueryOut, WaitCond};

#[test]
fn method_names_are_case_blind() {
    assert_eq!(page_method("waitForSelector"), Some(PageMethod::WaitForSelector));
    assert_eq!(page_method("EXTRACTQUERY"), Some(PageMethod::ExtractQuery));
    assert_eq!(page_method("nope"), None);
    assert_eq!(method_params("goto"), Some("url,options"));
    assert_eq!(method_params("Attr"), Some("selector,name"));
    assert_eq!(method_params("fonts"), Some(""));
    assert_eq!(method_params("press"), Some("key,selector"));
    assert_eq!(method_params("frobnicate"), None);
    assert_eq!(no_such_method("Frob").message, "Page has no method [frob]");
}

#[test]
fn page_handle_lifecycle() {
    let mut p = CfmlPage::new(7, 30_000);
    assert_eq!(p.id(), 7);
    assert_eq!(p.budget(), 35_000);
    assert!(p.live().is_ok());
    assert!(p.release_on_drop());
    assert!(p.close());
    assert!(!p.close());
    assert!(!p.release_on_drop());
    assert_eq!(p.live().err().unwrap().message, "this page has been closed");
}

#[test]
fn argument_defaults() {
    assert_eq!(wait_timeout_ms(None), 5000);
    assert_eq!(wait_timeout_ms(Some(0)), 1);
    assert_eq!(wait_timeout_ms(Some(-5)), 1);
    assert_eq!(wait_timeout_ms(Some(250)), 250);
    assert_eq!(settle_ms(None), 1000);
    assert_eq!(settle_ms(Some(-1)), 0);
    assert_eq!(settle_ms(Some(500)), 500);
    assert_eq!(history_delta(PageMethod::Back), -1);
    assert_eq!(history_delta(PageMethod::Forward), 1);
    assert_eq!(history_delta(PageMethod::Reload), 0);
    assert!(matches!(wait_condition(PageMethod::WaitForSelector, "h1".into()), WaitCond::Selector(s) if s == "h1"));
    assert!(matches!(wait_condition(PageMethod::WaitForText, "Hi".into()), WaitCond::Text(s) if s == "Hi"));
}

#[test]
fn interaction_answers() {
    assert!(act_outcome(&JsonValue::Str("ok".into()), "click", "#go").is_ok());
    let e = act_outcome(&JsonValue::Str("error:notfound".into()), "click", "#go").err().unwrap();
    assert_eq!(e.message, "click() found no element matching [#go]");
    let e = act_outcome(&JsonValue::Str("boom".into()), "fill", "#x").err().unwrap();
    assert_eq!(e.message, "fill() failed on [#x]: boom");
    let e = act_outcome(&JsonValue::Null, "press", "<active element>").err().unwrap();
    assert_eq!(e.message, "press() failed on [<active element>]: no result");
}

#[test]
fn mock_guesses_content_type() {
    let r = mock_rule(Some("*/api/flags*".into()), None, Some("  {\"feature\":\"on\"}".into()), vec![]).ok().unwrap();
    assert_eq!(r.status, 200);
    assert_eq!(r.headers, vec![("content-type".to_string(), "application/json".to_string())]);
    let r = mock_rule(Some("*".into()), Some(500), Some("boom".into()), vec![("x-test".into(), "1".into())]).ok().unwrap();
    assert_eq!(r.status, 500);
    assert_eq!(
        r.headers,
        vec![("x-test".to_string(), "1".to_string()), ("content-type".to_string(), "text/plain".to_string())]
    );
    let given = vec![("Content-Type".to_string(), "text/html".to_string())];
    assert_eq!(with_content_type(given.clone(), "[1]"), given);
    let r = mock_rule(Some("*".into()), Some(70000), None, vec![]).ok().unwrap();
    assert_eq!(r.status, 70000u32 as u16);
    assert_eq!(r.body, "");
    let e = mock_rule(None, None, None, vec![]).err().unwrap();
    assert_eq!(e.message, "mock() needs a url pattern");
}

#[test]
fn extract_query_columns_and_cells() {
    let rows: Vec<ExtractedRow> = vec![
        ("A".into(), vec![("HREF".into(), "/a".into()), ("class".into(), "x".into())]),
        ("B".into(), vec![("id".into(), "b".into()), ("href".into(), "/b".into())]),
    ];
    let cols = query_columns(&rows);
    assert_eq!(cols, vec!["text", "href", "class", "id"]);
    assert_eq!(query_cells(&cols, &rows[0].0, &rows[0].1), vec!["A", "/a", "x", ""]);
    assert_eq!(query_cells(&cols, &rows[1].0, &rows[1].1), vec!["B", "/b", "", "b"]);
    assert_eq!(query_columns(&vec![]), vec!["text"]);
}

#[test]
fn markdown_source_choice() {
    assert_eq!(markdown_source(None, Some("<body>b</body>".into()), "<html/>".into()).ok().unwrap(), "<body>b</body>");
    assert_eq!(markdown_source(None, None, "<html/>".into()).ok().unwrap(), "<html/>");
    assert_eq!(markdown_source(Some("#m"), Some("<p/>".into()), "<html/>".into()).ok().unwrap(), "<p/>");
    let e = markdown_source(Some("#m"), None, "<html/>".into()).err().unwrap();
    assert_eq!(e.message, "markdown() found no element matching [#m]");
}

#[test]
fn count_and_exists() {
    assert_eq!(count_of(&QueryOut::Count(3)), 3);
    assert_eq!(count_of(&QueryOut::List(vec![])), 0);
    assert!(exists_of(&QueryOut::Count(1)));
    assert!(!exists_of(&QueryOut::Count(0)));
}
