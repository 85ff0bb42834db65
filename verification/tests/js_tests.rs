use cfml_browser::js::{
    bounding_box_script, click_script, fill_script, outer_html_script, press_script, quote_js, report_js,
    select_option_script, wrap_for_evaluation,
};
use cfml_browser::json::{interpret_evaluation, JsonValue};

#[test]
fn quoting_escapes_json_specials() {
    assert_eq!(quote_js("a\"b\\c"), "\"a\\\"b\\\\c\"");
    assert_eq!(quote_js("line\nnext\ttab"), "\"line\\nnext\\ttab\"");
    assert_eq!(quote_js("\u{1}"), "\"\\u0001\"");
    assert_eq!(quote_js("é</script>"), "\"é</script>\"");
}

#[test]
fn click_snippet_quotes_the_selector() {
    let s = click_script("a[href=\"/x\"]");
    assert!(s.starts_with("(function(){ var el=document.querySelector(\"a[href=\\\"/x\\\"]\");"));
    assert!(s.ends_with("el.click(); return \"ok\"; })()"));
}

#[test]
fn fill_and_type_snippets() {
    let f = fill_script("#q", "hello", false);
    assert!(f.contains("var v = false ? ((el.value||\"\") + \"hello\") : \"hello\";"));
    let t = fill_script("#q", "x", true);
    assert!(t.contains("var v = true ? ((el.value||\"\") + \"x\") : \"x\";"));
    let s = select_option_script("#plan", "team");
    assert!(s.contains("__obscura_setFieldValue(el,\"value\",\"team\");"));
}

#[test]
fn press_targets() {
    let p = press_script("Enter", None);
    assert!(p.starts_with("(function(){ var t=(document.activeElement || document.body);"));
    assert!(p.contains("if(\"Enter\"===\"Enter\""));
    let p = press_script("a", Some("#f"));
    assert!(p.starts_with("(function(){ var t=document.querySelector(\"#f\");"));
}

#[test]
fn reading_snippets() {
    assert!(outer_html_script("main").starts_with("(function(){var e=document.querySelector(\"main\");"));
    assert!(bounding_box_script("#b").contains("getBoundingClientRect"));
}

#[test]
fn evaluation_wrapper() {
    assert_eq!(
        wrap_for_evaluation("1+1"),
        "(async () => { try { return { __ok: true, v: await (1+1) }; }                          catch (e) { return { __ok: false, e: String((e && e.stack) || e) }; } })()"
    );
}

#[test]
fn font_report_lists_bundled_faces() {
    let r = report_js();
    assert!(r.contains(
        "var BUNDLED = [\"Liberation Sans\",\"Liberation Serif\",\"Liberation Mono\",\"DejaVu Sans\",\"Noto Color Emoji\"];"
    ));
    assert!(r.starts_with("(function(){"));
    assert!(r.ends_with("})()"));
}

#[test]
fn reading_an_evaluation_reply() {
    let ok = JsonValue::Object(vec![
        ("__ok".into(), JsonValue::Bool(true)),
        ("v".into(), JsonValue::Number("3".into())),
    ]);
    assert!(matches!(interpret_evaluation(Some(ok)), Ok(JsonValue::Number(n)) if n == "3"));
    let undefined = JsonValue::Object(vec![("__ok".into(), JsonValue::Bool(true))]);
    assert!(matches!(interpret_evaluation(Some(undefined)), Ok(JsonValue::Null)));
    let threw = JsonValue::Object(vec![
        ("__ok".into(), JsonValue::Bool(false)),
        ("e".into(), JsonValue::Str("ReferenceError: x".into())),
    ]);
    assert_eq!(interpret_evaluation(Some(threw)).err().unwrap(), "ReferenceError: x");
    let odd = JsonValue::Object(vec![("__ok".into(), JsonValue::Bool(false))]);
    assert_eq!(interpret_evaluation(Some(odd)).err().unwrap(), "JavaScript error");
    assert!(interpret_evaluation(None).err().unwrap().starts_with("evaluate() failed"));
    assert!(interpret_evaluation(Some(JsonValue::Null)).is_err());
}
