use cfml_browser::service::WaitCond;
use cfml_browser::wait::{
    bad_selector_message, contains_text, poll_interval_ms, text_condition_met, wait_step, wait_timeout_message, WaitStep,
};

#[test]
fn text_waits_are_case_blind() {
    assert!(text_condition_met("Welcome BACK, Ada", "back, ada"));
    assert!(text_condition_met("ÉCOLE", "école"));
    assert!(!text_condition_met("Welcome", "goodbye"));
    assert!(text_condition_met("anything", ""));
}

#[test]
fn substring_search() {
    assert!(contains_text("abcabd", "abd"));
    assert!(!contains_text("abc", "abcd"));
    assert!(contains_text("", ""));
    assert!(!contains_text("aaa", "b"));
}

#[test]
fn poll_steps() {
    assert_eq!(poll_interval_ms(0), 10);
    assert_eq!(poll_interval_ms(100), 100);
    assert_eq!(wait_step(true, true), WaitStep::Done);
    assert_eq!(wait_step(false, true), WaitStep::TimedOut);
    assert_eq!(wait_step(false, false), WaitStep::Poll);
}

#[test]
fn wait_messages() {
    assert_eq!(
        wait_timeout_message(&WaitCond::Selector(".dashboard".into()), 5000),
        "timed out after 5000ms waiting for selector [.dashboard]"
    );
    assert_eq!(
        wait_timeout_message(&WaitCond::Text("Thanks".into()), 250),
        "timed out after 250ms waiting for text [Thanks]"
    );
    assert_eq!(bad_selector_message("a[", "unexpected end"), "bad selector [a[]: unexpected end");
}
