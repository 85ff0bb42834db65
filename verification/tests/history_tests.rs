use cfml_browser::history::{HistoryError, HistoryMove, NavHistory};

#[test]
fn back_and_forward_walk_the_stack() {
    let mut h = NavHistory::new();
    h.record_navigation("https://a.test/1".to_string());
    h.record_navigation("https://a.test/2".to_string());
    h.record_navigation("https://a.test/3".to_string());
    assert_eq!(h.len(), 3);
    assert_eq!(h.current(), 2);
    assert_eq!(h.plan(-1), Ok(HistoryMove::Go(1)));
    assert_eq!(h.url_at(1), "https://a.test/2");
    h.commit(1);
    assert_eq!(h.plan(-1), Ok(HistoryMove::Go(0)));
    h.commit(0);
    assert_eq!(h.plan(-1), Err(HistoryError::NoEarlier));
    assert_eq!(h.plan(1), Ok(HistoryMove::Go(1)));
    h.commit(1);
    assert_eq!(h.plan(1), Ok(HistoryMove::Go(2)));
}

#[test]
fn navigating_after_back_drops_what_lay_ahead() {
    let mut h = NavHistory::new();
    h.record_navigation("a".to_string());
    h.record_navigation("b".to_string());
    h.record_navigation("c".to_string());
    h.commit(0);
    h.record_navigation("d".to_string());
    assert_eq!(h.len(), 2);
    assert_eq!(h.url_at(0), "a");
    assert_eq!(h.url_at(1), "d");
    assert_eq!(h.plan(1), Err(HistoryError::NoLater));
    assert_eq!(h.plan(-1), Ok(HistoryMove::Go(0)));
}

#[test]
fn landing_on_the_same_url_adds_no_entry() {
    let mut h = NavHistory::new();
    h.record_navigation("a".to_string());
    h.record_navigation("a".to_string());
    assert_eq!(h.len(), 1);
    assert_eq!(h.current(), 0);
}

#[test]
fn nowhere_to_go_is_an_error() {
    let h = NavHistory::new();
    assert_eq!(h.plan(-1), Err(HistoryError::NotNavigated));
    assert_eq!(h.plan(1), Err(HistoryError::NotNavigated));
    assert_eq!(h.plan(0), Ok(HistoryMove::Reload));
    assert_eq!(HistoryError::NotNavigated.message(), "this page has not navigated anywhere yet");
    assert_eq!(HistoryError::NoEarlier.message(), "no earlier page in this page's history");
    assert_eq!(HistoryError::NoLater.message(), "no later page in this page's history");
}

#[test]
fn reload_does_not_touch_history() {
    let mut h = NavHistory::new();
    h.record_navigation("a".to_string());
    assert_eq!(h.plan(0), Ok(HistoryMove::Reload));
    assert_eq!(h.len(), 1);
}
