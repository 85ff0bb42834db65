use cfml_browser::glob::matches_cdp_pattern;
use cfml_browser::service::{first_matching_rule, MockRule};

#[test]
fn lone_star_matches_everything() {
    assert!(matches_cdp_pattern("*", "https://example.com/a?b=c"));
    assert!(matches_cdp_pattern("*", ""));
}

#[test]
fn no_implicit_star_at_the_end() {
    // `*.png` means "ends with .png": a cache-busted URL is missed.
    assert!(!matches_cdp_pattern("*.png", "https://x.test/styles.png?v=3"));
    assert!(matches_cdp_pattern("*.png*", "https://x.test/styles.png?v=3"));
    assert!(matches_cdp_pattern("*.png", "https://x.test/logo.png"));
}

#[test]
fn ends_with_even_when_the_suffix_recurs() {
    assert!(matches_cdp_pattern("*.json", "a.json.json"));
    assert!(!matches_cdp_pattern("*.json", "data.json?v=2"));
}

#[test]
fn literal_pattern_is_equality() {
    assert!(matches_cdp_pattern("https://a.test/x", "https://a.test/x"));
    assert!(!matches_cdp_pattern("https://a.test/x", "https://a.test/xy"));
    assert!(!matches_cdp_pattern("https://a.test/x", "https://a.test/"));
}

#[test]
fn leading_text_is_anchored() {
    assert!(matches_cdp_pattern("https://a.test/*", "https://a.test/page"));
    assert!(!matches_cdp_pattern("https://a.test/*", "http://evil/https://a.test/page"));
}

#[test]
fn stars_in_the_middle() {
    assert!(matches_cdp_pattern("*/api/flags*", "https://app.test/api/flags?x=1"));
    assert!(matches_cdp_pattern("*analytics*", "https://cdn.test/js/analytics.js"));
    assert!(!matches_cdp_pattern("*/api/flags*", "https://app.test/api/flag"));
    assert!(matches_cdp_pattern("a*b*c", "aXbYbZc"));
    assert!(!matches_cdp_pattern("a*b*c", "aXbYbZ"));
}

fn rule(p: &str, status: u16) -> MockRule {
    MockRule { pattern: p.to_string(), status, headers: vec![], body: String::new() }
}

#[test]
fn first_matching_rule_wins() {
    let rules = vec![rule("*/slow*", 500), rule("*/api/*", 200), rule("*", 404)];
    assert_eq!(first_matching_rule(&rules, "https://a.test/api/slow"), Some(0));
    assert_eq!(first_matching_rule(&rules, "https://a.test/api/flags"), Some(1));
    assert_eq!(first_matching_rule(&rules, "https://a.test/other"), Some(2));
    assert_eq!(first_matching_rule(&rules[1..2].to_vec(), "https://a.test/other"), None);
}
