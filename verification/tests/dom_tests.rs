use cfml_browser::dom::{
    collapse_ws, extract, links, select_attr, select_text, visible_text, DomAttr, DomNode, NodeKind,
};

fn el(name: &str, attrs: &[(&str, &str)], children: Vec<DomNode>) -> DomNode {
    DomNode {
        kind: NodeKind::Element {
            name: name.to_string(),
            attrs: attrs
                .iter()
                .map(|(k, v)| DomAttr { name: k.to_string(), local: k.to_string(), value: v.to_string() })
                .collect(),
        },
        children,
    }
}

fn text(t: &str) -> DomNode {
    DomNode { kind: NodeKind::Text(t.to_string()), children: vec![] }
}

fn doc(children: Vec<DomNode>) -> DomNode {
    DomNode { kind: NodeKind::Other, children }
}

#[test]
fn collapse_runs_and_trim() {
    assert_eq!(collapse_ws("  a \t b  "), "a b");
    assert_eq!(collapse_ws("a\nb"), "a\nb");
    assert_eq!(collapse_ws("a\n\n\n\nb"), "a\n\nb");
    assert_eq!(collapse_ws("a \n  \n b"), "a\n\nb");
    assert_eq!(collapse_ws("\r\n x \r\n"), "x");
    assert_eq!(collapse_ws("   "), "");
    assert_eq!(collapse_ws("a\u{00A0}\u{2003}b"), "a b");
}

#[test]
fn stylesheet_and_script_are_not_text() {
    let page = doc(vec![el(
        "html",
        &[],
        vec![
            el("head", &[], vec![el("title", &[], vec![text("Example Domain")]), el("style", &[], vec![text("body{color:red}")])]),
            el(
                "body",
                &[],
                vec![
                    el("h1", &[], vec![text("Example Domain")]),
                    el("script", &[], vec![text("var x = 1;")]),
                    el("p", &[], vec![text("This domain is for use.")]),
                ],
            ),
        ],
    )]);
    assert_eq!(visible_text(&page), "Example Domain\n\nThis domain is for use.");
}

#[test]
fn blocks_do_not_weld_words() {
    let page = el("body", &[], vec![el("div", &[], vec![text("End")]), el("div", &[], vec![text("Start")])]);
    assert_eq!(visible_text(&page), "End\n\nStart");
    let inline = el("body", &[], vec![el("span", &[], vec![text("End")]), el("span", &[], vec![text("Start")])]);
    assert_eq!(visible_text(&inline), "EndStart");
}

#[test]
fn links_resolve_against_the_document_url() {
    // What the page's `a[href]` selector matched, in document order; a node
    // that turns out to carry no `href` is skipped.
    let page = vec![
        el("a", &[("href", "/about")], vec![text("About")]),
        el("a", &[("name", "top")], vec![]),
        el("a", &[("href", "https://other.test/x")], vec![]),
        el("a", &[("href", "page2.html")], vec![]),
    ];
    assert_eq!(
        links(&page, Some("https://site.test/dir/index.html")),
        vec!["https://site.test/about", "https://other.test/x", "https://site.test/dir/page2.html"]
    );
    assert_eq!(links(&page, None), vec!["/about", "https://other.test/x", "page2.html"]);
    assert_eq!(links(&page, Some("not a url")), vec!["/about", "https://other.test/x", "page2.html"]);
}

#[test]
fn extract_gives_text_and_attributes() {
    let rows = extract(&vec![
        el("li", &[("class", "row"), ("data-id", "7")], vec![text(" First  item ")]),
        el("li", &[], vec![text("Second")]),
    ]);
    assert_eq!(rows.len(), 2);
    assert_eq!(rows[0].0, "First item");
    assert_eq!(rows[0].1, vec![("class".to_string(), "row".to_string()), ("data-id".to_string(), "7".to_string())]);
    assert_eq!(rows[1].0, "Second");
    assert!(rows[1].1.is_empty());
}

#[test]
fn select_text_and_attr() {
    let a = el("a", &[("href", "/x"), ("href", "/y")], vec![text("go")]);
    assert_eq!(select_text(Some(&a)), Some("go".to_string()));
    assert_eq!(select_text(None), None);
    assert_eq!(select_attr(Some(&a), "href"), Some("/x".to_string()));
    assert_eq!(select_attr(Some(&a), "title"), None);
    assert_eq!(select_attr(None, "href"), None);
}

#[test]
fn collapsing_twice_changes_nothing() {
    for s in ["  a \t b  ", "a\n\n\n\nb", " x \r\n y\n\n z ", "", "\n\n", "one"] {
        let once = collapse_ws(s);
        assert_eq!(collapse_ws(&once), once);
    }
}
