use cfml_browser::markdown::to_markdown;

#[test]
fn markdown_skips_machinery() {
    let md = to_markdown("<html><head><title>T</title><style>body{color:red}</style></head><body><h1>Hello</h1><script>var x;</script><p>World</p></body></html>").ok().unwrap();
    assert!(md.contains("# Hello"));
    assert!(md.contains("World"));
    assert!(!md.contains("color:red"));
    assert!(!md.contains("var x"));
}
