//! HTML to Markdown, with htmd in every build. The tags whose content is
//! machinery, not prose, are skipped: htmd walks whatever it is given, so a
//! `<style>` left in the tree would come out as a paragraph of CSS.

use vstd::prelude::*;
use crate::dom::is_non_rendered;
use crate::error::{CfmlError, ErrorKind};

verus! {

/// What htmd makes of `html` when it skips the tags `skip`, or `None` when it
/// fails.
pub uninterp spec fn htmd_markdown(html: Seq<char>, skip: Seq<Seq<char>>) -> Option<Seq<char>>;

/// `htmd::HtmlToMarkdown::builder().skip_tags(skip).build().convert(html)`.
/// The contract names the result `htmd_markdown(html, skip)`; on failure it
/// hands back the error's text, of which it says nothing.
#[verifier::external_body]
fn htmd_convert(html: &str, skip: Vec<&str>) -> (r: Result<String, String>)
    ensures
        match r {
            Ok(m) => htmd_markdown(html@, skip@.map_values(|s: &str| s@)) == Some(m@),
            Err(_) => htmd_markdown(html@, skip@.map_values(|s: &str| s@)) is None,
        },
{
    htmd::HtmlToMarkdown::builder().skip_tags(skip).build().convert(html).map_err(|e| e.to_string())
}

/// The tags skipped when converting: markup machinery, not prose.
pub open spec fn skipped_tags() -> Seq<Seq<char>> {
    seq!["style"@, "script"@, "noscript"@, "template"@, "head"@, "title"@]
}

/// Markdown leaves out exactly the elements whose text `text()` leaves out:
/// `style`, `script`, `noscript`, `template`, `head` and `title`, so a
/// stylesheet in the body never comes out as a paragraph of CSS.
pub proof fn law_markdown_skips_what_text_skips(tag: Seq<char>)
    ensures
        skipped_tags().contains(tag) <==> is_non_rendered(tag),
        skipped_tags().contains("style"@),
        skipped_tags().contains("script"@),
        skipped_tags().contains("noscript"@),
        skipped_tags().contains("template"@),
        skipped_tags().contains("head"@),
        skipped_tags().contains("title"@),
{
    let t = skipped_tags();
    assert(t[0] == "style"@ && t[1] == "script"@ && t[2] == "noscript"@);
    assert(t[3] == "template"@ && t[4] == "head"@ && t[5] == "title"@);
    if t.contains(tag) {
        let i = choose|i: int| 0 <= i < t.len() && t[i] == tag;
    }
}

/// Converts HTML to Markdown, skipping `style`, `script`, `noscript`,
/// `template`, `head` and `title`. A failure is reported as
/// "markdown conversion failed: " and htmd's own words.
pub fn to_markdown(html: &str) -> (r: Result<String, CfmlError>)
    ensures
        match r {
            Ok(m) => htmd_markdown(html@, skipped_tags()) == Some(m@) && htmd_markdown(
                html@,
                seq!["style"@, "script"@, "noscript"@, "template"@, "head"@, "title"@],
            ) == Some(m@),
            Err(e) => htmd_markdown(html@, skipped_tags()) is None && e.kind == ErrorKind::General
                && "markdown conversion failed: "@.is_prefix_of(e.message@),
        },
{
    let mut skip: Vec<&str> = Vec::new();
    skip.push("style");
    skip.push("script");
    skip.push("noscript");
    skip.push("template");
    skip.push("head");
    skip.push("title");
    assert(skip@.map_values(|s: &str| s@) =~= skipped_tags());
    match htmd_convert(html, skip) {
        Ok(m) => Ok(m),
        Err(detail) => {
            let mut msg = String::from_str("markdown conversion failed: ");
            msg.append(detail.as_str());
            assert(msg@.subrange(0, "markdown conversion failed: "@.len() as int) =~= "markdown conversion failed: "@);
            Err(CfmlError::new(msg))
        },
    }
}

} // verus!
