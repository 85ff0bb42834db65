//! The JavaScript the extension runs in pages: interaction snippets built
//! around JSON-quoted selectors and values, the evaluation wrapper that turns
//! an exception into a value, and the font report.

use vstd::prelude::*;
use crate::text::concat3;

verus! {

/// The lower-case hexadecimal digit for `d < 16`.
pub open spec fn hex_digit(d: int) -> char {
    if d < 10 {
        ('0' as int + d) as char
    } else {
        ('a' as int + (d - 10)) as char
    }
}

/// How JSON writes one character inside a string: quote, backslash and the
/// control characters are escaped, everything else stands for itself.
pub open spec fn json_escape_char(c: char) -> Seq<char> {
    if c == '"' {
        seq!['\\', '"']
    } else if c == '\\' {
        seq!['\\', '\\']
    } else if c == '\u{8}' {
        seq!['\\', 'b']
    } else if c == '\t' {
        seq!['\\', 't']
    } else if c == '\n' {
        seq!['\\', 'n']
    } else if c == '\u{c}' {
        seq!['\\', 'f']
    } else if c == '\r' {
        seq!['\\', 'r']
    } else if (c as u32) < 0x20 {
        seq!['\\', 'u', '0', '0', hex_digit((c as u32) as int / 16), hex_digit((c as u32) as int % 16)]
    } else {
        seq![c]
    }
}

/// The characters of `s` escaped for a JSON string.
pub open spec fn json_escaped(s: Seq<char>) -> Seq<char>
    decreases s.len(),
{
    if s.len() == 0 {
        Seq::empty()
    } else {
        json_escaped(s.drop_last()) + json_escape_char(s.last())
    }
}

/// `s` as a JSON (and JavaScript) string literal.
pub open spec fn json_string_literal(s: Seq<char>) -> Seq<char> {
    seq!['"'] + json_escaped(s) + seq!['"']
}

/// What makes an escaped string safe inside quotes: it holds no raw control
/// character (a line break cannot end the script's line), every `"` in it
/// follows a backslash (it cannot close the literal early), and text with
/// neither quotes, backslashes nor control characters is left as it is.
pub proof fn law_json_escaping_keeps_strings_closed(s: Seq<char>)
    ensures
        forall|i: int| 0 <= i < json_escaped(s).len() ==> (#[trigger] json_escaped(s)[i]) as u32 >= 0x20,
        forall|i: int| 0 <= i < json_escaped(s).len() && #[trigger] json_escaped(s)[i] == '"' ==> i > 0
            && json_escaped(s)[i - 1] == '\\',
        (forall|j: int| 0 <= j < s.len() ==> (#[trigger] s[j]) != '"' && s[j] != '\\' && (s[j] as u32)
            >= 0x20) ==> json_escaped(s) == s,
    decreases s.len(),
{
    if s.len() > 0 {
        let d = s.drop_last();
        let c = s.last();
        law_json_escaping_keeps_strings_closed(d);
        let e = json_escaped(d);
        let t = json_escape_char(c);
        let all = json_escaped(s);
        assert(all == e + t);
        assert forall|k: int| 0 <= k < t.len() implies (#[trigger] t[k]) as u32 >= 0x20 && (t[k] == '"' ==> k
            > 0 && t[k - 1] == '\\') by {
            if (c as u32) < 0x20 && c != '\u{8}' && c != '\t' && c != '\n' && c != '\u{c}' && c != '\r' {
                let v = (c as u32) as int;
                assert(0 <= v / 16 < 2);
                assert(0 <= v % 16 < 16);
            }
        }
        assert forall|i: int| 0 <= i < all.len() implies (#[trigger] all[i]) as u32 >= 0x20 by {
            if i >= e.len() {
                assert(all[i] == t[i - e.len()]);
            } else {
                assert(all[i] == e[i]);
            }
        }
        assert forall|i: int| 0 <= i < all.len() && #[trigger] all[i] == '"' implies i > 0 && all[i - 1]
            == '\\' by {
            if i >= e.len() {
                assert(all[i] == t[i - e.len()]);
                if i - e.len() > 0 {
                    assert(all[i - 1] == t[i - 1 - e.len()]);
                }
            } else {
                assert(all[i] == e[i]);
                assert(all[i - 1] == e[i - 1]);
            }
        }
        if forall|j: int| 0 <= j < s.len() ==> (#[trigger] s[j]) != '"' && s[j] != '\\' && (s[j] as u32) >= 0x20 {
            assert forall|j: int| 0 <= j < d.len() implies (#[trigger] d[j]) != '"' && d[j] != '\\' && (d[j]
                as u32) >= 0x20 by {
                assert(d[j] == s[j]);
            }
            assert(c == s[s.len() - 1]);
            assert(t == seq![c]);
            assert(s =~= d.push(c));
            assert(e + seq![c] =~= d.push(c));
        }
    }
}

/// `serde_json::to_string` of a string: the string in double quotes, with
/// `"`, `\` and the control characters below U+0020 escaped (`\b`, `\t`,
/// `\n`, `\f`, `\r`, else `\u00xx` in lower-case hex), and every other
/// character as it is.
#[verifier::external_body]
fn js_str(s: &str) -> (r: String)
    ensures
        r@ == json_string_literal(s@),
{
    serde_json::to_string(s).unwrap_or_else(|_| String::from("\"\""))
}

/// Quotes `s` as a JavaScript string literal.
pub fn quote_js(s: &str) -> (r: String)
    ensures
        r@ == json_string_literal(s@),
{
    js_str(s)
}

pub const CLICK_0: &'static str = "(function(){ var el=document.querySelector(";
pub const CLICK_1: &'static str = ");\n                           if(!el) return \"error:notfound\"; el.click(); return \"ok\"; })()";
pub const FILL_0: &'static str = "(function(){ var el=document.querySelector(";
pub const FILL_1: &'static str = ");\n                           if(!el) return \"error:notfound\";\n                           var v = ";
pub const FILL_2: &'static str = " ? ((el.value||\"\") + ";
pub const FILL_3: &'static str = ") : ";
pub const FILL_4: &'static str = ";\n                           globalThis.__obscura_setFieldValue(el,\"value\",v);\n                           el.dispatchEvent(globalThis.__obscura_markTrusted(new Event(\"input\",{bubbles:true})));\n                           el.dispatchEvent(globalThis.__obscura_markTrusted(new Event(\"change\",{bubbles:true})));\n                           return \"ok\"; })()";
pub const SELECT_0: &'static str = "(function(){ var el=document.querySelector(";
pub const SELECT_1: &'static str = ");\n                           if(!el) return \"error:notfound\";\n                           globalThis.__obscura_setFieldValue(el,\"value\",";
pub const SELECT_2: &'static str = ");\n                           el.dispatchEvent(globalThis.__obscura_markTrusted(new Event(\"change\",{bubbles:true})));\n                           return \"ok\"; })()";
pub const PRESS_0: &'static str = "(function(){ var t=";
pub const PRESS_1: &'static str = ";\n                           if(!t) return \"error:notfound\";\n                           t.dispatchEvent(new KeyboardEvent(\"keydown\",{key:";
pub const PRESS_2: &'static str = ",bubbles:true}));\n                           t.dispatchEvent(new KeyboardEvent(\"keyup\",{key:";
pub const PRESS_3: &'static str = ",bubbles:true}));\n                           if(";
pub const PRESS_4: &'static str = "===\"Enter\" && t.form && typeof t.form.requestSubmit===\"function\") t.form.requestSubmit();\n                           return \"ok\"; })()";
pub const OUTER_HTML_0: &'static str = "(function(){var e=document.querySelector(";
pub const OUTER_HTML_1: &'static str = ");\n                               return e?e.outerHTML:null;})()";
pub const BOUNDING_BOX_0: &'static str = "(function(){var e=document.querySelector(";
pub const BOUNDING_BOX_1: &'static str = ");if(!e)return null;\n                       var r=e.getBoundingClientRect();\n                       return {x:r.x,y:r.y,width:r.width,height:r.height,\n                                top:r.top,left:r.left,bottom:r.bottom,right:r.right};})()";
pub const FONTS_0: &'static str = "(function(){\n  var GENERIC = [\"serif\",\"sans-serif\",\"monospace\",\"cursive\",\"fantasy\",\"system-ui\",\n                 \"ui-serif\",\"ui-sans-serif\",\"ui-monospace\",\"ui-rounded\",\"math\",\"emoji\",\n                 \"fangsong\",\"inherit\",\"initial\",\"unset\",\"revert\",\"\"];\n  var BUNDLED = ";
pub const FONTS_1: &'static str = ";\n  var lower = function(s){ return String(s||\"\").trim().replace(/^['\"]|['\"]$/g,\"\").toLowerCase(); };\n\n  // Mixes wide/narrow/round glyphs and digits so two unrelated faces are\n  // unlikely to agree on total advance width.\n  var PROBE = \"Handgloves 12345 mmmiiiWWWlll@#%\";\n  var probe = document.createElement(\"span\");\n  probe.style.cssText = \"position:absolute;left:-99999px;top:-99999px;\" +\n                        \"font-size:40px;white-space:pre;visibility:hidden\";\n  probe.textContent = PROBE;\n  if (document.body) document.body.appendChild(probe);\n  var widthOf = function(stack){\n    if (!document.body) return 0;\n    probe.style.fontFamily = stack;\n    return Math.round(probe.getBoundingClientRect().width * 100) / 100;\n  };\n\n  // Reference widths for every face the engine can fall back to.\n  var refs = {};\n  for (var b = 0; b < BUNDLED.length; b++) refs[BUNDLED[b]] = widthOf('\"' + BUNDLED[b] + '\"');\n  var generics = [\"sans-serif\",\"serif\",\"monospace\",\"system-ui\"];\n  for (var g = 0; g < generics.length; g++) refs[generics[g]] = widthOf(generics[g]);\n\n  // Distinct first-choice families in force on elements that actually have text.\n  var firsts = {};\n  var all = document.body ? document.body.querySelectorAll(\"*\") : [];\n  for (var i = 0; i < all.length; i++) {\n    var el = all[i];\n    if (el === probe) continue;\n    var hasText = false;\n    for (var n = el.firstChild; n; n = n.nextSibling) {\n      if (n.nodeType === 3 && n.nodeValue && n.nodeValue.trim()) { hasText = true; break; }\n    }\n    if (!hasText) continue;\n    var ff = \"\";\n    try { ff = getComputedStyle(el).fontFamily || \"\"; } catch (e) { continue; }\n    var first = lower(ff.split(\",\")[0]);\n    if (!first || GENERIC.indexOf(first) !== -1) continue;\n    // Keep the WHOLE stack, not just the first token. Probing the first token\n    // alone reports where *it* would land, not where the declaration lands:\n    // `\"Fira Code\", monospace` falls through to Liberation Mono, but the bare\n    // token resolves to Liberation Sans, so the report named the wrong face.\n    if (!firsts[first]) firsts[first] = { count: 0, stack: ff };\n    firsts[first].count++;\n  }\n\n  var isBundled = function(name) {\n    for (var b = 0; b < BUNDLED.length; b++) if (BUNDLED[b].toLowerCase() === name) return true;\n    return false;\n  };\n\n  var substituted = [], loaded = [];\n  for (var f in firsts) {\n    if (isBundled(f)) continue;                       // asked for a bundled face: exact\n    var w = widthOf(firsts[f].stack);\n    var matched = null;\n    for (var key in refs) {\n      if (Math.abs(refs[key] - w) < 0.5) { matched = key; break; }\n    }\n    var row = { family: f, elements: firsts[f].count, width: w, stack: firsts[f].stack };\n    if (matched) { row.renderedAs = matched; substituted.push(row); }\n    else loaded.push(row);\n  }\n\n  // @font-face families. Obscura's CSSOM does not model CSSFontFaceRule: the\n  // rule arrives as a bare CSSRule with type 0 and no .style, only cssText.\n  // Reading .style alone reported \"no webfonts\" on a page that declared one.\n  var faces = [];\n  for (var s = 0; s < document.styleSheets.length; s++) {\n    var rules = null;\n    try { rules = document.styleSheets[s].cssRules; } catch (e) { continue; }\n    if (!rules) continue;\n    for (var r = 0; r < rules.length; r++) {\n      var rule = rules[r];\n      if (!rule) continue;\n      if (rule.type === 5 && rule.style) {\n        var fam = lower(rule.style.getPropertyValue(\"font-family\"));\n        if (fam && faces.indexOf(fam) === -1) faces.push(fam);\n        continue;\n      }\n      var txt = rule.cssText || \"\";\n      if (txt.indexOf(\"@font-face\") === 0) {\n        var m = /font-family\\s*:\\s*([^;}]+)/i.exec(txt);\n        if (m) { var f2 = lower(m[1]); if (f2 && faces.indexOf(f2) === -1) faces.push(f2); }\n      }\n    }\n  }\n\n  if (probe.parentNode) probe.parentNode.removeChild(probe);\n  substituted.sort(function(a,b){ return b.elements - a.elements; });\n  loaded.sort(function(a,b){ return b.elements - a.elements; });\n  return { substituted: substituted, loaded: loaded,\n            webFonts: faces, bundled: BUNDLED };\n})()";

/// The script that reads the document body's HTML, or null.
pub const BODY_HTML: &'static str = "(function(){return document.body?document.body.outerHTML:null;})()";

/// The script that reads the console messages the page has captured.
pub const CONSOLE_MESSAGES: &'static str = "(globalThis.__cfmlConsole || [])";

/// `a`, the quoted `q`, then `b`.
fn around_quoted(a: &str, q: &str, b: &str) -> (r: String)
    ensures
        r@ == a@ + json_string_literal(q@) + b@,
{
    let quoted = js_str(q);
    concat3(a, quoted.as_str(), b)
}

/// Clicks the first element matching `selector`; answers "ok" or
/// "error:notfound".
pub fn click_script(selector: &str) -> (r: String)
    ensures
        r@ == CLICK_0@ + json_string_literal(selector@) + CLICK_1@,
{
    around_quoted(CLICK_0, selector, CLICK_1)
}

/// Sets (or with `append`, extends) the value of the first element matching
/// `selector` through the native setter, then fires trusted `input` and
/// `change` events.
pub fn fill_script(selector: &str, value: &str, append: bool) -> (r: String)
    ensures
        r@ == FILL_0@ + json_string_literal(selector@) + FILL_1@ + (if append {
            "true"@
        } else {
            "false"@
        }) + FILL_2@ + json_string_literal(value@) + FILL_3@ + json_string_literal(value@)
            + FILL_4@,
{
    let mut r = around_quoted(FILL_0, selector, FILL_1);
    if append {
        r.append("true");
    } else {
        r.append("false");
    }
    let v = js_str(value);
    r.append(FILL_2);
    r.append(v.as_str());
    r.append(FILL_3);
    r.append(v.as_str());
    r.append(FILL_4);
    r
}

/// Selects `value` in the first element matching `selector` and fires a
/// trusted `change` event.
pub fn select_option_script(selector: &str, value: &str) -> (r: String)
    ensures
        r@ == SELECT_0@ + json_string_literal(selector@) + SELECT_1@ + json_string_literal(value@)
            + SELECT_2@,
{
    let mut r = around_quoted(SELECT_0, selector, SELECT_1);
    let v = js_str(value);
    r.append(v.as_str());
    r.append(SELECT_2);
    r
}

/// The element a key press goes to: the first match of `selector`, or the
/// focused element (the body when nothing has focus).
pub open spec fn press_target(selector: Option<Seq<char>>) -> Seq<char> {
    match selector {
        Some(s) => "document.querySelector("@ + json_string_literal(s) + ")"@,
        None => "(document.activeElement || document.body)"@,
    }
}

/// Presses `key` (keydown then keyup) on the target; Enter submits the
/// target's form.
pub fn press_script(key: &str, selector: Option<&str>) -> (r: String)
    ensures
        r@ == PRESS_0@ + press_target(
            match selector {
                Some(s) => Some(s@),
                None => None,
            },
        ) + PRESS_1@ + json_string_literal(key@) + PRESS_2@ + json_string_literal(key@) + PRESS_3@
            + json_string_literal(key@) + PRESS_4@,
{
    let target = match selector {
        Some(s) => around_quoted("document.querySelector(", s, ")"),
        None => String::from_str("(document.activeElement || document.body)"),
    };
    let k = js_str(key);
    let mut r = String::from_str(PRESS_0);
    r.append(target.as_str());
    r.append(PRESS_1);
    r.append(k.as_str());
    r.append(PRESS_2);
    r.append(k.as_str());
    r.append(PRESS_3);
    r.append(k.as_str());
    r.append(PRESS_4);
    r
}

/// Reads the outer HTML of the first element matching `selector`, or null.
pub fn outer_html_script(selector: &str) -> (r: String)
    ensures
        r@ == OUTER_HTML_0@ + json_string_literal(selector@) + OUTER_HTML_1@,
{
    around_quoted(OUTER_HTML_0, selector, OUTER_HTML_1)
}

/// Reads the bounding box of the first element matching `selector`, or null.
pub fn bounding_box_script(selector: &str) -> (r: String)
    ensures
        r@ == BOUNDING_BOX_0@ + json_string_literal(selector@) + BOUNDING_BOX_1@,
{
    around_quoted(BOUNDING_BOX_0, selector, BOUNDING_BOX_1)
}

/// The head of the evaluation wrapper.
pub const EVAL_0: &'static str = "(async () => { try { return { __ok: true, v: await (";

/// The tail of the evaluation wrapper.
pub const EVAL_1: &'static str = ") }; }                          catch (e) { return { __ok: false, e: String((e && e.stack) || e) }; } })()";

/// Wraps `script` so that its value, or the exception it threw, comes back as
/// `{ __ok, v }` or `{ __ok, e }`: a thrown error and a legitimate
/// `undefined` are then different answers.
pub fn wrap_for_evaluation(script: &str) -> (r: String)
    ensures
        r@ == EVAL_0@ + script@ + EVAL_1@,
{
    concat3(EVAL_0, script, EVAL_1)
}

/// The faces compiled into the renderer, in the order the report lists them.
pub open spec fn bundled_fonts() -> Seq<Seq<char>> {
    seq![
        "Liberation Sans"@,
        "Liberation Serif"@,
        "Liberation Mono"@,
        "DejaVu Sans"@,
        "Noto Color Emoji"@,
    ]
}

/// The bundled faces as a JSON array of strings.
pub open spec fn bundled_fonts_json() -> Seq<char> {
    "["@ + json_string_literal("Liberation Sans"@) + ","@ + json_string_literal(
        "Liberation Serif"@,
    ) + ","@ + json_string_literal("Liberation Mono"@) + ","@ + json_string_literal(
        "DejaVu Sans"@,
    ) + ","@ + json_string_literal("Noto Color Emoji"@) + "]"@
}

/// The font report: measures, for each family that text on the page asks
/// for, whether it rendered in that face or fell back to a bundled one.
pub fn report_js() -> (r: String)
    ensures
        r@ == FONTS_0@ + bundled_fonts_json() + FONTS_1@,
{
    let mut r = String::from_str(FONTS_0);
    r.append("[");
    let a = js_str("Liberation Sans");
    r.append(a.as_str());
    r.append(",");
    let b = js_str("Liberation Serif");
    r.append(b.as_str());
    r.append(",");
    let c = js_str("Liberation Mono");
    r.append(c.as_str());
    r.append(",");
    let d = js_str("DejaVu Sans");
    r.append(d.as_str());
    r.append(",");
    let e = js_str("Noto Color Emoji");
    r.append(e.as_str());
    r.append("]");
    r.append(FONTS_1);
    r
}

} // verus!
