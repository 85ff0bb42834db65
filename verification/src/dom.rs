//! What a reader sees of a page: the text of a DOM subtree without the
//! elements that are markup machinery, with white space collapsed the way a
//! browser shows it.

use vstd::prelude::*;
use vstd::string::StrSliceExecFns;
use crate::text::{chars_of, is_text, is_white_space, is_ws, push_char, str_eq};

verus! {

broadcast use vstd::string::group_string_axioms;

/// Where white-space collapsing stands after a prefix of the text: what it
/// has written, how many line breaks it has passed since, and whether it has
/// passed other white space.
pub struct WsState {
    pub out: Seq<char>,
    pub newlines: nat,
    pub pending_space: bool,
}

/// The separator written before a visible character.
pub open spec fn ws_separator(st: WsState) -> Seq<char> {
    if st.out.len() == 0 {
        Seq::empty()
    } else if st.newlines > 1 {
        seq!['\n', '\n']
    } else if st.newlines == 1 {
        seq!['\n']
    } else if st.pending_space {
        seq![' ']
    } else {
        Seq::empty()
    }
}

/// One character of collapsing: a line break is counted, other white space is
/// remembered, and a visible character is written after the separator that
/// the white space before it calls for.
pub open spec fn ws_step(st: WsState, c: char) -> WsState {
    if c == '\n' || c == '\r' {
        WsState { out: st.out, newlines: st.newlines + 1, pending_space: false }
    } else if is_white_space(c) {
        WsState { out: st.out, newlines: st.newlines, pending_space: true }
    } else {
        WsState { out: st.out + ws_separator(st) + seq![c], newlines: 0, pending_space: false }
    }
}

/// Collapsing run over all of `s`.
pub open spec fn ws_run(s: Seq<char>) -> WsState
    decreases s.len(),
{
    if s.len() == 0 {
        WsState { out: Seq::empty(), newlines: 0, pending_space: false }
    } else {
        ws_step(ws_run(s.drop_last()), s.last())
    }
}

/// `s` with runs of spaces and tabs collapsed to one space, runs of line
/// breaks to one line break or one blank line, and white space dropped at
/// both ends.
pub open spec fn collapse_ws_spec(s: Seq<char>) -> Seq<char> {
    ws_run(s).out
}

/// Collapses white space: runs of spaces and tabs become one space, runs of
/// line breaks become one line break or one blank line, and both ends are
/// trimmed.
pub fn collapse_ws(s: &str) -> (r: String)
    ensures
        r@ == collapse_ws_spec(s@),
{
    let total = s.unicode_len();
    let mut out = String::new();
    let mut newlines: usize = 0;
    let mut pending_space = false;
    let mut empty = true;
    for c in it: s.chars()
        invariant
            it.seq() == s@,
            ws_run(it.seq().take(it.index())) == (WsState {
                out: out@,
                newlines: newlines as nat,
                pending_space,
            }),
            empty == (out@.len() == 0),
            newlines <= it.index(),
            it.index() <= it.seq().len(),
            total == s@.len(),
    {
        let ghost pre = it.seq().take(it.index());
        assert(it.seq().take(it.index() + 1).drop_last() =~= pre);
        if c == '\n' || c == '\r' {
            newlines += 1;
            pending_space = false;
        } else if is_ws(c) {
            pending_space = true;
        } else {
            if !empty {
                if newlines > 1 {
                    push_char(&mut out, '\n');
                    push_char(&mut out, '\n');
                } else if newlines == 1 {
                    push_char(&mut out, '\n');
                } else if pending_space {
                    push_char(&mut out, ' ');
                }
            }
            push_char(&mut out, c);
            newlines = 0;
            pending_space = false;
            empty = false;
        }
        proof {
            let st = ws_run(pre);
            let next = ws_step(st, c);
            if !(c == '\n' || c == '\r') && !is_white_space(c) {
                assert(out@ =~= next.out);
            }
        }
    }
    assert(s@.take(s@.len() as int) =~= s@);
    out
}


/// The shape of collapsed text: white space in it is only single spaces and
/// line breaks, it neither starts nor ends with white space, two white-space
/// characters in a row are a blank line, and three never occur.
pub open spec fn collapsed_shape(out: Seq<char>) -> bool {
    &&& forall|i: int| 0 <= i < out.len() && is_white_space(#[trigger] out[i]) ==> out[i] == ' '
        || out[i] == '\n'
    &&& out.len() > 0 ==> !is_white_space(out[0]) && !is_white_space(out[out.len() - 1])
    &&& forall|i: int|
        0 <= i < out.len() - 1 && is_white_space(#[trigger] out[i]) && is_white_space(out[i + 1])
            ==> out[i] == '\n' && out[i + 1] == '\n'
    &&& forall|i: int|
        0 <= i < out.len() - 2 ==> !(is_white_space(#[trigger] out[i]) && is_white_space(out[i + 1])
            && is_white_space(out[i + 2]))
}

/// The characters of `s` that are not white space.
pub open spec fn visible_chars(s: Seq<char>) -> Seq<char> {
    s.filter(|c: char| !is_white_space(c))
}

proof fn lemma_ws_step_shape(st: WsState, c: char)
    requires
        collapsed_shape(st.out),
    ensures
        collapsed_shape(ws_step(st, c).out),
        visible_chars(ws_step(st, c).out) == visible_chars(st.out) + visible_chars(seq![c]),
{
    let f = |x: char| !is_white_space(x);
    let next = ws_step(st, c);
    if c == '\n' || c == '\r' || is_white_space(c) {
        assert(is_white_space(c));
        reveal_with_fuel(Seq::<_>::filter, 2);
        assert(visible_chars(seq![c]) =~= Seq::<char>::empty());
        assert(visible_chars(st.out) + Seq::<char>::empty() =~= visible_chars(st.out));
    } else {
        let sep = ws_separator(st);
        let o = st.out;
        let n = next.out;
        assert(n == o + sep + seq![c]);
        assert forall|k: int| 0 <= k < sep.len() implies is_white_space(#[trigger] sep[k]) && (sep[k]
            == ' ' || sep[k] == '\n') by {}
        assert(sep.len() <= 2);
        assert(o.len() == 0 ==> sep.len() == 0);
        assert(sep.len() == 2 ==> sep[0] == '\n' && sep[1] == '\n');
        assert forall|i: int| 0 <= i < n.len() && is_white_space(#[trigger] n[i]) implies n[i] == ' '
            || n[i] == '\n' by {
            if i < o.len() {
                assert(n[i] == o[i]);
            } else if i < o.len() + sep.len() {
                assert(n[i] == sep[i - o.len()]);
            }
        }
        assert forall|i: int|
            0 <= i < n.len() - 1 && is_white_space(#[trigger] n[i]) && is_white_space(
                n[i + 1],
            ) implies n[i] == '\n' && n[i + 1] == '\n' by {
            if i + 1 < o.len() {
                assert(n[i] == o[i] && n[i + 1] == o[i + 1]);
            } else if i + 1 == o.len() {
                assert(n[i] == o[o.len() - 1]);
            } else if i >= o.len() {
                assert(n[i] == sep[i - o.len()]);
                if i + 1 < o.len() + sep.len() {
                    assert(n[i + 1] == sep[i + 1 - o.len()]);
                } else {
                    assert(n[i + 1] == c);
                }
            }
        }
        assert forall|i: int| 0 <= i < n.len() - 2 implies !(is_white_space(#[trigger] n[i])
            && is_white_space(n[i + 1]) && is_white_space(n[i + 2])) by {
            if i + 2 < o.len() {
                assert(n[i] == o[i] && n[i + 1] == o[i + 1] && n[i + 2] == o[i + 2]);
            } else if i + 2 == o.len() {
                assert(n[i + 1] == o[o.len() - 1]);
            } else if i + 1 == o.len() {
                assert(n[i] == o[o.len() - 1]);
            } else {
                if i + 2 < o.len() + sep.len() {
                    assert(false);
                } else {
                    assert(n[i + 2] == c);
                }
            }
        }
        if n.len() > 0 {
            if o.len() > 0 {
                assert(n[0] == o[0]);
            } else {
                assert(n[0] == c);
            }
            assert(n[n.len() - 1] == c);
        }
        Seq::filter_distributes_over_add(o + sep, seq![c], f);
        Seq::filter_distributes_over_add(o, sep, f);
        assert(sep.filter(f) =~= Seq::<char>::empty()) by {
            reveal_with_fuel(Seq::<_>::filter, 3);
            if sep.len() == 2 {
                assert(sep.drop_last().drop_last() =~= Seq::<char>::empty());
                assert(sep.drop_last().last() == sep[0]);
            }
            if sep.len() == 1 {
                assert(sep.drop_last() =~= Seq::<char>::empty());
            }
        }
        assert(visible_chars(o) + Seq::<char>::empty() =~= visible_chars(o));
    }
}

proof fn lemma_ws_run_shape(s: Seq<char>)
    ensures
        collapsed_shape(ws_run(s).out),
        visible_chars(ws_run(s).out) == visible_chars(s),
    decreases s.len(),
{
    let f = |x: char| !is_white_space(x);
    if s.len() == 0 {
        assert(visible_chars(Seq::<char>::empty()) =~= Seq::<char>::empty());
    } else {
        let d = s.drop_last();
        lemma_ws_run_shape(d);
        lemma_ws_step_shape(ws_run(d), s.last());
        assert(s =~= d + seq![s.last()]);
        Seq::filter_distributes_over_add(d, seq![s.last()], f);
    }
}

/// Collapsed text keeps only single spaces and line breaks, never starts or
/// ends with white space, keeps at most one blank line, and drops no visible
/// character: they come out in the order they went in.
pub proof fn law_collapse_ws_shape(s: Seq<char>)
    ensures
        collapsed_shape(collapse_ws_spec(s)),
        visible_chars(collapse_ws_spec(s)) == visible_chars(s),
{
    lemma_ws_run_shape(s);
}

/// Collapsing a prefix of already collapsed text: it has written the prefix
/// up to its last visible character `m`, and holds the white space after it
/// (nothing, one space, one line break, or two line breaks) as pending.
proof fn lemma_collapsed_prefix(t: Seq<char>, k: int) -> (m: int)
    requires
        collapsed_shape(t),
        0 <= k <= t.len(),
    ensures
        0 <= m <= k,
        k - m <= 2,
        m < k ==> 0 < m,
        ws_run(t.take(k)).out == t.take(m),
        k == m ==> ws_run(t.take(k)).newlines == 0 && !ws_run(t.take(k)).pending_space,
        k == m + 1 ==> (t[m] == ' ' && ws_run(t.take(k)).newlines == 0 && ws_run(t.take(k)).pending_space)
            || (t[m] == '\n' && ws_run(t.take(k)).newlines == 1 && !ws_run(t.take(k)).pending_space),
        k == m + 2 ==> t[m] == '\n' && t[m + 1] == '\n' && ws_run(t.take(k)).newlines == 2
            && !ws_run(t.take(k)).pending_space,
    decreases k,
{
    assert(is_white_space(' ') && is_white_space('\n'));
    if k == 0 {
        assert(t.take(0) =~= Seq::<char>::empty());
        0
    } else {
        let m0 = lemma_collapsed_prefix(t, k - 1);
        let pre = t.take(k - 1);
        assert(t.take(k).drop_last() =~= pre);
        assert(t.take(k).last() == t[k - 1]);
        let st = ws_run(pre);
        let c = t[k - 1];
        if is_white_space(c) {
            assert(k - 1 > 0);
            if k - 1 - m0 == 2 {
                assert(is_white_space(t[m0]) && is_white_space(t[m0 + 1]));
                assert(false);
            }
            if k - 1 - m0 == 1 {
                assert(is_white_space(t[m0]));
                assert(t[m0] == '\n' && c == '\n');
            }
            assert(c == ' ' || c == '\n');
            m0
        } else {
            let sep = ws_separator(st);
            if m0 == 0 {
                assert(k - 1 == 0);
            }
            assert(t.take(k) =~= t.take(m0) + sep + seq![c]);
            k
        }
    }
}

/// Collapsing text twice gives what collapsing it once gives: collapsed text
/// is left as it is.
pub proof fn law_collapse_ws_idempotent(s: Seq<char>)
    ensures
        collapse_ws_spec(collapse_ws_spec(s)) == collapse_ws_spec(s),
{
    let t = collapse_ws_spec(s);
    lemma_ws_run_shape(s);
    let m = lemma_collapsed_prefix(t, t.len() as int);
    assert(t.take(t.len() as int) =~= t);
    if m < t.len() {
        assert(is_white_space(' ') && is_white_space('\n'));
        assert(is_white_space(t[t.len() - 1]));
    }
}

/// What a DOM node is, as far as reading text goes.
pub enum NodeKind {
    /// An element: its local name, in lower case as the HTML parser gives it,
    /// and its attributes in document order.
    Element { name: String, attrs: Vec<DomAttr> },
    /// A text node and its text.
    Text(String),
    /// The document, a comment, a doctype or a processing instruction.
    Other,
}

/// A DOM subtree: a node and its children in document order.
pub struct DomNode {
    pub kind: NodeKind,
    pub children: Vec<DomNode>,
}

/// Elements whose content is markup machinery, not page content.
pub open spec fn is_non_rendered(name: Seq<char>) -> bool {
    ||| name == "style"@
    ||| name == "script"@
    ||| name == "noscript"@
    ||| name == "template"@
    ||| name == "head"@
    ||| name == "title"@
}

/// Elements whose edges are a line break, so that two blocks never weld their
/// words together.
pub open spec fn is_block(name: Seq<char>) -> bool {
    ||| name == "p"@
    ||| name == "div"@
    ||| name == "br"@
    ||| name == "li"@
    ||| name == "tr"@
    ||| name == "section"@
    ||| name == "article"@
    ||| name == "h1"@
    ||| name == "h2"@
    ||| name == "h3"@
    ||| name == "h4"@
    ||| name == "h5"@
    ||| name == "h6"@
}

/// Whether a node is skipped with everything under it.
pub open spec fn node_skipped(n: DomNode) -> bool {
    match n.kind {
        NodeKind::Element { name, .. } => is_non_rendered(name@),
        _ => false,
    }
}

/// Whether a node is a block.
pub open spec fn node_is_block(n: DomNode) -> bool {
    match n.kind {
        NodeKind::Element { name, .. } => is_block(name@),
        _ => false,
    }
}

/// The text a node holds itself.
pub open spec fn node_own_text(n: DomNode) -> Seq<char> {
    match n.kind {
        NodeKind::Text(t) => t@,
        _ => Seq::empty(),
    }
}

/// The line break around a block, nothing around other nodes.
pub open spec fn block_edge(n: DomNode) -> Seq<char> {
    if node_is_block(n) {
        seq!['\n']
    } else {
        Seq::empty()
    }
}

/// The raw text of the subtrees `ns`, in document order: a skipped element
/// gives nothing, a text node its text, and a block element wraps its
/// children's text in line breaks.
pub open spec fn raw_text_of(ns: Seq<DomNode>) -> Seq<char>
    decreases ns,
{
    if ns.len() == 0 {
        Seq::empty()
    } else {
        let last = ns[ns.len() - 1];
        let before = raw_text_of(ns.subrange(0, ns.len() - 1));
        if node_skipped(last) {
            before
        } else {
            proof {
                assert(decreases_to!(ns => ns[ns.len() - 1]));
                assert(decreases_to!(last => last.children));
                assert(decreases_to!(last.children => last.children@));
            }
            before + node_own_text(last) + block_edge(last) + raw_text_of(last.children@)
                + block_edge(last)
        }
    }
}

/// The text a reader sees of the subtree `n`: the raw text with white space
/// collapsed.
pub open spec fn visible_text_spec(n: DomNode) -> Seq<char> {
    collapse_ws_spec(raw_text_of(seq![n]))
}


/// Whether an element of this name is markup machinery.
pub fn non_rendered(name: &str) -> (r: bool)
    ensures
        r == is_non_rendered(name@),
{
    let v = chars_of(name);
    is_text(&v, "style") || is_text(&v, "script") || is_text(&v, "noscript") || is_text(
        &v,
        "template",
    ) || is_text(&v, "head") || is_text(&v, "title")
}

/// Whether an element of this name is a block.
pub fn block_element(name: &str) -> (r: bool)
    ensures
        r == is_block(name@),
{
    let v = chars_of(name);
    is_text(&v, "p") || is_text(&v, "div") || is_text(&v, "br") || is_text(&v, "li") || is_text(
        &v,
        "tr",
    ) || is_text(&v, "section") || is_text(&v, "article") || is_text(&v, "h1") || is_text(&v, "h2")
        || is_text(&v, "h3") || is_text(&v, "h4") || is_text(&v, "h5") || is_text(&v, "h6")
}

proof fn lemma_raw_text_single(c: DomNode)
    ensures
        raw_text_of(seq![c]) == (if node_skipped(c) {
            Seq::<char>::empty()
        } else {
            node_own_text(c) + block_edge(c) + raw_text_of(c.children@) + block_edge(c)
        }),
{
    let s = seq![c];
    assert(s.subrange(0, 0) =~= Seq::<DomNode>::empty());
    assert(s[0] == c);
    assert(raw_text_of(Seq::<DomNode>::empty()) == Seq::<char>::empty());
    if !node_skipped(c) {
        let body = node_own_text(c) + block_edge(c) + raw_text_of(c.children@) + block_edge(c);
        assert(raw_text_of(s) == raw_text_of(s.subrange(0, 0)) + node_own_text(c) + block_edge(c)
            + raw_text_of(c.children@) + block_edge(c));
        assert(Seq::<char>::empty() + node_own_text(c) + block_edge(c) + raw_text_of(c.children@)
            + block_edge(c) =~= body);
    }
}

proof fn lemma_raw_text_push(ns: Seq<DomNode>, i: int)
    requires
        0 <= i < ns.len(),
    ensures
        raw_text_of(ns.take(i + 1)) == raw_text_of(ns.take(i)) + raw_text_of(seq![ns[i]]),
{
    let t = ns.take(i + 1);
    assert(t.subrange(0, t.len() - 1) =~= ns.take(i));
    assert(t[t.len() - 1] == ns[i]);
    lemma_raw_text_single(ns[i]);
    let c = ns[i];
    if node_skipped(c) {
        assert(raw_text_of(ns.take(i)) + Seq::<char>::empty() =~= raw_text_of(ns.take(i)));
    } else {
        assert(raw_text_of(ns.take(i)) + node_own_text(c) + block_edge(c) + raw_text_of(
            c.children@,
        ) + block_edge(c) =~= raw_text_of(ns.take(i)) + (node_own_text(c) + block_edge(c)
            + raw_text_of(c.children@) + block_edge(c)));
    }
}

proof fn lemma_raw_text_concat(a: Seq<DomNode>, b: Seq<DomNode>)
    ensures
        raw_text_of(a + b) == raw_text_of(a) + raw_text_of(b),
    decreases b.len(),
{
    if b.len() == 0 {
        assert(a + b =~= a);
        assert(raw_text_of(a) + Seq::<char>::empty() =~= raw_text_of(a));
    } else {
        let ab = a + b;
        let bl = b.subrange(0, b.len() - 1);
        assert(ab.subrange(0, ab.len() - 1) =~= a + bl);
        assert(ab[ab.len() - 1] == b[b.len() - 1]);
        lemma_raw_text_concat(a, bl);
        let last = b[b.len() - 1];
        if !node_skipped(last) {
            let tail = node_own_text(last) + block_edge(last) + raw_text_of(last.children@) + block_edge(last);
            assert(raw_text_of(a) + raw_text_of(bl) + node_own_text(last) + block_edge(last) + raw_text_of(
                last.children@,
            ) + block_edge(last) =~= raw_text_of(a) + (raw_text_of(bl) + node_own_text(last) + block_edge(
                last,
            ) + raw_text_of(last.children@) + block_edge(last)));
        }
    }
}

/// Whether `m` is a `style`, `script`, `noscript`, `template`, `head` or
/// `title` element.
pub open spec fn is_machinery_element(m: DomNode) -> bool {
    match m.kind {
        NodeKind::Element { name, .. } => {
            ||| name@ == "style"@
            ||| name@ == "script"@
            ||| name@ == "noscript"@
            ||| name@ == "template"@
            ||| name@ == "head"@
            ||| name@ == "title"@
        },
        _ => false,
    }
}

/// Nothing inside a `style`, `script`, `noscript`, `template`, `head` or
/// `title` element is ever text a reader sees: putting such an element, with
/// whatever it holds, anywhere among a node's children leaves the node's
/// visible text as it was.
pub proof fn law_machinery_text_is_never_visible(p: DomNode, q: DomNode, i: int, m: DomNode)
    requires
        is_machinery_element(m),
        0 <= i <= p.children@.len(),
        q.kind == p.kind,
        q.children@ == p.children@.insert(i, m),
    ensures
        visible_text_spec(q) == visible_text_spec(p),
        visible_text_spec(m).len() == 0,
{
    let cs = p.children@;
    lemma_raw_text_single(m);
    assert(cs.insert(i, m) =~= cs.take(i) + seq![m] + cs.skip(i));
    assert(cs =~= cs.take(i) + cs.skip(i));
    lemma_raw_text_concat(cs.take(i) + seq![m], cs.skip(i));
    lemma_raw_text_concat(cs.take(i), seq![m]);
    lemma_raw_text_concat(cs.take(i), cs.skip(i));
    assert(raw_text_of(cs.take(i)) + Seq::<char>::empty() =~= raw_text_of(cs.take(i)));
    assert(raw_text_of(q.children@) == raw_text_of(p.children@));
    lemma_raw_text_single(p);
    lemma_raw_text_single(q);
    assert(collapse_ws_spec(Seq::<char>::empty()) == Seq::<char>::empty());
}

/// Whether `n` is an element of one of the block kinds: `p`, `div`, `br`,
/// `li`, `tr`, `section`, `article`, `h1` to `h6`.
pub open spec fn is_block_element(n: DomNode) -> bool {
    match n.kind {
        NodeKind::Element { name, .. } => {
            ||| name@ == "p"@
            ||| name@ == "div"@
            ||| name@ == "br"@
            ||| name@ == "li"@
            ||| name@ == "tr"@
            ||| name@ == "section"@
            ||| name@ == "article"@
            ||| name@ == "h1"@
            ||| name@ == "h2"@
            ||| name@ == "h3"@
            ||| name@ == "h4"@
            ||| name@ == "h5"@
            ||| name@ == "h6"@
        },
        _ => false,
    }
}

/// A block's text stands on lines of its own: it is its children's text with
/// a line break before and after, so two blocks never weld their words
/// together. An inline element such as `span` adds no break.
pub proof fn law_blocks_break_lines(b: DomNode, s: DomNode)
    ensures
        is_block_element(b) ==> raw_text_of(seq![b]) == seq!['\n'] + raw_text_of(b.children@) + seq!['\n'],
        (s.kind matches NodeKind::Element { name, .. } && name@ == "span"@) ==> raw_text_of(seq![s])
            == raw_text_of(s.children@),
{
    reveal_strlit("style");
    reveal_strlit("script");
    reveal_strlit("noscript");
    reveal_strlit("template");
    reveal_strlit("head");
    reveal_strlit("title");
    reveal_strlit("p");
    reveal_strlit("div");
    reveal_strlit("br");
    reveal_strlit("li");
    reveal_strlit("tr");
    reveal_strlit("section");
    reveal_strlit("article");
    reveal_strlit("h1");
    reveal_strlit("h2");
    reveal_strlit("h3");
    reveal_strlit("h4");
    reveal_strlit("h5");
    reveal_strlit("h6");
    reveal_strlit("span");
    assert("style"@.len() == 5);
    assert("script"@.len() == 6);
    assert("noscript"@.len() == 8);
    assert("template"@.len() == 8);
    assert("head"@.len() == 4);
    assert("title"@.len() == 5);
    assert("p"@.len() == 1);
    assert("div"@.len() == 3);
    assert("br"@.len() == 2);
    assert("li"@.len() == 2);
    assert("tr"@.len() == 2);
    assert("section"@.len() == 7);
    assert("article"@.len() == 7);
    assert("h1"@.len() == 2);
    assert("h2"@.len() == 2);
    assert("h3"@.len() == 2);
    assert("h4"@.len() == 2);
    assert("h5"@.len() == 2);
    assert("h6"@.len() == 2);
    assert("span"@.len() == 4);
    assert("template"@[0] != "noscript"@[0]);
    assert("title"@[0] != "style"@[0]);
    assert("li"@[0] != "br"@[0]);
    assert("tr"@[0] != "br"@[0]);
    assert("tr"@[0] != "li"@[0]);
    assert("article"@[0] != "section"@[0]);
    assert("h1"@[0] != "br"@[0]);
    assert("h1"@[0] != "li"@[0]);
    assert("h1"@[0] != "tr"@[0]);
    assert("h2"@[0] != "br"@[0]);
    assert("h2"@[0] != "li"@[0]);
    assert("h2"@[0] != "tr"@[0]);
    assert("h2"@[1] != "h1"@[1]);
    assert("h3"@[0] != "br"@[0]);
    assert("h3"@[0] != "li"@[0]);
    assert("h3"@[0] != "tr"@[0]);
    assert("h3"@[1] != "h1"@[1]);
    assert("h3"@[1] != "h2"@[1]);
    assert("h4"@[0] != "br"@[0]);
    assert("h4"@[0] != "li"@[0]);
    assert("h4"@[0] != "tr"@[0]);
    assert("h4"@[1] != "h1"@[1]);
    assert("h4"@[1] != "h2"@[1]);
    assert("h4"@[1] != "h3"@[1]);
    assert("h5"@[0] != "br"@[0]);
    assert("h5"@[0] != "li"@[0]);
    assert("h5"@[0] != "tr"@[0]);
    assert("h5"@[1] != "h1"@[1]);
    assert("h5"@[1] != "h2"@[1]);
    assert("h5"@[1] != "h3"@[1]);
    assert("h5"@[1] != "h4"@[1]);
    assert("h6"@[0] != "br"@[0]);
    assert("h6"@[0] != "li"@[0]);
    assert("h6"@[0] != "tr"@[0]);
    assert("h6"@[1] != "h1"@[1]);
    assert("h6"@[1] != "h2"@[1]);
    assert("h6"@[1] != "h3"@[1]);
    assert("h6"@[1] != "h4"@[1]);
    assert("h6"@[1] != "h5"@[1]);
    assert("span"@[0] != "head"@[0]);
    lemma_raw_text_single(b);
    lemma_raw_text_single(s);
    if is_block_element(b) {
        assert(Seq::<char>::empty() + seq!['\n'] + raw_text_of(b.children@) + seq!['\n'] =~= seq!['\n']
            + raw_text_of(b.children@) + seq!['\n']);
    }
    if s.kind matches NodeKind::Element { name, .. } && name@ == "span"@ {
        assert(Seq::<char>::empty() + Seq::<char>::empty() + raw_text_of(s.children@) + Seq::<char>::empty()
            =~= raw_text_of(s.children@));
    }
}

/// Appends the raw text of the subtree `n` to `out`.
fn walk(n: &DomNode, out: &mut String)
    ensures
        final(out)@ == old(out)@ + raw_text_of(seq![*n]),
    decreases n,
{
    proof {
        lemma_raw_text_single(*n);
    }
    let (skip, block) = match &n.kind {
        NodeKind::Element { name, .. } => (non_rendered(name.as_str()), block_element(name.as_str())),
        _ => (false, false),
    };
    if skip {
        assert(old(out)@ + Seq::<char>::empty() =~= old(out)@);
        return;
    }
    match &n.kind {
        NodeKind::Text(t) => {
            out.append(t.as_str());
        },
        _ => {},
    }
    if block {
        push_char(out, '\n');
    }
    let ghost mid = out@;
    assert(mid == old(out)@ + node_own_text(*n) + block_edge(*n));
    let mut i: usize = 0;
    while i < n.children.len()
        invariant
            i <= n.children.len(),
            out@ == mid + raw_text_of(n.children@.take(i as int)),
        decreases n.children.len() - i,
    {
        proof {
            lemma_raw_text_push(n.children@, i as int);
            assert(decreases_to!(n => n.children));
            assert(decreases_to!(n.children => n.children@));
            assert(decreases_to!(n.children@ => n.children@[i as int]));
        }
        walk(&n.children[i], out);
        assert(out@ =~= mid + raw_text_of(n.children@.take(i + 1)));
        i += 1;
    }
    assert(n.children@.take(n.children.len() as int) =~= n.children@);
    if block {
        push_char(out, '\n');
    }
    assert(out@ =~= old(out)@ + (node_own_text(*n) + block_edge(*n) + raw_text_of(n.children@)
        + block_edge(*n)));
}

/// What a reader sees of the subtree `n` (`innerText`, roughly): no text from
/// `style`, `script`, `noscript`, `template`, `head` or `title`, a line break
/// at each block edge, and white space collapsed.
pub fn visible_text(n: &DomNode) -> (r: String)
    ensures
        r@ == visible_text_spec(*n),
{
    let mut raw = String::new();
    walk(n, &mut raw);
    assert(Seq::<char>::empty() + raw_text_of(seq![*n]) =~= raw_text_of(seq![*n]));
    collapse_ws(raw.as_str())
}


/// The value of the first attribute named `name` (by qualified name), as
/// `Element.getAttribute` finds it.
pub open spec fn attr_lookup(attrs: Seq<DomAttr>, name: Seq<char>) -> Option<Seq<char>>
    decreases attrs.len(),
{
    if attrs.len() == 0 {
        None
    } else if attrs[0].name@ == name {
        Some(attrs[0].value@)
    } else {
        attr_lookup(attrs.drop_first(), name)
    }
}

/// The attributes of a node: those of an element, none for other nodes.
pub open spec fn node_attrs(n: DomNode) -> Seq<DomAttr> {
    match n.kind {
        NodeKind::Element { attrs, .. } => attrs@,
        _ => Seq::empty(),
    }
}

/// The `href` attribute of each of the nodes `ns`, in order, skipping those
/// that have none.
pub open spec fn hrefs_of(ns: Seq<DomNode>) -> Seq<Seq<char>>
    decreases ns.len(),
{
    if ns.len() == 0 {
        Seq::empty()
    } else {
        let before = hrefs_of(ns.drop_last());
        match attr_lookup(node_attrs(ns.last()), "href"@) {
            Some(h) => before.push(h),
            None => before,
        }
    }
}

/// Whether `url::Url::parse` accepts `s` as an absolute URL.
pub uninterp spec fn url_parses(s: Seq<char>) -> bool;

/// What `url::Url::join` gives for `href` against the parsed `base`, as text;
/// `None` when either fails.
pub uninterp spec fn url_joined(base: Seq<char>, href: Seq<char>) -> Option<Seq<char>>;

/// Whether `url::Url::parse(base)` succeeds; says exactly that, through the
/// name `url_parses`, and nothing of how the URL grammar decides.
#[verifier::external_body]
fn base_url_parses(base: &str) -> (ok: bool)
    ensures
        ok == url_parses(base@),
{
    url::Url::parse(base).is_ok()
}

/// `url::Url::parse(base)` then `Url::join(href)`, as text. The contract names
/// the result `url_joined(base, href)` and says nothing of how URLs resolve.
#[verifier::external_body]
fn join_url(base: &str, href: &str) -> (r: Option<String>)
    ensures
        match r {
            Some(s) => url_joined(base@, href@) == Some(s@),
            None => url_joined(base@, href@) is None,
        },
{
    url::Url::parse(base).ok().and_then(|b| b.join(href).ok()).map(|u| u.to_string())
}

/// The links of a page: each `href` resolved against `base` when `base` is a
/// URL, dropping those that do not resolve; the raw `href`s otherwise.
pub open spec fn resolve_links(hrefs: Seq<Seq<char>>, base: Option<Seq<char>>) -> Seq<Seq<char>>
    decreases hrefs.len(),
{
    if hrefs.len() == 0 {
        Seq::empty()
    } else {
        let before = resolve_links(hrefs.drop_last(), base);
        match base {
            Some(b) => if url_parses(b) {
                match url_joined(b, hrefs.last()) {
                    Some(abs) => before.push(abs),
                    None => before,
                }
            } else {
                before.push(hrefs.last())
            },
            None => before.push(hrefs.last()),
        }
    }
}

/// Every anchor that carries an `href` gives one link, in the anchors' order,
/// whatever the `href` says: with no document URL, or one that does not
/// parse, the links are the `href`s as written; with one that parses, each is
/// the `href` joined onto it, and only one that does not join is left out.
pub proof fn law_every_href_is_a_link(ns: Seq<DomNode>, hs: Seq<Seq<char>>, base: Seq<char>)
    requires
        ns.len() == hs.len(),
        forall|i: int| 0 <= i < ns.len() ==> attr_lookup(node_attrs(#[trigger] ns[i]), "href"@) == Some(hs[i]),
    ensures
        hrefs_of(ns) == hs,
        resolve_links(hs, None) == hs,
        !url_parses(base) ==> resolve_links(hs, Some(base)) == hs,
        url_parses(base) && (forall|i: int| 0 <= i < hs.len() ==> #[trigger] url_joined(base, hs[i]) is Some)
            ==> ({
            let r = resolve_links(hs, Some(base));
            &&& r.len() == hs.len()
            &&& forall|i: int| 0 <= i < hs.len() ==> Some(#[trigger] r[i]) == url_joined(base, hs[i])
        }),
    decreases ns.len(),
{
    if ns.len() > 0 {
        let n2 = ns.drop_last();
        let h2 = hs.drop_last();
        assert forall|i: int| 0 <= i < n2.len() implies attr_lookup(node_attrs(#[trigger] n2[i]), "href"@)
            == Some(h2[i]) by {
            assert(n2[i] == ns[i]);
        }
        law_every_href_is_a_link(n2, h2, base);
        assert(attr_lookup(node_attrs(ns[ns.len() - 1]), "href"@) == Some(hs[hs.len() - 1]));
        assert(hs =~= h2.push(hs.last()));
        if url_parses(base) && (forall|i: int| 0 <= i < hs.len() ==> #[trigger] url_joined(base, hs[i]) is Some) {
            assert forall|i: int| 0 <= i < h2.len() implies #[trigger] url_joined(base, h2[i]) is Some by {
                assert(h2[i] == hs[i]);
            }
            assert(url_joined(base, hs[hs.len() - 1]) is Some);
            let r = resolve_links(hs, Some(base));
            let r2 = resolve_links(h2, Some(base));
            assert forall|i: int| 0 <= i < hs.len() implies Some(#[trigger] r[i]) == url_joined(base, hs[i]) by {
                if i < h2.len() {
                    assert(r[i] == r2[i]);
                    assert(h2[i] == hs[i]);
                }
            }
        }
    } else {
        assert(hs =~= Seq::<Seq<char>>::empty());
    }
}

/// An attribute: its qualified name, its local name, and its value.
pub struct DomAttr {
    pub name: String,
    pub local: String,
    pub value: String,
}

/// The first attribute of `attrs` named `name`.
pub fn find_attr(attrs: &Vec<DomAttr>, name: &str) -> (r: Option<String>)
    ensures
        match r {
            Some(v) => attr_lookup(attrs@, name@) == Some(v@),
            None => attr_lookup(attrs@, name@) is None,
        },
{
    let mut i: usize = 0;
    assert(attrs@.skip(0) =~= attrs@);
    while i < attrs.len()
        invariant
            i <= attrs.len(),
            attr_lookup(attrs@, name@) == attr_lookup(attrs@.skip(i as int), name@),
        decreases attrs.len() - i,
    {
        let ghost rest = attrs@.skip(i as int);
        assert(rest[0] == attrs@[i as int]);
        assert(rest.drop_first() =~= attrs@.skip(i + 1));
        if str_eq(attrs[i].name.as_str(), name) {
            return Some(attrs[i].value.clone());
        }
        i += 1;
    }
    None
}

/// The `href` of each anchor the page's `a[href]` selector matched, in
/// document order, resolved against the document URL `base` when there is
/// one that parses.
pub fn links(anchors: &Vec<DomNode>, base: Option<&str>) -> (r: Vec<String>)
    ensures
        r@.map_values(|s: String| s@) == resolve_links(
            hrefs_of(anchors@),
            match base {
                Some(b) => Some(b@),
                None => None,
            },
        ),
{
    let mut hrefs: Vec<String> = Vec::new();
    let mut k: usize = 0;
    while k < anchors.len()
        invariant
            k <= anchors.len(),
            hrefs@.map_values(|s: String| s@) == hrefs_of(anchors@.take(k as int)),
        decreases anchors.len() - k,
    {
        let ghost before = hrefs@.map_values(|s: String| s@);
        assert(anchors@.take(k + 1).drop_last() =~= anchors@.take(k as int));
        assert(anchors@.take(k + 1).last() == anchors@[k as int]);
        match &anchors[k].kind {
            NodeKind::Element { attrs, .. } => {
                match find_attr(attrs, "href") {
                    Some(h) => {
                        hrefs.push(h);
                        assert(hrefs@.map_values(|s: String| s@) =~= before.push(hrefs@.last()@));
                    },
                    None => {},
                }
            },
            _ => {},
        }
        k += 1;
    }
    assert(anchors@.take(anchors.len() as int) =~= anchors@);
    let ghost all = hrefs_of(anchors@);
    let ghost b = match base {
        Some(b) => Some(b@),
        None => None,
    };
    let resolve = match base {
        Some(b) => base_url_parses(b),
        None => false,
    };
    let mut out: Vec<String> = Vec::new();
    let mut i: usize = 0;
    while i < hrefs.len()
        invariant
            i <= hrefs.len(),
            all == hrefs@.map_values(|s: String| s@),
            resolve == (b matches Some(x) && url_parses(x)),
            b == match base {
                Some(b) => Some(b@),
                None => None::<Seq<char>>,
            },
            out@.map_values(|s: String| s@) == resolve_links(all.take(i as int), b),
        decreases hrefs.len() - i,
    {
        let ghost before = out@.map_values(|s: String| s@);
        assert(all.take(i + 1).drop_last() =~= all.take(i as int));
        assert(all.take(i + 1).last() == hrefs@[i as int]@);
        if resolve {
            match base {
                Some(bs) => {
                    match join_url(bs, hrefs[i].as_str()) {
                        Some(abs) => {
                            out.push(abs);
                            assert(out@.map_values(|s: String| s@) =~= before.push(
                                out@[out@.len() - 1]@,
                            ));
                        },
                        None => {},
                    }
                },
                None => {},
            }
        } else {
            out.push(hrefs[i].clone());
            assert(out@.map_values(|s: String| s@) =~= before.push(hrefs@[i as int]@));
        }
        i += 1;
    }
    assert(all.take(hrefs.len() as int) =~= all);
    out
}

/// One extracted element: its visible text and every attribute it carries,
/// by local name.
pub type ExtractedRow = (String, Vec<(String, String)>);

/// The local names and values of `attrs`.
pub open spec fn attr_pairs(attrs: Seq<DomAttr>) -> Seq<(Seq<char>, Seq<char>)> {
    attrs.map_values(|a: DomAttr| (a.local@, a.value@))
}

/// The text and attributes of one matched element.
pub fn extract_row(n: &DomNode) -> (r: ExtractedRow)
    ensures
        r.0@ == visible_text_spec(*n),
        r.1@.map_values(|p: (String, String)| (p.0@, p.1@)) == attr_pairs(node_attrs(*n)),
{
    let text = visible_text(n);
    let mut pairs: Vec<(String, String)> = Vec::new();
    match &n.kind {
        NodeKind::Element { attrs, .. } => {
            let mut i: usize = 0;
            while i < attrs.len()
                invariant
                    i <= attrs.len(),
                    pairs@.map_values(|p: (String, String)| (p.0@, p.1@)) == attr_pairs(
                        attrs@.take(i as int),
                    ),
                decreases attrs.len() - i,
            {
                let ghost before = pairs@.map_values(|p: (String, String)| (p.0@, p.1@));
                pairs.push((attrs[i].local.clone(), attrs[i].value.clone()));
                assert(attr_pairs(attrs@.take(i + 1)) =~= attr_pairs(attrs@.take(i as int)).push(
                    (attrs@[i as int].local@, attrs@[i as int].value@),
                ));
                assert(pairs@.map_values(|p: (String, String)| (p.0@, p.1@)) =~= before.push(
                    (attrs@[i as int].local@, attrs@[i as int].value@),
                ));
                i += 1;
            }
            assert(attrs@.take(attrs.len() as int) =~= attrs@);
        },
        _ => {
            assert(pairs@.map_values(|p: (String, String)| (p.0@, p.1@)) =~= attr_pairs(
                Seq::empty(),
            ));
        },
    }
    (text, pairs)
}

/// One row per matched element, in match order.
pub fn extract(matches: &Vec<DomNode>) -> (rows: Vec<ExtractedRow>)
    ensures
        rows.len() == matches.len(),
        forall|i: int|
            0 <= i < rows.len() ==> (#[trigger] rows@[i]).0@ == visible_text_spec(matches@[i])
                && rows@[i].1@.map_values(|p: (String, String)| (p.0@, p.1@)) == attr_pairs(
                node_attrs(matches@[i]),
            ),
{
    let mut rows: Vec<ExtractedRow> = Vec::new();
    let mut i: usize = 0;
    while i < matches.len()
        invariant
            i <= matches.len(),
            rows.len() == i,
            forall|k: int|
                0 <= k < i ==> (#[trigger] rows@[k]).0@ == visible_text_spec(matches@[k])
                    && rows@[k].1@.map_values(|p: (String, String)| (p.0@, p.1@)) == attr_pairs(
                    node_attrs(matches@[k]),
                ),
        decreases matches.len() - i,
    {
        let row = extract_row(&matches[i]);
        rows.push(row);
        i += 1;
    }
    rows
}

/// The visible text of the first match, or `None` when nothing matched.
pub fn select_text(first_match: Option<&DomNode>) -> (r: Option<String>)
    ensures
        match first_match {
            Some(n) => r matches Some(t) && t@ == visible_text_spec(*n),
            None => r is None,
        },
{
    match first_match {
        Some(n) => Some(visible_text(n)),
        None => None,
    }
}

/// The attribute `attr` of the first match, or `None` when nothing matched or
/// it has no such attribute.
pub fn select_attr(first_match: Option<&DomNode>, attr: &str) -> (r: Option<String>)
    ensures
        match first_match {
            Some(n) => match attr_lookup(node_attrs(*n), attr@) {
                Some(v) => r matches Some(t) && t@ == v,
                None => r is None,
            },
            None => r is None,
        },
{
    match first_match {
        Some(n) => match &n.kind {
            NodeKind::Element { attrs, .. } => find_attr(attrs, attr),
            _ => None,
        },
        None => None,
    }
}

} // verus!
