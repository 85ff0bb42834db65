//! PDF options: named paper sizes and CDP page-range lists such as `"1-3,7"`.

use vstd::prelude::*;
use crate::error::{CfmlError, ErrorKind};
use crate::text::{ascii_lower, ascii_lowercase, chars_of, concat3, is_text, string_of, string_of_range, trim_range, trim_ws};

verus! {

/// One page range: `start` and `end` are 1-based and inclusive, and a missing
/// bound is open.
#[derive(Clone, Copy, Debug, PartialEq, Eq, Structural)]
pub struct PageRange {
    pub start: Option<usize>,
    pub end: Option<usize>,
}

/// Paper dimensions in hundredths of an inch, width first.
#[derive(Clone, Copy, Debug, PartialEq, Eq, Structural)]
pub struct PaperSize {
    pub width_centi_in: u32,
    pub height_centi_in: u32,
}

/// The named paper sizes, matched case-blind: A3, A4, A5, Letter, Legal, Tabloid.
pub open spec fn paper_dimensions(name: Seq<char>) -> Option<PaperSize> {
    let n = ascii_lower(name);
    if n == "a3"@ {
        Some(PaperSize { width_centi_in: 1170, height_centi_in: 1650 })
    } else if n == "a4"@ {
        Some(PaperSize { width_centi_in: 827, height_centi_in: 1170 })
    } else if n == "a5"@ {
        Some(PaperSize { width_centi_in: 583, height_centi_in: 827 })
    } else if n == "letter"@ {
        Some(PaperSize { width_centi_in: 850, height_centi_in: 1100 })
    } else if n == "legal"@ {
        Some(PaperSize { width_centi_in: 850, height_centi_in: 1400 })
    } else if n == "tabloid"@ {
        Some(PaperSize { width_centi_in: 1100, height_centi_in: 1700 })
    } else {
        None
    }
}

/// The named paper sizes are the standard ones and fit together as they do
/// on paper: every one is portrait; each A size is the one above it cut in
/// half, so A3's width is A4's height and A4's width is A5's height; Letter
/// and Legal share a width; Tabloid is two Letter sheets side by side. Names
/// match in any case.
pub proof fn law_paper_sizes_fit_together()
    ensures
        ({
            let a3 = paper_dimensions("A3"@);
            let a4 = paper_dimensions("A4"@);
            let a5 = paper_dimensions("A5"@);
            let letter = paper_dimensions("Letter"@);
            let legal = paper_dimensions("Legal"@);
            let tabloid = paper_dimensions("Tabloid"@);
            &&& a3 is Some && a4 is Some && a5 is Some
            &&& letter is Some && legal is Some && tabloid is Some
            &&& a4 == paper_dimensions("a4"@)
            &&& a3->0.width_centi_in < a3->0.height_centi_in
            &&& a4->0.width_centi_in < a4->0.height_centi_in
            &&& a5->0.width_centi_in < a5->0.height_centi_in
            &&& letter->0.width_centi_in < letter->0.height_centi_in
            &&& legal->0.width_centi_in < legal->0.height_centi_in
            &&& tabloid->0.width_centi_in < tabloid->0.height_centi_in
            &&& a3->0.width_centi_in == a4->0.height_centi_in
            &&& a4->0.width_centi_in == a5->0.height_centi_in
            &&& a4->0.width_centi_in == 827 && a4->0.height_centi_in == 1170
            &&& letter->0.width_centi_in == 850 && letter->0.height_centi_in == 1100
            &&& legal->0.width_centi_in == letter->0.width_centi_in
            &&& legal->0.height_centi_in > letter->0.height_centi_in
            &&& tabloid->0.width_centi_in == letter->0.height_centi_in
            &&& tabloid->0.height_centi_in == 2 * letter->0.width_centi_in
        }),
{
    reveal_strlit("a3");
    reveal_strlit("a4");
    reveal_strlit("a5");
    reveal_strlit("letter");
    reveal_strlit("legal");
    reveal_strlit("tabloid");
    reveal_strlit("A3");
    reveal_strlit("A4");
    reveal_strlit("A5");
    reveal_strlit("Letter");
    reveal_strlit("Legal");
    reveal_strlit("Tabloid");
    assert("a3"@.len() == 2);
    assert("a4"@.len() == 2);
    assert("a5"@.len() == 2);
    assert("letter"@.len() == 6);
    assert("legal"@.len() == 5);
    assert("tabloid"@.len() == 7);
    assert("A3"@.len() == 2);
    assert("A4"@.len() == 2);
    assert("A5"@.len() == 2);
    assert("Letter"@.len() == 6);
    assert("Legal"@.len() == 5);
    assert("Tabloid"@.len() == 7);
    assert("a4"@[1] != "a3"@[1]);
    assert("a5"@[1] != "a3"@[1]);
    assert("a5"@[1] != "a4"@[1]);
    assert(ascii_lower("a3"@) =~= "a3"@);
    assert(ascii_lower("a4"@) =~= "a4"@);
    assert(ascii_lower("a5"@) =~= "a5"@);
    assert(ascii_lower("letter"@) =~= "letter"@);
    assert(ascii_lower("legal"@) =~= "legal"@);
    assert(ascii_lower("tabloid"@) =~= "tabloid"@);
    assert(ascii_lower("A3"@) =~= "a3"@);
    assert(ascii_lower("A4"@) =~= "a4"@);
    assert(ascii_lower("A5"@) =~= "a5"@);
    assert(ascii_lower("Letter"@) =~= "letter"@);
    assert(ascii_lower("Legal"@) =~= "legal"@);
    assert(ascii_lower("Tabloid"@) =~= "tabloid"@);
}

/// The message for a paper name that is not one of the named sizes.
pub open spec fn unknown_paper_message(name: Seq<char>) -> Seq<char> {
    "unknown paper ["@ + ascii_lower(name)
        + "] — expected A3, A4, A5, Letter, Legal or Tabloid, or give paperWidth/paperHeight in inches"@
}

/// The size of a named paper. An unknown name is an error that lists the
/// names there are, never a silent fall back to Letter.
pub fn paper_size(name: &str) -> (r: Result<PaperSize, CfmlError>)
    ensures
        match r {
            Ok(p) => paper_dimensions(name@) == Some(p),
            Err(e) => paper_dimensions(name@) is None && e.kind == ErrorKind::General
                && e.message@ == unknown_paper_message(name@),
        },
{
    let n = ascii_lowercase(name);
    if is_text(&n, "a3") {
        Ok(PaperSize { width_centi_in: 1170, height_centi_in: 1650 })
    } else if is_text(&n, "a4") {
        Ok(PaperSize { width_centi_in: 827, height_centi_in: 1170 })
    } else if is_text(&n, "a5") {
        Ok(PaperSize { width_centi_in: 583, height_centi_in: 827 })
    } else if is_text(&n, "letter") {
        Ok(PaperSize { width_centi_in: 850, height_centi_in: 1100 })
    } else if is_text(&n, "legal") {
        Ok(PaperSize { width_centi_in: 850, height_centi_in: 1400 })
    } else if is_text(&n, "tabloid") {
        Ok(PaperSize { width_centi_in: 1100, height_centi_in: 1700 })
    } else {
        let shown = string_of(&n);
        Err(
            CfmlError::new(
                concat3(
                    "unknown paper [",
                    shown.as_str(),
                    "] — expected A3, A4, A5, Letter, Legal or Tabloid, or give paperWidth/paperHeight in inches",
                ),
            ),
        )
    }
}

/// Whether `c` is an ASCII digit.
pub open spec fn is_digit(c: char) -> bool {
    '0' <= c <= '9'
}

/// Whether every character of `s` is an ASCII digit.
pub open spec fn all_digits(s: Seq<char>) -> bool {
    forall|i: int| 0 <= i < s.len() ==> is_digit(#[trigger] s[i])
}

/// The number that the ASCII digits `s` spell in base ten.
pub open spec fn decimal_value(s: Seq<char>) -> nat
    decreases s.len(),
{
    if s.len() == 0 {
        0
    } else {
        decimal_value(s.drop_last()) * 10 + ((s.last() as u32) - ('0' as u32)) as nat
    }
}

/// What `usize::from_str` accepts: an optional `+`, then one or more ASCII
/// digits, for a value that fits in a `usize`.
pub open spec fn parse_decimal(s: Seq<char>) -> Option<usize> {
    let d = if s.len() > 0 && s[0] == '+' {
        s.drop_first()
    } else {
        s
    };
    if d.len() > 0 && all_digits(d) && decimal_value(d) <= usize::MAX {
        Some(decimal_value(d) as usize)
    } else {
        None
    }
}

proof fn lemma_decimal_prefix(s: Seq<char>, k: int)
    requires
        all_digits(s),
        0 <= k <= s.len(),
    ensures
        decimal_value(s.take(k)) <= decimal_value(s),
    decreases s.len(),
{
    if k < s.len() {
        let d = s.drop_last();
        assert(all_digits(d)) by {
            assert forall|i: int| 0 <= i < d.len() implies is_digit(#[trigger] d[i]) by {
                assert(d[i] == s[i]);
            }
        }
        lemma_decimal_prefix(d, k);
        assert(d.take(k) =~= s.take(k));
        assert(is_digit(s[s.len() - 1]));
    } else {
        assert(s.take(k) =~= s);
    }
}

/// Parses `v[from..to]` the way `usize::from_str` does.
pub fn parse_decimal_range(v: &Vec<char>, from: usize, to: usize) -> (r: Option<usize>)
    requires
        from <= to <= v.len(),
    ensures
        r == parse_decimal(v@.subrange(from as int, to as int)),
{
    let ghost s = v@.subrange(from as int, to as int);
    let start = if from < to && v[from] == '+' {
        from + 1
    } else {
        from
    };
    let ghost d = v@.subrange(start as int, to as int);
    assert(d =~= (if s.len() > 0 && s[0] == '+' {
        s.drop_first()
    } else {
        s
    }));
    if start == to {
        return None;
    }
    let mut acc: usize = 0;
    let mut i = start;
    while i < to
        invariant
            start <= i <= to <= v.len(),
            d == v@.subrange(start as int, to as int),
            d.len() > 0,
            s == v@.subrange(from as int, to as int),
            parse_decimal(s) == (if d.len() > 0 && all_digits(d) && decimal_value(d) <= usize::MAX {
                Some(decimal_value(d) as usize)
            } else {
                None
            }),
            acc == decimal_value(v@.subrange(start as int, i as int)),
            all_digits(v@.subrange(start as int, i as int)),
        decreases to - i,
    {
        let c = v[i];
        if !('0' <= c && c <= '9') {
            assert(d[i - start] == c);
            assert(!is_digit(d[i - start]));
            return None;
        }
        let ghost next = v@.subrange(start as int, i + 1);
        assert(next.drop_last() =~= v@.subrange(start as int, i as int));
        assert(all_digits(next)) by {
            assert forall|k: int| 0 <= k < next.len() implies is_digit(#[trigger] next[k]) by {
                if k < next.len() - 1 {
                    assert(next[k] == v@.subrange(start as int, i as int)[k]);
                }
            }
        }
        let digit = ((c as u32) - ('0' as u32)) as usize;
        match acc.checked_mul(10) {
            None => {
                proof {
                    assert(d.take(i + 1 - start) =~= next);
                    if all_digits(d) {
                        lemma_decimal_prefix(d, i + 1 - start);
                    }
                }
                return None;
            },
            Some(m) => match m.checked_add(digit) {
                None => {
                    proof {
                        assert(d.take(i + 1 - start) =~= next);
                        if all_digits(d) {
                            lemma_decimal_prefix(d, i + 1 - start);
                        }
                    }
                    return None;
                },
                Some(a) => {
                    acc = a;
                },
            },
        }
        i += 1;
    }
    Some(acc)
}

/// The index of the first `c` in `s` at or after `from`, or `s.len()` if there
/// is none.
pub open spec fn next_index_of(s: Seq<char>, from: int, c: char) -> int
    decreases s.len() - from,
{
    if from >= s.len() {
        s.len() as int
    } else if s[from] == c {
        from
    } else {
        next_index_of(s, from + 1, c)
    }
}

proof fn lemma_next_index_bounds(s: Seq<char>, from: int, c: char)
    requires
        0 <= from <= s.len(),
    ensures
        from <= next_index_of(s, from, c) <= s.len(),
        next_index_of(s, from, c) < s.len() ==> s[next_index_of(s, from, c)] == c,
        forall|k: int| from <= k < next_index_of(s, from, c) ==> s[k] != c,
    decreases s.len() - from,
{
    if from < s.len() && s[from] != c {
        lemma_next_index_bounds(s, from + 1, c);
    }
}

/// Finds the first `c` in `v[from..to]`, or returns `to`.
pub fn find_char(v: &Vec<char>, from: usize, to: usize, c: char) -> (k: usize)
    requires
        from <= to <= v.len(),
    ensures
        k == next_index_of(v@.subrange(0, to as int), from as int, c),
        from <= k <= to,
{
    let ghost s = v@.subrange(0, to as int);
    proof {
        lemma_next_index_bounds(s, from as int, c);
    }
    let mut k = from;
    while k < to && v[k] != c
        invariant
            from <= k <= to <= v.len(),
            s == v@.subrange(0, to as int),
            next_index_of(s, from as int, c) == next_index_of(s, k as int, c),
        decreases to - k,
    {
        k += 1;
    }
    k
}

/// The message for a page range that is neither a number nor `from-to`.
pub open spec fn bad_number_message(part: Seq<char>) -> Seq<char> {
    "bad page range ["@ + part + "] — expected a number or 'from-to'"@
}

/// The message for a `from-to` range with a bound that is not a number.
pub open spec fn bad_bound_message(part: Seq<char>) -> Seq<char> {
    "bad page range ["@ + part + "]"@
}

/// One bound of a `from-to` range: empty means open.
pub open spec fn parse_bound(part: Seq<char>, bound: Seq<char>) -> Result<Option<usize>, Seq<char>> {
    let b = trim_ws(bound);
    if b.len() == 0 {
        Ok(None)
    } else {
        match parse_decimal(b) {
            Some(n) => Ok(Some(n)),
            None => Err(bad_bound_message(part)),
        }
    }
}

/// One comma-separated item, already trimmed and not empty: a page number `n`
/// (the range `n-n`), or `from-to` split at its first `-`.
pub open spec fn parse_range_item(part: Seq<char>) -> Result<PageRange, Seq<char>> {
    let dash = next_index_of(part, 0, '-');
    if dash >= part.len() {
        match parse_decimal(part) {
            Some(n) => Ok(PageRange { start: Some(n), end: Some(n) }),
            None => Err(bad_number_message(part)),
        }
    } else {
        match parse_bound(part, part.take(dash)) {
            Err(e) => Err(e),
            Ok(start) => match parse_bound(part, part.skip(dash + 1)) {
                Err(e) => Err(e),
                Ok(end) => Ok(PageRange { start, end }),
            },
        }
    }
}

/// The ranges that the comma-separated item starting at `from` contributes:
/// none when it is empty once trimmed, else the one it spells.
pub open spec fn range_item_at(s: Seq<char>, from: int) -> Result<Seq<PageRange>, Seq<char>> {
    let item = trim_ws(s.subrange(from, next_index_of(s, from, ',')));
    if item.len() == 0 {
        Ok(Seq::empty())
    } else {
        match parse_range_item(item) {
            Ok(r) => Ok(seq![r]),
            Err(e) => Err(e),
        }
    }
}

/// The ranges of the comma-separated items of `s` from index `from` on.
/// Items that are empty once trimmed are skipped; the first bad item is the
/// error.
pub open spec fn parse_range_items(s: Seq<char>, from: int) -> Result<Seq<PageRange>, Seq<char>>
    decreases s.len() - from,
{
    if from < 0 || from > s.len() {
        Ok(Seq::empty())
    } else {
        let k = next_index_of(s, from, ',');
        match range_item_at(s, from) {
            Err(e) => Err(e),
            Ok(first) => if k >= s.len() || k < from {
                Ok(first)
            } else {
                match parse_range_items(s, k + 1) {
                    Err(e) => Err(e),
                    Ok(rest) => Ok(first + rest),
                }
            },
        }
    }
}

/// The result of the items from `from` on, after the ranges `out` already
/// gathered.
pub open spec fn after_gathered(out: Seq<PageRange>, r: Result<Seq<PageRange>, Seq<char>>) -> Result<
    Seq<PageRange>,
    Seq<char>,
> {
    match r {
        Ok(rest) => Ok(out + rest),
        Err(e) => Err(e),
    }
}

proof fn lemma_items_step(s: Seq<char>, from: int, out: Seq<PageRange>, first: Seq<PageRange>)
    requires
        0 <= from <= s.len(),
        from <= next_index_of(s, from, ',') < s.len(),
        range_item_at(s, from) == Ok::<Seq<PageRange>, Seq<char>>(first),
    ensures
        after_gathered(out, parse_range_items(s, from)) == after_gathered(
            out + first,
            parse_range_items(s, next_index_of(s, from, ',') + 1),
        ),
{
    let k = next_index_of(s, from, ',');
    match parse_range_items(s, k + 1) {
        Ok(rest) => {
            assert(out + (first + rest) =~= (out + first) + rest);
        },
        Err(_) => {},
    }
}

proof fn lemma_items_last(s: Seq<char>, from: int, out: Seq<PageRange>, first: Seq<PageRange>)
    requires
        0 <= from <= s.len(),
        next_index_of(s, from, ',') >= s.len(),
        range_item_at(s, from) == Ok::<Seq<PageRange>, Seq<char>>(first),
    ensures
        after_gathered(out, parse_range_items(s, from)) == Ok::<Seq<PageRange>, Seq<char>>(
            out + first,
        ),
{
}

proof fn lemma_items_error(s: Seq<char>, from: int, out: Seq<PageRange>, e: Seq<char>)
    requires
        0 <= from <= s.len(),
        range_item_at(s, from) == Err::<Seq<PageRange>, Seq<char>>(e),
    ensures
        after_gathered(out, parse_range_items(s, from)) == Err::<Seq<PageRange>, Seq<char>>(e),
{
}

/// A page-range list in the CDP spelling, such as `"1-3,7"` or `"-2, 5-"`.
pub open spec fn page_ranges_of(spec: Seq<char>) -> Result<Seq<PageRange>, Seq<char>> {
    parse_range_items(spec, 0)
}

fn parse_bound_exec(v: &Vec<char>, from: usize, to: usize, part: &String) -> (r: Result<
    Option<usize>,
    CfmlError,
>)
    requires
        from <= to <= v.len(),
    ensures
        match r {
            Ok(b) => parse_bound(part@, v@.subrange(from as int, to as int)) == Ok::<
                Option<usize>,
                Seq<char>,
            >(b),
            Err(e) => parse_bound(part@, v@.subrange(from as int, to as int)) == Err::<
                Option<usize>,
                Seq<char>,
            >(e.message@) && e.kind == ErrorKind::General,
        },
{
    let b = trim_range(v, from, to);
    if b.len() == 0 {
        Ok(None)
    } else {
        assert(b@.subrange(0, b@.len() as int) =~= b@);
        match parse_decimal_range(&b, 0, b.len()) {
            Some(n) => Ok(Some(n)),
            None => Err(CfmlError::new(concat3("bad page range [", part.as_str(), "]"))),
        }
    }
}

/// Parses one trimmed, non-empty item.
fn parse_item_exec(item: &Vec<char>) -> (r: Result<PageRange, CfmlError>)
    requires
        item.len() > 0,
    ensures
        match r {
            Ok(p) => parse_range_item(item@) == Ok::<PageRange, Seq<char>>(p),
            Err(e) => parse_range_item(item@) == Err::<PageRange, Seq<char>>(e.message@)
                && e.kind == ErrorKind::General,
        },
{
    let ghost part = item@;
    let to = item.len();
    assert(item@.subrange(0, to as int) =~= part);
    let text = string_of(item);
    let dash = find_char(item, 0, to, '-');
    if dash >= to {
        match parse_decimal_range(item, 0, to) {
            Some(n) => Ok(PageRange { start: Some(n), end: Some(n) }),
            None => Err(
                CfmlError::new(
                    concat3(
                        "bad page range [",
                        text.as_str(),
                        "] — expected a number or 'from-to'",
                    ),
                ),
            ),
        }
    } else {
        assert(part.take(dash as int) =~= item@.subrange(0, dash as int));
        assert(part.skip(dash + 1) =~= item@.subrange(dash + 1, to as int));
        let start = match parse_bound_exec(item, 0, dash, &text) {
            Ok(b) => b,
            Err(e) => {
                return Err(e);
            },
        };
        let end = match parse_bound_exec(item, dash + 1, to, &text) {
            Ok(b) => b,
            Err(e) => {
                return Err(e);
            },
        };
        Ok(PageRange { start, end })
    }
}

/// Parses a page-range list such as `"1-3,7"`: items are separated by commas
/// and trimmed, empty items are skipped, `n` is the range `n-n`, and `from-to`
/// may leave either bound empty. The first item that is not a range is the
/// error.
pub fn parse_ranges(spec: &str) -> (r: Result<Vec<PageRange>, CfmlError>)
    ensures
        match r {
            Ok(v) => page_ranges_of(spec@) == Ok::<Seq<PageRange>, Seq<char>>(v@),
            Err(e) => page_ranges_of(spec@) == Err::<Seq<PageRange>, Seq<char>>(e.message@)
                && e.kind == ErrorKind::General,
        },
{
    let v = chars_of(spec);
    let n = v.len();
    let ghost s = v@;
    assert(s.subrange(0, n as int) =~= s);
    let mut out: Vec<PageRange> = Vec::new();
    let mut from: usize = 0;
    assert(out@ + Seq::<PageRange>::empty() =~= out@);
    assert(page_ranges_of(s) == after_gathered(out@, parse_range_items(s, 0))) by {
        match parse_range_items(s, 0) {
            Ok(rest) => {
                assert(Seq::<PageRange>::empty() + rest =~= rest);
            },
            Err(_) => {},
        }
    }
    loop
        invariant
            from <= n == v.len(),
            s == v@,
            s == spec@,
            s.subrange(0, n as int) == s,
            page_ranges_of(s) == after_gathered(out@, parse_range_items(s, from as int)),
        decreases n - from,
    {
        let k = find_char(&v, from, n, ',');
        proof {
            lemma_next_index_bounds(s, from as int, ',');
        }
        let item = trim_range(&v, from, k);
        let ghost old_out = out@;
        let ghost mut first_seq: Seq<PageRange> = Seq::empty();
        if item.len() > 0 {
            match parse_item_exec(&item) {
                Ok(p) => {
                    out.push(p);
                    proof {
                        first_seq = seq![p];
                    }
                },
                Err(e) => {
                    proof {
                        lemma_items_error(s, from as int, old_out, e.message@);
                    }
                    return Err(e);
                },
            }
        }
        assert(range_item_at(s, from as int) == Ok::<Seq<PageRange>, Seq<char>>(first_seq));
        assert(out@ =~= old_out + first_seq);
        if k >= n {
            proof {
                lemma_items_last(s, from as int, old_out, first_seq);
            }
            return Ok(out);
        }
        proof {
            lemma_items_step(s, from as int, old_out, first_seq);
        }
        from = k + 1;
    }
}

} // verus!
