//! Did a capture actually paint anything? A blank-but-valid PNG is
//! byte-for-byte a success, so the pixels are counted: how many there are, how
//! many share the dominant colour (the background, whatever colour it is), and
//! how many distinct colours occur.

use vstd::prelude::*;
use std::collections::HashMap;
use vstd::std_specs::iter::IteratorSpec;

verus! {

broadcast use vstd::std_specs::hash::group_hash_axioms;

/// The RGB bytes, three per pixel row by row, that the image crate decodes
/// from `png`; `None` when it is not a PNG it can decode.
pub uninterp spec fn png_rgb_bytes(png: Seq<u8>) -> Option<Seq<u8>>;

/// `image::load_from_memory_with_format(png, ImageFormat::Png)`, then
/// `to_rgb8().into_raw()`. The contract names the result `png_rgb_bytes(png)`
/// and says nothing of how PNG decodes.
#[verifier::external_body]
fn decode_png_rgb(png: &[u8]) -> (r: Option<Vec<u8>>)
    ensures
        match r {
            Some(b) => png_rgb_bytes(png@) == Some(b@),
            None => png_rgb_bytes(png@) is None,
        },
{
    image::load_from_memory_with_format(png, image::ImageFormat::Png).ok().map(
        |img| img.to_rgb8().into_raw(),
    )
}

/// The colour of pixel `i` of raw RGB bytes, as one number.
pub open spec fn pixel_colour(b: Seq<u8>, i: int) -> u32 {
    (b[3 * i] as int * 65536 + b[3 * i + 1] as int * 256 + b[3 * i + 2] as int) as u32
}

/// The colour of every whole pixel of raw RGB bytes.
pub open spec fn pixel_colours(b: Seq<u8>) -> Seq<u32> {
    Seq::new(b.len() / 3, |i: int| pixel_colour(b, i))
}

/// How many of `s` are `c`.
pub open spec fn occurrences(s: Seq<u32>, c: u32) -> nat
    decreases s.len(),
{
    if s.len() == 0 {
        0
    } else {
        occurrences(s.drop_last(), c) + if s.last() == c {
            1nat
        } else {
            0nat
        }
    }
}

/// The pixel counts of a capture.
#[derive(Clone, Copy, Debug, PartialEq, Eq, Structural)]
pub struct InkStats {
    /// Pixels in the image.
    pub pixels: usize,
    /// Pixels of the most frequent colour.
    pub dominant: usize,
    /// Distinct colours.
    pub distinct: usize,
}

/// What the counts of the colours `cs` are: their number, the occurrences of
/// the most frequent one, and how many different ones there are.
pub open spec fn ink_stats_of(cs: Seq<u32>, st: InkStats) -> bool {
    &&& st.pixels == cs.len()
    &&& st.distinct == cs.to_set().len()
    &&& forall|c: u32| #[trigger] occurrences(cs, c) <= st.dominant
    &&& (cs.len() == 0 ==> st.dominant == 0)
    &&& (cs.len() > 0 ==> exists|c: u32| cs.contains(c) && #[trigger] occurrences(cs, c) == st.dominant)
}

proof fn lemma_occurrences_contains(s: Seq<u32>, c: u32)
    ensures
        occurrences(s, c) > 0 <==> s.contains(c),
        occurrences(s, c) <= s.len(),
    decreases s.len(),
{
    if s.len() > 0 {
        lemma_occurrences_contains(s.drop_last(), c);
        if s.drop_last().contains(c) {
            let i = choose|i: int| 0 <= i < s.drop_last().len() && s.drop_last()[i] == c;
            assert(s[i] == c);
        }
        if s.contains(c) && s.last() != c {
            let i = choose|i: int| 0 <= i < s.len() && s[i] == c;
            assert(s.drop_last()[i] == c);
        }
    }
}

/// Counts the colours of raw RGB bytes.
fn count_colours(b: &Vec<u8>) -> (st: InkStats)
    ensures
        ink_stats_of(pixel_colours(b@), st),
{
    let ghost cs = pixel_colours(b@);
    let n = b.len() / 3;
    let mut counts: HashMap<u32, usize> = HashMap::new();
    let mut i: usize = 0;
    while i < n
        invariant
            i <= n == b.len() / 3,
            cs == pixel_colours(b@),
            counts@.dom() == cs.take(i as int).to_set(),
            forall|c: u32| #[trigger] counts@.contains_key(c) ==> counts@[c] == occurrences(cs.take(i as int), c),
            forall|c: u32| #[trigger] occurrences(cs.take(i as int), c) <= i,
        decreases n - i,
    {
        let k: u32 = ((b[3 * i] as u32) * 65536 + (b[3 * i + 1] as u32) * 256 + (b[3 * i + 2] as u32));
        assert(k == cs[i as int]);
        let ghost pre = cs.take(i as int);
        let ghost post = cs.take(i + 1);
        assert(post.drop_last() =~= pre);
        assert(post.last() == k);
        proof {
            lemma_occurrences_contains(pre, k);
        }
        let cur: usize = match counts.get(&k) {
            Some(v) => *v,
            None => 0,
        };
        assert(cur == occurrences(pre, k));
        counts.insert(k, cur + 1);
        proof {
            assert forall|x: u32| #[trigger] post.to_set().contains(x) <==> pre.to_set().insert(k).contains(x) by {
                if post.to_set().contains(x) {
                    let j = choose|j: int| 0 <= j < post.len() && post[j] == x;
                    if j < pre.len() {
                        assert(pre[j] == x);
                    }
                }
                if pre.to_set().contains(x) {
                    let j = choose|j: int| 0 <= j < pre.len() && pre[j] == x;
                    assert(post[j] == x);
                }
                if x == k {
                    assert(post[post.len() - 1] == x);
                }
            }
            assert(counts@.dom() =~= post.to_set());
            assert forall|c: u32| #[trigger] occurrences(post, c) <= i + 1 by {
                assert(occurrences(pre, c) <= i);
            }
        }
        i += 1;
    }
    assert(cs.take(n as int) =~= cs);
    let distinct = counts.len();
    let mut dominant: usize = 0;
    let ghost vals: Seq<usize> = vstd::std_specs::hash::spec_values_iter(&counts).remaining().unref();
    let ghost mut idx: int = 0;
    for v in it: counts.values()
        invariant
            vals == it.seq().unref(),
            vals.to_set() == counts@.values(),
            idx == it.index(),
            forall|j: int| 0 <= j < idx ==> vals[j] <= dominant,
            idx == 0 ==> dominant == 0,
            idx > 0 ==> exists|j: int| 0 <= j < idx && vals[j] == dominant,
    {
        assert(vals[idx] == *v);
        if *v > dominant {
            dominant = *v;
        }
        proof {
            idx = idx + 1;
        }
    }
    assert(idx == vals.len());
    proof {
        assert forall|c: u32| #[trigger] occurrences(cs, c) <= dominant by {
            lemma_occurrences_contains(cs, c);
            if cs.contains(c) {
                assert(cs.to_set().contains(c));
                assert(counts@.values().contains(counts@[c]));
                assert(vals.to_set().contains(counts@[c]));
                let j = choose|j: int| 0 <= j < vals.len() && vals[j] == counts@[c];
            }
        }
        if cs.len() > 0 {
            assert(cs.to_set().contains(cs[0]));
            assert(counts@.dom().len() > 0);
            assert(counts@.values().contains(counts@[cs[0]]));
            assert(vals.to_set().contains(counts@[cs[0]]));
            assert(idx > 0);
            let j = choose|j: int| 0 <= j < idx && vals[j] == dominant;
            assert(vals.to_set().contains(dominant));
            assert(counts@.values().contains(dominant));
            let c = choose|c: u32| counts@.contains_key(c) && counts@[c] == dominant;
            assert(cs.to_set().contains(c));
        } else {
            assert(cs.to_set() =~= Set::<u32>::empty());
        }
    }
    InkStats { pixels: n, dominant, distinct }
}

/// The pixel counts of a PNG capture; all zero when it does not decode.
pub fn coverage(png: &[u8]) -> (st: InkStats)
    ensures
        match png_rgb_bytes(png@) {
            Some(b) => ink_stats_of(pixel_colours(b), st),
            None => st == (InkStats { pixels: 0, dominant: 0, distinct: 0 }),
        },
{
    match decode_png_rgb(png) {
        Some(b) => count_colours(&b),
        None => InkStats { pixels: 0, dominant: 0, distinct: 0 },
    }
}

/// A capture in a single colour has no ink: every pixel is the dominant
/// colour. A blank page is told apart from a rendered one this way, whatever
/// colour its background is.
pub proof fn law_uniform_capture_has_no_ink(cs: Seq<u32>, st: InkStats)
    requires
        cs.len() > 0,
        forall|i: int| 0 <= i < cs.len() ==> #[trigger] cs[i] == cs[0],
        ink_stats_of(cs, st),
    ensures
        st.dominant == st.pixels,
        st.distinct == 1,
{
    lemma_occurrences_all(cs, cs[0]);
    lemma_occurrences_contains(cs, cs[0]);
    let c = choose|c: u32| cs.contains(c) && occurrences(cs, c) == st.dominant;
    let i = choose|i: int| 0 <= i < cs.len() && cs[i] == c;
    assert(cs.to_set() =~= set![cs[0]]) by {
        assert forall|x: u32| cs.to_set().contains(x) implies x == cs[0] by {
            let j = choose|j: int| 0 <= j < cs.len() && cs[j] == x;
        }
        assert(cs.to_set().contains(cs[0]));
    }
}

proof fn lemma_occurrences_all(s: Seq<u32>, c: u32)
    requires
        forall|i: int| 0 <= i < s.len() ==> s[i] == c,
    ensures
        occurrences(s, c) == s.len(),
    decreases s.len(),
{
    if s.len() > 0 {
        lemma_occurrences_all(s.drop_last(), c);
    }
}

/// The dominant colour never covers more than the whole image, and an image
/// with pixels has at least one colour.
pub proof fn law_ink_counts_bounded(cs: Seq<u32>, st: InkStats)
    requires
        ink_stats_of(cs, st),
    ensures
        st.dominant <= st.pixels,
        cs.len() > 0 ==> st.dominant >= 1 && st.distinct >= 1,
{
    if cs.len() > 0 {
        let c = choose|c: u32| cs.contains(c) && occurrences(cs, c) == st.dominant;
        lemma_occurrences_contains(cs, c);
        assert(cs.to_set().contains(c));
        vstd::set_lib::lemma_set_empty_equivalency_len(cs.to_set());
    } else {
        assert(occurrences(cs, 0u32) <= st.dominant);
    }
    if cs.len() > 0 {
        let c = choose|c: u32| cs.contains(c) && occurrences(cs, c) == st.dominant;
        lemma_occurrences_contains(cs, c);
    }
}

} // verus!
