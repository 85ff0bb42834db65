//! CDP URL patterns, as Puppeteer and Playwright write them: `*` stands for any
//! run of characters, every other character stands for itself, and the pattern
//! covers the whole URL. There is no implicit `*` at the end, so `*.json`
//! means "ends with `.json`" and does not match `data.json?v=2`.

use vstd::prelude::*;
use crate::text::{chars_of, ends_with, has_char, starts_with};

verus! {

/// Whether `pattern` matches all of `url`.
pub open spec fn glob_matches(pattern: Seq<char>, url: Seq<char>) -> bool
    decreases pattern.len(), url.len(),
{
    if pattern.len() == 0 {
        url.len() == 0
    } else if pattern[0] == '*' {
        glob_matches(pattern.drop_first(), url) || (url.len() > 0 && glob_matches(
            pattern,
            url.drop_first(),
        ))
    } else {
        url.len() > 0 && url[0] == pattern[0] && glob_matches(
            pattern.drop_first(),
            url.drop_first(),
        )
    }
}

/// Whether the CDP glob `pattern` matches `url`.
pub fn matches_cdp_pattern(pattern: &str, url: &str) -> (r: bool)
    ensures
        r == glob_matches(pattern@, url@),
{
    let p = chars_of(pattern);
    let s = chars_of(url);
    let m = p.len();
    let n = s.len();
    // next[j] says whether p[i..] matches s[j..]; it starts at i == m.
    let mut next: Vec<bool> = Vec::new();
    let mut j: usize = 0;
    while j < n
        invariant
            j <= n == s.len(),
            next.len() == j,
            forall|k: int| 0 <= k < j ==> !next@[k],
        decreases n - j,
    {
        next.push(false);
        j += 1;
    }
    next.push(true);
    assert forall|k: int| 0 <= k <= n implies next@[k] == glob_matches(
        p@.skip(m as int),
        s@.skip(k),
    ) by {
        assert(p@.skip(m as int).len() == 0);
    }
    let mut i = m;
    while i > 0
        invariant
            i <= m == p.len(),
            n == s.len(),
            next.len() == n + 1,
            forall|k: int| 0 <= k <= n ==> next@[k] == glob_matches(p@.skip(i as int), s@.skip(k)),
        decreases i,
    {
        i -= 1;
        let ghost pi = p@.skip(i as int);
        assert(pi.drop_first() =~= p@.skip(i + 1));
        assert(pi[0] == p@[i as int]);
        let star = p[i] == '*';
        let mut cur: Vec<bool> = Vec::new();
        let mut t: usize = 0;
        while t < n
            invariant
                t <= n,
                cur.len() == t,
            decreases n - t,
        {
            cur.push(false);
            t += 1;
        }
        // The last column: the rest of the url is empty.
        let last = if star {
            next[n]
        } else {
            false
        };
        cur.push(last);
        assert(s@.skip(n as int).len() == 0);
        let mut j = n;
        while j > 0
            invariant
                j <= n == s.len(),
                i < m == p.len(),
                cur.len() == n + 1,
                next.len() == n + 1,
                pi == p@.skip(i as int),
                pi.drop_first() == p@.skip(i + 1),
                pi[0] == p@[i as int],
                star == (p@[i as int] == '*'),
                forall|k: int| 0 <= k <= n ==> next@[k] == glob_matches(p@.skip(i + 1), s@.skip(k)),
                forall|k: int| j <= k <= n ==> cur@[k] == glob_matches(pi, s@.skip(k)),
            decreases j,
        {
            j -= 1;
            assert(s@.skip(j as int).drop_first() =~= s@.skip(j + 1));
            assert(s@.skip(j as int)[0] == s@[j as int]);
            let v = if star {
                next[j] || cur[j + 1]
            } else {
                s[j] == p[i] && next[j + 1]
            };
            cur.set(j, v);
        }
        next = cur;
    }
    assert(p@.skip(0) =~= p@);
    assert(s@.skip(0) =~= s@);
    next[0]
}

/// `*` on its own matches every URL.
pub proof fn law_lone_star_matches_everything(url: Seq<char>)
    ensures
        glob_matches(seq!['*'], url),
    decreases url.len(),
{
    let p = seq!['*'];
    assert(p[0] == '*');
    assert(p.drop_first().len() == 0);
    if url.len() > 0 {
        law_lone_star_matches_everything(url.drop_first());
    } else {
        assert(glob_matches(p.drop_first(), url));
    }
    assert(glob_matches(p, url));
}

/// A pattern without `*` matches exactly the URL spelled the same way.
pub proof fn law_literal_pattern_is_equality(pattern: Seq<char>, url: Seq<char>)
    requires
        !has_char(pattern, '*'),
    ensures
        glob_matches(pattern, url) <==> pattern == url,
    decreases pattern.len(),
{
    if pattern.len() > 0 {
        assert(pattern[0] != '*');
        assert(!has_char(pattern.drop_first(), '*')) by {
            if has_char(pattern.drop_first(), '*') {
                let i = choose|i: int| 0 <= i < pattern.drop_first().len() && pattern.drop_first()[i] == '*';
                assert(pattern[i + 1] == '*');
            }
        }
        if url.len() > 0 {
            law_literal_pattern_is_equality(pattern.drop_first(), url.drop_first());
            if pattern == url {
                assert(pattern.drop_first() == url.drop_first());
            }
            if url[0] == pattern[0] && pattern.drop_first() == url.drop_first() {
                assert forall|i: int| 0 <= i < pattern.len() implies pattern[i] == url[i] by {
                    if i > 0 {
                        assert(pattern[i] == pattern.drop_first()[i - 1]);
                        assert(url[i] == url.drop_first()[i - 1]);
                    }
                }
                assert(pattern =~= url);
            }
        }
    } else {
        if url.len() == 0 {
            assert(pattern =~= url);
        }
    }
}

/// `*` followed by literal text matches a URL exactly when the URL ends with
/// that text: there is no implicit `*` at the end.
pub proof fn law_leading_star_means_ends_with(suffix: Seq<char>, url: Seq<char>)
    requires
        !has_char(suffix, '*'),
    ensures
        glob_matches(seq!['*'] + suffix, url) <==> ends_with(url, suffix),
    decreases url.len(),
{
    let p = seq!['*'] + suffix;
    assert(p[0] == '*');
    assert(p.drop_first() =~= suffix);
    law_literal_pattern_is_equality(suffix, url);
    if url.len() > 0 {
        law_leading_star_means_ends_with(suffix, url.drop_first());
        let d = url.drop_first();
        if ends_with(d, suffix) {
            assert(url.skip(url.len() - suffix.len()) =~= d.skip(d.len() - suffix.len()));
        }
        if ends_with(url, suffix) && url != suffix {
            assert(suffix.len() < url.len()) by {
                if suffix.len() == url.len() {
                    assert(url.skip(0) =~= url);
                }
            }
            assert(url.skip(url.len() - suffix.len()) =~= d.skip(d.len() - suffix.len()));
        }
    }
    if url == suffix {
        assert(url.skip(0) =~= url);
    }
    if ends_with(url, suffix) && url.len() == suffix.len() {
        assert(url.skip(0) =~= url);
    }
}

/// Literal text followed by `*` matches a URL exactly when the URL starts with
/// that text.
pub proof fn law_trailing_star_means_starts_with(prefix: Seq<char>, url: Seq<char>)
    requires
        !has_char(prefix, '*'),
    ensures
        glob_matches(prefix + seq!['*'], url) <==> starts_with(url, prefix),
    decreases prefix.len(),
{
    let p = prefix + seq!['*'];
    if prefix.len() == 0 {
        assert(p =~= seq!['*']);
        law_lone_star_matches_everything(url);
        assert(url.take(0) =~= prefix);
    } else {
        assert(prefix[0] != '*');
        assert(p[0] == prefix[0]);
        let rest = prefix.drop_first();
        assert(!has_char(rest, '*')) by {
            if has_char(rest, '*') {
                let i = choose|i: int| 0 <= i < rest.len() && rest[i] == '*';
                assert(prefix[i + 1] == '*');
            }
        }
        assert(p.drop_first() =~= rest + seq!['*']);
        if url.len() > 0 {
            law_trailing_star_means_starts_with(rest, url.drop_first());
            if starts_with(url, prefix) {
                assert(url[0] == url.take(prefix.len() as int)[0]);
                assert(url.drop_first().take(rest.len() as int) =~= url.take(
                    prefix.len() as int,
                ).drop_first());
            }
            if url[0] == prefix[0] && starts_with(url.drop_first(), rest) {
                assert forall|i: int| 0 <= i < prefix.len() implies url.take(
                    prefix.len() as int,
                )[i] == prefix[i] by {
                    if i > 0 {
                        assert(url.drop_first().take(rest.len() as int)[i - 1] == rest[i - 1]);
                    }
                }
                assert(url.take(prefix.len() as int) =~= prefix);
            }
        }
    }
}

} // verus!
