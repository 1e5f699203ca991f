//! Text matching as the cache's SQL queries perform it: `LIKE` patterns
//! with `%` and `_` wildcards, compared without regard to ASCII case.

use vstd::prelude::*;
use vstd::string::*;

verus! {

/// ASCII case folding as SQLite's `LIKE` applies it.
pub open spec fn fold(c: char) -> char {
    if 'A' <= c && c <= 'Z' {
        ((c as int) + 32) as char
    } else {
        c
    }
}

fn fold_exec(c: char) -> (r: char)
    ensures
        r == fold(c),
{
    if c >= 'A' && c <= 'Z' {
        let u = c as u32 + 32;
        assert(u == (c as int) + 32);
        let b = u as u8;
        (b as char)
    } else {
        c
    }
}

/// Whether the pattern `p` matches all of `s` under SQLite's `LIKE`: `%`
/// matches any run of characters, `_` any one character, and other
/// characters match themselves up to ASCII case.
pub open spec fn like_match(p: Seq<char>, s: Seq<char>) -> bool
    decreases p.len() + s.len(),
{
    if p.len() == 0 {
        s.len() == 0
    } else if p[0] == '%' {
        like_match(p.drop_first(), s) || (s.len() > 0 && like_match(p, s.drop_first()))
    } else if s.len() == 0 {
        false
    } else if p[0] == '_' || fold(p[0]) == fold(s[0]) {
        like_match(p.drop_first(), s.drop_first())
    } else {
        false
    }
}

/// The pattern `%needle%` that the cache builds for a substring search.
pub open spec fn contains_pattern(needle: Seq<char>) -> Seq<char> {
    seq!['%'] + needle + seq!['%']
}

/// The characters of a string slice, one by one.
pub fn chars_of(s: &str) -> (r: Vec<char>)
    ensures
        r@ == s@,
{
    let n = s.unicode_len();
    let mut r: Vec<char> = Vec::new();
    let mut i: usize = 0;
    while i < n
        invariant
            i <= n,
            n == s@.len(),
            r@ == s@.take(i as int),
        decreases n - i,
    {
        let c = s.get_char(i);
        r.push(c);
        assert(s@.take(i + 1) =~= s@.take(i as int).push(c));
        i = i + 1;
    }
    assert(s@.take(n as int) =~= s@);
    r
}

/// One step of the matching table: whether `p[i..]` matches `s[j..]`,
/// given the answers for `(i + 1, j)`, `(i + 1, j + 1)` and `(i, j + 1)`.
fn like_cell(
    p: &Vec<char>,
    s: &Vec<char>,
    i: usize,
    j: usize,
    down: bool,
    diag: bool,
    right: bool,
) -> (r: bool)
    requires
        i < p.len(),
        j <= s.len(),
        down == like_match(p@.skip(i + 1), s@.skip(j as int)),
        j < s.len() ==> diag == like_match(p@.skip(i + 1), s@.skip(j + 1)),
        j < s.len() ==> right == like_match(p@.skip(i as int), s@.skip(j + 1)),
    ensures
        r == like_match(p@.skip(i as int), s@.skip(j as int)),
{
    let ghost ps = p@.skip(i as int);
    let ghost ss = s@.skip(j as int);
    assert(ps.drop_first() =~= p@.skip(i + 1));
    assert(ps[0] == p@[i as int]);
    if j < s.len() {
        assert(ss.drop_first() =~= s@.skip(j + 1));
        assert(ss[0] == s@[j as int]);
    }
    let pc = p[i];
    if pc == '%' {
        down || (j < s.len() && right)
    } else if j == s.len() {
        false
    } else {
        let sc = s[j];
        if pc == '_' || fold_exec(pc) == fold_exec(sc) {
            diag
        } else {
            false
        }
    }
}

/// SQLite's `LIKE`: whether the pattern matches all of the text.
pub fn like(pattern: &Vec<char>, text: &Vec<char>) -> (r: bool)
    ensures
        r == like_match(pattern@, text@),
{
    let n = pattern.len();
    let m = text.len();
    // Row `i` of the table, stored from the last column down: `row[k]`
    // answers whether `pattern[i..]` matches `text[m - k..]`.
    let mut row: Vec<bool> = Vec::new();
    assert(pattern@.skip(n as int).len() == 0);
    assert(text@.skip(m - 0).len() == 0);
    row.push(true);
    let mut k: usize = 0;
    while k < m
        invariant
            k <= m,
            m == text.len(),
            n == pattern.len(),
            row@.len() == k + 1,
            forall|q: int|
                0 <= q <= k ==> #[trigger] row@[q] == like_match(
                    pattern@.skip(n as int),
                    text@.skip(m - q),
                ),
        decreases m - k,
    {
        assert(pattern@.skip(n as int).len() == 0);
        assert(text@.skip(m - (k + 1)).len() > 0);
        row.push(false);
        k = k + 1;
    }
    let mut i = n;
    while i > 0
        invariant
            i <= n,
            m == text.len(),
            n == pattern.len(),
            row@.len() == m + 1,
            forall|q: int|
                0 <= q <= m ==> #[trigger] row@[q] == like_match(
                    pattern@.skip(i as int),
                    text@.skip(m - q),
                ),
        decreases i,
    {
        let mut next: Vec<bool> = Vec::new();
        let first = like_cell(pattern, text, i - 1, m, row[0], false, false);
        next.push(first);
        let mut q: usize = 0;
        while q < m
            invariant
                0 < i <= n,
                m == text.len(),
                n == pattern.len(),
                q <= m,
                row@.len() == m + 1,
                next@.len() == q + 1,
                forall|x: int|
                    0 <= x <= m ==> #[trigger] row@[x] == like_match(
                        pattern@.skip(i as int),
                        text@.skip(m - x),
                    ),
                forall|x: int|
                    0 <= x <= q ==> #[trigger] next@[x] == like_match(
                        pattern@.skip(i - 1),
                        text@.skip(m - x),
                    ),
            decreases m - q,
        {
            let q1 = q + 1;
            let j = m - q1;
            let c = like_cell(pattern, text, i - 1, j, row[q1], row[q], next[q]);
            next.push(c);
            q = q1;
        }
        row = next;
        i = i - 1;
    }
    assert(pattern@.skip(0) =~= pattern@);
    assert(text@.skip(0) =~= text@);
    row[m]
}

/// Whether `needle` occurs in `text` as `LIKE '%needle%'` decides, with
/// the needle's own `%` and `_` acting as wildcards.
pub fn like_contains(needle: &str, text: &str) -> (r: bool)
    ensures
        r == like_match(contains_pattern(needle@), text@),
{
    let mut p: Vec<char> = Vec::new();
    p.push('%');
    let nv = chars_of(needle);
    let mut i: usize = 0;
    while i < nv.len()
        invariant
            i <= nv.len(),
            p@ == seq!['%'] + nv@.take(i as int),
        decreases nv.len() - i,
    {
        p.push(nv[i]);
        assert(nv@.take(i + 1) =~= nv@.take(i as int).push(nv@[i as int]));
        i = i + 1;
    }
    p.push('%');
    assert(nv@.take(nv.len() as int) =~= nv@);
    assert(p@ =~= contains_pattern(needle@));
    let t = chars_of(text);
    like(&p, &t)
}

} // verus!
