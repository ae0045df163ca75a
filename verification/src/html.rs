//! Finding icon links in a web page. A page names its icons in tags such as
//! `<link rel="icon" href="/favicon.ico">`. Two forms are read, each the way a
//! leftmost-first, greedy regular-expression search reads it, match after match:
//!
//! * rel first:  `<link[^>]*rel=["'](?:shortcut )?icon["'][^>]*href=["']([^"']+)["']`
//! * href first: `<link[^>]*href=["']([^"']+)["'][^>]*rel=["'](?:shortcut )?icon["']`
//!
//! The result is the text of each captured `href` value, in page order.

use vstd::prelude::*;
use crate::data_url::find_char_from;
use crate::text::{chars_of, matches_at};

verus! {

broadcast use vstd::string::group_string_axioms;

pub open spec fn is_quote(c: char) -> bool {
    c == '"' || c == '\''
}

/// `t[i..]` begins with `lit`.
pub open spec fn lit_at(t: Seq<char>, i: int, lit: Seq<char>) -> bool {
    0 <= i && i + lit.len() <= t.len() && t.subrange(i, i + lit.len()) == lit
}

pub open spec fn quote_at(t: Seq<char>, i: int) -> bool {
    0 <= i < t.len() && is_quote(t[i])
}

/// End of a `rel="icon"` or `rel="shortcut icon"` attribute (either quote) that
/// starts at `r`.
pub open spec fn rel_icon_end(t: Seq<char>, r: int) -> Option<int> {
    if lit_at(t, r, "rel="@) && quote_at(t, r + 4) {
        if lit_at(t, r + 5, "shortcut icon"@) && quote_at(t, r + 18) {
            Some(r + 19)
        } else if lit_at(t, r + 5, "icon"@) && quote_at(t, r + 9) {
            Some(r + 10)
        } else {
            None
        }
    } else {
        None
    }
}

/// Index of the first quote at or after `i`, or `t.len()`.
pub open spec fn next_quote(t: Seq<char>, i: int) -> int
    decreases t.len() - i,
{
    if i < 0 || i >= t.len() {
        t.len() as int
    } else if is_quote(t[i]) {
        i
    } else {
        next_quote(t, i + 1)
    }
}

/// The value range of an `href="..."` attribute (either quote) at `h`: at least
/// one character, up to the next quote.
pub open spec fn href_value(t: Seq<char>, h: int) -> Option<(int, int)> {
    if lit_at(t, h, "href="@) && quote_at(t, h + 5) {
        let q = next_quote(t, h + 6);
        if h + 6 < q && q < t.len() {
            Some((h + 6, q))
        } else {
            None
        }
    } else {
        None
    }
}

/// The last position in `[lo, hi)` where an `href` attribute starts, or `lo - 1`.
pub open spec fn last_href(t: Seq<char>, lo: int, hi: int) -> int
    decreases hi - lo,
{
    if hi <= lo {
        lo - 1
    } else if href_value(t, hi - 1) is Some {
        hi - 1
    } else {
        last_href(t, lo, hi - 1)
    }
}

/// The last position in `[lo, hi)` where a `rel` icon attribute starts, or `lo - 1`.
pub open spec fn last_rel(t: Seq<char>, lo: int, hi: int) -> int
    decreases hi - lo,
{
    if hi <= lo {
        lo - 1
    } else if rel_icon_end(t, hi - 1) is Some {
        hi - 1
    } else {
        last_rel(t, lo, hi - 1)
    }
}

/// Some `rel` icon attribute starts in `[lo, hi)` and ends by `limit`.
pub open spec fn rel_ends_by(t: Seq<char>, lo: int, hi: int, limit: int) -> bool
    decreases hi - lo,
{
    if hi <= lo {
        false
    } else if rel_icon_end(t, hi - 1) matches Some(e) && e <= limit {
        true
    } else {
        rel_ends_by(t, lo, hi - 1, limit)
    }
}

/// The last `rel` icon attribute after an `href` value ending at `q`: it must
/// start before the next `>`.
pub open spec fn rel_after(t: Seq<char>, q: int) -> int {
    last_rel(t, q + 1, find_char_from(t, '>', q + 1))
}

/// An `href` attribute at `h` that is followed, before the next `>`, by a `rel`
/// icon attribute.
pub open spec fn href_then_rel(t: Seq<char>, h: int) -> bool {
    href_value(t, h) matches Some((a, b)) && rel_after(t, b) >= b + 1
}

/// The last position in `[lo, hi)` where `href_then_rel` holds, or `lo - 1`.
pub open spec fn last_href_then_rel(t: Seq<char>, lo: int, hi: int) -> int
    decreases hi - lo,
{
    if hi <= lo {
        lo - 1
    } else if href_then_rel(t, hi - 1) {
        hi - 1
    } else {
        last_href_then_rel(t, lo, hi - 1)
    }
}

/// A rel-first icon link that starts at `s`: the captured value range and the
/// end of the match. Greedy repetition makes the capture the last `href` before
/// the tag's first `>`; the match needs a `rel` icon attribute that ends by then.
pub open spec fn rel_first_link_at(t: Seq<char>, s: int) -> Option<(int, int, int)> {
    if !lit_at(t, s, "<link"@) {
        None
    } else {
        let g = find_char_from(t, '>', s + 5);
        let h = last_href(t, s + 5, g);
        if h >= s + 5 && rel_ends_by(t, s + 5, h, h) {
            match href_value(t, h) {
                Some((a, b)) => Some((a, b, b + 1)),
                None => None,
            }
        } else {
            None
        }
    }
}

/// An href-first icon link that starts at `s`: the captured value range and the
/// end of the match. The capture is the last `href` before the tag's first `>`
/// that a `rel` icon attribute follows; the match ends after the last such `rel`.
pub open spec fn href_first_link_at(t: Seq<char>, s: int) -> Option<(int, int, int)> {
    if !lit_at(t, s, "<link"@) {
        None
    } else {
        let g = find_char_from(t, '>', s + 5);
        let h = last_href_then_rel(t, s + 5, g);
        if h >= s + 5 {
            match href_value(t, h) {
                Some((a, b)) => match rel_icon_end(t, rel_after(t, b)) {
                    Some(e) => Some((a, b, e)),
                    None => None,
                },
                None => None,
            }
        } else {
            None
        }
    }
}

/// The link that starts at `s`, in the chosen form.
pub open spec fn link_at(t: Seq<char>, rel_first: bool, s: int) -> Option<(int, int, int)> {
    if rel_first {
        rel_first_link_at(t, s)
    } else {
        href_first_link_at(t, s)
    }
}

proof fn lemma_next_quote(t: Seq<char>, i: int)
    requires
        0 <= i <= t.len(),
    ensures
        i <= next_quote(t, i) <= t.len(),
        forall|k: int| i <= k < next_quote(t, i) ==> !is_quote(#[trigger] t[k]),
        next_quote(t, i) < t.len() ==> is_quote(t[next_quote(t, i)]),
    decreases t.len() - i,
{
    if i < t.len() && !is_quote(t[i]) {
        lemma_next_quote(t, i + 1);
    }
}

proof fn lemma_href_value(t: Seq<char>, h: int)
    ensures
        href_value(t, h) matches Some((a, b)) ==> h + 6 == a < b < t.len(),
{
}

proof fn lemma_rel_icon_end(t: Seq<char>, r: int)
    ensures
        rel_icon_end(t, r) matches Some(e) ==> r < e <= t.len(),
{
}

proof fn lemma_last_rel(t: Seq<char>, lo: int, hi: int)
    ensures
        lo - 1 <= last_rel(t, lo, hi),
        hi > lo ==> last_rel(t, lo, hi) < hi,
        last_rel(t, lo, hi) >= lo ==> rel_icon_end(t, last_rel(t, lo, hi)) is Some,
    decreases hi - lo,
{
    if hi > lo && rel_icon_end(t, hi - 1) is None {
        lemma_last_rel(t, lo, hi - 1);
    }
}

proof fn lemma_last_href_then_rel(t: Seq<char>, lo: int, hi: int)
    ensures
        lo - 1 <= last_href_then_rel(t, lo, hi),
        hi > lo ==> last_href_then_rel(t, lo, hi) < hi,
        last_href_then_rel(t, lo, hi) >= lo ==> href_then_rel(t, last_href_then_rel(t, lo, hi)),
    decreases hi - lo,
{
    if hi > lo && !href_then_rel(t, hi - 1) {
        lemma_last_href_then_rel(t, lo, hi - 1);
    }
}

/// A link found at `s` captures a non-empty value after `s` and ends after it.
pub proof fn lemma_link_at(t: Seq<char>, rel_first: bool, s: int)
    ensures
        link_at(t, rel_first, s) matches Some((a, b, e)) ==> s < a < b < e <= t.len(),
{
    if link_at(t, rel_first, s) is Some {
        let g = find_char_from(t, '>', s + 5);
        if rel_first {
            let h = last_href(t, s + 5, g);
            lemma_href_value(t, h);
        } else {
            let h = last_href_then_rel(t, s + 5, g);
            lemma_href_value(t, h);
            let (a, b) = href_value(t, h)->0;
            let r = rel_after(t, b);
            lemma_rel_icon_end(t, r);
            lemma_last_rel(t, b + 1, find_char_from(t, '>', b + 1));
        }
    }
}

/// The value ranges captured by a search from `from` on: the leftmost link,
/// then the search goes on where that match ends.
pub open spec fn link_captures(t: Seq<char>, rel_first: bool, from: int) -> Seq<(int, int)>
    decreases t.len() - from,
{
    if from < 0 || from >= t.len() {
        Seq::empty()
    } else {
        match link_at(t, rel_first, from) {
            Some((a, b, e)) => {
                proof {
                    lemma_link_at(t, rel_first, from);
                }
                seq![(a, b)] + link_captures(t, rel_first, e)
            },
            None => link_captures(t, rel_first, from + 1),
        }
    }
}

/// The `href` values of all icon links of the page, in the chosen form.
pub open spec fn icon_hrefs(t: Seq<char>, rel_first: bool) -> Seq<Seq<char>> {
    link_captures(t, rel_first, 0).map_values(|r: (int, int)| t.subrange(r.0, r.1))
}

fn lit(text: &str) -> (r: Vec<char>)
    ensures
        r@ == text@,
{
    chars_of(text)
}

fn is_quote_char(c: char) -> (r: bool)
    ensures
        r == is_quote(c),
{
    c == '"' || c == '\''
}

fn quote_at_exec(t: &Vec<char>, i: usize) -> (r: bool)
    ensures
        r == quote_at(t@, i as int),
{
    i < t.len() && is_quote_char(t[i])
}

fn lit_at_exec(t: &Vec<char>, i: usize, l: &Vec<char>) -> (r: bool)
    ensures
        r == lit_at(t@, i as int, l@),
{
    matches_at(t, i, l)
}

fn find_char_exec(t: &Vec<char>, c: char, i: usize) -> (r: usize)
    ensures
        r as int == find_char_from(t@, c, i as int),
{
    let n = t.len();
    if i >= n {
        return n;
    }
    let mut k = i;
    while k < n && t[k] != c
        invariant
            n == t@.len(),
            i <= k <= n,
            find_char_from(t@, c, k as int) == find_char_from(t@, c, i as int),
        decreases n - k,
    {
        k = k + 1;
    }
    k
}

fn next_quote_exec(t: &Vec<char>, i: usize) -> (r: usize)
    ensures
        r as int == next_quote(t@, i as int),
{
    let n = t.len();
    if i >= n {
        return n;
    }
    let mut k = i;
    while k < n && !is_quote_char(t[k])
        invariant
            n == t@.len(),
            i <= k <= n,
            next_quote(t@, k as int) == next_quote(t@, i as int),
        decreases n - k,
    {
        k = k + 1;
    }
    k
}

fn rel_icon_end_exec(t: &Vec<char>, r: usize) -> (res: Option<usize>)
    ensures
        match res {
            Some(e) => rel_icon_end(t@, r as int) == Some(e as int),
            None => rel_icon_end(t@, r as int) is None,
        },
{
    proof {
        reveal_strlit("rel=");
        reveal_strlit("shortcut icon");
        reveal_strlit("icon");
    }
    let n = t.len();
    if r >= n {
        return None;
    }
    if !(lit_at_exec(t, r, &lit("rel=")) && quote_at_exec(t, r + 4)) {
        return None;
    }
    if lit_at_exec(t, r + 5, &lit("shortcut icon")) && quote_at_exec(t, r + 18) {
        return Some(r + 19);
    }
    if lit_at_exec(t, r + 5, &lit("icon")) && quote_at_exec(t, r + 9) {
        return Some(r + 10);
    }
    None
}

fn href_value_exec(t: &Vec<char>, h: usize) -> (res: Option<(usize, usize)>)
    ensures
        match res {
            Some((a, b)) => href_value(t@, h as int) == Some((a as int, b as int)),
            None => href_value(t@, h as int) is None,
        },
{
    proof {
        reveal_strlit("href=");
    }
    let n = t.len();
    if h >= n {
        return None;
    }
    if !(lit_at_exec(t, h, &lit("href=")) && quote_at_exec(t, h + 5)) {
        return None;
    }
    let q = next_quote_exec(t, h + 6);
    if h + 6 < q && q < n {
        Some((h + 6, q))
    } else {
        None
    }
}

/// `last_href`, for `lo <= hi`; `None` stands for `lo - 1`.
fn last_href_exec(t: &Vec<char>, lo: usize, hi: usize) -> (res: Option<usize>)
    requires
        lo <= hi,
    ensures
        match res {
            Some(h) => last_href(t@, lo as int, hi as int) == h as int && lo <= h < hi,
            None => last_href(t@, lo as int, hi as int) == lo - 1,
        },
{
    let mut k = hi;
    while k > lo
        invariant
            lo <= k <= hi,
            last_href(t@, lo as int, k as int) == last_href(t@, lo as int, hi as int),
        decreases k,
    {
        if href_value_exec(t, k - 1).is_some() {
            return Some(k - 1);
        }
        k = k - 1;
    }
    None
}

/// `last_rel`, for `lo <= hi`; `None` stands for `lo - 1`.
fn last_rel_exec(t: &Vec<char>, lo: usize, hi: usize) -> (res: Option<usize>)
    requires
        lo <= hi,
    ensures
        match res {
            Some(r) => last_rel(t@, lo as int, hi as int) == r as int && lo <= r < hi,
            None => last_rel(t@, lo as int, hi as int) == lo - 1,
        },
{
    let mut k = hi;
    while k > lo
        invariant
            lo <= k <= hi,
            last_rel(t@, lo as int, k as int) == last_rel(t@, lo as int, hi as int),
        decreases k,
    {
        if rel_icon_end_exec(t, k - 1).is_some() {
            return Some(k - 1);
        }
        k = k - 1;
    }
    None
}

fn rel_ends_by_exec(t: &Vec<char>, lo: usize, hi: usize, limit: usize) -> (res: bool)
    requires
        lo <= hi,
    ensures
        res == rel_ends_by(t@, lo as int, hi as int, limit as int),
{
    let mut k = hi;
    while k > lo
        invariant
            lo <= k <= hi,
            rel_ends_by(t@, lo as int, k as int, limit as int) == rel_ends_by(t@, lo as int, hi as int, limit as int),
        decreases k,
    {
        if let Some(e) = rel_icon_end_exec(t, k - 1) {
            if e <= limit {
                return true;
            }
        }
        k = k - 1;
    }
    false
}

/// `rel_after(t, q)`, as `Some` when it is at least `q + 1`.
fn rel_after_exec(t: &Vec<char>, q: usize) -> (res: Option<usize>)
    requires
        q < t@.len(),
    ensures
        match res {
            Some(r) => rel_after(t@, q as int) == r as int && r >= q + 1,
            None => rel_after(t@, q as int) < q + 1,
        },
{
    let n = t.len();
    let g = find_char_exec(t, '>', q + 1);
    proof {
        lemma_find_char(t@, '>', q + 1);
    }
    last_rel_exec(t, q + 1, g)
}

proof fn lemma_find_char(t: Seq<char>, c: char, i: int)
    requires
        0 <= i <= t.len(),
    ensures
        i <= find_char_from(t, c, i) <= t.len(),
    decreases t.len() - i,
{
    if i < t.len() && t[i] != c {
        lemma_find_char(t, c, i + 1);
    }
}

fn last_href_then_rel_exec(t: &Vec<char>, lo: usize, hi: usize) -> (res: Option<usize>)
    requires
        lo <= hi,
    ensures
        match res {
            Some(h) => last_href_then_rel(t@, lo as int, hi as int) == h as int && lo <= h < hi,
            None => last_href_then_rel(t@, lo as int, hi as int) == lo - 1,
        },
{
    let mut k = hi;
    while k > lo
        invariant
            lo <= k <= hi,
            last_href_then_rel(t@, lo as int, k as int) == last_href_then_rel(t@, lo as int, hi as int),
        decreases k,
    {
        if let Some((_a, b)) = href_value_exec(t, k - 1) {
            proof {
                lemma_href_value(t@, (k - 1) as int);
            }
            if rel_after_exec(t, b).is_some() {
                return Some(k - 1);
            }
        }
        k = k - 1;
    }
    None
}

fn link_at_exec(t: &Vec<char>, rel_first: bool, s: usize) -> (res: Option<(usize, usize, usize)>)
    ensures
        match res {
            Some((a, b, e)) => link_at(t@, rel_first, s as int) == Some((a as int, b as int, e as int)),
            None => link_at(t@, rel_first, s as int) is None,
        },
{
    proof {
        reveal_strlit("<link");
    }
    let n = t.len();
    if s >= n || !lit_at_exec(t, s, &lit("<link")) {
        return None;
    }
    let g = find_char_exec(t, '>', s + 5);
    proof {
        lemma_find_char(t@, '>', s + 5);
    }
    if rel_first {
        match last_href_exec(t, s + 5, g) {
            None => None,
            Some(h) => {
                if !rel_ends_by_exec(t, s + 5, h, h) {
                    return None;
                }
                match href_value_exec(t, h) {
                    Some((a, b)) => {
                        proof {
                            lemma_href_value(t@, h as int);
                        }
                        Some((a, b, b + 1))
                    },
                    None => None,
                }
            },
        }
    } else {
        match last_href_then_rel_exec(t, s + 5, g) {
            None => None,
            Some(h) => match href_value_exec(t, h) {
                Some((a, b)) => {
                    proof {
                        lemma_href_value(t@, h as int);
                    }
                    match rel_after_exec(t, b) {
                        Some(r) => match rel_icon_end_exec(t, r) {
                            Some(e) => Some((a, b, e)),
                            None => None,
                        },
                        None => {
                            proof {
                                lemma_last_href_then_rel(t@, s + 5, g as int);
                            }
                            None
                        },
                    }
                },
                None => None,
            },
        }
    }
}

/// The captured value ranges of all icon links in the page, in the chosen form.
fn link_capture_ranges(t: &Vec<char>, rel_first: bool) -> (res: Vec<(usize, usize)>)
    ensures
        res@.len() == link_captures(t@, rel_first, 0).len(),
        forall|k: int| 0 <= k < res@.len() ==> (#[trigger] res@[k]).0 as int == link_captures(t@, rel_first, 0)[k].0
            && res@[k].1 as int == link_captures(t@, rel_first, 0)[k].1,
{
    let n = t.len();
    let mut out: Vec<(usize, usize)> = Vec::new();
    let mut from: usize = 0;
    while from < n
        invariant
            n == t@.len(),
            from <= n,
            link_captures(t@, rel_first, 0) == {
                let prev = Seq::new(out@.len(), |k: int| (out@[k].0 as int, out@[k].1 as int));
                prev + link_captures(t@, rel_first, from as int)
            },
        decreases n - from,
    {
        let ghost prev = Seq::new(out@.len(), |k: int| (out@[k].0 as int, out@[k].1 as int));
        match link_at_exec(t, rel_first, from) {
            Some((a, b, e)) => {
                proof {
                    lemma_link_at(t@, rel_first, from as int);
                }
                out.push((a, b));
                proof {
                    let now = Seq::new(out@.len(), |k: int| (out@[k].0 as int, out@[k].1 as int));
                    assert(now =~= prev.push((a as int, b as int)));
                    assert(link_captures(t@, rel_first, from as int) == seq![(a as int, b as int)]
                        + link_captures(t@, rel_first, e as int));
                    assert(prev + link_captures(t@, rel_first, from as int) =~= now + link_captures(
                        t@,
                        rel_first,
                        e as int,
                    ));
                }
                from = e;
            },
            None => {
                from = from + 1;
            },
        }
    }
    proof {
        let prev = Seq::new(out@.len(), |k: int| (out@[k].0 as int, out@[k].1 as int));
        assert(link_captures(t@, rel_first, from as int) =~= Seq::empty());
        assert(prev + Seq::<(int, int)>::empty() =~= prev);
    }
    out
}

/// The `href` values of all icon links in the page, in page order: with
/// `rel_first`, of tags where `rel` comes before `href`; otherwise of tags where
/// `href` comes first.
pub fn find_icon_hrefs(html: &str, rel_first: bool) -> (r: Vec<String>)
    ensures
        r@.len() == icon_hrefs(html@, rel_first).len(),
        forall|k: int| 0 <= k < r@.len() ==> (#[trigger] r@[k])@ == icon_hrefs(html@, rel_first)[k],
{
    let t = chars_of(html);
    let ranges = link_capture_ranges(&t, rel_first);
    let ghost caps = link_captures(html@, rel_first, 0);
    let mut out: Vec<String> = Vec::new();
    let mut k: usize = 0;
    while k < ranges.len()
        invariant
            t@ == html@,
            caps == link_captures(t@, rel_first, 0),
            ranges@.len() == caps.len(),
            forall|m: int| 0 <= m < ranges@.len() ==> (#[trigger] ranges@[m]).0 as int == caps[m].0
                && ranges@[m].1 as int == caps[m].1,
            k <= ranges@.len(),
            out@.len() == k,
            forall|m: int| 0 <= m < k ==> (#[trigger] out@[m])@ == html@.subrange(caps[m].0, caps[m].1),
        decreases ranges@.len() - k,
    {
        let (a, b) = ranges[k];
        proof {
            lemma_capture_bounds(t@, rel_first, 0, k as int);
        }
        let v = html.substring_char(a, b);
        out.push(v.to_owned());
        k = k + 1;
    }
    out
}

/// Every captured range lies inside the page and is not empty.
proof fn lemma_capture_bounds(t: Seq<char>, rel_first: bool, from: int, k: int)
    requires
        0 <= k < link_captures(t, rel_first, from).len(),
    ensures
        0 <= link_captures(t, rel_first, from)[k].0 < link_captures(t, rel_first, from)[k].1 <= t.len(),
    decreases t.len() - from,
{
    if 0 <= from < t.len() {
        match link_at(t, rel_first, from) {
            Some((a, b, e)) => {
                lemma_link_at(t, rel_first, from);
                if k > 0 {
                    lemma_capture_bounds(t, rel_first, e, k - 1);
                }
            },
            None => {
                lemma_capture_bounds(t, rel_first, from + 1, k);
            },
        }
    }
}

proof fn lemma_link_value_unquoted(t: Seq<char>, rel_first: bool, s: int)
    ensures
        link_at(t, rel_first, s) matches Some((a, b, e)) ==> forall|k: int| a <= k < b ==> !is_quote(#[trigger] t[k]),
{
    if link_at(t, rel_first, s) is Some {
        lemma_link_at(t, rel_first, s);
        let g = find_char_from(t, '>', s + 5);
        let h = if rel_first {
            last_href(t, s + 5, g)
        } else {
            last_href_then_rel(t, s + 5, g)
        };
        lemma_next_quote(t, h + 6);
    }
}

proof fn lemma_captures_unquoted(t: Seq<char>, rel_first: bool, from: int, k: int)
    requires
        0 <= k < link_captures(t, rel_first, from).len(),
    ensures
        link_captures(t, rel_first, from)[k].0 < link_captures(t, rel_first, from)[k].1,
        forall|m: int| link_captures(t, rel_first, from)[k].0 <= m < link_captures(t, rel_first, from)[k].1 ==> !is_quote(#[trigger] t[m]),
    decreases t.len() - from,
{
    if 0 <= from < t.len() {
        match link_at(t, rel_first, from) {
            Some((a, b, e)) => {
                lemma_link_at(t, rel_first, from);
                if k > 0 {
                    lemma_captures_unquoted(t, rel_first, e, k - 1);
                } else {
                    lemma_link_value_unquoted(t, rel_first, from);
                }
            },
            None => {
                lemma_captures_unquoted(t, rel_first, from + 1, k);
            },
        }
    }
}

/// Every link value found is non-empty and holds no quote character.
pub proof fn law_icon_hrefs_unquoted(t: Seq<char>, rel_first: bool)
    ensures
        forall|k: int| 0 <= k < icon_hrefs(t, rel_first).len() ==> (#[trigger] icon_hrefs(t, rel_first)[k]).len() > 0
            && forall|m: int| 0 <= m < icon_hrefs(t, rel_first)[k].len() ==> !is_quote(#[trigger] icon_hrefs(t, rel_first)[k][m]),
{
    let caps = link_captures(t, rel_first, 0);
    assert forall|k: int| 0 <= k < icon_hrefs(t, rel_first).len() implies (#[trigger] icon_hrefs(t, rel_first)[k]).len() > 0
        && forall|m: int| 0 <= m < icon_hrefs(t, rel_first)[k].len() ==> !is_quote(#[trigger] icon_hrefs(t, rel_first)[k][m]) by {
        lemma_captures_unquoted(t, rel_first, 0, k);
        lemma_capture_bounds(t, rel_first, 0, k);
        let v = icon_hrefs(t, rel_first)[k];
        assert(v == t.subrange(caps[k].0, caps[k].1));
        assert forall|m: int| 0 <= m < v.len() implies !is_quote(#[trigger] v[m]) by {
            assert(v[m] == t[caps[k].0 + m]);
        }
    }
}


/// `c` is a double or a single quote.
spec fn is_quote_literal(c: char) -> bool {
    c == '"' || c == '\''
}

proof fn lemma_link_value_delimited(t: Seq<char>, rel_first: bool, s: int)
    ensures
        link_at(t, rel_first, s) matches Some((a, b, e)) ==> {
            &&& 6 <= a < b < t.len()
            &&& t.subrange(a - 6, a - 1) == "href="@
            &&& is_quote_literal(t[a - 1])
            &&& is_quote_literal(t[b])
            &&& forall|m: int| a <= m < b ==> !is_quote_literal(#[trigger] t[m])
        },
{
    if link_at(t, rel_first, s) is Some {
        lemma_link_at(t, rel_first, s);
        let g = find_char_from(t, '>', s + 5);
        let h = if rel_first {
            last_href(t, s + 5, g)
        } else {
            last_href_then_rel(t, s + 5, g)
        };
        reveal_strlit("href=");
        reveal_strlit("<link");
        lemma_href_value(t, h);
        assert(h >= s + 5 && s >= 0);
        let (a, b) = href_value(t, h)->0;
        assert(lit_at(t, h, "href="@) && quote_at(t, h + 5));
        assert(t.subrange(a - 6, a - 1) =~= t.subrange(h, h + 5));
        lemma_next_quote(t, h + 6);
        assert(b == next_quote(t, h + 6));
    }
}

proof fn lemma_captures_delimited(t: Seq<char>, rel_first: bool, from: int, k: int)
    requires
        0 <= k < link_captures(t, rel_first, from).len(),
    ensures
        ({
            let (a, b) = link_captures(t, rel_first, from)[k];
            &&& 6 <= a < b < t.len()
            &&& t.subrange(a - 6, a - 1) == "href="@
            &&& is_quote_literal(t[a - 1])
            &&& is_quote_literal(t[b])
            &&& forall|m: int| a <= m < b ==> !is_quote_literal(#[trigger] t[m])
        }),
    decreases t.len() - from,
{
    if 0 <= from < t.len() {
        match link_at(t, rel_first, from) {
            Some((a, b, e)) => {
                lemma_link_at(t, rel_first, from);
                if k > 0 {
                    lemma_captures_delimited(t, rel_first, e, k - 1);
                } else {
                    lemma_link_value_delimited(t, rel_first, from);
                }
            },
            None => {
                lemma_captures_delimited(t, rel_first, from + 1, k);
            },
        }
    }
}

/// Each captured link value is the whole quoted text of an `href` attribute:
/// it starts right after `href=` and a double or single quote, holds neither
/// quote character (every other character, such as `?`, `#` or `=`, stays
/// inside it), and the character right after it is a double or single quote.
pub proof fn law_icon_href_is_whole_quoted_value(t: Seq<char>, rel_first: bool, k: int)
    requires
        0 <= k < link_captures(t, rel_first, 0).len(),
    ensures
        ({
            let (a, b) = link_captures(t, rel_first, 0)[k];
            &&& icon_hrefs(t, rel_first)[k] == t.subrange(a, b)
            &&& 6 <= a < b < t.len()
            &&& t.subrange(a - 6, a - 1) == "href="@
            &&& (t[a - 1] == '"' || t[a - 1] == '\'')
            &&& (t[b] == '"' || t[b] == '\'')
            &&& forall|m: int| a <= m < b ==> t[m] != '"' && t[m] != '\''
        }),
{
    lemma_captures_delimited(t, rel_first, 0, k);
}

} // verus!
