//! Character-level helpers: whitespace, trimming, prefixes, ASCII case folding
//! and decimal rendering of integers.

use vstd::prelude::*;

verus! {

broadcast use vstd::string::group_string_axioms;

/// The Unicode `White_Space` property, as `char::is_whitespace` defines it.
pub open spec fn is_unicode_whitespace(c: char) -> bool {
    ||| ('\u{9}' <= c && c <= '\u{d}')
    ||| c == ' '
    ||| c == '\u{85}'
    ||| c == '\u{a0}'
    ||| c == '\u{1680}'
    ||| ('\u{2000}' <= c && c <= '\u{200a}')
    ||| c == '\u{2028}'
    ||| c == '\u{2029}'
    ||| c == '\u{202f}'
    ||| c == '\u{205f}'
    ||| c == '\u{3000}'
}

pub fn is_whitespace_char(c: char) -> (r: bool)
    ensures
        r == is_unicode_whitespace(c),
{
    ('\u{9}' <= c && c <= '\u{d}') || c == ' ' || c == '\u{85}' || c == '\u{a0}' || c
        == '\u{1680}' || ('\u{2000}' <= c && c <= '\u{200a}') || c == '\u{2028}' || c
        == '\u{2029}' || c == '\u{202f}' || c == '\u{205f}' || c == '\u{3000}'
}

/// The characters of a string slice, one by one.
pub fn chars_of(s: &str) -> (v: Vec<char>)
    ensures
        v@ == s@,
{
    let mut v: Vec<char> = Vec::new();
    for c in it: s.chars()
        invariant
            v@ == it.seq().take(it.index()),
            it.seq() == s@,
    {
        v.push(c);
    }
    v
}


/// Index of the first character at or after `i` that is not whitespace.
pub open spec fn skip_leading_ws(s: Seq<char>, i: int) -> int
    decreases s.len() - i,
{
    if 0 <= i < s.len() && is_unicode_whitespace(s[i]) {
        skip_leading_ws(s, i + 1)
    } else {
        i
    }
}

/// End of the text in `s[lo..j]` once trailing whitespace is dropped.
pub open spec fn skip_trailing_ws(s: Seq<char>, lo: int, j: int) -> int
    decreases j - lo,
{
    if lo < j && is_unicode_whitespace(s[j - 1]) {
        skip_trailing_ws(s, lo, j - 1)
    } else {
        j
    }
}

/// `s` with leading and trailing whitespace removed, as `str::trim` does.
pub open spec fn trimmed(s: Seq<char>) -> Seq<char> {
    let a = skip_leading_ws(s, 0);
    s.subrange(a, skip_trailing_ws(s, a, s.len() as int))
}

/// Removes leading and trailing whitespace.
pub fn trim(s: &str) -> (r: &str)
    ensures
        r@ == trimmed(s@),
{
    let v = chars_of(s);
    let n = v.len();
    let mut a: usize = 0;
    while a < n && is_whitespace_char(v[a])
        invariant
            v@ == s@,
            n == v@.len(),
            a <= n,
            skip_leading_ws(s@, a as int) == skip_leading_ws(s@, 0),
        decreases n - a,
    {
        a = a + 1;
    }
    let mut b: usize = n;
    while b > a && is_whitespace_char(v[b - 1])
        invariant
            v@ == s@,
            n == v@.len(),
            a <= b <= n,
            skip_leading_ws(s@, 0) == a,
            skip_trailing_ws(s@, a as int, b as int) == skip_trailing_ws(s@, a as int, n as int),
        decreases b - a,
    {
        b = b - 1;
    }
    s.substring_char(a, b)
}

/// `s` begins with `p`.
pub open spec fn has_prefix(s: Seq<char>, p: Seq<char>) -> bool {
    p.len() <= s.len() && s.subrange(0, p.len() as int) == p
}

/// Whether the characters `s[from..]` begin with the characters of `p`.
pub fn matches_at(s: &Vec<char>, from: usize, p: &Vec<char>) -> (r: bool)
    ensures
        r == (from + p@.len() <= s@.len() && s@.subrange(from as int, from + p@.len()) == p@),
{
    if from > s.len() || p.len() > s.len() - from {
        return false;
    }
    let n = s.len();
    let mut k: usize = 0;
    while k < p.len()
        invariant
            n == s@.len(),
            from + p@.len() <= s@.len(),
            k <= p@.len(),
            forall|m: int| 0 <= m < k ==> s@[from + m] == p@[m],
        decreases p@.len() - k,
    {
        if s[from + k] != p[k] {
            assert(s@.subrange(from as int, from + p@.len())[k as int] != p@[k as int]);
            return false;
        }
        k = k + 1;
    }
    assert(s@.subrange(from as int, from + p@.len()) =~= p@);
    true
}

/// Whether `s` begins with `p`.
pub fn starts_with(s: &str, p: &str) -> (r: bool)
    ensures
        r == has_prefix(s@, p@),
{
    let sv = chars_of(s);
    let pv = chars_of(p);
    matches_at(&sv, 0, &pv)
}

/// The concatenation of two string slices.
pub fn concat(a: &str, b: &str) -> (r: String)
    ensures
        r@ == a@ + b@,
{
    let mut r = a.to_owned();
    r.append(b);
    r
}

/// `c` lowercases (as `char::to_lowercase`) to the single lowercase ASCII letter `l`.
/// Besides `l` itself and its uppercase form, only U+212A KELVIN SIGN lowercases
/// to an ASCII letter (to `k`).
pub open spec fn lowercases_to(c: char, l: char) -> bool {
    ||| c == l
    ||| c == upper_of(l)
    ||| (l == 'k' && c == '\u{212a}')
}

/// The uppercase form of a lowercase ASCII letter.
pub open spec fn upper_of(l: char) -> char {
    (((l as int) - 32) as u8) as char
}

fn ascii_upper(l: char) -> (r: char)
    requires
        'a' <= l && l <= 'z',
    ensures
        r == upper_of(l),
{
    ((l as u8) - 32) as char
}

/// `s.to_lowercase()` equals `lit`, for `lit` made of lowercase ASCII letters.
/// No character lowercases to more than one character that is an ASCII letter,
/// so the comparison goes character by character.
pub open spec fn lowercase_equals(s: Seq<char>, lit: Seq<char>) -> bool {
    &&& s.len() == lit.len()
    &&& forall|i: int| 0 <= i < s.len() ==> lowercases_to(#[trigger] s[i], lit[i])
}

/// Every character of `lit` is a lowercase ASCII letter.
pub open spec fn is_lower_ascii_word(lit: Seq<char>) -> bool {
    forall|i: int| 0 <= i < lit.len() ==> 'a' <= #[trigger] lit[i] && lit[i] <= 'z'
}

/// Compares `s[from..to]`, lowercased, with the lowercase word `lit`.
pub fn lowercase_range_equals(s: &Vec<char>, from: usize, to: usize, lit: &str) -> (r: bool)
    requires
        from <= to <= s@.len(),
        is_lower_ascii_word(lit@),
    ensures
        r == lowercase_equals(s@.subrange(from as int, to as int), lit@),
{
    let lv = chars_of(lit);
    if to - from != lv.len() {
        return false;
    }
    let mut k: usize = 0;
    while k < lv.len()
        invariant
            lv@ == lit@,
            is_lower_ascii_word(lit@),
            to - from == lv@.len(),
            from <= to <= s@.len(),
            k <= lv@.len(),
            forall|m: int| 0 <= m < k ==> lowercases_to(#[trigger] s@[from + m], lit@[m]),
        decreases lv@.len() - k,
    {
        let c = s[from + k];
        let l = lv[k];
        let upper = ascii_upper(l);
        let ok = c == l || c == upper || (l == 'k' && c == '\u{212a}');
        if !ok {
            assert(s@.subrange(from as int, to as int)[k as int] == c);
            return false;
        }
        k = k + 1;
    }
    assert forall|i: int| 0 <= i < (to - from) implies lowercases_to(
        #[trigger] s@.subrange(from as int, to as int)[i],
        lit@[i],
    ) by {
        assert(s@.subrange(from as int, to as int)[i] == s@[from + i]);
    }
    true
}

/// Whether `s`, lowercased, equals the lowercase word `lit`.
pub fn lowercase_is(s: &str, lit: &str) -> (r: bool)
    requires
        is_lower_ascii_word(lit@),
    ensures
        r == lowercase_equals(s@, lit@),
{
    let v = chars_of(s);
    let r = lowercase_range_equals(&v, 0, v.len(), lit);
    assert(v@.subrange(0, v@.len() as int) =~= v@);
    r
}

/// The decimal digit character for `d < 10`.
pub open spec fn digit_char(d: nat) -> char {
    ((d + 48) as u8) as char
}

/// The decimal rendering of `n`, without leading zeros, as `format!("{}", n)`.
pub open spec fn decimal(n: nat) -> Seq<char>
    decreases n,
{
    if n < 10 {
        seq![digit_char(n)]
    } else {
        decimal(n / 10).push(digit_char(n % 10))
    }
}

fn digit_text(d: u32) -> (r: &'static str)
    requires
        d < 10,
    ensures
        r@ == seq![digit_char(d as nat)],
{
    let all = "0123456789";
    proof {
        reveal_strlit("0123456789");
    }
    let r = all.substring_ascii(d as usize, (d + 1) as usize);
    assert(r@ =~= seq![digit_char(d as nat)]);
    r
}

/// Renders `n` in decimal.
pub fn decimal_text(n: u32) -> (r: String)
    ensures
        r@ == decimal(n as nat),
    decreases n,
{
    if n < 10 {
        digit_text(n).to_owned()
    } else {
        let mut r = decimal_text(n / 10);
        r.append(digit_text(n % 10));
        r
    }
}

/// `s` without the NUL characters at its end.
pub open spec fn without_trailing_nuls(s: Seq<char>) -> Seq<char>
    decreases s.len(),
{
    if s.len() > 0 && s.last() == '\0' {
        without_trailing_nuls(s.drop_last())
    } else {
        s
    }
}

/// Removes the NUL characters at the end of a string, as
/// `str::trim_end_matches('\0')` does.
pub fn trim_trailing_nuls(s: &str) -> (r: &str)
    ensures
        r@ == without_trailing_nuls(s@),
{
    let v = chars_of(s);
    let mut b = v.len();
    proof {
        assert(s@.subrange(0, b as int) =~= s@);
    }
    while b > 0 && v[b - 1] == '\0'
        invariant
            v@ == s@,
            b <= v@.len(),
            without_trailing_nuls(s@.subrange(0, b as int)) == without_trailing_nuls(s@),
        decreases b,
    {
        proof {
            assert(s@.subrange(0, b as int).drop_last() =~= s@.subrange(0, b - 1));
        }
        b = b - 1;
    }
    s.substring_char(0, b)
}

} // verus!
