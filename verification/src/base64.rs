//! Standard base64 (RFC 4648 alphabet, `=` padding), through the `base64` crate.

use vstd::prelude::*;
use base64::Engine;

verus! {

/// The character of the standard alphabet for a sextet `v` (`0 <= v < 64`).
pub open spec fn sextet_char(v: int) -> char {
    if v < 26 {
        ((65 + v) as u8) as char
    } else if v < 52 {
        ((97 + v - 26) as u8) as char
    } else if v < 62 {
        ((48 + v - 52) as u8) as char
    } else if v == 62 {
        '+'
    } else {
        '/'
    }
}

/// Standard padded base64 of `b`: each group of three bytes becomes four
/// characters, and a final group of one or two bytes is padded with `=`.
pub open spec fn base64_encode(b: Seq<u8>) -> Seq<char>
    decreases b.len(),
{
    if b.len() == 0 {
        seq![]
    } else if b.len() == 1 {
        seq![sextet_char((b[0] as int) / 4), sextet_char(((b[0] as int) % 4) * 16), '=', '=']
    } else if b.len() == 2 {
        seq![
            sextet_char((b[0] as int) / 4),
            sextet_char(((b[0] as int) % 4) * 16 + (b[1] as int) / 16),
            sextet_char(((b[1] as int) % 16) * 4),
            '=',
        ]
    } else {
        seq![
            sextet_char((b[0] as int) / 4),
            sextet_char(((b[0] as int) % 4) * 16 + (b[1] as int) / 16),
            sextet_char(((b[1] as int) % 16) * 4 + (b[2] as int) / 64),
            sextet_char((b[2] as int) % 64),
        ] + base64_encode(b.subrange(3, b.len() as int))
    }
}

/// The encoded length of `n` bytes can be allocated: at most `isize::MAX`.
pub open spec fn base64_len_fits(n: nat) -> bool {
    4 * ((n + 2) / 3) <= isize::MAX
}

/// Whether `n` bytes can be encoded without the encoded length overflowing.
pub fn base64_len_ok(n: usize) -> (r: bool)
    ensures
        r == base64_len_fits(n as nat),
{
    let groups: usize = if n % 3 == 0 { n / 3 } else { n / 3 + 1 };
    assert(groups == (n + 2) / 3) by (nonlinear_arith)
        requires
            n % 3 == 0 ==> groups == n / 3,
            n % 3 != 0 ==> groups == n / 3 + 1,
    ;
    groups <= (isize::MAX as usize) / 4
}

/// The text of the error that the `base64` crate reports for text that is not
/// the standard base64 of any byte string.
pub uninterp spec fn base64_decode_error(text: Seq<char>) -> Seq<char>;

/// Calls `base64::engine::general_purpose::STANDARD.encode`, which returns the
/// standard padded base64 of its input; it panics when the encoded length
/// overflows a `usize` or cannot be allocated (over `isize::MAX` bytes), which
/// `requires` rules out.
#[verifier::external_body]
pub(crate) fn base64_encode_bytes(bytes: &[u8]) -> (r: String)
    requires
        base64_len_fits(bytes@.len()),
    ensures
        r@ == base64_encode(bytes@),
{
    base64::engine::general_purpose::STANDARD.encode(bytes)
}

/// Calls `base64::engine::general_purpose::STANDARD.decode`. That engine requires
/// canonical padding and rejects set trailing bits, so it accepts exactly the
/// strings that are the standard encoding of some byte string, and returns those
/// bytes. On failure the crate's error is rendered with `Display`; its text is named.
#[verifier::external_body]
pub(crate) fn base64_decode_text(text: &str) -> (r: Result<Vec<u8>, String>)
    ensures
        r matches Ok(v) ==> base64_encode(v@) == text@,
        r is Err ==> forall|v: Seq<u8>| #[trigger] base64_encode(v) != text@,
        r matches Err(e) ==> e@ == base64_decode_error(text@),
{
    match base64::engine::general_purpose::STANDARD.decode(text) {
        Ok(v) => Ok(v),
        Err(e) => Err(e.to_string()),
    }
}

proof fn lemma_sextet_char_injective(a: int, b: int)
    requires
        0 <= a < 64,
        0 <= b < 64,
        sextet_char(a) == sextet_char(b),
    ensures
        a == b,
{
}

proof fn lemma_sextet_not_pad(a: int)
    requires
        0 <= a < 64,
    ensures
        sextet_char(a) != '=',
{
}

/// The length of an encoding: four characters per started group of three bytes.
pub proof fn lemma_base64_len(b: Seq<u8>)
    ensures
        base64_encode(b).len() == 4 * ((b.len() + 2) / 3),
    decreases b.len(),
{
    if b.len() >= 3 {
        lemma_base64_len(b.subrange(3, b.len() as int));
    }
}

/// Distinct byte strings have distinct encodings.
pub proof fn lemma_base64_injective(x: Seq<u8>, y: Seq<u8>)
    requires
        base64_encode(x) == base64_encode(y),
    ensures
        x == y,
    decreases x.len(),
{
    lemma_base64_len(x);
    lemma_base64_len(y);
    let ex = base64_encode(x);
    let ey = base64_encode(y);
    if x.len() == 0 || y.len() == 0 {
        assert(x.len() == 0 && y.len() == 0);
        assert(x =~= y);
        return;
    }
    if x.len() >= 3 {
        lemma_sextet_not_pad((x[2] as int) % 64);
        lemma_sextet_not_pad(((x[1] as int) % 16) * 4 + (x[2] as int) / 64);
        assert(ex[3] == sextet_char((x[2] as int) % 64));
        assert(ex[2] == sextet_char(((x[1] as int) % 16) * 4 + (x[2] as int) / 64));
    }
    if y.len() >= 3 {
        lemma_sextet_not_pad((y[2] as int) % 64);
        lemma_sextet_not_pad(((y[1] as int) % 16) * 4 + (y[2] as int) / 64);
        assert(ey[3] == sextet_char((y[2] as int) % 64));
        assert(ey[2] == sextet_char(((y[1] as int) % 16) * 4 + (y[2] as int) / 64));
    }
    if x.len() == 2 {
        lemma_sextet_not_pad(((x[1] as int) % 16) * 4);
        assert(ex[2] == sextet_char(((x[1] as int) % 16) * 4));
    }
    if y.len() == 2 {
        lemma_sextet_not_pad(((y[1] as int) % 16) * 4);
        assert(ey[2] == sextet_char(((y[1] as int) % 16) * 4));
    }
    // The padding of the first group tells how many bytes it holds.
    assert(ex[0] == ey[0] && ex[1] == ey[1] && ex[2] == ey[2] && ex[3] == ey[3]);
    lemma_sextet_char_injective((x[0] as int) / 4, (y[0] as int) / 4);
    if x.len() == 1 {
        assert(y.len() == 1);
        lemma_sextet_char_injective(((x[0] as int) % 4) * 16, ((y[0] as int) % 4) * 16);
        assert(x =~= y);
    } else if x.len() == 2 {
        assert(y.len() == 2);
        lemma_sextet_char_injective(((x[0] as int) % 4) * 16 + (x[1] as int) / 16, ((y[0] as int) % 4) * 16 + (y[1] as int) / 16);
        lemma_sextet_char_injective(((x[1] as int) % 16) * 4, ((y[1] as int) % 16) * 4);
        assert(x[0] == y[0]);
        assert(x[1] == y[1]);
        assert(x =~= y);
    } else {
        assert(y.len() >= 3);
        lemma_sextet_char_injective(((x[0] as int) % 4) * 16 + (x[1] as int) / 16, ((y[0] as int) % 4) * 16 + (y[1] as int) / 16);
        lemma_sextet_char_injective(
            ((x[1] as int) % 16) * 4 + (x[2] as int) / 64,
            ((y[1] as int) % 16) * 4 + (y[2] as int) / 64,
        );
        lemma_sextet_char_injective((x[2] as int) % 64, (y[2] as int) % 64);
        assert(x[0] == y[0]);
        assert(x[1] == y[1]);
        assert(x[2] == y[2]);
        let xs = x.subrange(3, x.len() as int);
        let ys = y.subrange(3, y.len() as int);
        assert(base64_encode(xs) =~= ex.subrange(4, ex.len() as int));
        assert(base64_encode(ys) =~= ey.subrange(4, ey.len() as int));
        lemma_base64_injective(xs, ys);
        assert(x =~= seq![x[0], x[1], x[2]] + xs);
        assert(y =~= seq![y[0], y[1], y[2]] + ys);
    }
}

} // verus!
