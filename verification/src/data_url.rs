//! `data:` URLs that carry base64 payloads: building them and reading them back.

use vstd::prelude::*;
use vstd::endian::endianness;
use crate::images::{decoded_image, RasterView};
use crate::base64::{
    base64_decode_error, base64_decode_text, base64_encode, base64_encode_bytes, base64_len_fits,
    lemma_base64_injective,
};
use crate::text::{chars_of, concat, has_prefix, matches_at, starts_with};

verus! {

broadcast use vstd::string::group_string_axioms;

/// The bytes whose standard base64 is `t`, if there are any (there is at most
/// one such byte string).
pub open spec fn base64_decoded(t: Seq<char>) -> Option<Seq<u8>> {
    if exists|v: Seq<u8>| #[trigger] base64_encode(v) == t {
        Some(choose|v: Seq<u8>| #[trigger] base64_encode(v) == t)
    } else {
        None
    }
}

/// What decoding `t` gives: the bytes, or the `Base64 decode failed: ...` message.
pub open spec fn decode_outcome(t: Seq<char>) -> Result<Seq<u8>, Seq<char>> {
    match base64_decoded(t) {
        Some(v) => Ok(v),
        None => Err("Base64 decode failed: "@ + base64_decode_error(t)),
    }
}

/// The view of an outcome that holds bytes or a message.
pub open spec fn bytes_outcome(r: Result<Vec<u8>, String>) -> Result<Seq<u8>, Seq<char>> {
    match r {
        Ok(v) => Ok(v@),
        Err(e) => Err(e@),
    }
}

/// The data URL `data:<mime>;base64,<base64 of bytes>`.
pub open spec fn data_url_text(mime: Seq<char>, bytes: Seq<u8>) -> Seq<char> {
    "data:"@ + mime + ";base64,"@ + base64_encode(bytes)
}

/// `url` is a PNG data URL whose file decodes to the image `img`.
pub open spec fn png_url_decodes_to(url: Seq<char>, img: RasterView) -> bool {
    png_payload(url) matches Ok(png) && decoded_image(png, endianness()) == Ok::<RasterView, Seq<char>>(img)
}

/// Index of the first `c` in `s` at or after `i`, or `s.len()` when there is none.
pub open spec fn find_char_from(s: Seq<char>, c: char, i: int) -> int
    decreases s.len() - i,
{
    if i < 0 || i >= s.len() {
        s.len() as int
    } else if s[i] == c {
        i
    } else {
        find_char_from(s, c, i + 1)
    }
}

/// What saving reads from a data URL: the payload after the first comma that
/// follows `data:`, decoded from base64.
pub open spec fn saved_payload(s: Seq<char>) -> Result<Seq<u8>, Seq<char>> {
    if !has_prefix(s, "data:"@) {
        Err("Invalid data URL format"@)
    } else if find_char_from(s, ',', 5) == s.len() {
        Err("Invalid data URL: no comma found"@)
    } else {
        decode_outcome(s.subrange(find_char_from(s, ',', 5) + 1, s.len() as int))
    }
}

/// The PNG payload of a `data:image/png;base64,` URL, decoded.
pub open spec fn png_payload(s: Seq<char>) -> Result<Seq<u8>, Seq<char>> {
    let prefix = "data:image/png;base64,"@;
    if !has_prefix(s, prefix) {
        Err("Invalid data URL format"@)
    } else {
        decode_outcome(s.subrange(prefix.len() as int, s.len() as int))
    }
}

proof fn lemma_find_char_bounds(s: Seq<char>, c: char, i: int)
    requires
        0 <= i <= s.len(),
    ensures
        i <= find_char_from(s, c, i) <= s.len(),
        forall|k: int| i <= k < find_char_from(s, c, i) ==> s[k] != c,
        find_char_from(s, c, i) < s.len() ==> s[find_char_from(s, c, i)] == c,
    decreases s.len() - i,
{
    if i < s.len() && s[i] != c {
        lemma_find_char_bounds(s, c, i + 1);
    }
}

/// Decodes base64 text, with the error message that icon saving and conversion report.
pub fn decode_base64_payload(t: &str) -> (r: Result<Vec<u8>, String>)
    ensures
        bytes_outcome(r) == decode_outcome(t@),
{
    match base64_decode_text(t) {
        Ok(v) => {
            proof {
                lemma_base64_injective(v@, choose|w: Seq<u8>| #[trigger] base64_encode(w) == t@);
            }
            Ok(v)
        },
        Err(e) => {
            let prefix = "Base64 decode failed: ";
            Err(concat(prefix, e.as_str()))
        },
    }
}

/// Builds `data:<mime>;base64,<payload>`.
pub fn make_data_url(mime: &str, bytes: &[u8]) -> (r: String)
    requires
        base64_len_fits(bytes@.len()),
    ensures
        r@ == data_url_text(mime@, bytes@),
{
    let mut r = "data:".to_owned();
    r.append(mime);
    r.append(";base64,");
    let encoded = base64_encode_bytes(bytes);
    r.append(encoded.as_str());
    r
}

/// Reads the bytes that a data URL carries, as saving an icon does: the text
/// must start with `data:`, and everything after the first following comma is
/// standard base64.
pub fn data_url_payload(data_url: &str) -> (r: Result<Vec<u8>, String>)
    ensures
        bytes_outcome(r) == saved_payload(data_url@),
{
    let s = chars_of(data_url);
    let n = s.len();
    let head = chars_of("data:");
    proof {
        reveal_strlit("data:");
    }
    if !matches_at(&s, 0, &head) {
        return Err("Invalid data URL format".to_owned());
    }
    let mut i: usize = 5;
    proof {
        lemma_find_char_bounds(s@, ',', 5);
    }
    while i < n && s[i] != ','
        invariant
            s@ == data_url@,
            n == s@.len(),
            5 <= i <= n,
            find_char_from(s@, ',', i as int) == find_char_from(s@, ',', 5),
        decreases n - i,
    {
        i = i + 1;
    }
    if i == n {
        return Err("Invalid data URL: no comma found".to_owned());
    }
    let payload = data_url.substring_char(i + 1, n);
    decode_base64_payload(payload)
}

/// Reads the bytes of a `data:image/png;base64,` URL.
pub fn png_data_url_payload(data_url: &str) -> (r: Result<Vec<u8>, String>)
    ensures
        bytes_outcome(r) == png_payload(data_url@),
{
    let prefix = "data:image/png;base64,";
    proof {
        reveal_strlit("data:image/png;base64,");
    }
    if !starts_with(data_url, prefix) {
        return Err("Invalid data URL format".to_owned());
    }
    let n = data_url.unicode_len();
    let payload = data_url.substring_char(22, n);
    decode_base64_payload(payload)
}

/// A base64 payload decodes to the bytes that were encoded.
pub proof fn lemma_decode_of_encoded(bytes: Seq<u8>)
    ensures
        decode_outcome(base64_encode(bytes)) == Ok::<Seq<u8>, Seq<char>>(bytes),
{
    let t = base64_encode(bytes);
    assert(exists|v: Seq<u8>| #[trigger] base64_encode(v) == t);
    lemma_base64_injective(choose|v: Seq<u8>| #[trigger] base64_encode(v) == t, bytes);
}

/// Saving reads back exactly the bytes that a data URL was built from, whatever
/// its media type, as long as that type holds no comma.
pub proof fn law_saved_payload_of_data_url(mime: Seq<char>, bytes: Seq<u8>)
    requires
        !mime.contains(','),
    ensures
        saved_payload(data_url_text(mime, bytes)) == Ok::<Seq<u8>, Seq<char>>(bytes),
{
    reveal_strlit("data:");
    reveal_strlit(";base64,");
    let s = data_url_text(mime, bytes);
    let comma: int = 5 + mime.len() as int + 7;
    assert(has_prefix(s, "data:"@)) by {
        assert(s.subrange(0, 5) =~= "data:"@);
    }
    lemma_find_char_bounds(s, ',', 5);
    assert(s[comma] == ',');
    assert forall|k: int| 5 <= k < comma implies s[k] != ',' by {
        if k < 5 + mime.len() {
            assert(s[k] == mime[k - 5]);
        } else {
            assert(s[k] == ";base64,"@[k - 5 - mime.len()]);
        }
    }
    if find_char_from(s, ',', 5) < comma {
        let f = find_char_from(s, ',', 5);
        assert(s[f] == ',');
    }
    assert(find_char_from(s, ',', 5) == comma);
    assert(s.subrange(comma + 1, s.len() as int) =~= base64_encode(bytes));
    lemma_decode_of_encoded(bytes);
}

/// A PNG data URL reads back as the PNG bytes it was built from.
pub proof fn law_png_payload_of_png_data_url(bytes: Seq<u8>)
    ensures
        png_payload(data_url_text("image/png"@, bytes)) == Ok::<Seq<u8>, Seq<char>>(bytes),
{
    reveal_strlit("data:");
    reveal_strlit(";base64,");
    reveal_strlit("image/png");
    reveal_strlit("data:image/png;base64,");
    let s = data_url_text("image/png"@, bytes);
    assert(s.subrange(0, 22) =~= "data:image/png;base64,"@);
    assert(s.subrange(22, s.len() as int) =~= base64_encode(bytes));
    lemma_decode_of_encoded(bytes);
}

} // verus!
