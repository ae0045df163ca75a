//! Website favicons: reading the address the user typed, the order in which
//! icon addresses are tried, turning a downloaded image into a PNG data URL,
//! and the final list of favicons.

use vstd::prelude::*;
use vstd::endian::endianness;
use crate::data_url::{law_png_payload_of_png_data_url, png_payload};
use crate::html::{find_icon_hrefs, icon_hrefs};
use crate::icons::{icon_from_image, icon_of_image};
use crate::images::{decoded_image, load_image, png_encoding, rgba8_pixels, PixelLayout, RasterView};
use crate::sizes::{first_per_size_sorted, sort_first_per_size, SizedEntry};
use crate::text::{concat, decimal, decimal_text, has_prefix, starts_with, trim, trimmed};

verus! {

broadcast use vstd::string::group_string_axioms;

/// A favicon found for a website, as a PNG data URL.
#[derive(Clone, Debug, PartialEq, Eq)]
pub struct FaviconData {
    pub size: u32,
    pub width: u32,
    pub height: u32,
    /// `data:image/png;base64,...`
    pub data_url: String,
    /// How the favicon was found.
    pub source: String,
}

impl SizedEntry for FaviconData {
    open spec fn entry_size(&self) -> u32 {
        self.size
    }

    fn size(&self) -> (r: u32) {
        self.size
    }
}

#[verifier::external_type_specification]
#[verifier::external_body]
pub struct ExUrl(url::Url);

/// A URL as the `url` crate parsed it, with its serialization. Only parsing and
/// joining make one, so the serialization is always that of the held URL.
pub struct ParsedUrl {
    url: url::Url,
    text: String,
}

impl View for ParsedUrl {
    type V = Seq<char>;

    closed spec fn view(&self) -> Seq<char> {
        self.text@
    }
}

impl ParsedUrl {
    /// The URL's serialization.
    pub fn as_str(&self) -> (r: &str)
        ensures
            r@ == self@,
    {
        self.text.as_str()
    }
}

/// The serialization of the URL that `url::Url::parse` reads from `text`, or
/// the text of its parse error.
pub uninterp spec fn url_parse(text: Seq<char>) -> Result<Seq<char>, Seq<char>>;

/// The serialization of what `url::Url::join` makes of `reference` against the
/// URL serialized as `base`, or `None` when it fails.
pub uninterp spec fn url_join(base: Seq<char>, reference: Seq<char>) -> Option<Seq<char>>;

/// What `url::Url::domain` gives for the URL serialized as `text` (none for an
/// IP-address host or for no host).
pub uninterp spec fn url_domain(text: Seq<char>) -> Option<Seq<char>>;

/// `s` begins with the scheme `scheme` followed by `://`.
pub open spec fn has_scheme_prefix(s: Seq<char>, scheme: Seq<char>) -> bool {
    has_prefix(s, scheme + "://"@)
}

/// Calls `url::Url::parse`; the URL's serialization, or the text of the parse
/// error, is named. (A URL is fixed by its serialization: the crate's own
/// equality on URLs compares serializations.) A serialization parses back to
/// itself (the crate checks this of every URL in its invariant check). An
/// `http://` or `https://` address keeps that scheme in front, and its
/// serialization holds no whitespace: spaces, controls and non-ASCII
/// characters are percent-encoded or, in the host, refused or punycoded.
#[verifier::external_body]
pub(crate) fn parse_url(text: &str) -> (r: Result<ParsedUrl, String>)
    ensures
        match (r, url_parse(text@)) {
            (Ok(u), Ok(v)) => u@ == v,
            (Err(e), Err(m)) => e@ == m,
            _ => false,
        },
        r matches Ok(u) ==> (url_parse(u@) == Ok::<Seq<char>, Seq<char>>(u@)),
        has_scheme_prefix(text@, "http"@) && r is Ok ==> has_scheme_prefix(r->Ok_0@, "http"@) && trimmed(r->Ok_0@) == r->Ok_0@,
        has_scheme_prefix(text@, "https"@) && r is Ok ==> has_scheme_prefix(r->Ok_0@, "https"@) && trimmed(r->Ok_0@)
            == r->Ok_0@,
{
    let url = url::Url::parse(text).map_err(|e| e.to_string())?;
    Ok(ParsedUrl { text: url.as_str().to_owned(), url })
}

/// Calls `url::Url::join`; the resolved URL's serialization, or its absence
/// when joining fails, is named.
#[verifier::external_body]
pub(crate) fn join_url(base: &ParsedUrl, reference: &str) -> (r: Option<ParsedUrl>)
    ensures
        match r {
            Some(u) => url_join(base@, reference@) == Some(u@),
            None => url_join(base@, reference@) is None,
        },
{
    let url = base.url.join(reference).ok()?;
    Some(ParsedUrl { text: url.as_str().to_owned(), url })
}

/// Calls `url::Url::domain`; the domain, or its absence, is named.
#[verifier::external_body]
pub(crate) fn domain_of_url(url: &ParsedUrl) -> (r: Option<String>)
    ensures
        match r {
            Some(d) => url_domain(url@) == Some(d@),
            None => url_domain(url@) is None,
        },
{
    url.url.domain().map(|d| d.to_owned())
}

/// The address to parse for what the user typed: trimmed, with `https://` put in
/// front unless it already starts with `http://` or `https://`.
pub open spec fn address_text(input: Seq<char>) -> Seq<char> {
    let t = trimmed(input);
    if !has_prefix(t, "http://"@) && !has_prefix(t, "https://"@) {
        "https://"@ + t
    } else {
        t
    }
}

/// What normalizing gives: the parsed URL's serialization, or why it failed.
pub open spec fn normalized_url(input: Seq<char>) -> Result<Seq<char>, Seq<char>> {
    match url_parse(address_text(input)) {
        Ok(u) => Ok(u),
        Err(e) => Err("无效的网址: "@ + e),
    }
}

/// Turns what the user typed into a URL. The result is an `http://` or
/// `https://` URL, and normalizing it again gives it back unchanged.
pub fn normalize_url(input: &str) -> (r: Result<ParsedUrl, String>)
    ensures
        match (r, normalized_url(input@)) {
            (Ok(u), Ok(v)) => u@ == v,
            (Err(e), Err(m)) => e@ == m,
            _ => false,
        },
        r matches Ok(u) ==> (normalized_url(u@) == Ok::<Seq<char>, Seq<char>>(u@)),
        r matches Ok(u) ==> has_scheme_prefix(u@, "http"@) || has_scheme_prefix(u@, "https"@),
{
    let t = trim(input);
    let with_scheme = if !starts_with(t, "http://") && !starts_with(t, "https://") {
        concat("https://", t)
    } else {
        t.to_owned()
    };
    proof {
        reveal_strlit("http");
        reveal_strlit("https");
        reveal_strlit("://");
        reveal_strlit("http://");
        reveal_strlit("https://");
        assert("http"@ + "://"@ =~= "http://"@);
        assert("https"@ + "://"@ =~= "https://"@);
        let p = "https://"@;
        assert(has_prefix(with_scheme@, "http://"@) || has_prefix(with_scheme@, p)) by {
            if !has_prefix(t@, "http://"@) && !has_prefix(t@, "https://"@) {
                assert((p + t@).subrange(0, p.len() as int) =~= p);
            }
        }
    }
    match parse_url(with_scheme.as_str()) {
        Ok(u) => Ok(u),
        Err(e) => Err(concat("无效的网址: ", e.as_str())),
    }
}

/// The links that resolve against `base`, in order; the others are dropped.
pub open spec fn resolved_links(base: Seq<char>, hrefs: Seq<Seq<char>>) -> Seq<Seq<char>>
    decreases hrefs.len(),
{
    if hrefs.len() == 0 {
        Seq::empty()
    } else {
        let rest = resolved_links(base, hrefs.drop_last());
        match url_join(base, hrefs.last()) {
            Some(u) => rest.push(u),
            None => rest,
        }
    }
}

/// The icon addresses a page names: those of rel-first tags, or, when there are
/// none, those of href-first tags; `None` when neither gives any.
pub open spec fn page_icon_links(base: Seq<char>, html: Seq<char>) -> Option<Seq<Seq<char>>> {
    let first = resolved_links(base, icon_hrefs(html, true));
    if first.len() > 0 {
        Some(first)
    } else {
        let second = resolved_links(base, icon_hrefs(html, false));
        if second.len() > 0 {
            Some(second)
        } else {
            None
        }
    }
}

/// Resolves each link against `base`, keeping those that resolve.
fn resolve_links(base: &ParsedUrl, hrefs: Vec<String>) -> (r: Vec<String>)
    ensures
        r@.len() == resolved_links(base@, hrefs@.map_values(|h: String| h@)).len(),
        forall|k: int| 0 <= k < r@.len() ==> (#[trigger] r@[k])@ == resolved_links(base@, hrefs@.map_values(|h: String| h@))[k],
{
    let ghost views = hrefs@.map_values(|h: String| h@);
    let mut out: Vec<String> = Vec::new();
    let mut k: usize = 0;
    while k < hrefs.len()
        invariant
            views == hrefs@.map_values(|h: String| h@),
            k <= hrefs@.len(),
            out@.len() == resolved_links(base@, views.take(k as int)).len(),
            forall|m: int| 0 <= m < out@.len() ==> (#[trigger] out@[m])@ == resolved_links(base@, views.take(k as int))[m],
        decreases hrefs@.len() - k,
    {
        proof {
            assert(views.take(k + 1).drop_last() =~= views.take(k as int));
            assert(views.take(k + 1).last() == hrefs@[k as int]@);
        }
        match join_url(base, hrefs[k].as_str()) {
            Some(u) => {
                out.push(u.as_str().to_owned());
            },
            None => {},
        }
        k = k + 1;
    }
    assert(views.take(hrefs@.len() as int) =~= views);
    out
}

/// The icon addresses that a page's HTML names, resolved against the page's URL.
pub fn icon_links_from_html(base: &ParsedUrl, html: &str) -> (r: Option<Vec<String>>)
    ensures
        match (r, page_icon_links(base@, html@)) {
            (Some(v), Some(w)) => v@.len() == w.len() && forall|k: int| 0 <= k < v@.len() ==> (#[trigger] v@[k])@ == w[k],
            (None, None) => true,
            _ => false,
        },
{
    let hrefs = find_icon_hrefs(html, true);
    proof {
        assert(hrefs@.map_values(|h: String| h@) =~= icon_hrefs(html@, true));
    }
    let first = resolve_links(base, hrefs);
    if first.len() > 0 {
        return Some(first);
    }
    let hrefs2 = find_icon_hrefs(html, false);
    proof {
        assert(hrefs2@.map_values(|h: String| h@) =~= icon_hrefs(html@, false));
    }
    let second = resolve_links(base, hrefs2);
    if second.len() > 0 {
        Some(second)
    } else {
        None
    }
}

/// An address to try for a favicon, and how it was found.
#[derive(Clone, Debug, PartialEq, Eq)]
pub struct FaviconCandidate {
    pub url: String,
    pub source: String,
}

/// The sizes asked of the public favicon service, smallest first.
pub const FAVICON_SERVICE_SIZES: [u32; 5] = [16, 32, 64, 128, 256];

/// The public favicon service's address for a domain and size.
pub open spec fn service_url(domain: Seq<char>, size: u32) -> Seq<char> {
    "https://www.google.com/s2/favicons?domain="@ + domain + "&sz="@ + decimal(size as nat)
}

/// The candidates for one site, before repeated addresses are dropped: the page's
/// icon links, `/favicon.ico`, `/favicon.png`, then the favicon service at each size.
pub open spec fn raw_candidates(base: Seq<char>, page_links: Option<Seq<Seq<char>>>) -> Seq<(Seq<char>, Seq<char>)> {
    let from_page = match page_links {
        Some(links) => links.map_values(|u: Seq<char>| (u, "HTML <link>"@)),
        None => Seq::empty(),
    };
    let ico = match url_join(base, "/favicon.ico"@) {
        Some(u) => seq![(u, "/favicon.ico"@)],
        None => Seq::empty(),
    };
    let png = match url_join(base, "/favicon.png"@) {
        Some(u) => seq![(u, "/favicon.png"@)],
        None => Seq::empty(),
    };
    let service = match url_domain(base) {
        Some(d) => seq![16u32, 32u32, 64u32, 128u32, 256u32].map_values(
            |sz: u32| (service_url(d, sz), "Google Favicon"@),
        ),
        None => Seq::empty(),
    };
    from_page + ico + png + service
}

/// `s[i]`'s address does not occur earlier in `s`.
pub open spec fn first_of_its_url(s: Seq<(Seq<char>, Seq<char>)>, i: int) -> bool {
    forall|j: int| 0 <= j < i ==> (#[trigger] s[j]).0 != s[i].0
}

/// The entries of `s` whose address has not occurred before, in order.
pub open spec fn distinct_urls(s: Seq<(Seq<char>, Seq<char>)>) -> Seq<(Seq<char>, Seq<char>)>
    decreases s.len(),
{
    if s.len() == 0 {
        Seq::empty()
    } else if first_of_its_url(s, s.len() - 1) {
        distinct_urls(s.drop_last()).push(s.last())
    } else {
        distinct_urls(s.drop_last())
    }
}

/// The view of a candidate.
pub open spec fn candidate_view(c: FaviconCandidate) -> (Seq<char>, Seq<char>) {
    (c.url@, c.source@)
}

/// The addresses to try for a favicon, in order, each once.
pub open spec fn favicon_candidate_list(base: Seq<char>, page_links: Option<Seq<Seq<char>>>) -> Seq<(Seq<char>, Seq<char>)> {
    distinct_urls(raw_candidates(base, page_links))
}

fn push_candidate(out: &mut Vec<FaviconCandidate>, url: String, source: &str)
    ensures
        final(out)@.len() == old(out)@.len() + 1,
        forall|k: int| 0 <= k < old(out)@.len() ==> #[trigger] final(out)@[k] == old(out)@[k],
        final(out)@.last().url@ == url@,
        final(out)@.last().source@ == source@,
{
    out.push(FaviconCandidate { url, source: source.to_owned() });
}

/// Keeps the candidates whose address has not occurred before.
fn drop_repeated_urls(raw: Vec<FaviconCandidate>) -> (r: Vec<FaviconCandidate>)
    ensures
        candidates_view(r@) == distinct_urls(candidates_view(raw@)),
{
    let ghost views = candidates_view(raw@);
    let mut out: Vec<FaviconCandidate> = Vec::new();
    let mut seen: Vec<String> = Vec::new();
    for c in it: raw
        invariant
            it.seq() == raw@,
            views == candidates_view(raw@),
            candidates_view(out@) == distinct_urls(views.take(it.index())),
            seen@.len() == it.index(),
            forall|j: int| 0 <= j < it.index() ==> (#[trigger] seen@[j])@ == views[j].0,
    {
        let ghost i = it.index();
        let mut found = false;
        let mut j: usize = 0;
        while j < seen.len()
            invariant
                j <= seen@.len(),
                seen@.len() == i,
                found == exists|m: int| 0 <= m < j && (#[trigger] seen@[m])@ == c.url@,
            decreases seen@.len() - j,
        {
            if seen[j] == c.url {
                found = true;
            }
            j = j + 1;
        }
        proof {
            let pre = views.take(i + 1);
            assert(pre.drop_last() =~= views.take(i));
            assert(pre.last() == candidate_view(c));
            assert(first_of_its_url(pre, i) == !found) by {
                if found {
                    let m = choose|m: int| 0 <= m < j && (#[trigger] seen@[m])@ == c.url@;
                    assert(pre[m].0 == pre[i].0);
                } else {
                    assert forall|m: int| 0 <= m < i implies (#[trigger] pre[m]).0 != pre[i].0 by {
                        assert(seen@[m]@ == views[m].0);
                    }
                }
            }
        }
        seen.push(c.url.clone());
        if !found {
            let ghost before = out@;
            out.push(c);
            proof {
                assert(candidates_view(out@) =~= candidates_view(before).push(candidate_view(c)));
            }
        }
    }
    assert(views.take(views.len() as int) =~= views);
    out
}

/// The view of a list of candidates.
pub open spec fn candidates_view(s: Seq<FaviconCandidate>) -> Seq<(Seq<char>, Seq<char>)> {
    s.map_values(|c: FaviconCandidate| candidate_view(c))
}

/// The view of an optional list of links.
pub open spec fn links_view(links: Option<Vec<String>>) -> Option<Seq<Seq<char>>> {
    match links {
        Some(v) => Some(v@.map_values(|s: String| s@)),
        None => None,
    }
}

/// The public favicon service's address for a domain and size.
pub fn service_address(domain: &str, size: u32) -> (r: String)
    ensures
        r@ == service_url(domain@, size),
{
    let mut r = concat("https://www.google.com/s2/favicons?domain=", domain);
    r.append("&sz=");
    r.append(decimal_text(size).as_str());
    r
}

/// The addresses to try for a site's favicon, in order and without repeats: the
/// icon links of its page (when the page named any), `/favicon.ico`,
/// `/favicon.png`, then the public favicon service at each size.
pub fn favicon_candidates(base: &ParsedUrl, page_links: Option<Vec<String>>) -> (r: Vec<FaviconCandidate>)
    ensures
        candidates_view(r@) == favicon_candidate_list(base@, links_view(page_links)),
{
    let ghost lv = links_view(page_links);
    let ghost from_page = match lv {
        Some(links) => links.map_values(|u: Seq<char>| (u, "HTML <link>"@)),
        None => Seq::<(Seq<char>, Seq<char>)>::empty(),
    };
    let mut raw: Vec<FaviconCandidate> = Vec::new();
    match page_links {
        Some(links) => {
            let ghost all = links@.map_values(|s: String| s@);
            for u in it: links
                invariant
                    it.seq() == links@,
                    all == links@.map_values(|s: String| s@),
                    lv == Some(all),
                    from_page == all.map_values(|u: Seq<char>| (u, "HTML <link>"@)),
                    raw@.len() == it.index(),
                    candidates_view(raw@) == from_page.take(it.index()),
            {
                let ghost before = raw@;
                let ghost i = it.index();
                let ghost uv = u@;
                proof {
                    assert(uv == all[i]);
                }
                push_candidate(&mut raw, u, "HTML <link>");
                proof {
                    assert forall|k: int| 0 <= k < i + 1 implies #[trigger] candidates_view(raw@)[k] == from_page.take(i + 1)[k] by {
                        if k < i {
                            assert(raw@[k] == before[k]);
                            assert(candidates_view(before)[k] == from_page.take(i)[k]);
                        }
                    }
                    assert(candidates_view(raw@) =~= from_page.take(i + 1));
                }
            }
            assert(from_page.take(from_page.len() as int) =~= from_page);
        },
        None => {
            assert(candidates_view(raw@) =~= from_page);
        },
    }
    let ghost after_page = raw@;
    if let Some(u) = join_url(base, "/favicon.ico") {
        push_candidate(&mut raw, u.as_str().to_owned(), "/favicon.ico");
    }
    if let Some(u) = join_url(base, "/favicon.png") {
        push_candidate(&mut raw, u.as_str().to_owned(), "/favicon.png");
    }
    let ghost before_service = raw@;
    if let Some(d) = domain_of_url(base) {
        push_candidate(&mut raw, service_address(d.as_str(), 16), "Google Favicon");
        push_candidate(&mut raw, service_address(d.as_str(), 32), "Google Favicon");
        push_candidate(&mut raw, service_address(d.as_str(), 64), "Google Favicon");
        push_candidate(&mut raw, service_address(d.as_str(), 128), "Google Favicon");
        push_candidate(&mut raw, service_address(d.as_str(), 256), "Google Favicon");
    }
    proof {
        reveal_strlit("HTML <link>");
        reveal_strlit("/favicon.ico");
        reveal_strlit("/favicon.png");
        reveal_strlit("Google Favicon");
        assert(candidates_view(raw@) =~= raw_candidates(base@, lv));
    }
    drop_repeated_urls(raw)
}

/// What a favicon's fields are, as plain values.
pub struct FaviconView {
    pub size: u32,
    pub width: u32,
    pub height: u32,
    pub data_url: Seq<char>,
    pub source: Seq<char>,
}

impl FaviconData {
    pub open spec fn view_of(&self) -> FaviconView {
        FaviconView {
            size: self.size,
            width: self.width,
            height: self.height,
            data_url: self.data_url@,
            source: self.source@,
        }
    }
}

/// The favicon a decoded image gives: the image's icon, with its source.
pub open spec fn favicon_of_image(img: RasterView, source: Seq<char>) -> Option<FaviconView> {
    match icon_of_image(img) {
        Some(v) => Some(
            FaviconView { size: v.size, width: v.width, height: v.height, data_url: v.data_url, source },
        ),
        None => None,
    }
}

/// The favicon that downloaded bytes give: nothing for no bytes or for bytes
/// that do not decode as an image.
pub open spec fn favicon_outcome(bytes: Seq<u8>, source: Seq<char>) -> Option<FaviconView> {
    if bytes.len() == 0 {
        None
    } else {
        match decoded_image(bytes, endianness()) {
            Err(_) => None,
            Ok(img) => favicon_of_image(img, source),
        }
    }
}

/// Turns downloaded bytes into a favicon: nothing for no bytes or bytes that do
/// not decode as an image; otherwise the image as 8-bit RGBA, encoded as a PNG
/// data URL.
pub fn favicon_from_bytes(bytes: &[u8], source: &str) -> (r: Option<FaviconData>)
    ensures
        match (r, favicon_outcome(bytes@, source@)) {
            (Some(f), Some(v)) => f.view_of() == v,
            (None, None) => true,
            _ => false,
        },
{
    if bytes.len() == 0 {
        return None;
    }
    let img = match load_image(bytes) {
        Ok(img) => img,
        Err(_) => return None,
    };
    match icon_from_image(&img) {
        Some(icon) => Some(
            FaviconData {
                size: icon.size,
                width: icon.width,
                height: icon.height,
                data_url: icon.data_url,
                source: source.to_owned(),
            },
        ),
        None => None,
    }
}

/// Finishes the favicons found for a site, in the order they were found: none is
/// an error naming the site; otherwise one per size (the first found), in
/// ascending order of size.
pub fn finish_favicons(base: &ParsedUrl, found: Vec<FaviconData>) -> (r: Result<Vec<FaviconData>, String>)
    ensures
        found@.len() == 0 ==> (r matches Err(e) && e@ == "未找到 "@ + base@ + " 的图标"@),
        found@.len() > 0 ==> (r matches Ok(v) && v@ == first_per_size_sorted(found@)),
{
    if found.len() == 0 {
        let mut msg = concat("未找到 ", base.as_str());
        msg.append(" 的图标");
        return Err(msg);
    }
    Ok(sort_first_per_size(found))
}

/// Some entry of `d` has the address `u`.
pub open spec fn has_url(d: Seq<(Seq<char>, Seq<char>)>, u: Seq<char>) -> bool {
    exists|i: int| 0 <= i < d.len() && (#[trigger] d[i]).0 == u
}

proof fn lemma_distinct_urls_origin(s: Seq<(Seq<char>, Seq<char>)>)
    ensures
        forall|i: int| 0 <= i < distinct_urls(s).len() ==> exists|k: int| 0 <= k < s.len() && (#[trigger] s[k]) == (#[trigger] distinct_urls(s)[i]) && first_of_its_url(s, k),
    decreases s.len(),
{
    if s.len() > 0 {
        let p = s.drop_last();
        lemma_distinct_urls_origin(p);
        let dp = distinct_urls(p);
        let d = distinct_urls(s);
        let last = s.len() - 1;
        assert forall|i: int| 0 <= i < d.len() implies exists|k: int| 0 <= k < s.len() && (#[trigger] s[k]) == (#[trigger] d[i]) && first_of_its_url(s, k) by {
            if i < dp.len() {
                let k = choose|k: int| 0 <= k < p.len() && (#[trigger] p[k]) == (#[trigger] dp[i]) && first_of_its_url(p, k);
                assert(s[k] == p[k]);
                assert(d[i] == dp[i]);
                assert forall|j: int| 0 <= j < k implies (#[trigger] s[j]).0 != s[k].0 by {
                    assert(s[j] == p[j]);
                }
            } else {
                assert(s[last] == d[i]);
            }
        }
    }
}

proof fn lemma_distinct_urls_unique(s: Seq<(Seq<char>, Seq<char>)>)
    ensures
        forall|i: int, j: int| 0 <= i < j < distinct_urls(s).len() ==> (#[trigger] distinct_urls(s)[i]).0 != (#[trigger] distinct_urls(s)[j]).0,
    decreases s.len(),
{
    if s.len() > 0 {
        let p = s.drop_last();
        lemma_distinct_urls_unique(p);
        lemma_distinct_urls_origin(p);
        let dp = distinct_urls(p);
        let d = distinct_urls(s);
        let last = s.len() - 1;
        if first_of_its_url(s, last) {
            assert forall|i: int, j: int| 0 <= i < j < d.len() implies (#[trigger] d[i]).0 != (#[trigger] d[j]).0 by {
                if j == d.len() - 1 {
                    let k = choose|k: int| 0 <= k < p.len() && (#[trigger] p[k]) == (#[trigger] dp[i]) && first_of_its_url(p, k);
                    assert(s[k] == p[k]);
                    assert(d[i] == dp[i]);
                    assert(d[j] == s[last]);
                } else {
                    assert(d[i] == dp[i]);
                    assert(d[j] == dp[j]);
                }
            }
        }
    }
}

proof fn lemma_distinct_urls_complete(s: Seq<(Seq<char>, Seq<char>)>)
    ensures
        forall|k: int| 0 <= k < s.len() ==> has_url(distinct_urls(s), (#[trigger] s[k]).0),
    decreases s.len(),
{
    if s.len() > 0 {
        let p = s.drop_last();
        lemma_distinct_urls_complete(p);
        let dp = distinct_urls(p);
        let d = distinct_urls(s);
        let last = s.len() - 1;
        assert forall|k: int| 0 <= k < s.len() implies has_url(d, (#[trigger] s[k]).0) by {
            if k < last {
                assert(s[k] == p[k]);
                assert(has_url(dp, p[k].0));
                let i = choose|i: int| 0 <= i < dp.len() && (#[trigger] dp[i]).0 == p[k].0;
                assert(d[i] == dp[i]);
            } else if first_of_its_url(s, last) {
                assert(d[d.len() - 1] == s[k]);
            } else {
                let j = choose|j: int| 0 <= j < last && (#[trigger] s[j]).0 == s[last].0;
                assert(s[j] == p[j]);
                assert(has_url(dp, p[j].0));
                let i = choose|i: int| 0 <= i < dp.len() && (#[trigger] dp[i]).0 == p[j].0;
                assert(d[i] == dp[i]);
            }
        }
    }
}

/// Each address is tried once: the list that `distinct_urls` keeps has no repeated
/// address, keeps every address of the input, and keeps for each the first entry
/// that has it.
pub proof fn law_distinct_urls(s: Seq<(Seq<char>, Seq<char>)>)
    ensures
        forall|i: int, j: int| 0 <= i < j < distinct_urls(s).len() ==> (#[trigger] distinct_urls(s)[i]).0 != (#[trigger] distinct_urls(s)[j]).0,
        forall|k: int| 0 <= k < s.len() ==> has_url(distinct_urls(s), (#[trigger] s[k]).0),
        forall|i: int| 0 <= i < distinct_urls(s).len() ==> exists|k: int| 0 <= k < s.len() && (#[trigger] s[k]) == (#[trigger] distinct_urls(s)[i]) && first_of_its_url(s, k),
{
    lemma_distinct_urls_unique(s);
    lemma_distinct_urls_complete(s);
    lemma_distinct_urls_origin(s);
}

proof fn lemma_distinct_urls_first(s: Seq<(Seq<char>, Seq<char>)>)
    requires
        s.len() > 0,
    ensures
        distinct_urls(s).len() > 0,
        distinct_urls(s)[0] == s[0],
    decreases s.len(),
{
    if s.len() == 1 {
        assert(first_of_its_url(s, 0));
    } else {
        let p = s.drop_last();
        lemma_distinct_urls_first(p);
        assert(p[0] == s[0]);
    }
}

/// The site-wide candidates are the base URL joined with the absolute paths
/// `/favicon.ico` and `/favicon.png` (whatever path the base URL has), and
/// both addresses are tried; with no icon links from the page, the
/// `/favicon.ico` address is tried first.
pub proof fn law_site_favicon_candidates(base: Seq<char>, page_links: Option<Seq<Seq<char>>>)
    ensures
        url_join(base, "/favicon.ico"@) matches Some(u) ==> has_url(favicon_candidate_list(base, page_links), u),
        url_join(base, "/favicon.png"@) matches Some(u) ==> has_url(favicon_candidate_list(base, page_links), u),
        page_links is None && url_join(base, "/favicon.ico"@) is Some ==> favicon_candidate_list(base, page_links)[0]
            == (url_join(base, "/favicon.ico"@)->0, "/favicon.ico"@),
{
    let raw = raw_candidates(base, page_links);
    let from_page = match page_links {
        Some(links) => links.map_values(|u: Seq<char>| (u, "HTML <link>"@)),
        None => Seq::empty(),
    };
    let ico = match url_join(base, "/favicon.ico"@) {
        Some(u) => seq![(u, "/favicon.ico"@)],
        None => Seq::empty(),
    };
    let png = match url_join(base, "/favicon.png"@) {
        Some(u) => seq![(u, "/favicon.png"@)],
        None => Seq::empty(),
    };
    law_distinct_urls(raw);
    if let Some(u) = url_join(base, "/favicon.ico"@) {
        let k = from_page.len() as int;
        assert(raw[k] == (u, "/favicon.ico"@));
        assert(has_url(distinct_urls(raw), raw[k].0));
        if page_links is None {
            lemma_distinct_urls_first(raw);
            assert(raw[0] == (u, "/favicon.ico"@));
        }
    }
    if let Some(u) = url_join(base, "/favicon.png"@) {
        let k = (from_page.len() + ico.len()) as int;
        assert(raw[k] == (u, "/favicon.png"@));
        assert(has_url(distinct_urls(raw), raw[k].0));
    }
}

/// A favicon made from downloaded bytes reads back, as conversion reads its
/// data URL, as the PNG file that the encoder made of the image's RGBA pixels.
pub proof fn law_favicon_reads_back_as_png(bytes: Seq<u8>, source: Seq<char>)
    requires
        favicon_outcome(bytes, source) is Some,
    ensures
        decoded_image(bytes, endianness()) is Ok,
        ({
            let img = decoded_image(bytes, endianness())->Ok_0;
            png_payload(favicon_outcome(bytes, source)->0.data_url) == png_encoding(
                rgba8_pixels(img, endianness()),
                img.width,
                img.height,
                PixelLayout::Rgba8,
                endianness(),
            )
        }),
{
    let img = decoded_image(bytes, endianness())->Ok_0;
    let png = png_encoding(rgba8_pixels(img, endianness()), img.width, img.height, PixelLayout::Rgba8, endianness())->Ok_0;
    law_png_payload_of_png_data_url(png);
}

} // verus!
