//! Finding the third-party domains that a web page loads resources from.
use vstd::prelude::*;
use crate::text::{
    chars_of, concat3, has_prefix, last_dot, lowercase, slice_chars, starts_with_str, string_of,
    to_lowercase,
};

verus! {

/// What `reqwest::Url::parse` followed by `host_str` gives for this text:
/// the host of the URL, or `None` when the text is no URL or has no host.
pub uninterp spec fn url_host(url: Seq<char>) -> Option<Seq<char>>;

/// Parses `url` with `reqwest::Url::parse` (the `url` crate) and takes its
/// `host_str`. Claimed: the result is the named host of the text; what a host
/// is (WHATWG URL parsing, IDNA) is left to that name.
#[verifier::external_body]
fn parse_url_host(url: &str) -> (r: Option<String>)
    ensures
        match r {
            Some(h) => url_host(url@) == Some(h@),
            None => url_host(url@) is None,
        },
{
    match reqwest::Url::parse(url) {
        Ok(u) => u.host_str().map(|h| h.to_string()),
        Err(_) => None,
    }
}

/// A protocol-relative reference (`//host/...`) read as an https URL.
pub open spec fn with_scheme(url: Seq<char>) -> Seq<char> {
    if has_prefix(url, "//"@) {
        "https:"@ + url
    } else {
        url
    }
}

/// The lowered host named by a resource reference, if it names one.
pub open spec fn domain_of_url(url: Seq<char>) -> Option<Seq<char>> {
    match url_host(with_scheme(url)) {
        Some(h) => Some(lowercase(h)),
        None => None,
    }
}

/// The text handed to the URL parser: a protocol-relative reference
/// (`//host/...`) gets the `https:` scheme, any other text stays as it is.
pub fn with_https_scheme(url: &str) -> (r: String)
    ensures
        r@ == with_scheme(url@),
{
    let chars = chars_of(url);
    if starts_with_str(&chars, "//") {
        proof {
            reveal_strlit("");
            assert("https:"@ + url@ + ""@ =~= "https:"@ + url@);
        }
        concat3("https:", url, "")
    } else {
        String::from_str(url)
    }
}

/// Extracts the lowered host from a URL; a protocol-relative reference is read
/// as https.
pub fn extract_domain(url: &str) -> (r: Option<String>)
    ensures
        match r {
            Some(d) => domain_of_url(url@) == Some(d@),
            None => domain_of_url(url@) is None,
        },
{
    let full = with_https_scheme(url);
    match parse_url_host(full.as_str()) {
        Some(h) => Some(to_lowercase(h.as_str())),
        None => None,
    }
}

/// `p` is the second-to-last dot of `d`: exactly one dot follows it.
pub open spec fn second_last_dot(d: Seq<char>, p: int) -> bool {
    &&& 0 <= p < d.len()
    &&& d[p] == '.'
    &&& exists|l: int| p < l < d.len() && #[trigger] d[l] == '.' && forall|q: int|
        p < q < d.len() && q != l ==> d[q] != '.'
}

/// The last two dot-separated labels of `d`, or `d` itself when it has fewer.
pub open spec fn base_of(d: Seq<char>) -> Seq<char> {
    if exists|p: int| second_last_dot(d, p) {
        d.skip((choose|p: int| second_last_dot(d, p)) + 1)
    } else {
        d
    }
}

proof fn lemma_second_last_dot_unique(d: Seq<char>, p1: int, p2: int)
    requires
        second_last_dot(d, p1),
        second_last_dot(d, p2),
    ensures
        p1 == p2,
{
    if p1 < p2 {
        let l1 = choose|l: int| p1 < l < d.len() && #[trigger] d[l] == '.' && forall|q: int|
            p1 < q < d.len() && q != l ==> d[q] != '.';
        let l2 = choose|l: int| p2 < l < d.len() && #[trigger] d[l] == '.' && forall|q: int|
            p2 < q < d.len() && q != l ==> d[q] != '.';
        assert(l1 == p2);
        assert(d[l2] == '.');
    }
    if p2 < p1 {
        let l1 = choose|l: int| p1 < l < d.len() && #[trigger] d[l] == '.' && forall|q: int|
            p1 < q < d.len() && q != l ==> d[q] != '.';
        let l2 = choose|l: int| p2 < l < d.len() && #[trigger] d[l] == '.' && forall|q: int|
            p2 < q < d.len() && q != l ==> d[q] != '.';
        assert(l2 == p1);
        assert(d[l1] == '.');
    }
}

/// The base domain of `d` is a tail of `d`: when `d` has two dots or more,
/// the tail after its second-to-last dot, which holds exactly one dot; else
/// all of `d`.
pub proof fn lemma_base_is_last_two_labels(d: Seq<char>)
    ensures
        base_of(d).len() <= d.len(),
        d.skip(d.len() - base_of(d).len()) == base_of(d),
        (exists|p: int, q: int| 0 <= p < q < d.len() && d[p] == '.' && d[q] == '.') ==> {
            &&& base_of(d).len() < d.len()
            &&& d[d.len() - base_of(d).len() - 1] == '.'
            &&& exists|l: int| 0 <= l < base_of(d).len() && base_of(d)[l] == '.' && forall|m: int|
                0 <= m < base_of(d).len() && m != l ==> base_of(d)[m] != '.'
        },
        !(exists|p: int, q: int| 0 <= p < q < d.len() && d[p] == '.' && d[q] == '.') ==> base_of(d) == d,
{
    if exists|p: int| second_last_dot(d, p) {
        let p = choose|p: int| second_last_dot(d, p);
        let b = d.skip(p + 1);
        assert(base_of(d) == b);
        assert(d.skip(d.len() - b.len()) =~= b);
        let l = choose|l: int| p < l < d.len() && #[trigger] d[l] == '.' && forall|q: int|
            p < q < d.len() && q != l ==> d[q] != '.';
        assert(b[l - p - 1] == '.');
        assert forall|m: int| 0 <= m < b.len() && m != l - p - 1 implies b[m] != '.' by {
            assert(b[m] == d[p + 1 + m]);
        }
        assert(exists|p2: int, q2: int| 0 <= p2 < q2 < d.len() && d[p2] == '.' && d[q2] == '.') by {
            assert(d[p] == '.' && d[l] == '.');
        }
    } else {
        assert(d.skip(0) =~= d);
        if exists|p: int, q: int| 0 <= p < q < d.len() && d[p] == '.' && d[q] == '.' {
            let (p0, q0) = choose|p: int, q: int| 0 <= p < q < d.len() && d[p] == '.' && d[q] == '.';
            lemma_second_last_dot_exists(d, p0, q0);
        }
    }
}

/// A dot at `q` is followed by a last dot.
proof fn lemma_last_dot_exists(d: Seq<char>, q: int)
    requires
        0 <= q < d.len(),
        d[q] == '.',
    ensures
        exists|l: int| q <= l < d.len() && d[l] == '.' && forall|m: int| l < m < d.len() ==> d[m] != '.',
    decreases d.len() - q,
{
    if exists|m: int| q < m < d.len() && d[m] == '.' {
        let m = choose|m: int| q < m < d.len() && d[m] == '.';
        lemma_last_dot_exists(d, m);
    } else {
        assert(forall|m: int| q < m < d.len() ==> d[m] != '.');
    }
}

/// A dot at `p` before position `e` is followed by a last dot before `e`.
proof fn lemma_dot_before_exists(d: Seq<char>, p: int, e: int)
    requires
        0 <= p < e <= d.len(),
        d[p] == '.',
    ensures
        exists|x: int| p <= x < e && d[x] == '.' && forall|m: int| x < m < e ==> d[m] != '.',
    decreases e - p,
{
    if exists|m: int| p < m < e && d[m] == '.' {
        let m = choose|m: int| p < m < e && d[m] == '.';
        lemma_dot_before_exists(d, m, e);
    } else {
        assert(forall|m: int| p < m < e ==> d[m] != '.');
    }
}

/// Two dots make a second-to-last dot.
proof fn lemma_second_last_dot_exists(d: Seq<char>, p: int, q: int)
    requires
        0 <= p < q < d.len(),
        d[p] == '.',
        d[q] == '.',
    ensures
        exists|x: int| second_last_dot(d, x),
{
    lemma_last_dot_exists(d, q);
    let l = choose|l: int| q <= l < d.len() && d[l] == '.' && forall|m: int| l < m < d.len() ==> d[m] != '.';
    lemma_dot_before_exists(d, p, l);
    let x = choose|x: int| p <= x < l && d[x] == '.' && forall|m: int| x < m < l ==> d[m] != '.';
    assert(second_last_dot(d, x)) by {
        assert(d[l] == '.');
        assert forall|m: int| x < m < d.len() && m != l implies d[m] != '.' by {}
    }
}

/// The base domain as characters.
fn base_chars(d: &Vec<char>) -> (r: Vec<char>)
    ensures
        r@ == base_of(d@),
{
    match last_dot(d) {
        None => {
            assert(!exists|p: int| second_last_dot(d@, p));
            slice_chars(d, 0, d.len())
        },
        Some(l) => {
            let mut i = l;
            while i > 0
                invariant
                    i <= l < d@.len(),
                    d@[l as int] == '.',
                    forall|q: int| l < q < d@.len() ==> d@[q] != '.',
                    forall|q: int| i <= q < l ==> d@[q] != '.',
                decreases i,
            {
                if d[i - 1] == '.' {
                    let p = i - 1;
                    assert(second_last_dot(d@, p as int)) by {
                        assert(d@[l as int] == '.');
                    }
                    proof {
                        let c = choose|c: int| second_last_dot(d@, c);
                        lemma_second_last_dot_unique(d@, p as int, c);
                    }
                    let r = slice_chars(d, i, d.len());
                    assert(r@ =~= d@.skip(p + 1));
                    return r;
                }
                i -= 1;
            }
            assert(!exists|p: int| second_last_dot(d@, p)) by {
                if exists|p: int| second_last_dot(d@, p) {
                    let p = choose|p: int| second_last_dot(d@, p);
                    let l2 = choose|l2: int| p < l2 < d@.len() && #[trigger] d@[l2] == '.' && forall|q: int|
                        p < q < d@.len() && q != l2 ==> d@[q] != '.';
                    if p < l {
                        assert(l2 == l);
                    } else {
                        assert(d@[l2] == '.');
                    }
                }
            }
            slice_chars(d, 0, d.len())
        },
    }
}

/// The base domain of a domain: its last two dot-separated labels, or the
/// domain itself when it has fewer.
pub fn base_domain(domain: &str) -> (r: String)
    ensures
        r@ == base_of(domain@),
{
    let d = chars_of(domain);
    let b = base_chars(&d);
    proof {
        assert(d@.subrange(0, d@.len() as int) =~= d@);
    }
    string_of(&b)
}

/// What scraper gives for this page, CSS selector and attribute name: `None`
/// when the selector does not parse; else, for each element that the selector
/// matches in the document parsed by `Html::parse_document`, in the order
/// `Html::select` yields them (the order of scraper's node tree), the
/// element's value of the attribute if it has one.
pub uninterp spec fn html_attr_values(html: Seq<char>, selector: Seq<char>, attr: Seq<char>) -> Option<
    Seq<Option<Seq<char>>>,
>;

/// The views of optional strings.
pub open spec fn opt_views(v: Seq<Option<String>>) -> Seq<Option<Seq<char>>> {
    v.map_values(|o: Option<String>| match o {
        Some(s) => Some(s@),
        None => None,
    })
}

/// Parses `html` with `scraper::Html::parse_document`, parses `selector` with
/// `scraper::Selector::parse`, and reads `attr` of each selected element with
/// `ElementRef::value().attr`. Claimed: the result is the named outcome of
/// these calls on these arguments.
#[verifier::external_body]
fn select_attr_values(html: &str, selector: &str, attr: &str) -> (r: Option<Vec<Option<String>>>)
    ensures
        match r {
            Some(v) => html_attr_values(html@, selector@, attr@) == Some(opt_views(v@)),
            None => html_attr_values(html@, selector@, attr@) is None,
        },
{
    let document = scraper::Html::parse_document(html);
    let sel = match scraper::Selector::parse(selector) {
        Ok(sel) => sel,
        Err(_) => return None,
    };
    Some(document.select(&sel).map(|e| e.value().attr(attr).map(|v| v.to_string())).collect())
}

/// The elements and attributes that load external resources, in the order
/// they are searched.
pub open spec fn resource_selectors() -> Seq<(Seq<char>, Seq<char>)> {
    seq![
        ("script[src]"@, "src"@),
        ("img[src]"@, "src"@),
        ("iframe[src]"@, "src"@),
        ("link[href]"@, "href"@),
        ("source[src]"@, "src"@),
        ("video[src]"@, "src"@),
        ("audio[src]"@, "src"@),
    ]
}

/// The attribute values found in `html` for the `k`-th resource selector (none
/// when the selector does not parse).
pub open spec fn resource_values(html: Seq<char>, k: int) -> Seq<Option<Seq<char>>> {
    match html_attr_values(html, resource_selectors()[k].0, resource_selectors()[k].1) {
        Some(vs) => vs,
        None => seq![],
    }
}

/// The `j`-th value found for the `k`-th selector names the third-party domain
/// `d`: a non-empty host whose base domain differs from the page's.
pub open spec fn third_party_hit(html: Seq<char>, page_base: Seq<char>, k: int, j: int, d: Seq<char>) -> bool {
    &&& 0 <= k < 7
    &&& 0 <= j < resource_values(html, k).len()
    &&& resource_values(html, k)[j] matches Some(v)
    &&& domain_of_url(v) == Some(d)
    &&& base_of(d) != page_base
    &&& d.len() > 0
}

/// `d` is a domain some resource of the page is loaded from, other than the page's own.
pub open spec fn is_third_party(html: Seq<char>, page_base: Seq<char>, d: Seq<char>) -> bool {
    exists|k: int, j: int| #[trigger] third_party_hit(html, page_base, k, j, d)
}

/// Found before position (`k`, `j`) of the search.
pub open spec fn hit_before(html: Seq<char>, page_base: Seq<char>, k: int, j: int, d: Seq<char>) -> bool {
    exists|k2: int, j2: int|
        (k2 < k || (k2 == k && j2 < j)) && #[trigger] third_party_hit(html, page_base, k2, j2, d)
}

/// The views of a list of strings.
pub open spec fn string_views(v: Seq<String>) -> Seq<Seq<char>> {
    v.map_values(|s: String| s@)
}

/// Adds `d` to `set` unless it is there already.
pub fn insert_unique(set: &mut Vec<String>, d: String)
    requires
        string_views(old(set)@).no_duplicates(),
    ensures
        string_views(final(set)@).no_duplicates(),
        string_views(final(set)@).to_set() == string_views(old(set)@).to_set().insert(d@),
{
    let mut i: usize = 0;
    while i < set.len()
        invariant
            i <= set@.len(),
            string_views(set@).no_duplicates(),
            forall|k: int| 0 <= k < i ==> set@[k]@ != d@,
        decreases set.len() - i,
    {
        if set[i] == d {
            assert(string_views(set@)[i as int] == d@);
            assert(string_views(set@).to_set() =~= string_views(set@).to_set().insert(d@));
            return;
        }
        i += 1;
    }
    let ghost before = string_views(set@);
    let ghost dv = d@;
    set.push(d);
    assert(string_views(set@) =~= before.push(dv));
    assert forall|a: Seq<char>| #[trigger] before.push(dv).to_set().contains(a) == before.to_set().insert(dv).contains(a) by {
        if before.push(dv).contains(a) {
            let k = choose|k: int| 0 <= k < before.push(dv).len() && before.push(dv)[k] == a;
            if k < before.len() {
                assert(before[k] == a);
            }
        }
        if before.contains(a) {
            let k = choose|k: int| 0 <= k < before.len() && before[k] == a;
            assert(before.push(dv)[k] == a);
        }
        if a == dv {
            assert(before.push(dv)[before.len() as int] == a);
        }
    }
    assert(before.push(dv).to_set() =~= before.to_set().insert(dv));
}

/// A host found on a page counts as third-party: it is not empty and its base
/// domain differs from the page's.
pub fn third_party_host(domain: &str, page_base_domain: &str) -> (r: bool)
    ensures
        r == (base_of(domain@) != page_base_domain@ && domain@.len() > 0),
{
    let dc = chars_of(domain);
    let base = base_chars(&dc);
    let page_base = chars_of(page_base_domain);
    !crate::text::chars_eq(&base, &page_base) && dc.len() > 0
}

/// The domains, other than those of the page's own base domain, from which the
/// page loads scripts, images, frames, stylesheets and media; each once.
pub fn extract_third_party_domains(html: &str, page_base_domain: &str) -> (r: Vec<String>)
    ensures
        string_views(r@).no_duplicates(),
        forall|d: Seq<char>| #[trigger] string_views(r@).contains(d) <==> is_third_party(html@, page_base_domain@, d),
{
    let selectors: Vec<(&'static str, &'static str)> = vec![
        ("script[src]", "src"),
        ("img[src]", "src"),
        ("iframe[src]", "src"),
        ("link[href]", "href"),
        ("source[src]", "src"),
        ("video[src]", "src"),
        ("audio[src]", "src"),
    ];
    assert(selectors@.map_values(|p: (&'static str, &'static str)| (p.0@, p.1@)) =~= resource_selectors());
    let mut domains: Vec<String> = Vec::new();
    let mut k: usize = 0;
    while k < selectors.len()
        invariant
            k <= 7,
            selectors@.len() == 7,
            selectors@.map_values(|p: (&'static str, &'static str)| (p.0@, p.1@)) == resource_selectors(),
            string_views(domains@).no_duplicates(),
            forall|d: Seq<char>| #[trigger] string_views(domains@).contains(d) <==> hit_before(html@, page_base_domain@, k as int, 0, d),
        decreases 7 - k,
    {
        let (sel, attr) = selectors[k];
        assert(sel@ == resource_selectors()[k as int].0 && attr@ == resource_selectors()[k as int].1);
        let found = select_attr_values(html, sel, attr);
        let values: Vec<Option<String>> = match found {
            Some(v) => v,
            None => Vec::new(),
        };
        assert(opt_views(values@) =~= resource_values(html@, k as int));
        let mut j: usize = 0;
        while j < values.len()
            invariant
                k < 7,
                j <= values@.len(),
                opt_views(values@) == resource_values(html@, k as int),
                    string_views(domains@).no_duplicates(),
                forall|d: Seq<char>| #[trigger] string_views(domains@).contains(d) <==> hit_before(html@, page_base_domain@, k as int, j as int, d),
            decreases values.len() - j,
        {
            let ghost before = string_views(domains@);
            let mut added = false;
            if let Some(v) = &values[j] {
                assert(resource_values(html@, k as int)[j as int] == Some(v@));
                if let Some(domain) = extract_domain(v.as_str()) {
                    if third_party_host(domain.as_str(), page_base_domain) {
                        let ghost dv = domain@;
                        assert(third_party_hit(html@, page_base_domain@, k as int, j as int, dv));
                        insert_unique(&mut domains, domain);
                        added = true;
                        proof {
                            assert forall|d: Seq<char>| #[trigger] string_views(domains@).contains(d) <==> hit_before(html@, page_base_domain@, k as int, j + 1, d) by {
                                assert(string_views(domains@).to_set().contains(d) == string_views(domains@).contains(d));
                                assert(before.to_set().contains(d) == before.contains(d));
                                if hit_before(html@, page_base_domain@, k as int, j + 1, d) && d != dv {
                                    let (k2, j2) = choose|k2: int, j2: int| (k2 < k || (k2 == k && j2 < j + 1)) && #[trigger] third_party_hit(html@, page_base_domain@, k2, j2, d);
                                    if k2 == k && j2 == j {
                                        assert(resource_values(html@, k as int)[j as int] == Some(v@));
                                    }
                                    assert(hit_before(html@, page_base_domain@, k as int, j as int, d));
                                }
                                if d == dv {
                                    assert(hit_before(html@, page_base_domain@, k as int, j + 1, d));
                                }
                            }
                        }
                    }
                }
            }
            if !added {
                proof {
                    assert forall|d: Seq<char>| #[trigger] string_views(domains@).contains(d) <==> hit_before(html@, page_base_domain@, k as int, j + 1, d) by {
                        if hit_before(html@, page_base_domain@, k as int, j + 1, d) {
                            let (k2, j2) = choose|k2: int, j2: int| (k2 < k || (k2 == k && j2 < j + 1)) && #[trigger] third_party_hit(html@, page_base_domain@, k2, j2, d);
                            if k2 == k && j2 == j {
                                assert(false);
                            }
                            assert(hit_before(html@, page_base_domain@, k as int, j as int, d));
                        }
                    }
                }
            }
            j += 1;
        }
        proof {
            assert forall|d: Seq<char>| #[trigger] string_views(domains@).contains(d) <==> hit_before(html@, page_base_domain@, k + 1, 0, d) by {
                if hit_before(html@, page_base_domain@, k + 1, 0, d) {
                    let (k2, j2) = choose|k2: int, j2: int| (k2 < k + 1 || (k2 == k + 1 && j2 < 0)) && #[trigger] third_party_hit(html@, page_base_domain@, k2, j2, d);
                    assert(hit_before(html@, page_base_domain@, k as int, values@.len() as int, d));
                }
                if hit_before(html@, page_base_domain@, k as int, values@.len() as int, d) {
                    let (k2, j2) = choose|k2: int, j2: int| (k2 < k || (k2 == k && j2 < values@.len())) && #[trigger] third_party_hit(html@, page_base_domain@, k2, j2, d);
                    assert(hit_before(html@, page_base_domain@, k + 1, 0, d));
                }
            }
        }
        k += 1;
    }
    proof {
        assert forall|d: Seq<char>| #[trigger] string_views(domains@).contains(d) <==> is_third_party(html@, page_base_domain@, d) by {
            if is_third_party(html@, page_base_domain@, d) {
                let (k2, j2) = choose|k2: int, j2: int| #[trigger] third_party_hit(html@, page_base_domain@, k2, j2, d);
                assert(hit_before(html@, page_base_domain@, 7, 0, d));
            }
            if hit_before(html@, page_base_domain@, 7, 0, d) {
                let (k2, j2) = choose|k2: int, j2: int| (k2 < 7 || (k2 == 7 && j2 < 0)) && #[trigger] third_party_hit(html@, page_base_domain@, k2, j2, d);
                assert(is_third_party(html@, page_base_domain@, d));
            }
        }
    }
    domains
}

/// The attribute that loads a resource for a selector: `src` of scripts,
/// images, frames, sources, videos and audio, `href` of links.
pub open spec fn loads_resource(sel: Seq<char>, attr: Seq<char>) -> bool {
    ||| sel == "script[src]"@ && attr == "src"@
    ||| sel == "img[src]"@ && attr == "src"@
    ||| sel == "iframe[src]"@ && attr == "src"@
    ||| sel == "link[href]"@ && attr == "href"@
    ||| sel == "source[src]"@ && attr == "src"@
    ||| sel == "video[src]"@ && attr == "src"@
    ||| sel == "audio[src]"@ && attr == "src"@
}

/// The page's third-party domains are exactly the hosts that resources are
/// loaded from: for the `src` of every script, image, frame, source, video
/// and audio element and the `href` of every link element, a non-empty host
/// whose base domain differs from the page's is one of them, and each of them
/// is such a host.
pub proof fn lemma_third_party_hosts(html: Seq<char>, page_base: Seq<char>, d: Seq<char>)
    ensures
        is_third_party(html, page_base, d) <==> exists|sel: Seq<char>, attr: Seq<char>, vs: Seq<Option<Seq<char>>>, j: int, v: Seq<char>|
            #![trigger html_attr_values(html, sel, attr), vs[j], domain_of_url(v)]
            loads_resource(sel, attr) && html_attr_values(html, sel, attr) == Some(vs) && 0 <= j < vs.len() && vs[j]
                == Some(v) && domain_of_url(v) == Some(d) && base_of(d) != page_base && d.len() > 0,
{
    let rs = resource_selectors();
    if is_third_party(html, page_base, d) {
        let (k, j) = choose|k: int, j: int| #[trigger] third_party_hit(html, page_base, k, j, d);
        let (sel, attr) = rs[k];
        assert(loads_resource(sel, attr));
        let vs = html_attr_values(html, sel, attr)->Some_0;
        let v = resource_values(html, k)[j]->Some_0;
        assert(html_attr_values(html, sel, attr) == Some(vs) && vs[j] == Some(v));
    }
    if exists|sel: Seq<char>, attr: Seq<char>, vs: Seq<Option<Seq<char>>>, j: int, v: Seq<char>|
        #![trigger html_attr_values(html, sel, attr), vs[j], domain_of_url(v)]
        loads_resource(sel, attr) && html_attr_values(html, sel, attr) == Some(vs) && 0 <= j < vs.len() && vs[j]
            == Some(v) && domain_of_url(v) == Some(d) && base_of(d) != page_base && d.len() > 0 {
        let (sel, attr, vs, j, v) = choose|sel: Seq<char>, attr: Seq<char>, vs: Seq<Option<Seq<char>>>, j: int, v: Seq<char>|
            #![trigger html_attr_values(html, sel, attr), vs[j], domain_of_url(v)]
            loads_resource(sel, attr) && html_attr_values(html, sel, attr) == Some(vs) && 0 <= j < vs.len() && vs[j]
                == Some(v) && domain_of_url(v) == Some(d) && base_of(d) != page_base && d.len() > 0;
        let k: int = if sel == "script[src]"@ && attr == "src"@ {
            0
        } else if sel == "img[src]"@ && attr == "src"@ {
            1
        } else if sel == "iframe[src]"@ && attr == "src"@ {
            2
        } else if sel == "link[href]"@ && attr == "href"@ {
            3
        } else if sel == "source[src]"@ && attr == "src"@ {
            4
        } else if sel == "video[src]"@ && attr == "src"@ {
            5
        } else {
            6
        };
        assert(rs[k] == (sel, attr));
        assert(resource_values(html, k) == vs);
        assert(third_party_hit(html, page_base, k, j, d));
    }
}

} // verus!
