//! The HTTP requests that the player sends.
use vstd::prelude::*;

use crate::text;

verus! {

// ---------------------------------------------------------------------------------------------
// Requests of the HTTP client
// ---------------------------------------------------------------------------------------------

/// A request that the HTTP client can send.
#[verifier::external_type_specification]
#[verifier::external_body]
pub struct ExRequest(ureq::Request);

/// The headers of a request, each a name and a value, in the order in which they were set.
pub uninterp spec fn request_headers(req: ureq::Request) -> Seq<(Seq<char>, Seq<char>)>;

/// The method and the address that a request was made with.
pub uninterp spec fn request_line(req: ureq::Request) -> (Seq<char>, Seq<char>);

/// The limits that a request was made with: how many seconds it may take to connect, and how many
/// to read.
pub uninterp spec fn request_limits(req: ureq::Request) -> (Option<u64>, Option<u64>);

/// The headers `headers` once the header `name` was set to `value`: what stood under that name is
/// gone, unless the name begins with `x-`, and the new one stands last.
pub open spec fn with_header(
    headers: Seq<(Seq<char>, Seq<char>)>,
    name: Seq<char>,
    value: Seq<char>,
) -> Seq<(Seq<char>, Seq<char>)> {
    if "x-"@.is_prefix_of(name) || "X-"@.is_prefix_of(name) {
        headers.push((name, value))
    } else {
        headers.filter(|h: (Seq<char>, Seq<char>)| h.0 != name).push((name, value))
    }
}

/// `ureq::AgentBuilder::new`, `timeout_connect`, `timeout_read` and `build`, and `ureq::Agent::get`:
/// a request with the method `GET`, the address as it was given and no header, which may take so
/// many seconds to connect and to read. Nothing is sent.
#[verifier::external_body]
fn get_within(url: &str, connect_secs: u64, read_secs: u64) -> (req: ureq::Request)
    ensures
        request_line(req) == ("GET"@, url@),
        request_headers(req) == Seq::<(Seq<char>, Seq<char>)>::empty(),
        request_limits(req) == (Some(connect_secs), Some(read_secs)),
{
    ureq::AgentBuilder::new()
        .timeout_connect(std::time::Duration::from_secs(connect_secs))
        .timeout_read(std::time::Duration::from_secs(read_secs))
        .build()
        .get(url)
}

/// `ureq::get`: a request with the method `GET`, the address as it was given and no header. The
/// client's own limits apply: thirty seconds to connect, none to read. Nothing is sent.
#[verifier::external_body]
fn plain_get(url: &str) -> (req: ureq::Request)
    ensures
        request_line(req) == ("GET"@, url@),
        request_headers(req) == Seq::<(Seq<char>, Seq<char>)>::empty(),
        request_limits(req) == (Some(30u64), None::<u64>),
{
    ureq::get(url)
}

/// `ureq::Request::set`: sets a header and leaves the rest of the request as it is.
#[verifier::external_body]
fn set_header(req: ureq::Request, name: &str, value: &str) -> (r: ureq::Request)
    ensures
        request_headers(r) == with_header(request_headers(req), name@, value@),
        request_line(r) == request_line(req),
        request_limits(r) == request_limits(req),
{
    req.set(name, value)
}

// ---------------------------------------------------------------------------------------------
// What is sent to which server
// ---------------------------------------------------------------------------------------------

/// The browser that the player gives itself out for.
pub const USER_AGENT: &'static str = "Mozilla/5.0 (Windows NT 10.0; Win64; x64) AppleWebKit/537.36 (KHTML, like Gecko) Chrome/120.0.0.0 Safari/537.36";

/// The headers that every request carries.
pub open spec fn browser_headers() -> Seq<(Seq<char>, Seq<char>)> {
    seq![
        ("User-Agent"@, USER_AGENT@),
        ("Accept"@, "*/*"@),
        ("Accept-Language"@, "en-US,en;q=0.9"@),
        ("Sec-Fetch-Dest"@, "video"@),
        ("Sec-Fetch-Mode"@, "no-cors"@),
        ("Sec-Fetch-Site"@, "cross-site"@),
        (
            "Sec-Ch-Ua"@,
            "\"Chromium\";v=\"124\", \"Google Chrome\";v=\"124\", \"Not-A.Brand\";v=\"99\""@,
        ),
        ("Sec-Ch-Ua-Mobile"@, "?0"@),
        ("Sec-Ch-Ua-Platform"@, "\"Windows\""@),
    ]
}

/// The headers that the servers of some sites ask for besides.
pub open spec fn site_headers(url: Seq<char>) -> Seq<(Seq<char>, Seq<char>)> {
    if text::has(url, "gelbooru.com"@) {
        seq![("Referer"@, "https://gelbooru.com/"@)]
    } else if text::has(url, "donmai.us"@) {
        seq![("Referer"@, "https://danbooru.donmai.us/"@)]
    } else if text::has(url, "rule34.xxx"@) {
        seq![("Referer"@, "https://rule34.xxx/"@)]
    } else if text::has(url, "uptobox-ggcdn.top"@) || text::has(url, "lh3-ggcontent.top"@) {
        seq![
            ("Referer"@, "https://play2.cdn-xvideos-xnxx.xyz/"@),
            ("Origin"@, "https://play2.cdn-xvideos-xnxx.xyz"@),
        ]
    } else {
        Seq::empty()
    }
}

/// The headers of a request for the address.
pub open spec fn headers_for(url: Seq<char>) -> Seq<(Seq<char>, Seq<char>)> {
    browser_headers() + site_headers(url)
}

/// The views of a row of headers.
pub open spec fn header_views(v: Seq<(&'static str, &'static str)>) -> Seq<(Seq<char>, Seq<char>)> {
    v.map_values(|h: (&'static str, &'static str)| (h.0@, h.1@))
}

/// The headers that a request for the address carries.
pub fn request_headers_for(url: &str) -> (r: Vec<(&'static str, &'static str)>)
    ensures
        header_views(r@) == headers_for(url@),
{
    let cs: Vec<char> = text::chars_of(url);
    let mut r: Vec<(&'static str, &'static str)> = Vec::new();
    r.push(("User-Agent", USER_AGENT));
    r.push(("Accept", "*/*"));
    r.push(("Accept-Language", "en-US,en;q=0.9"));
    r.push(("Sec-Fetch-Dest", "video"));
    r.push(("Sec-Fetch-Mode", "no-cors"));
    r.push(("Sec-Fetch-Site", "cross-site"));
    r.push(
        (
            "Sec-Ch-Ua",
            "\"Chromium\";v=\"124\", \"Google Chrome\";v=\"124\", \"Not-A.Brand\";v=\"99\"",
        ),
    );
    r.push(("Sec-Ch-Ua-Mobile", "?0"));
    r.push(("Sec-Ch-Ua-Platform", "\"Windows\""));
    if text::contains_str(cs.as_slice(), "gelbooru.com") {
        r.push(("Referer", "https://gelbooru.com/"));
    } else if text::contains_str(cs.as_slice(), "donmai.us") {
        r.push(("Referer", "https://danbooru.donmai.us/"));
    } else if text::contains_str(cs.as_slice(), "rule34.xxx") {
        r.push(("Referer", "https://rule34.xxx/"));
    } else if text::contains_str(cs.as_slice(), "uptobox-ggcdn.top") || text::contains_str(
        cs.as_slice(),
        "lh3-ggcontent.top",
    ) {
        r.push(("Referer", "https://play2.cdn-xvideos-xnxx.xyz/"));
        r.push(("Origin", "https://play2.cdn-xvideos-xnxx.xyz"));
    }
    assert(header_views(r@) =~= headers_for(url@));
    r
}

proof fn lemma_filter_keeps_all(
    headers: Seq<(Seq<char>, Seq<char>)>,
    keep: spec_fn((Seq<char>, Seq<char>)) -> bool,
)
    requires
        forall|i: int| 0 <= i < headers.len() ==> #[trigger] keep(headers[i]),
    ensures
        headers.filter(keep) == headers,
    decreases headers.len(),
{
    reveal(Seq::filter);
    if headers.len() > 0 {
        lemma_filter_keeps_all(headers.drop_last(), keep);
        assert(headers.drop_last().push(headers.last()) =~= headers);
    }
}

/// No header is set twice in a request.
pub proof fn law_header_names_are_distinct(url: Seq<char>, i: int, j: int)
    requires
        0 <= i < j < headers_for(url).len(),
    ensures
        headers_for(url)[i].0 != headers_for(url)[j].0,
{
    reveal_strlit("User-Agent");
    reveal_strlit("Accept");
    reveal_strlit("Accept-Language");
    reveal_strlit("Sec-Fetch-Dest");
    reveal_strlit("Sec-Fetch-Mode");
    reveal_strlit("Sec-Fetch-Site");
    reveal_strlit("Sec-Ch-Ua");
    reveal_strlit("Sec-Ch-Ua-Mobile");
    reveal_strlit("Sec-Ch-Ua-Platform");
    reveal_strlit("Referer");
    reveal_strlit("Origin");
    let names = seq![
        "User-Agent"@,
        "Accept"@,
        "Accept-Language"@,
        "Sec-Fetch-Dest"@,
        "Sec-Fetch-Mode"@,
        "Sec-Fetch-Site"@,
        "Sec-Ch-Ua"@,
        "Sec-Ch-Ua-Mobile"@,
        "Sec-Ch-Ua-Platform"@,
        "Referer"@,
        "Origin"@,
    ];
    assert(headers_for(url)[i].0 == names[i]);
    assert(headers_for(url)[j].0 == names[j]);
    assert("Sec-Fetch-Dest"@[10] == 'D' && "Sec-Fetch-Mode"@[10] == 'M' && "Sec-Fetch-Site"@[10]
        == 'S');
    assert("Accept"@[0] == 'A' && "Origin"@[0] == 'O');
}

/// The request for an address, with the headers of a browser and the `Referer` that the server of
/// the address asks for.
pub fn build_request(url: &str) -> (req: ureq::Request)
    ensures
        request_line(req) == ("GET"@, url@),
        request_headers(req) == headers_for(url@),
        request_limits(req) == (Some(10u64), Some(30u64)),
{
    let headers: Vec<(&'static str, &'static str)> = request_headers_for(url);
    let ghost all = headers_for(url@);
    let mut req: ureq::Request = get_within(url, 10, 30);
    let mut i: usize = 0;
    assert(all.take(0) =~= Seq::empty());
    while i < headers.len()
        invariant
            i <= headers@.len(),
            header_views(headers@) == all,
            all == headers_for(url@),
            request_line(req) == ("GET"@, url@),
            request_headers(req) == all.take(i as int),
            request_limits(req) == (Some(10u64), Some(30u64)),
        decreases headers@.len() - i,
    {
        let h: (&'static str, &'static str) = headers[i];
        proof {
            assert(all[i as int] == (h.0@, h.1@));
            let set = all.take(i as int);
            let keep = |p: (Seq<char>, Seq<char>)| p.0 != h.0@;
            assert forall|k: int| 0 <= k < set.len() implies #[trigger] keep(set[k]) by {
                law_header_names_are_distinct(url@, k, i as int);
            }
            lemma_filter_keeps_all(set, keep);
            assert(all.take(i + 1) =~= set.push(all[i as int]));
        }
        req = set_header(req, h.0, h.1);
        i = i + 1;
    }
    assert(all.take(i as int) =~= all);
    req
}

/// The request for the initialisation segment of a rendition that is streamed.
pub fn build_init_request(url: &str) -> (req: ureq::Request)
    ensures
        request_line(req) == ("GET"@, url@),
        request_headers(req) == seq![("User-Agent"@, USER_AGENT@)],
        request_limits(req) == (Some(30u64), None::<u64>),
{
    let req: ureq::Request = set_header(plain_get(url), "User-Agent", USER_AGENT);
    proof {
        let none = Seq::<(Seq<char>, Seq<char>)>::empty();
        lemma_filter_keeps_all(none, |p: (Seq<char>, Seq<char>)| p.0 != "User-Agent"@);
        assert(none.push(("User-Agent"@, USER_AGENT@)) =~= seq![("User-Agent"@, USER_AGENT@)]);
    }
    req
}

// ---------------------------------------------------------------------------------------------
// What a request owes its address
// ---------------------------------------------------------------------------------------------

/// A header that is set stands last with its value, and every header with another name stays as it
/// is. Where its name is not that of an extension, an earlier one of the same name is gone.
pub proof fn law_set_header_counts(
    headers: Seq<(Seq<char>, Seq<char>)>,
    name: Seq<char>,
    value: Seq<char>,
    other: (Seq<char>, Seq<char>),
)
    ensures
        with_header(headers, name, value).last() == (name, value),
        other.0 != name ==> (with_header(headers, name, value).contains(other)
            <==> headers.contains(other)),
        !"x-"@.is_prefix_of(name) && !"X-"@.is_prefix_of(name) && other.0 == name && other.1
            != value ==> !with_header(headers, name, value).contains(other),
        "x-"@.is_prefix_of(name) || "X-"@.is_prefix_of(name) ==> with_header(
            headers,
            name,
            value,
        ).drop_last() == headers,
{
    assert forall|keep: spec_fn((Seq<char>, Seq<char>)) -> bool|
        #[trigger] headers.filter(keep).contains(other) <==> headers.contains(other) && keep(
            other,
        ) by {
        lemma_filter_members(headers, keep, other);
    }
    assert forall|front: Seq<(Seq<char>, Seq<char>)>|
        #[trigger] front.push((name, value)).contains(other) <==> front.contains(other) || other == (
        name,
        value,
    ) by {
        lemma_push_members(front, (name, value), other);
    }
    if "x-"@.is_prefix_of(name) || "X-"@.is_prefix_of(name) {
        assert(with_header(headers, name, value).drop_last() =~= headers);
    }
}

proof fn lemma_push_members(
    headers: Seq<(Seq<char>, Seq<char>)>,
    last: (Seq<char>, Seq<char>),
    h: (Seq<char>, Seq<char>),
)
    ensures
        headers.push(last).contains(h) <==> headers.contains(h) || h == last,
{
    let all = headers.push(last);
    if all.contains(h) {
        let k = choose|k: int| 0 <= k < all.len() && all[k] == h;
        if k < headers.len() {
            assert(headers[k] == h);
        }
    }
    if headers.contains(h) {
        let k = choose|k: int| 0 <= k < headers.len() && headers[k] == h;
        assert(all[k] == h);
    }
    if h == last {
        assert(all[headers.len() as int] == h);
    }
}

proof fn lemma_filter_members(
    headers: Seq<(Seq<char>, Seq<char>)>,
    keep: spec_fn((Seq<char>, Seq<char>)) -> bool,
    h: (Seq<char>, Seq<char>),
)
    ensures
        headers.filter(keep).contains(h) <==> headers.contains(h) && keep(h),
    decreases headers.len(),
{
    reveal(Seq::filter);
    if headers.len() > 0 {
        let before = headers.drop_last();
        lemma_filter_members(before, keep, h);
        lemma_push_members(before, headers.last(), h);
        lemma_push_members(before.filter(keep), headers.last(), h);
        assert(before.push(headers.last()) =~= headers);
    }
}

/// Every request begins with the headers of a browser, whatever its address, and what stands behind
/// them is up to the site.
pub proof fn law_every_request_is_that_of_a_browser(url: Seq<char>, other: Seq<char>)
    ensures
        headers_for(url).take(9) == headers_for(other).take(9),
        headers_for(url)[0] == ("User-Agent"@, USER_AGENT@),
        headers_for(url).skip(9) == site_headers(url),
        forall|i: int|
            9 <= i < headers_for(url).len() ==> (#[trigger] headers_for(url)[i]).0 == "Referer"@
                || headers_for(url)[i].0 == "Origin"@,
{
    assert(headers_for(url).take(9) =~= browser_headers());
    assert(headers_for(other).take(9) =~= browser_headers());
    assert(headers_for(url).skip(9) =~= site_headers(url));
}

/// A site that asks for it gets its own page as the one that the request comes from, wherever in the
/// address its name stands, and an address that names no such site gets none. Of several sites in one
/// address the first of the list counts.
pub proof fn law_site_gets_its_page(a: Seq<char>, b: Seq<char>)
    ensures
        site_headers(a + "gelbooru.com"@ + b) == seq![("Referer"@, "https://gelbooru.com/"@)],
        ({
            let url = a + "donmai.us"@ + b;
            !text::has(url, "gelbooru.com"@) ==> site_headers(url) == seq![
                ("Referer"@, "https://danbooru.donmai.us/"@),
            ]
        }),
        ({
            let url = a + "rule34.xxx"@ + b;
            !text::has(url, "gelbooru.com"@) && !text::has(url, "donmai.us"@) ==> site_headers(url)
                == seq![("Referer"@, "https://rule34.xxx/"@)]
        }),
        ({
            let url = a + "uptobox-ggcdn.top"@ + b;
            let same = a + "lh3-ggcontent.top"@ + b;
            &&& !text::has(url, "gelbooru.com"@) && !text::has(url, "donmai.us"@) && !text::has(
                url,
                "rule34.xxx"@,
            ) ==> site_headers(url).len() == 2
            &&& !text::has(same, "gelbooru.com"@) && !text::has(same, "donmai.us"@) && !text::has(
                same,
                "rule34.xxx"@,
            ) ==> site_headers(same).len() == 2
        }),
        site_headers(a).len() > 0 ==> text::has(a, "gelbooru.com"@) || text::has(a, "donmai.us"@)
            || text::has(a, "rule34.xxx"@) || text::has(a, "uptobox-ggcdn.top"@) || text::has(
            a,
            "lh3-ggcontent.top"@,
        ),
{
    text::law_pattern_is_found_anywhere(a, "gelbooru.com"@, b);
    text::law_pattern_is_found_anywhere(a, "donmai.us"@, b);
    text::law_pattern_is_found_anywhere(a, "rule34.xxx"@, b);
    text::law_pattern_is_found_anywhere(a, "uptobox-ggcdn.top"@, b);
    text::law_pattern_is_found_anywhere(a, "lh3-ggcontent.top"@, b);
}

/// A request that names where it comes from names the page and its origin, which is the page without
/// the slash at its end.
pub proof fn law_origin_is_that_of_the_page(url: Seq<char>)
    requires
        site_headers(url).len() == 2,
    ensures
        site_headers(url)[0].0 == "Referer"@,
        site_headers(url)[1].0 == "Origin"@,
        site_headers(url)[0].1 == site_headers(url)[1].1 + seq!['/'],
        site_headers(url)[0].1 == "https://play2.cdn-xvideos-xnxx.xyz/"@,
{
    reveal_strlit("https://play2.cdn-xvideos-xnxx.xyz/");
    reveal_strlit("https://play2.cdn-xvideos-xnxx.xyz");
    assert("https://play2.cdn-xvideos-xnxx.xyz/"@ =~= "https://play2.cdn-xvideos-xnxx.xyz"@ + seq![
        '/',
    ]);
}

/// What is shown of a row of headers is every name with its value.
pub proof fn law_headers_are_shown_as_they_are(v: Seq<(&'static str, &'static str)>, i: int)
    ensures
        header_views(v).len() == v.len(),
        0 <= i < v.len() ==> header_views(v)[i] == (v[i].0@, v[i].1@),
{
}

/// Whatever the address, a request says that it comes from a browser on a desktop which takes any
/// content, prefers English, and fetches a video for a page of another site.
pub proof fn law_every_request_names_its_browser(url: Seq<char>)
    ensures
        headers_for(url).contains(
            (
                "User-Agent"@,
                "Mozilla/5.0 (Windows NT 10.0; Win64; x64) AppleWebKit/537.36 (KHTML, like Gecko) Chrome/120.0.0.0 Safari/537.36"@,
            ),
        ),
        headers_for(url).contains(("Accept"@, "*/*"@)),
        headers_for(url).contains(("Accept-Language"@, "en-US,en;q=0.9"@)),
        headers_for(url).contains(("Sec-Fetch-Dest"@, "video"@)),
        headers_for(url).contains(("Sec-Fetch-Mode"@, "no-cors"@)),
        headers_for(url).contains(("Sec-Fetch-Site"@, "cross-site"@)),
        headers_for(url).contains(
            (
                "Sec-Ch-Ua"@,
                "\"Chromium\";v=\"124\", \"Google Chrome\";v=\"124\", \"Not-A.Brand\";v=\"99\""@,
            ),
        ),
        headers_for(url).contains(("Sec-Ch-Ua-Mobile"@, "?0"@)),
        headers_for(url).contains(("Sec-Ch-Ua-Platform"@, "\"Windows\""@)),
{
    let all = headers_for(url);
    assert forall|i: int| 0 <= i < 9 implies all.contains(#[trigger] browser_headers()[i]) by {
        assert(all[i] == browser_headers()[i]);
    }
    assert(all.contains(browser_headers()[0]) && all.contains(browser_headers()[1]) && all.contains(
        browser_headers()[2],
    ) && all.contains(browser_headers()[3]) && all.contains(browser_headers()[4]) && all.contains(
        browser_headers()[5],
    ) && all.contains(browser_headers()[6]) && all.contains(browser_headers()[7]) && all.contains(
        browser_headers()[8],
    ));
}

} // verus!
