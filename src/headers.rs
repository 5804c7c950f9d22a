use vstd::prelude::*;
use vstd::multiset::Multiset;
use hyper::header::{HeaderMap, HeaderName, HeaderValue};

verus! {

#[verifier::external_type_specification]
#[verifier::external_body]
#[verifier::reject_recursive_types(T)]
pub struct ExHeaderMap<T>(HeaderMap<T>);

#[verifier::external_type_specification]
#[verifier::external_body]
pub struct ExHeaderName(HeaderName);

#[verifier::external_type_specification]
#[verifier::external_body]
pub struct ExHeaderValue(HeaderValue);

/// The text of a header name.
pub uninterp spec fn name_text(n: HeaderName) -> Seq<char>;

/// The bytes of a header value.
pub uninterp spec fn value_bytes(v: HeaderValue) -> Seq<u8>;

/// What a header map holds: one (name, value) pair per value.
pub uninterp spec fn header_bag(h: HeaderMap) -> Multiset<(Seq<char>, Seq<u8>)>;

/// The values that a header map holds under the name `k`, in the order in
/// which they were appended.
pub uninterp spec fn header_values(h: HeaderMap, k: Seq<char>) -> Seq<Seq<u8>>;

/// The values under the name `k` among the pairs `s`, in order.
pub open spec fn values_named(s: Seq<(Seq<char>, Seq<u8>)>, k: Seq<char>) -> Seq<Seq<u8>>
    decreases s.len(),
{
    if s.len() == 0 {
        Seq::empty()
    } else if s.last().0 == k {
        values_named(s.drop_last(), k).push(s.last().1)
    } else {
        values_named(s.drop_last(), k)
    }
}

/// The plain view of one header.
pub open spec fn entry_view(e: (HeaderName, HeaderValue)) -> (Seq<char>, Seq<u8>) {
    (name_text(e.0), value_bytes(e.1))
}

/// The plain views of a list of headers.
pub open spec fn entry_views(s: Seq<(HeaderName, HeaderValue)>) -> Seq<(Seq<char>, Seq<u8>)> {
    s.map_values(|e: (HeaderName, HeaderValue)| entry_view(e))
}

/// The most headers that a map may hold for `append` to be sure not to
/// outgrow the map's fixed maximum size. This is below what `HeaderMap`
/// itself allows, and far above the 100 headers that hyper's server accepts
/// in one request.
pub const MAX_HEADERS: usize = 4096;

/// [`MAX_HEADERS`] as a number.
pub open spec fn header_room() -> nat {
    MAX_HEADERS as nat
}

/// Relies on `HeaderMap::new`: an empty map.
pub assume_specification[ HeaderMap::new ]() -> (r: HeaderMap)
    ensures
        header_bag(r) =~= Multiset::empty(),
        forall|k: Seq<char>| #[trigger] header_values(r, k) == Seq::<Seq<u8>>::empty(),
;

/// Relies on `HeaderMap::len`: the number of values, over all names.
#[verifier::external_body]
pub(crate) fn header_count(h: &HeaderMap) -> (r: usize)
    ensures
        r == header_bag(*h).len(),
{
    h.len()
}

/// Whether `h` holds few enough headers to be copied and extended.
pub fn has_room(h: &HeaderMap) -> (r: bool)
    ensures
        r == (header_bag(*h).len() < header_room()),
{
    header_count(h) < MAX_HEADERS
}

/// Relies on `HeaderName::as_str`: the name's text.
pub assume_specification[ HeaderName::as_str ](n: &HeaderName) -> (r: &str)
    ensures
        r@ == name_text(*n),
;

/// Relies on the derived `Clone` of `HeaderName`: the same name.
pub assume_specification[ <HeaderName as Clone>::clone ](n: &HeaderName) -> (r: HeaderName)
    ensures
        name_text(r) == name_text(*n),
;

/// Relies on the derived `Clone` of `HeaderValue`: the same bytes.
pub assume_specification[ <HeaderValue as Clone>::clone ](v: &HeaderValue) -> (r: HeaderValue)
    ensures
        value_bytes(r) == value_bytes(*v),
;

/// Whether `c` may stand in a header name given as a literal: a lower-case
/// letter, a digit or a hyphen.
pub open spec fn is_plain_name_char(c: char) -> bool {
    ('a' <= c <= 'z') || ('0' <= c <= '9') || c == '-'
}

/// Relies on `HeaderName::from_static`: a name made of lower-case letters,
/// digits and hyphens is kept as given; an invalid one panics.
pub assume_specification[ HeaderName::from_static ](src: &'static str) -> (r: HeaderName)
    requires
        0 < src@.len() <= 64,
        forall|i: int| 0 <= i < src@.len() ==> is_plain_name_char(#[trigger] src@[i]),
    ensures
        name_text(r) == src@,
;

/// Relies on `HeaderMap::iter`: each (name, value) pair of the map once,
/// cloned; the values of one name come in the order they were appended.
#[verifier::external_body]
pub(crate) fn header_entries(h: &HeaderMap) -> (r: Vec<(HeaderName, HeaderValue)>)
    ensures
        entry_views(r@).to_multiset() == header_bag(*h),
        forall|k: Seq<char>|
            #[trigger] values_named(entry_views(r@), k)
                == header_values(*h, k),
{
    h.iter().map(|(k, v)| (k.clone(), v.clone())).collect()
}

/// Relies on `HeaderMap::append`: the value is added after any values the
/// name already has. The map panics once it outgrows its maximum size.
#[verifier::external_body]
pub(crate) fn append_header(h: &mut HeaderMap, n: HeaderName, v: HeaderValue)
    requires
        header_bag(*old(h)).len() < header_room(),
    ensures
        header_bag(*final(h)) == header_bag(*old(h)).insert((name_text(n), value_bytes(v))),
        header_values(*final(h), name_text(n)) == header_values(*old(h), name_text(n)).push(
            value_bytes(v),
        ),
        forall|k: Seq<char>|
            k != name_text(n) ==> #[trigger] header_values(*final(h), k) == header_values(
                *old(h),
                k,
            ),
{
    h.append(n, v);
}

/// A byte that `HeaderValue::to_str` accepts: visible ASCII or a tab.
pub open spec fn is_visible_ascii(b: u8) -> bool {
    (32 <= b && b < 127) || b == 9
}

/// Whether `t` is the text whose character codes are the bytes `b`, one
/// character per byte. It does not ask the bytes to be visible ASCII.
pub open spec fn is_ascii_text_of(t: Seq<char>, b: Seq<u8>) -> bool {
    t.len() == b.len() && forall|i: int| 0 <= i < b.len() ==> (#[trigger] t[i]) as u32 == b[i] as u32
}

/// Relies on `HeaderValue::to_str`: the value as text when every byte is
/// visible ASCII.
#[verifier::external_body]
pub(crate) fn value_text(v: &HeaderValue) -> (r: Option<&str>)
    ensures
        r is Some <==> forall|i: int|
            0 <= i < value_bytes(*v).len() ==> is_visible_ascii(#[trigger] value_bytes(*v)[i]),
        r matches Some(t) ==> is_ascii_text_of(t@, value_bytes(*v)),
{
    v.to_str().ok()
}

/// Whether every character of `s` is visible ASCII.
pub open spec fn is_visible_text(s: Seq<char>) -> bool {
    forall|i: int| 0 <= i < s.len() ==> 32 <= (#[trigger] s[i]) as u32 && (s[i] as u32) < 127
}

/// Relies on `HeaderValue::from_str`: visible ASCII text is a valid value,
/// whose bytes are the characters' codes.
#[verifier::external_body]
pub(crate) fn value_from_text(s: &str) -> (r: Option<HeaderValue>)
    ensures
        is_visible_text(s@) ==> r is Some,
        r matches Some(v) ==> is_visible_text(s@) ==> is_ascii_text_of(s@, value_bytes(v)),
{
    HeaderValue::from_str(s).ok()
}

/// A character compared without regard to ASCII case.
pub open spec fn fold_ascii(c: char) -> u32 {
    let n = c as u32;
    if 65 <= n <= 90 {
        (n + 32) as u32
    } else {
        n
    }
}

/// Whether `a` and `b` are equal when ASCII letters are compared without case.
pub open spec fn eq_ignore_ascii_case(a: Seq<char>, b: Seq<char>) -> bool {
    a.len() == b.len() && forall|i: int| 0 <= i < a.len() ==> fold_ascii(#[trigger] a[i]) == fold_ascii(b[i])
}

/// Relies on `unicase::eq_ascii`: equality ignoring ASCII case
/// (`str::eq_ignore_ascii_case`).
#[verifier::external_body]
pub(crate) fn same_name(a: &str, b: &str) -> (r: bool)
    ensures
        r == eq_ignore_ascii_case(a@, b@),
{
    unicase::eq_ascii(a, b)
}

/// The hop-by-hop headers, and those that re-framing a request makes stale.
pub open spec fn hop_names() -> Seq<Seq<char>> {
    seq![
        "authorization"@,
        "connection"@,
        "accept-encoding"@,
        "content-length"@,
        "content-encoding"@,
        "host"@,
        "keep-alive"@,
        "proxy-authenticate"@,
        "proxy-authorization"@,
        "te"@,
        "trailers"@,
        "transfer-encoding"@,
        "upgrade"@,
    ]
}

/// Whether a header of this name is dropped before forwarding.
pub open spec fn is_hop_name(n: Seq<char>) -> bool {
    exists|i: int| 0 <= i < hop_names().len() && eq_ignore_ascii_case(n, #[trigger] hop_names()[i])
}

/// Whether a header is kept when forwarding.
pub open spec fn is_forwarded(e: (Seq<char>, Seq<u8>)) -> bool {
    !is_hop_name(e.0)
}

/// The headers of `b` that are forwarded, each with all its values.
pub open spec fn sanitized(b: Multiset<(Seq<char>, Seq<u8>)>) -> Multiset<(Seq<char>, Seq<u8>)> {
    b.filter(|e: (Seq<char>, Seq<u8>)| is_forwarded(e))
}

fn hop_headers() -> (r: Vec<&'static str>)
    ensures
        r@.len() == hop_names().len(),
        forall|i: int| 0 <= i < r@.len() ==> (#[trigger] r@[i])@ == hop_names()[i],
{
    let r = vec![
        "authorization",
        "connection",
        "accept-encoding",
        "content-length",
        "content-encoding",
        "host",
        "keep-alive",
        "proxy-authenticate",
        "proxy-authorization",
        "te",
        "trailers",
        "transfer-encoding",
        "upgrade",
    ];
    r
}

/// Whether `name` is a hop-by-hop header, compared without ASCII case.
pub fn is_hop_header(name: &str) -> (r: bool)
    ensures
        r == is_hop_name(name@),
{
    let hops = hop_headers();
    let mut i: usize = 0;
    while i < hops.len()
        invariant
            i <= hops@.len(),
            hops@.len() == hop_names().len(),
            forall|k: int| 0 <= k < hops@.len() ==> (#[trigger] hops@[k])@ == hop_names()[k],
            forall|k: int| 0 <= k < i ==> !eq_ignore_ascii_case(name@, #[trigger] hop_names()[k]),
        decreases hops@.len() - i,
    {
        if same_name(hops[i], name) {
            assert(eq_ignore_ascii_case(name@, hop_names()[i as int]));
            return true;
        }
        i = i + 1;
    }
    false
}

proof fn lemma_filter_insert(
    m: Multiset<(Seq<char>, Seq<u8>)>,
    x: (Seq<char>, Seq<u8>),
)
    ensures
        sanitized(m.insert(x)) == if is_forwarded(x) {
            sanitized(m).insert(x)
        } else {
            sanitized(m)
        },
{
    broadcast use vstd::multiset::group_multiset_axioms;

    let f = |e: (Seq<char>, Seq<u8>)| is_forwarded(e);
    if is_forwarded(x) {
        assert(sanitized(m.insert(x)) =~= sanitized(m).insert(x));
    } else {
        assert(sanitized(m.insert(x)) =~= sanitized(m));
    }
}

/// Forwarded headers hold no hop-by-hop name, in any case, and every other
/// header of the request with each of its values, as many times as it came.
pub proof fn lemma_sanitized_headers(b: Multiset<(Seq<char>, Seq<u8>)>, e: (Seq<char>, Seq<u8>))
    ensures
        is_hop_name(e.0) ==> sanitized(b).count(e) == 0,
        !is_hop_name(e.0) ==> sanitized(b).count(e) == b.count(e),
{
    broadcast use vstd::multiset::group_multiset_axioms;

}

/// The values forwarded under the name `k` for headers `h`: none for a
/// hop-by-hop name, else all of them, in order.
pub open spec fn sanitized_values(h: HeaderMap, k: Seq<char>) -> Seq<Seq<u8>> {
    if is_hop_name(k) {
        Seq::empty()
    } else {
        header_values(h, k)
    }
}

/// A copy of `headers` without the hop-by-hop headers.
pub fn remove_hop_headers(headers: &HeaderMap) -> (r: HeaderMap)
    requires
        header_bag(*headers).len() < header_room(),
    ensures
        header_bag(r) == sanitized(header_bag(*headers)),
        header_bag(r).len() <= header_bag(*headers).len(),
        forall|k: Seq<char>| #[trigger] header_values(r, k) == sanitized_values(*headers, k),
{
    broadcast use vstd::seq_lib::group_to_multiset_ensures;

    let ents = header_entries(headers);
    let ghost views = entry_views(ents@);
    let mut result = HeaderMap::new();
    let mut i: usize = 0;
    proof {
        assert(views.subrange(0, 0) =~= Seq::<(Seq<char>, Seq<u8>)>::empty());
        assert(sanitized(Multiset::empty()) =~= Multiset::empty()) by {
            broadcast use vstd::multiset::group_multiset_axioms;
        }
    }
    while i < ents.len()
        invariant
            i <= ents@.len(),
            views == entry_views(ents@),
            views.to_multiset() == header_bag(*headers),
            header_bag(*headers).len() < header_room(),
            header_bag(result).len() <= i,
            header_bag(result) == sanitized(views.subrange(0, i as int).to_multiset()),
            forall|k: Seq<char>| values_named(views, k) == #[trigger] header_values(*headers, k),
            forall|k: Seq<char>|
                #[trigger] header_values(result, k) == if is_hop_name(k) {
                    Seq::<Seq<u8>>::empty()
                } else {
                    values_named(views.subrange(0, i as int), k)
                },
        decreases ents@.len() - i,
    {
        let name: &str = ents[i].0.as_str();
        let keep = !is_hop_header(name);
        proof {
            let pre = views.subrange(0, i as int);
            views.to_multiset_ensures();
            pre.to_multiset_ensures();
            assert(views.subrange(0, i + 1) =~= pre.push(views[i as int]));
            lemma_filter_insert(pre.to_multiset(), views[i as int]);
            assert(views.len() == ents@.len());
            assert(views.to_multiset().len() == views.len());
            assert(views[i as int] == entry_view(ents@[i as int]));
            assert(keep == is_forwarded(views[i as int]));
            assert(views.subrange(0, i + 1).drop_last() =~= pre);
        }
        if keep {
            proof {
                broadcast use vstd::multiset::group_multiset_axioms;
            }
            let n = ents[i].0.clone();
            let v = ents[i].1.clone();
            assert((name_text(n), value_bytes(v)) == views[i as int]);
            append_header(&mut result, n, v);
        }
        proof {
            let next = views.subrange(0, i + 1);
            assert forall|k: Seq<char>| #[trigger] header_values(result, k) == if is_hop_name(k) {
                Seq::<Seq<u8>>::empty()
            } else {
                values_named(next, k)
            } by {
                assert(next.last() == views[i as int]);
            }
        }
        i = i + 1;
    }
    proof {
        assert(views.subrange(0, ents@.len() as int) =~= views);
        views.to_multiset_ensures();
    }
    result
}

} // verus!
