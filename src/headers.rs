use reqwest::header::{HeaderMap, HeaderName, HeaderValue, InvalidHeaderValue};
use vstd::prelude::*;

verus! {

#[verifier::external_type_specification]
#[verifier::external_body]
#[verifier::reject_recursive_types(T)]
pub struct ExHeaderMap<T>(HeaderMap<T>);

#[verifier::external_type_specification]
#[verifier::external_body]
pub struct ExHeaderValue(HeaderValue);

#[verifier::external_type_specification]
#[verifier::external_body]
pub struct ExInvalidHeaderValue(InvalidHeaderValue);

#[verifier::external_type_specification]
#[verifier::external_body]
pub struct ExHeaderName(HeaderName);

/// What a header map holds: for each (lower-case) header name, the bytes of its
/// first value, which is the one `get` returns.
pub uninterp spec fn header_entries(m: HeaderMap) -> Map<Seq<char>, Seq<u8>>;

/// The number of distinct names a header map holds.
pub uninterp spec fn header_name_count(m: HeaderMap) -> nat;

/// The bytes of a header value.
pub uninterp spec fn header_value_bytes(v: HeaderValue) -> Seq<u8>;

/// The (lower-case) text of a header name.
pub uninterp spec fn header_name_text(n: HeaderName) -> Seq<char>;

/// How many distinct names a map may reach through this library's inserts;
/// far below the point where a header map refuses to grow.
pub const HEADER_ROOM: usize = 2048;

pub open spec fn set_cookie_key() -> Seq<char> {
    "set-cookie"@
}

/// A byte that `HeaderValue::to_str` accepts.
pub open spec fn is_visible_ascii(b: u8) -> bool {
    (32 <= b && b < 127) || b == 9
}

/// A byte that a header value may hold.
pub open spec fn is_header_byte(b: u8) -> bool {
    (32 <= b && b != 127) || b == 9
}

/// A header value that decodes as text.
pub open spec fn is_text(s: Seq<u8>) -> bool {
    forall|i: int| 0 <= i < s.len() ==> is_visible_ascii(#[trigger] s[i])
}

/// The separator placed between merged cookie values: "; ".
pub open spec fn cookie_separator() -> Seq<u8> {
    seq![59u8, 32u8]
}

/// The accumulated cookie headers after a backend response's headers are merged in.
pub open spec fn merged_cookies(existing: Map<Seq<char>, Seq<u8>>, incoming: Map<Seq<char>, Seq<u8>>) -> Map<Seq<char>, Seq<u8>> {
    let k = set_cookie_key();
    if !incoming.contains_key(k) {
        existing
    } else if !existing.contains_key(k) {
        existing.insert(k, incoming[k])
    } else if is_text(existing[k]) && is_text(incoming[k]) {
        existing.insert(k, existing[k] + cookie_separator() + incoming[k])
    } else {
        existing
    }
}

/// Relies on `HeaderMap::new`: the map starts empty.
#[verifier::external_body]
pub(crate) fn empty_headers() -> (r: HeaderMap)
    ensures
        header_entries(r).dom() == Set::<Seq<char>>::empty(),
        header_name_count(r) == 0,
{
    HeaderMap::new()
}

/// Relies on `HeaderMap::keys_len`: the number of distinct names held.
#[verifier::external_body]
fn name_count(m: &HeaderMap) -> (r: usize)
    ensures
        r == header_name_count(*m),
{
    m.keys_len()
}

/// Relies on `HeaderMap::get` with the name `set-cookie`: the first value under that name.
#[verifier::external_body]
fn set_cookie_of(m: &HeaderMap) -> (r: Option<HeaderValue>)
    ensures
        match r {
            Some(v) => header_entries(*m).contains_key(set_cookie_key())
                && header_value_bytes(v) == header_entries(*m)[set_cookie_key()],
            None => !header_entries(*m).contains_key(set_cookie_key()),
        },
{
    m.get("set-cookie").cloned()
}

/// Relies on `http::header::SET_COOKIE`: the name `set-cookie`.
#[verifier::external_body]
fn set_cookie_name() -> (r: HeaderName)
    ensures
        header_name_text(r) == set_cookie_key(),
{
    reqwest::header::SET_COOKIE
}

/// Relies on `HeaderMap::insert`: every value under `name` is replaced by `v`. It
/// panics only past its capacity limit, which the bound keeps off.
#[verifier::external_body]
fn insert_header(m: &mut HeaderMap, name: HeaderName, v: HeaderValue)
    requires
        header_name_count(*old(m)) < HEADER_ROOM,
    ensures
        header_entries(*final(m)) == header_entries(*old(m)).insert(header_name_text(name), header_value_bytes(v)),
        header_name_count(*final(m)) <= header_name_count(*old(m)) + 1,
{
    m.insert(name, v);
}

/// Relies on `HeaderMap::extend` with a copy of `from`: each name of `from` takes
/// its values there, replacing what `into` held under it. It panics only past its
/// capacity limit, which the bound keeps off.
#[verifier::external_body]
fn extend_headers(into: &mut HeaderMap, from: &HeaderMap)
    requires
        header_name_count(*old(into)) + header_name_count(*from) < HEADER_ROOM,
    ensures
        header_entries(*final(into)) == header_entries(*old(into)).union_prefer_right(header_entries(*from)),
        header_name_count(*final(into)) <= header_name_count(*old(into)) + header_name_count(*from),
{
    into.extend(from.clone());
}

/// Relies on `HeaderValue::as_bytes`: the value's bytes.
#[verifier::external_body]
fn value_bytes(v: &HeaderValue) -> (r: Vec<u8>)
    ensures
        r@ == header_value_bytes(*v),
{
    v.as_bytes().to_vec()
}

/// Relies on `HeaderValue::from_bytes`: it accepts exactly the byte strings made of
/// header bytes, and keeps them as given.
#[verifier::external_body]
fn value_from_bytes(b: &[u8]) -> (r: Result<HeaderValue, InvalidHeaderValue>)
    ensures
        r is Ok <==> (forall|i: int| 0 <= i < b@.len() ==> is_header_byte(#[trigger] b@[i])),
        r matches Ok(v) ==> header_value_bytes(v) == b@,
{
    HeaderValue::from_bytes(b)
}

/// Whether a header value decodes as text, as `HeaderValue::to_str` decides it.
pub fn bytes_are_text(s: &Vec<u8>) -> (r: bool)
    ensures
        r == is_text(s@),
{
    let mut i: usize = 0;
    while i < s.len()
        invariant
            i <= s@.len(),
            forall|j: int| 0 <= j < i ==> is_visible_ascii(#[trigger] s@[j]),
        decreases s@.len() - i,
    {
        let b = s[i];
        if !((32 <= b && b < 127) || b == 9) {
            return false;
        }
        i = i + 1;
    }
    true
}

/// `a`, then "; ", then `b`.
fn join_cookie_bytes(a: &Vec<u8>, b: &Vec<u8>) -> (r: Vec<u8>)
    ensures
        r@ == a@ + cookie_separator() + b@,
{
    let mut out: Vec<u8> = Vec::new();
    let mut i: usize = 0;
    while i < a.len()
        invariant
            i <= a@.len(),
            out@ == a@.take(i as int),
        decreases a@.len() - i,
    {
        out.push(a[i]);
        i = i + 1;
        assert(out@ =~= a@.take(i as int));
    }
    out.push(59u8);
    out.push(32u8);
    let ghost head = out@;
    assert(head =~= a@ + cookie_separator());
    let mut j: usize = 0;
    while j < b.len()
        invariant
            j <= b@.len(),
            out@ == head + b@.take(j as int),
        decreases b@.len() - j,
    {
        out.push(b[j]);
        j = j + 1;
        assert(out@ =~= head + b@.take(j as int));
    }
    assert(b@.take(b@.len() as int) =~= b@);
    out
}

/// Cookie and experimental headers gathered while one request is resolved.
pub struct HeaderAccumulator {
    /// Present only where cookies are passed on to the client.
    pub cookie_headers: Option<HeaderMap>,
    /// Headers collected for the response, passed on only where `experimental_headers` holds.
    pub x_response_headers: HeaderMap,
    /// The request headers that may be forwarded to backend calls.
    pub allowed_headers: HeaderMap,
    pub experimental_headers: bool,
}

impl HeaderAccumulator {
    /// Nothing gathered yet.
    pub fn new(cookies_enabled: bool, experimental_headers: bool) -> (r: HeaderAccumulator)
        ensures
            cookies_enabled <==> r.cookie_headers is Some,
            r.cookie_headers matches Some(c) ==> header_entries(c).dom() == Set::<Seq<char>>::empty()
                && header_name_count(c) == 0,
            header_entries(r.x_response_headers).dom() == Set::<Seq<char>>::empty(),
            header_name_count(r.x_response_headers) == 0,
            header_entries(r.allowed_headers).dom() == Set::<Seq<char>>::empty(),
            header_name_count(r.allowed_headers) == 0,
            r.experimental_headers == experimental_headers,
    {
        HeaderAccumulator {
            cookie_headers: if cookies_enabled { Some(empty_headers()) } else { None },
            x_response_headers: empty_headers(),
            allowed_headers: empty_headers(),
            experimental_headers,
        }
    }

    /// Merges the `set-cookie` value of a backend response into the gathered cookies:
    /// taken as it is when none is held yet, else appended after "; ". Where either
    /// value does not decode as text, nothing changes.
    pub fn merge_cookies(&mut self, incoming: &HeaderMap)
        requires
            old(self).cookie_headers matches Some(c) ==> header_name_count(c) < HEADER_ROOM,
        ensures
            final(self).x_response_headers == old(self).x_response_headers,
            final(self).allowed_headers == old(self).allowed_headers,
            final(self).experimental_headers == old(self).experimental_headers,
            old(self).cookie_headers is None ==> final(self).cookie_headers is None,
            old(self).cookie_headers matches Some(c) ==> final(self).cookie_headers matches Some(d)
                && header_entries(d) == merged_cookies(header_entries(c), header_entries(*incoming))
                && header_name_count(d) <= header_name_count(c) + 1,
    {
        let mut map = match self.cookie_headers.take() {
            None => {
                return;
            },
            Some(m) => m,
        };
        let ghost before = map;
        match set_cookie_of(incoming) {
            None => {},
            Some(new_value) => {
                match set_cookie_of(&map) {
                    None => {
                        insert_header(&mut map, set_cookie_name(), new_value);
                    },
                    Some(existing) => {
                        let old_bytes = value_bytes(&existing);
                        let new_bytes = value_bytes(&new_value);
                        if bytes_are_text(&old_bytes) && bytes_are_text(&new_bytes) {
                            let joined = join_cookie_bytes(&old_bytes, &new_bytes);
                            assert forall|i: int| 0 <= i < joined@.len() implies is_header_byte(#[trigger] joined@[i]) by {
                                if i < old_bytes@.len() {
                                    assert(joined@[i] == old_bytes@[i]);
                                } else if i >= old_bytes@.len() + 2 {
                                    assert(joined@[i] == new_bytes@[i - old_bytes@.len() - 2]);
                                }
                            }
                            match value_from_bytes(joined.as_slice()) {
                                Ok(v) => insert_header(&mut map, set_cookie_name(), v),
                                Err(_) => {},
                            }
                        }
                    },
                }
            },
        }
        self.cookie_headers = Some(map);
    }

    /// Copies every gathered experimental header into `into`, replacing what it held
    /// under the same names, where experimental headers are enabled; else leaves it as it is.
    pub fn extend_experimental_headers(&self, into: &mut HeaderMap)
        requires
            self.experimental_headers ==> header_name_count(*old(into)) + header_name_count(self.x_response_headers) < HEADER_ROOM,
        ensures
            self.experimental_headers ==> header_entries(*final(into))
                == header_entries(*old(into)).union_prefer_right(header_entries(self.x_response_headers)),
            !self.experimental_headers ==> *final(into) == *old(into),
            header_name_count(*final(into)) <= header_name_count(*old(into)) + header_name_count(self.x_response_headers),
    {
        if self.experimental_headers {
            extend_headers(into, &self.x_response_headers);
        }
    }

    /// Records an experimental header, replacing what was held under its name.
    pub fn record_experimental_header(&mut self, name: HeaderName, value: HeaderValue)
        requires
            header_name_count(old(self).x_response_headers) < HEADER_ROOM,
        ensures
            header_entries(final(self).x_response_headers) == header_entries(old(self).x_response_headers).insert(
                header_name_text(name),
                header_value_bytes(value),
            ),
            header_name_count(final(self).x_response_headers) <= header_name_count(old(self).x_response_headers) + 1,
            final(self).cookie_headers == old(self).cookie_headers,
            final(self).allowed_headers == old(self).allowed_headers,
            final(self).experimental_headers == old(self).experimental_headers,
    {
        insert_header(&mut self.x_response_headers, name, value);
    }

    /// Whether one more experimental header name fits.
    pub fn has_experimental_room(&self) -> (r: bool)
        ensures
            r == (header_name_count(self.x_response_headers) < HEADER_ROOM),
    {
        name_count(&self.x_response_headers) < HEADER_ROOM
    }

    /// The room left before `into` could no longer take the experimental headers.
    pub fn fits_experimental_headers(&self, into: &HeaderMap) -> (r: bool)
        ensures
            r == (header_name_count(*into) + header_name_count(self.x_response_headers) < HEADER_ROOM),
    {
        let a = name_count(into);
        let b = name_count(&self.x_response_headers);
        a < HEADER_ROOM && b < HEADER_ROOM - a
    }

    /// Whether the gathered cookies can take one more name.
    pub fn has_cookie_room(&self) -> (r: bool)
        ensures
            r == (self.cookie_headers matches Some(c) ==> header_name_count(c) < HEADER_ROOM),
    {
        match &self.cookie_headers {
            None => true,
            Some(c) => name_count(c) < HEADER_ROOM,
        }
    }
}

} // verus!
