//! Request headers and the registry's key check.
use vstd::prelude::*;
use crate::text::{chars_eq, chars_of, trim_prefix_all, trim_prefix_chars, string_of};

verus! {

/// The raw values of the request headers the registry reads (the first
/// value of each, as its bytes), `None` where the header is absent.
#[derive(Debug, Clone, PartialEq, Eq)]
pub struct RequestHeaders {
    pub x_axe_key: Option<Vec<u8>>,
    pub authorization: Option<Vec<u8>>,
    pub package_version: Option<Vec<u8>>,
    pub package_description: Option<Vec<u8>>,
}

/// A byte that a header value may hold to be read as text: a visible ASCII
/// character, a space or a tab.
pub open spec fn visible_ascii(b: u8) -> bool {
    (32 <= b && b < 127) || b == 9
}

/// A header value read as text: its bytes as characters when every byte is
/// visible ASCII, otherwise nothing.
pub open spec fn header_text(v: Seq<u8>) -> Option<Seq<char>> {
    if forall|i: int| 0 <= i < v.len() ==> visible_ascii(#[trigger] v[i]) {
        Some(v.map_values(|b: u8| b as char))
    } else {
        None
    }
}

/// A possibly absent header value read as text.
pub open spec fn optional_header_text(v: Option<Vec<u8>>) -> Option<Seq<char>> {
    match v {
        Some(b) => header_text(b@),
        None => None,
    }
}

/// Reads a header value as text (see `header_text`).
pub fn header_str(v: &Vec<u8>) -> (r: Option<String>)
    ensures
        r matches Some(s) ==> header_text(v@) == Some(s@),
        r is None ==> header_text(v@) is None,
{
    let mut out: Vec<char> = Vec::new();
    for i in 0..v.len()
        invariant
            out@ == v@.take(i as int).map_values(|b: u8| b as char),
            forall|j: int| 0 <= j < i ==> visible_ascii(#[trigger] v@[j]),
    {
        let b = v[i];
        if !((32 <= b && b < 127) || b == 9) {
            assert(!visible_ascii(v@[i as int]));
            return None;
        }
        out.push(b as char);
        assert(v@.take(i + 1).map_values(|b: u8| b as char) =~= v@.take(i as int).map_values(
            |b: u8| b as char,
        ).push(b as char));
    }
    assert(v@.take(v.len() as int) == v@);
    Some(string_of(&out))
}

/// Reads a possibly absent header value as text.
pub fn optional_header_str(v: &Option<Vec<u8>>) -> (r: Option<String>)
    ensures
        r matches Some(s) ==> optional_header_text(*v) == Some(s@),
        r is None ==> optional_header_text(*v) is None,
{
    match v {
        Some(b) => header_str(b),
        None => None,
    }
}

/// The prefix that a bearer token carries.
pub open spec fn bearer_prefix() -> Seq<char> {
    seq!['B', 'e', 'a', 'r', 'e', 'r', ' ']
}

/// The key that grants the right to publish.
pub open spec fn fleet_key() -> Seq<char> {
    "axe_bunker_2026_fleet"@
}

/// The key a request presents: the `x-axe-key` header if the request has
/// one, else the `authorization` header, read as text with every leading
/// `Bearer ` removed; empty where that header is absent or not text.
pub open spec fn presented_key(h: RequestHeaders) -> Seq<char> {
    let raw = if h.x_axe_key is Some {
        h.x_axe_key
    } else {
        h.authorization
    };
    match optional_header_text(raw) {
        Some(t) => trim_prefix_all(t, bearer_prefix()),
        None => Seq::empty(),
    }
}

/// A request is authorized when the key it presents is the fleet key.
pub open spec fn is_authorized(h: RequestHeaders) -> bool {
    presented_key(h) == fleet_key()
}

/// The status of a request that presents no valid key.
pub open spec fn unauthorized_status() -> u16 {
    401
}

/// Checks the key a request presents; `Err(401)` when it is not the fleet key.
pub fn auth(headers: &RequestHeaders) -> (r: Result<(), u16>)
    ensures
        r == (if is_authorized(*headers) {
            Ok::<(), u16>(())
        } else {
            Err::<(), u16>(unauthorized_status())
        }),
{
    let raw = if headers.x_axe_key.is_some() {
        &headers.x_axe_key
    } else {
        &headers.authorization
    };
    let text = optional_header_str(raw);
    let key: Vec<char> = match text {
        Some(t) => {
            let c = chars_of(t.as_str());
            let bearer = vec!['B', 'e', 'a', 'r', 'e', 'r', ' '];
            assert(bearer@ == bearer_prefix());
            trim_prefix_chars(&c, &bearer)
        },
        None => Vec::new(),
    };
    let expected = chars_of("axe_bunker_2026_fleet");
    if chars_eq(&key, &expected) {
        Ok(())
    } else {
        Err(401)
    }
}

} // verus!
