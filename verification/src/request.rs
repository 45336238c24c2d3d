//! What the middleware reads of a request, and the client address that it
//! derives from it.
//!
//! The forwarding header is trusted over the transport's peer address: once a
//! `x-forwarded-for` header with a textual value is present, its first entry
//! decides, and an entry that writes no address yields no address at all. The
//! peer address is used only where no such header is present.

use crate::ip::{ip_of, ip_value, parse_ip, IpAddress, IpView, SocketAddress};
use crate::text::{find_byte, lemma_split_first, split, trim, trim_bytes};
use vstd::prelude::*;
use vstd::slice::slice_subrange;

verus! {

/// The byte `,`, which separates the entries of a forwarding header.
pub const COMMA: u8 = 0x2c;

/// The name of the forwarding header, `x-forwarded-for`, in bytes.
pub const FORWARDED_FOR: [u8; 15] = [
    0x78, 0x2d, 0x66, 0x6f, 0x72, 0x77, 0x61, 0x72, 0x64, 0x65, 0x64, 0x2d, 0x66, 0x6f, 0x72,
];

/// One header line: a name and a value, both as the bytes on the wire.
#[derive(Clone, Debug, PartialEq, Eq)]
pub struct Header {
    pub name: Vec<u8>,
    pub value: Vec<u8>,
}

/// The mathematical value of a [`Header`].
pub struct HeaderView {
    pub name: Seq<u8>,
    pub value: Seq<u8>,
}

impl View for Header {
    type V = HeaderView;

    open spec fn view(&self) -> HeaderView {
        HeaderView { name: self.name@, value: self.value@ }
    }
}

/// The values of header lines, in order.
pub open spec fn lines_of(headers: Seq<Header>) -> Seq<HeaderView> {
    Seq::new(headers.len(), |i: int| headers[i]@)
}

/// The part of a request that the middleware reads: the header lines in the
/// order in which they arrived and, where the transport attached one, the
/// peer's socket address.
#[derive(Clone, Debug, PartialEq, Eq)]
pub struct RequestContext {
    pub headers: Vec<Header>,
    pub peer: Option<SocketAddress>,
}

/// The mathematical value of a [`RequestContext`].
pub struct RequestView {
    pub headers: Seq<HeaderView>,
    pub peer: Option<IpView>,
}

impl View for RequestContext {
    type V = RequestView;

    open spec fn view(&self) -> RequestView {
        RequestView {
            headers: lines_of(self.headers@),
            peer: match self.peer {
                Some(addr) => Some(addr.ip@),
                None => None,
            },
        }
    }
}

/// `b` in lower case, where it is an ASCII capital; else `b`.
pub open spec fn ascii_lower(b: u8) -> u8 {
    if 0x41 <= b <= 0x5a {
        (b + 0x20) as u8
    } else {
        b
    }
}

/// Two header names are the same but for the case of ASCII letters.
pub open spec fn same_name(a: Seq<u8>, b: Seq<u8>) -> bool {
    a.len() == b.len() && forall|i: int| 0 <= i < a.len() ==> ascii_lower(a[i]) == ascii_lower(b[i])
}

/// Index of the first of `headers` whose name is `name`, whatever the case of
/// its letters; `headers.len()` where there is none.
pub open spec fn header_index(headers: Seq<HeaderView>, name: Seq<u8>) -> int
    decreases headers.len(),
{
    if headers.len() == 0 || same_name(headers[0].name, name) {
        0
    } else {
        1 + header_index(headers.drop_first(), name)
    }
}

/// The value of the first of `headers` whose name is `name`, whatever the case
/// of its letters.
pub open spec fn header_value(headers: Seq<HeaderView>, name: Seq<u8>) -> Option<Seq<u8>> {
    let i = header_index(headers, name);
    if 0 <= i < headers.len() {
        Some(headers[i].value)
    } else {
        None
    }
}

/// A header value reads as text where each byte is a visible ASCII character,
/// a space or a tab.
pub open spec fn is_text(v: Seq<u8>) -> bool {
    forall|i: int| 0 <= i < v.len() ==> 0x20 <= #[trigger] v[i] < 0x7f || v[i] == 0x09
}

/// The first entry of a comma-separated header value, without the white space
/// around it.
pub open spec fn first_entry(v: Seq<u8>) -> Seq<u8> {
    trim(split(v, COMMA)[0])
}

/// The client address that a request gives.
///
/// A `x-forwarded-for` header whose value reads as text decides alone: the
/// address is what its first entry writes, or none. Without such a header the
/// address is that of the peer, if the request has one.
pub open spec fn client_ip_of(req: RequestView) -> Option<IpView> {
    match header_value(req.headers, FORWARDED_FOR@) {
        Some(v) => if is_text(v) {
            ip_of(first_entry(v))
        } else {
            req.peer
        },
        None => req.peer,
    }
}

/// `header_index` is the first index whose header has the name.
pub proof fn lemma_header_index(headers: Seq<HeaderView>, name: Seq<u8>)
    ensures
        0 <= header_index(headers, name) <= headers.len(),
        forall|i: int|
            0 <= i < header_index(headers, name) ==> !same_name((#[trigger] headers[i]).name, name),
        header_index(headers, name) < headers.len() ==> same_name(
            headers[header_index(headers, name)].name,
            name,
        ),
    decreases headers.len(),
{
    if headers.len() == 0 || same_name(headers[0].name, name) {
    } else {
        let t = headers.drop_first();
        lemma_header_index(t, name);
        assert forall|i: int| 0 <= i < header_index(headers, name) implies !same_name(
            (#[trigger] headers[i]).name,
            name,
        ) by {
            if i > 0 {
                assert(headers[i] == t[i - 1]);
            }
        }
        assert(header_index(headers, name) < headers.len() ==> headers[header_index(
            headers,
            name,
        )] == t[header_index(t, name)]);
    }
}

/// Any index with no header of that name before it, which holds one or ends
/// `headers`, is `header_index`.
pub proof fn lemma_header_index_is(headers: Seq<HeaderView>, name: Seq<u8>, i: int)
    requires
        0 <= i <= headers.len(),
        forall|j: int| 0 <= j < i ==> !same_name((#[trigger] headers[j]).name, name),
        i < headers.len() ==> same_name(headers[i].name, name),
    ensures
        header_index(headers, name) == i,
{
    lemma_header_index(headers, name);
    let f = header_index(headers, name);
    if f < i {
        assert(!same_name(headers[f].name, name));
    } else if i < f {
        assert(!same_name(headers[i].name, name));
    }
}

impl RequestContext {
    /// A request without headers and without a peer address.
    pub fn new() -> (r: Self)
        ensures
            r@.headers == Seq::<HeaderView>::empty(),
            r@.peer is None,
    {
        RequestContext { headers: Vec::new(), peer: None }
    }

    /// The request with one more header line after those it has.
    pub fn with_header(self, name: &[u8], value: &[u8]) -> (r: Self)
        ensures
            r@.headers == self@.headers.push(HeaderView { name: name@, value: value@ }),
            r@.peer == self@.peer,
    {
        let mut headers = self.headers;
        headers.push(Header { name: copy_bytes(name), value: copy_bytes(value) });
        let r = RequestContext { headers, peer: self.peer };
        proof {
            assert(r@.headers =~= self@.headers.push(HeaderView { name: name@, value: value@ }));
        }
        r
    }

    /// The request with `addr` as its peer address.
    pub fn with_peer(self, addr: SocketAddress) -> (r: Self)
        ensures
            r@.headers == self@.headers,
            r@.peer == Some(addr.ip@),
    {
        RequestContext { headers: self.headers, peer: Some(addr) }
    }
}

/// A copy of `s`.
fn copy_bytes(s: &[u8]) -> (r: Vec<u8>)
    ensures
        r@ == s@,
{
    let mut out: Vec<u8> = Vec::new();
    let mut i: usize = 0;
    while i < s.len()
        invariant
            i <= s@.len(),
            out@ == s@.take(i as int),
        decreases s@.len() - i,
    {
        out.push(s[i]);
        i += 1;
        proof {
            assert(s@.take(i as int) == s@.take(i - 1).push(s@[i - 1]));
        }
    }
    proof {
        assert(s@.take(s@.len() as int) == s@);
    }
    out
}

/// `b` in lower case, where it is an ASCII capital.
pub fn lower_byte(b: u8) -> (r: u8)
    ensures
        r == ascii_lower(b),
{
    if 0x41 <= b && b <= 0x5a {
        b + 0x20
    } else {
        b
    }
}

/// Compares two header names without regard to the case of ASCII letters.
pub fn names_match(a: &[u8], b: &[u8]) -> (r: bool)
    ensures
        r == same_name(a@, b@),
{
    if a.len() != b.len() {
        return false;
    }
    let mut i: usize = 0;
    while i < a.len()
        invariant
            i <= a@.len() == b@.len(),
            forall|j: int| 0 <= j < i ==> ascii_lower(a@[j]) == ascii_lower(b@[j]),
        decreases a@.len() - i,
    {
        if lower_byte(a[i]) != lower_byte(b[i]) {
            return false;
        }
        i += 1;
    }
    true
}

/// Finds the first of `headers` whose name is `name`, whatever the case of its
/// letters, and returns its value.
pub fn find_header<'a>(headers: &'a Vec<Header>, name: &[u8]) -> (r: Option<&'a Vec<u8>>)
    ensures
        match r {
            Some(v) => header_value(lines_of(headers@), name@) == Some(v@),
            None => header_value(lines_of(headers@), name@) is None,
        },
{
    let ghost hs = lines_of(headers@);
    let mut i: usize = 0;
    while i < headers.len()
        invariant
            i <= headers@.len(),
            hs == lines_of(headers@),
            forall|j: int| 0 <= j < i ==> !same_name((#[trigger] hs[j]).name, name@),
        decreases headers@.len() - i,
    {
        if names_match(headers[i].name.as_slice(), name) {
            proof {
                lemma_header_index_is(hs, name@, i as int);
            }
            return Some(&headers[i].value);
        }
        i += 1;
    }
    proof {
        lemma_header_index_is(hs, name@, i as int);
    }
    None
}

/// Tests whether a header value reads as text.
pub fn bytes_are_text(v: &[u8]) -> (r: bool)
    ensures
        r == is_text(v@),
{
    let mut i: usize = 0;
    while i < v.len()
        invariant
            i <= v@.len(),
            forall|j: int| 0 <= j < i ==> 0x20 <= #[trigger] v@[j] < 0x7f || v@[j] == 0x09,
        decreases v@.len() - i,
    {
        let b = v[i];
        if !((0x20 <= b && b < 0x7f) || b == 0x09) {
            return false;
        }
        i += 1;
    }
    true
}

/// Reads the first entry of a comma-separated header value as an address.
pub fn forwarded_ip(v: &[u8]) -> (r: Option<IpAddress>)
    ensures
        ip_value(r) == ip_of(first_entry(v@)),
{
    proof {
        lemma_split_first(v@, COMMA);
    }
    let end = find_byte(v, COMMA);
    parse_ip(trim_bytes(slice_subrange(v, 0, end)))
}

/// Derives the client's address from a request.
pub fn extract_client_ip(req: &RequestContext) -> (r: Option<IpAddress>)
    ensures
        ip_value(r) == client_ip_of(req@),
{
    match find_header(&req.headers, FORWARDED_FOR.as_slice()) {
        Some(v) => {
            if bytes_are_text(v.as_slice()) {
                return forwarded_ip(v.as_slice());
            }
        },
        None => {},
    }
    match req.peer {
        Some(addr) => Some(addr.ip),
        None => None,
    }
}

} // verus!
