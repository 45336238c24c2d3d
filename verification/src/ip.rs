//! Internet addresses and their textual form.
//!
//! An address is written either as four decimal octets separated by dots
//! (`192.0.2.1`) or as eight hexadecimal groups separated by colons, where one
//! `::` may stand for a run of zero groups and the last two groups may be
//! written as a dotted quad (`2001:db8::1`, `::ffff:192.0.2.1`).
//!
//! [`ip_of`] says which address a byte string writes, if any; [`parse_ip`]
//! computes it.

use crate::text::{fields_of, split, split_fields};
use vstd::prelude::*;
use vstd::slice::slice_subrange;

verus! {

/// An IPv4 or IPv6 address.
#[derive(Clone, Copy, Debug, PartialEq, Eq)]
pub enum IpAddress {
    /// The four octets, first one first.
    V4([u8; 4]),
    /// The eight 16-bit groups, first one first.
    V6([u16; 8]),
}

/// The mathematical value of an [`IpAddress`]: four octets or eight groups.
pub enum IpView {
    V4(Seq<u8>),
    V6(Seq<u16>),
}

impl View for IpAddress {
    type V = IpView;

    open spec fn view(&self) -> IpView {
        match *self {
            IpAddress::V4(octets) => IpView::V4(octets@),
            IpAddress::V6(groups) => IpView::V6(groups@),
        }
    }
}

/// A peer's socket address: an address and a port.
#[derive(Clone, Copy, Debug, PartialEq, Eq)]
pub struct SocketAddress {
    pub ip: IpAddress,
    pub port: u16,
}

impl SocketAddress {
    /// A socket address from its two parts.
    pub fn new(ip: IpAddress, port: u16) -> (r: Self)
        ensures
            r.ip == ip,
            r.port == port,
    {
        SocketAddress { ip, port }
    }

    /// The address part.
    pub fn ip(&self) -> (r: IpAddress)
        ensures
            r == self.ip,
    {
        self.ip
    }

    /// The port part.
    pub fn port(&self) -> (r: u16)
        ensures
            r == self.port,
    {
        self.port
    }
}

/// The byte `.`, which separates the octets of a dotted quad.
pub const DOT: u8 = 0x2e;

/// The byte `:`, which separates the groups of an IPv6 address.
pub const COLON: u8 = 0x3a;

/// `b` is one of `0` to `9`.
pub open spec fn is_digit(b: u8) -> bool {
    0x30 <= b <= 0x39
}

/// `b` is one of `0` to `9`, `a` to `f`, `A` to `F`.
pub open spec fn is_hex_digit(b: u8) -> bool {
    is_digit(b) || 0x61 <= b <= 0x66 || 0x41 <= b <= 0x46
}

/// The number that a digit stands for, decimal or hexadecimal.
pub open spec fn digit_value(b: u8) -> nat {
    if is_digit(b) {
        (b - 0x30) as nat
    } else if 0x61 <= b <= 0x66 {
        (b - 0x61 + 10) as nat
    } else {
        (b - 0x41 + 10) as nat
    }
}

/// The number that the digits `s` write in base `radix`, most significant
/// digit first.
pub open spec fn number_of(s: Seq<u8>, radix: nat) -> nat
    decreases s.len(),
{
    if s.len() == 0 {
        0
    } else {
        number_of(s.drop_last(), radix) * radix + digit_value(s.last())
    }
}

/// The octet that `s` writes: one to three decimal digits, no leading zero
/// before another digit, and no more than 255.
pub open spec fn octet_of(s: Seq<u8>) -> Option<u8> {
    if 1 <= s.len() <= 3 && (forall|i: int| 0 <= i < s.len() ==> is_digit(s[i])) && (s.len() > 1
        ==> s[0] != 0x30) && number_of(s, 10) <= 255 {
        Some(number_of(s, 10) as u8)
    } else {
        None
    }
}

/// The group that `s` writes: one to four hexadecimal digits.
pub open spec fn group_of(s: Seq<u8>) -> Option<u16> {
    if 1 <= s.len() <= 4 && (forall|i: int| 0 <= i < s.len() ==> is_hex_digit(s[i])) {
        Some(number_of(s, 16) as u16)
    } else {
        None
    }
}

/// The four octets that `s` writes as a dotted quad.
pub open spec fn ipv4_of(s: Seq<u8>) -> Option<Seq<u8>> {
    let f = split(s, DOT);
    if f.len() == 4 && octet_of(f[0]) is Some && octet_of(f[1]) is Some && octet_of(f[2]) is Some
        && octet_of(f[3]) is Some {
        Some(
            seq![
                octet_of(f[0]).unwrap(),
                octet_of(f[1]).unwrap(),
                octet_of(f[2]).unwrap(),
                octet_of(f[3]).unwrap(),
            ],
        )
    } else {
        None
    }
}

/// Two octets as one group, the first octet in the high byte.
pub open spec fn pair_of(hi: u8, lo: u8) -> u16 {
    (hi * 256 + lo) as u16
}

/// The two groups that hold the four octets of a dotted quad.
pub open spec fn quad_groups(octets: Seq<u8>) -> Seq<u16> {
    seq![pair_of(octets[0], octets[1]), pair_of(octets[2], octets[3])]
}

/// The groups that `fields` write, where every field is a group.
pub open spec fn groups_of(fields: Seq<Seq<u8>>) -> Option<Seq<u16>> {
    if forall|k: int| 0 <= k < fields.len() ==> (#[trigger] group_of(fields[k])) is Some {
        Some(Seq::new(fields.len(), |k: int| group_of(fields[k]).unwrap()))
    } else {
        None
    }
}

/// The groups that `fields` write, where the last field may be a dotted quad,
/// which counts as two groups, and every other field is a group.
pub open spec fn groups_with_quad_of(fields: Seq<Seq<u8>>) -> Option<Seq<u16>> {
    if fields.len() > 0 && ipv4_of(fields.last()) is Some {
        match groups_of(fields.drop_last()) {
            Some(g) => Some(g + quad_groups(ipv4_of(fields.last()).unwrap())),
            None => None,
        }
    } else {
        groups_of(fields)
    }
}

/// The groups that the colon-separated `text` writes. The empty text writes
/// no group. A dotted quad may stand last where `quad` allows it.
pub open spec fn run_of(text: Seq<u8>, quad: bool) -> Option<Seq<u16>> {
    if text.len() == 0 {
        Some(Seq::empty())
    } else if quad {
        groups_with_quad_of(split(text, COLON))
    } else {
        groups_of(split(text, COLON))
    }
}

/// Index of the first `::` in `s`, or `s.len()` where `s` holds none.
pub open spec fn find_gap(s: Seq<u8>) -> int
    decreases s.len(),
{
    if s.len() < 2 {
        s.len() as int
    } else if s[0] == COLON && s[1] == COLON {
        0
    } else {
        1 + find_gap(s.drop_first())
    }
}

/// `n` zero groups.
pub open spec fn zero_groups(n: int) -> Seq<u16> {
    Seq::new(n as nat, |k: int| 0u16)
}

/// The eight groups that `s` writes as an IPv6 address.
///
/// Without a `::`, `s` writes all eight groups. With one, what stands before
/// it writes the first groups, what stands after it writes the last ones, and
/// the `::` stands for the zero groups between them, at least one. A dotted
/// quad may stand only at the very end.
pub open spec fn ipv6_of(s: Seq<u8>) -> Option<Seq<u16>> {
    let gap = find_gap(s);
    if 0 <= gap < s.len() {
        match (run_of(s.take(gap), false), run_of(s.skip(gap + 2), true)) {
            (Some(head), Some(tail)) => if head.len() + tail.len() <= 7 {
                Some(head + zero_groups(8 - head.len() - tail.len()) + tail)
            } else {
                None
            },
            _ => None,
        }
    } else {
        match groups_with_quad_of(split(s, COLON)) {
            Some(g) => if g.len() == 8 {
                Some(g)
            } else {
                None
            },
            None => None,
        }
    }
}

/// The address that `s` writes, if it writes one.
pub open spec fn ip_of(s: Seq<u8>) -> Option<IpView> {
    match ipv4_of(s) {
        Some(octets) => Some(IpView::V4(octets)),
        None => match ipv6_of(s) {
            Some(groups) => Some(IpView::V6(groups)),
            None => None,
        },
    }
}

/// What an optional address stands for.
pub open spec fn ip_value(a: Option<IpAddress>) -> Option<IpView> {
    match a {
        Some(ip) => Some(ip@),
        None => None,
    }
}

/// Two colons stand side by side at index `i` of `s`.
pub open spec fn gap_at(s: Seq<u8>, i: int) -> bool {
    0 <= i && i + 1 < s.len() && s[i] == COLON && s[i + 1] == COLON
}

/// `find_gap` is the first index at which two colons stand side by side.
pub proof fn lemma_find_gap(s: Seq<u8>)
    ensures
        0 <= find_gap(s) <= s.len(),
        forall|i: int| 0 <= i < find_gap(s) ==> !#[trigger] gap_at(s, i),
        find_gap(s) < s.len() ==> gap_at(s, find_gap(s)),
    decreases s.len(),
{
    if s.len() < 2 {
    } else if s[0] == COLON && s[1] == COLON {
    } else {
        let t = s.drop_first();
        lemma_find_gap(t);
        assert forall|i: int| 0 <= i < find_gap(s) implies !#[trigger] gap_at(s, i) by {
            if i > 0 {
                assert(!gap_at(t, i - 1));
                if i + 1 < s.len() {
                    assert(s[i] == t[i - 1]);
                    assert(s[i + 1] == t[i]);
                }
            }
        }
        if find_gap(s) < s.len() {
            assert(gap_at(t, find_gap(t)));
            assert(s[find_gap(s)] == t[find_gap(t)]);
            assert(s[find_gap(s) + 1] == t[find_gap(t) + 1]);
        }
    }
}

/// Any index with no `::` before it, which starts a `::` or ends `s`, is
/// `find_gap(s)`.
pub proof fn lemma_find_gap_is(s: Seq<u8>, i: int)
    requires
        0 <= i <= s.len(),
        forall|j: int| 0 <= j < i ==> !#[trigger] gap_at(s, j),
        i < s.len() ==> gap_at(s, i),
    ensures
        find_gap(s) == i,
{
    lemma_find_gap(s);
    let f = find_gap(s);
    if f < i {
        assert(!gap_at(s, f));
    } else if i < f {
        assert(!gap_at(s, i));
    }
}

/// Tests a byte for a decimal digit.
pub fn byte_is_digit(b: u8) -> (r: bool)
    ensures
        r == is_digit(b),
{
    0x30 <= b && b <= 0x39
}

/// The value of a hexadecimal digit, or nothing for any other byte.
pub fn hex_digit(b: u8) -> (r: Option<u8>)
    ensures
        r is Some <==> is_hex_digit(b),
        r matches Some(v) ==> v == digit_value(b) && v < 16,
{
    if 0x30 <= b && b <= 0x39 {
        Some(b - 0x30)
    } else if 0x61 <= b && b <= 0x66 {
        Some(b - 0x61 + 10)
    } else if 0x41 <= b && b <= 0x46 {
        Some(b - 0x41 + 10)
    } else {
        None
    }
}

/// Reads `s` as a decimal octet.
pub fn parse_octet(s: &[u8]) -> (r: Option<u8>)
    ensures
        r == octet_of(s@),
{
    let n = s.len();
    if n < 1 || n > 3 {
        return None;
    }
    if n > 1 && s[0] == 0x30 {
        return None;
    }
    let mut value: u16 = 0;
    let mut i: usize = 0;
    while i < n
        invariant
            i <= n == s@.len(),
            n <= 3,
            forall|j: int| 0 <= j < i ==> is_digit(s@[j]),
            value == number_of(s@.take(i as int), 10),
            i <= 2 ==> value <= 99,
            i <= 1 ==> value <= 9,
            i <= 0 ==> value == 0,
        decreases n - i,
    {
        let b = s[i];
        if !byte_is_digit(b) {
            return None;
        }
        proof {
            assert(s@.take(i + 1).drop_last() == s@.take(i as int));
        }
        value = value * 10 + (b - 0x30) as u16;
        i += 1;
    }
    proof {
        assert(s@.take(n as int) == s@);
    }
    if value > 255 {
        None
    } else {
        Some(value as u8)
    }
}

/// Reads `s` as a hexadecimal group.
pub fn parse_group(s: &[u8]) -> (r: Option<u16>)
    ensures
        r == group_of(s@),
{
    let n = s.len();
    if n < 1 || n > 4 {
        return None;
    }
    let mut value: u16 = 0;
    let mut i: usize = 0;
    while i < n
        invariant
            i <= n == s@.len(),
            n <= 4,
            forall|j: int| 0 <= j < i ==> is_hex_digit(s@[j]),
            value == number_of(s@.take(i as int), 16),
            i <= 3 ==> value <= 0xfff,
            i <= 2 ==> value <= 0xff,
            i <= 1 ==> value <= 0xf,
            i <= 0 ==> value == 0,
        decreases n - i,
    {
        match hex_digit(s[i]) {
            None => {
                return None;
            },
            Some(d) => {
                proof {
                    assert(s@.take(i + 1).drop_last() == s@.take(i as int));
                }
                value = value * 16 + d as u16;
                i += 1;
            },
        }
    }
    proof {
        assert(s@.take(n as int) == s@);
    }
    Some(value)
}

/// Reads `s` as a dotted quad.
pub fn parse_ipv4(s: &[u8]) -> (r: Option<[u8; 4]>)
    ensures
        r is Some <==> ipv4_of(s@) is Some,
        r matches Some(octets) ==> octets@ == ipv4_of(s@).unwrap(),
{
    let fields = split_fields(s, DOT);
    if fields.len() != 4 {
        return None;
    }
    proof {
        assert(forall|k: int| 0 <= k < 4 ==> split(s@, DOT)[k] == #[trigger] fields_of(fields@)[k]);
    }
    let a = match parse_octet(fields[0]) {
        Some(v) => v,
        None => { return None; },
    };
    let b = match parse_octet(fields[1]) {
        Some(v) => v,
        None => { return None; },
    };
    let c = match parse_octet(fields[2]) {
        Some(v) => v,
        None => { return None; },
    };
    let d = match parse_octet(fields[3]) {
        Some(v) => v,
        None => { return None; },
    };
    let octets: [u8; 4] = [a, b, c, d];
    proof {
        assert(octets@ == seq![a, b, c, d]);
    }
    Some(octets)
}

/// Reads each of the first `count` fields as a hexadecimal group.
fn parse_groups(fields: &Vec<&[u8]>, count: usize) -> (r: Option<Vec<u16>>)
    requires
        count <= fields@.len(),
    ensures
        r is Some <==> groups_of(fields_of(fields@).take(count as int)) is Some,
        r matches Some(g) ==> g@ == groups_of(fields_of(fields@).take(count as int)).unwrap(),
{
    let ghost f = fields_of(fields@).take(count as int);
    let mut out: Vec<u16> = Vec::new();
    let mut k: usize = 0;
    while k < count
        invariant
            k <= count <= fields@.len(),
            f == fields_of(fields@).take(count as int),
            out@.len() == k,
            forall|j: int| 0 <= j < k ==> (#[trigger] group_of(f[j])) == Some(out@[j]),
        decreases count - k,
    {
        assert(f[k as int] == fields@[k as int]@);
        match parse_group(fields[k]) {
            None => {
                assert(group_of(f[k as int]) is None);
                return None;
            },
            Some(g) => {
                out.push(g);
            },
        }
        k += 1;
    }
    proof {
        assert(out@ == groups_of(f).unwrap());
    }
    Some(out)
}

/// Two octets as one group, the first octet in the high byte.
fn join_octets(hi: u8, lo: u8) -> (r: u16)
    ensures
        r == pair_of(hi, lo),
{
    (hi as u16) * 256 + (lo as u16)
}

/// Reads the fields as groups, the last of which may be a dotted quad.
fn parse_groups_with_quad(fields: &Vec<&[u8]>) -> (r: Option<Vec<u16>>)
    requires
        fields@.len() >= 1,
    ensures
        r is Some <==> groups_with_quad_of(fields_of(fields@)) is Some,
        r matches Some(g) ==> g@ == groups_with_quad_of(fields_of(fields@)).unwrap(),
{
    let ghost f = fields_of(fields@);
    let n = fields.len();
    proof {
        assert(f.last() == fields@[n - 1]@);
        assert(f.drop_last() == f.take(n - 1));
        assert(f.take(n as int) == f);
    }
    match parse_ipv4(fields[n - 1]) {
        Some(octets) => {
            match parse_groups(fields, n - 1) {
                None => None,
                Some(mut g) => {
                    proof {
                        assert(octets@.len() == 4);
                    }
                    g.push(join_octets(octets[0], octets[1]));
                    g.push(join_octets(octets[2], octets[3]));
                    proof {
                        assert(g@ == groups_of(f.drop_last()).unwrap() + quad_groups(octets@));
                    }
                    Some(g)
                },
            }
        },
        None => parse_groups(fields, n),
    }
}

/// Reads `s` as a run of colon-separated groups, the last of which may be a
/// dotted quad where `quad` allows it.
fn parse_run(s: &[u8], quad: bool) -> (r: Option<Vec<u16>>)
    ensures
        r is Some <==> run_of(s@, quad) is Some,
        r matches Some(g) ==> g@ == run_of(s@, quad).unwrap(),
{
    if s.len() == 0 {
        return Some(Vec::new());
    }
    let fields = split_fields(s, COLON);
    if quad {
        parse_groups_with_quad(&fields)
    } else {
        proof {
            assert(fields_of(fields@).take(fields@.len() as int) == fields_of(fields@));
        }
        parse_groups(&fields, fields.len())
    }
}

/// Finds the first `::` in `s`; `s.len()` where there is none.
fn find_gap_in(s: &[u8]) -> (r: usize)
    ensures
        r == find_gap(s@),
        r <= s@.len(),
{
    let n = s.len();
    let mut i: usize = 0;
    while i < n
        invariant
            i <= n == s@.len(),
            forall|j: int| 0 <= j < i ==> !#[trigger] gap_at(s@, j),
        decreases n - i,
    {
        if i + 1 < n && s[i] == COLON && s[i + 1] == COLON {
            proof {
                assert(gap_at(s@, i as int));
                lemma_find_gap_is(s@, i as int);
            }
            return i;
        }
        i += 1;
    }
    proof {
        lemma_find_gap_is(s@, n as int);
    }
    n
}

/// Eight values as an array.
fn to_groups(v: &Vec<u16>) -> (r: [u16; 8])
    requires
        v@.len() == 8,
    ensures
        r@ == v@,
{
    let r: [u16; 8] = [v[0], v[1], v[2], v[3], v[4], v[5], v[6], v[7]];
    proof {
        assert(r@ == v@);
    }
    r
}

/// The groups of `head`, then `zeros` zero groups, then the groups of `tail`.
fn around_gap(head: Vec<u16>, zeros: usize, tail: &Vec<u16>) -> (r: Vec<u16>)
    ensures
        r@ == head@ + zero_groups(zeros as int) + tail@,
{
    let mut all: Vec<u16> = head;
    let ghost h = all@;
    let mut z: usize = 0;
    while z < zeros
        invariant
            z <= zeros,
            all@ == h + zero_groups(z as int),
        decreases zeros - z,
    {
        all.push(0);
        z += 1;
        proof {
            assert(all@ == h + zero_groups(z as int));
        }
    }
    let mut t: usize = 0;
    while t < tail.len()
        invariant
            t <= tail@.len(),
            all@ == h + zero_groups(zeros as int) + tail@.take(t as int),
        decreases tail@.len() - t,
    {
        all.push(tail[t]);
        t += 1;
        proof {
            assert(tail@.take(t as int) == tail@.take(t - 1).push(tail@[t - 1]));
        }
    }
    proof {
        assert(tail@.take(tail@.len() as int) == tail@);
    }
    all
}

/// Reads `s` as an IPv6 address.
pub fn parse_ipv6(s: &[u8]) -> (r: Option<[u16; 8]>)
    ensures
        r is Some <==> ipv6_of(s@) is Some,
        r matches Some(groups) ==> groups@ == ipv6_of(s@).unwrap(),
{
    let n = s.len();
    let gap = find_gap_in(s);
    if gap < n {
        proof {
            lemma_find_gap(s@);
            assert(gap_at(s@, gap as int));
        }
        let head = match parse_run(slice_subrange(s, 0, gap), false) {
            Some(g) => g,
            None => { return None; },
        };
        let tail = match parse_run(slice_subrange(s, gap + 2, n), true) {
            Some(g) => g,
            None => { return None; },
        };
        if head.len() > 7 || tail.len() > 7 - head.len() {
            return None;
        }
        let zeros = 8 - head.len() - tail.len();
        let all = around_gap(head, zeros, &tail);
        Some(to_groups(&all))
    } else {
        let fields = split_fields(s, COLON);
        match parse_groups_with_quad(&fields) {
            Some(g) => if g.len() == 8 {
                Some(to_groups(&g))
            } else {
                None
            },
            None => None,
        }
    }
}

/// Reads `s` as an address: a dotted quad, or else an IPv6 address.
pub fn parse_ip(s: &[u8]) -> (r: Option<IpAddress>)
    ensures
        ip_value(r) == ip_of(s@),
{
    match parse_ipv4(s) {
        Some(octets) => Some(IpAddress::V4(octets)),
        None => match parse_ipv6(s) {
            Some(groups) => Some(IpAddress::V6(groups)),
            None => None,
        },
    }
}

} // verus!
