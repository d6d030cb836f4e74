//! Socket addresses: an IPv4 or IPv6 address with a port, and how they are written.
use vstd::prelude::*;
use vstd::slice::slice_subrange;
use vstd::string::StringExecFns;

use crate::number::{parse_number, to_decimal};
use crate::text::{chars_of, split_chars};

verus! {

broadcast use vstd::array::group_array_axioms;

/// An IPv4 address: four octets, the most significant first.
#[derive(Debug, Clone, Copy, PartialEq, Eq, Structural)]
pub struct Ipv4Addr {
    pub a: u8,
    pub b: u8,
    pub c: u8,
    pub d: u8,
}

/// An IPv6 address: eight groups of sixteen bits, the most significant first.
#[derive(Debug, Clone, Copy, PartialEq, Eq)]
pub struct Ipv6Addr {
    pub segments: [u16; 8],
}

/// An address with a port. An IPv6 address also has a scope, zero where none was written.
#[derive(Debug, Clone, Copy, PartialEq, Eq)]
pub enum SocketAddr {
    V4 { ip: Ipv4Addr, port: u16 },
    V6 { ip6: Ipv6Addr, scope_id: u32, port: u16 },
}

/// What a `SocketAddr` holds.
pub enum SocketAddrView {
    V4 { ip: Ipv4Addr, port: u16 },
    V6 { segments: Seq<u16>, scope_id: u32, port: u16 },
}

impl View for SocketAddr {
    type V = SocketAddrView;

    open spec fn view(&self) -> SocketAddrView {
        match self {
            SocketAddr::V4 { ip, port } => SocketAddrView::V4 { ip: *ip, port: *port },
            SocketAddr::V6 { ip6, scope_id, port } => SocketAddrView::V6 {
                segments: ip6.segments@,
                scope_id: *scope_id,
                port: *port,
            },
        }
    }
}

impl Ipv4Addr {
    /// The address as one number: the order of addresses is the order of these.
    pub open spec fn bits(self) -> nat {
        (self.a as nat) * 0x100_0000 + (self.b as nat) * 0x1_0000 + (self.c as nat) * 0x100 + (
        self.d as nat)
    }

    /// The address in dotted decimal.
    pub open spec fn text(self) -> Seq<char> {
        crate::number::decimal(self.a as nat) + "."@ + crate::number::decimal(self.b as nat) + "."@
            + crate::number::decimal(self.c as nat) + "."@ + crate::number::decimal(self.d as nat)
    }

    /// Whether this is `0.0.0.0`.
    pub open spec fn unspecified(self) -> bool {
        self.a == 0 && self.b == 0 && self.c == 0 && self.d == 0
    }

    /// Whether this is one of `127.0.0.0/8`.
    pub open spec fn loopback(self) -> bool {
        self.a == 127
    }

    /// The address with these octets.
    pub fn new(a: u8, b: u8, c: u8, d: u8) -> (r: Ipv4Addr)
        ensures
            r == (Ipv4Addr { a, b, c, d }),
    {
        Ipv4Addr { a, b, c, d }
    }

    /// The address as one number.
    pub fn to_bits(self) -> (r: u32)
        ensures
            r == self.bits(),
    {
        (self.a as u32) * 0x100_0000 + (self.b as u32) * 0x1_0000 + (self.c as u32) * 0x100 + (
        self.d as u32)
    }

    /// Whether this is `0.0.0.0`.
    pub fn is_unspecified(self) -> (r: bool)
        ensures
            r == self.unspecified(),
    {
        self.a == 0 && self.b == 0 && self.c == 0 && self.d == 0
    }

    /// Whether this is one of `127.0.0.0/8`.
    pub fn is_loopback(self) -> (r: bool)
        ensures
            r == self.loopback(),
    {
        self.a == 127
    }

    /// The address in dotted decimal.
    pub fn to_text(self) -> (r: String)
        ensures
            r@ == self.text(),
    {
        to_decimal(self.a as u128).concat(".").concat(
            to_decimal(self.b as u128).as_str(),
        ).concat(".").concat(to_decimal(self.c as u128).as_str()).concat(".").concat(
            to_decimal(self.d as u128).as_str(),
        )
    }
}

/// `s` as an octet: a decimal number up to 255 without leading zeros.
pub open spec fn octet(s: Seq<char>) -> Option<u8> {
    match crate::number::number(s, 255) {
        Some(v) => if s.len() > 1 && s[0] == '0' {
            None
        } else {
            Some(v as u8)
        },
        None => None,
    }
}

/// `s` as an IPv4 address: four octets with dots between them.
pub open spec fn ipv4(s: Seq<char>) -> Option<Ipv4Addr> {
    let parts = crate::text::split(s, '.');
    if parts.len() != 4 {
        None
    } else {
        match (octet(parts[0]), octet(parts[1]), octet(parts[2]), octet(parts[3])) {
            (Some(a), Some(b), Some(c), Some(d)) => Some(Ipv4Addr { a, b, c, d }),
            _ => None,
        }
    }
}

/// The value of a hexadecimal digit, in either case.
pub open spec fn hex_digit(c: char) -> Option<nat> {
    let u = c as u32;
    if 0x30 <= u <= 0x39 {
        Some((u - 0x30) as nat)
    } else if 0x41 <= u <= 0x46 {
        Some((u - 0x41 + 10) as nat)
    } else if 0x61 <= u <= 0x66 {
        Some((u - 0x61 + 10) as nat)
    } else {
        None
    }
}

/// The number that hexadecimal digits write.
pub open spec fn hex_value(s: Seq<char>) -> Option<nat>
    decreases s.len(),
{
    if s.len() == 0 {
        Some(0)
    } else {
        match (hex_value(s.drop_last()), hex_digit(s.last())) {
            (Some(v), Some(d)) => Some(16 * v + d),
            _ => None,
        }
    }
}

/// `s` as a group of an IPv6 address: one to four hexadecimal digits.
pub open spec fn group(s: Seq<char>) -> Option<u16> {
    if 1 <= s.len() <= 4 && hex_value(s) is Some {
        Some(hex_value(s)->0 as u16)
    } else {
        None
    }
}

/// The two groups that an IPv4 address stands for.
pub open spec fn embedded(ip: Ipv4Addr) -> Seq<u16> {
    seq![(ip.a * 0x100 + ip.b) as u16, (ip.c * 0x100 + ip.d) as u16]
}

/// `parts` as groups. Where `last_dotted` holds, the last part may be an IPv4 address, which
/// stands for two groups.
pub open spec fn groups(parts: Seq<Seq<char>>, last_dotted: bool) -> Option<Seq<u16>>
    decreases parts.len(),
{
    if parts.len() == 0 {
        Some(seq![])
    } else if last_dotted && parts.len() == 1 && ipv4(parts[0]) is Some {
        Some(embedded(ipv4(parts[0])->0))
    } else {
        match (group(parts[0]), groups(parts.drop_first(), last_dotted)) {
            (Some(g), Some(rest)) => Some(seq![g] + rest),
            _ => None,
        }
    }
}

/// One side of a `::`: nothing, or groups with colons between them.
pub open spec fn side(s: Seq<char>, last_dotted: bool) -> Option<Seq<u16>> {
    if s.len() == 0 {
        Some(seq![])
    } else {
        groups(crate::text::split(s, ':'), last_dotted)
    }
}

/// The position of the first `::` in `s`, or the length of `s` where there is none.
pub open spec fn find_gap(s: Seq<char>) -> int
    decreases s.len(),
{
    if s.len() < 2 {
        s.len() as int
    } else if s[0] == ':' && s[1] == ':' {
        0
    } else {
        1 + find_gap(s.drop_first())
    }
}

/// `n` groups of zero.
pub open spec fn zeros(n: int) -> Seq<u16> {
    Seq::new(n as nat, |i: int| 0u16)
}

/// `s` as an IPv6 address: eight groups, or up to seven with a `::` that stands for the zero
/// groups left out. An IPv4 address may stand for the last two groups.
pub open spec fn ipv6(s: Seq<char>) -> Option<Seq<u16>> {
    let k = find_gap(s);
    if k < s.len() {
        match (side(s.take(k), false), side(s.skip(k + 2), true)) {
            (Some(head), Some(tail)) => if head.len() + tail.len() <= 7 {
                Some(head + zeros(8 - head.len() - tail.len()) + tail)
            } else {
                None
            },
            _ => None,
        }
    } else {
        match groups(crate::text::split(s, ':'), true) {
            Some(all) => if all.len() == 8 {
                Some(all)
            } else {
                None
            },
            None => None,
        }
    }
}

/// `s` as a port: a decimal number up to 65535.
pub open spec fn port_number(s: Seq<char>) -> Option<u16> {
    match crate::number::number(s, 0xffff) {
        Some(v) => Some(v as u16),
        None => None,
    }
}

/// `s` as an IPv6 address, with a scope number behind a `%` where there is one.
pub open spec fn scoped(s: Seq<char>) -> Option<(Seq<u16>, u32)> {
    let k = crate::text::find(s, '%');
    if k < s.len() {
        match (ipv6(s.take(k)), crate::number::number(s.skip(k + 1), 0xffff_ffff)) {
            (Some(segments), Some(scope)) => Some((segments, scope as u32)),
            _ => None,
        }
    } else {
        match ipv6(s) {
            Some(segments) => Some((segments, 0u32)),
            None => None,
        }
    }
}

/// `s` as `address:port`.
pub open spec fn socket_v4(s: Seq<char>) -> Option<SocketAddrView> {
    let k = crate::text::find(s, ':');
    if k < s.len() {
        match (ipv4(s.take(k)), port_number(s.skip(k + 1))) {
            (Some(ip), Some(port)) => Some(SocketAddrView::V4 { ip, port }),
            _ => None,
        }
    } else {
        None
    }
}

/// `s` as `address]:port`, the part of `[address]:port` behind the opening bracket.
pub open spec fn socket_v6(s: Seq<char>) -> Option<SocketAddrView> {
    let k = crate::text::find(s, ']');
    if k + 1 < s.len() && s[k + 1] == ':' {
        match (scoped(s.take(k)), port_number(s.skip(k + 2))) {
            (Some((segments, scope_id)), Some(port)) => Some(
                SocketAddrView::V6 { segments, scope_id, port },
            ),
            _ => None,
        }
    } else {
        None
    }
}

/// `s` as a socket address: `address:port` with an IPv4 address or `[address]:port` with an IPv6
/// address.
#[verifier::opaque]
pub open spec fn socket_addr(s: Seq<char>) -> Option<SocketAddrView> {
    if s.len() > 0 && s[0] == '[' {
        socket_v6(s.drop_first())
    } else {
        socket_v4(s)
    }
}

/// A text is an IPv4 address exactly where it is what that address is written as.
pub proof fn ipv4_is_canonical(s: Seq<char>, ip: Ipv4Addr)
    ensures
        ipv4(s) == Some(ip) <==> s == ip.text(),
{
    reveal_strlit(".");
    let parts = crate::text::split(s, '.');
    let own = seq![
        crate::number::decimal(ip.a as nat),
        crate::number::decimal(ip.b as nat),
        crate::number::decimal(ip.c as nat),
        crate::number::decimal(ip.d as nat),
    ];
    assert(ip.text() == crate::text::join(own, '.')) by {
        lemma_join_four(own);
        assert("."@ =~= seq!['.']);
    }
    if ipv4(s) == Some(ip) {
        crate::text::split_joins_back(s, '.');
        lemma_octet(parts[0]);
        lemma_octet(parts[1]);
        lemma_octet(parts[2]);
        lemma_octet(parts[3]);
        assert(parts =~= own);
    }
    if s == ip.text() {
        lemma_octet_written(ip.a);
        lemma_octet_written(ip.b);
        lemma_octet_written(ip.c);
        lemma_octet_written(ip.d);
        crate::text::join_splits_back(own, '.');
    }
}

proof fn lemma_join_four(parts: Seq<Seq<char>>)
    requires
        parts.len() == 4,
    ensures
        crate::text::join(parts, '.') == parts[0] + seq!['.'] + parts[1] + seq!['.'] + parts[2]
            + seq!['.'] + parts[3],
{
    reveal_with_fuel(crate::text::join, 4);
    let b = parts.drop_first();
    let c = b.drop_first();
    let d = c.drop_first();
    assert(d[0] == parts[3] && c[0] == parts[2] && b[0] == parts[1]);
    assert(crate::text::join(parts, '.') =~= parts[0] + seq!['.'] + parts[1] + seq!['.'] + parts[2]
        + seq!['.'] + parts[3]);
}

proof fn lemma_octet(s: Seq<char>)
    ensures
        octet(s) is Some ==> crate::number::decimal(octet(s)->0 as nat) == s,
{
    if octet(s) is Some {
        crate::number::scanned_is_value(s, 255);
        crate::number::value_writes_back(s);
    }
}

proof fn lemma_octet_written(v: u8)
    ensures
        octet(crate::number::decimal(v as nat)) == Some(v),
        !crate::number::decimal(v as nat).contains('.'),
{
    let s = crate::number::decimal(v as nat);
    crate::number::decimal_reads_back(v as nat);
    crate::number::scanned_is_value(s, 255);
    if s.contains('.') {
        let i = choose|i: int| 0 <= i < s.len() && s[i] == '.';
        assert(crate::number::digit(s[i]));
    }
    if s[0] == '0' {
        assert(v == 0);
        assert(s.len() == 1);
    }
}

/// Different IPv4 addresses have different numbers.
pub proof fn ipv4_bits_injective(x: Ipv4Addr, y: Ipv4Addr)
    ensures
        x.bits() == y.bits() ==> x == y,
{
}

/// An IPv6 address has eight groups.
pub proof fn ipv6_has_eight_groups(s: Seq<char>)
    ensures
        ipv6(s) is Some ==> ipv6(s)->0.len() == 8,
{
}

/// An IPv4 address and a port, written with a colon between them, read back as they were.
pub proof fn socket_v4_reads_back(ip: Ipv4Addr, port: u16)
    ensures
        socket_addr(ip.text() + ":"@ + crate::number::decimal(port as nat)) == Some(
            SocketAddrView::V4 { ip, port },
        ),
{
    reveal(socket_addr);
    reveal_strlit(":");
    reveal_strlit(".");
    let p = crate::number::decimal(port as nat);
    let t = ip.text();
    let s = t + ":"@ + p;
    crate::number::decimal_reads_back(port as nat);
    crate::number::scanned_is_value(p, 0xffff);
    crate::number::decimal_reads_back(ip.a as nat);
    crate::number::decimal_reads_back(ip.b as nat);
    crate::number::decimal_reads_back(ip.c as nat);
    crate::number::decimal_reads_back(ip.d as nat);
    let na = crate::number::decimal(ip.a as nat);
    let nb = crate::number::decimal(ip.b as nat);
    let nc = crate::number::decimal(ip.c as nat);
    let nd = crate::number::decimal(ip.d as nat);
    assert forall|i: int| 0 <= i < t.len() implies #[trigger] t[i] == '.' || crate::number::digit(
        t[i],
    ) by {
        let b0 = na.len() as int;
        let c0 = b0 + 1 + nb.len();
        let d0 = c0 + 1 + nc.len();
        if i < b0 {
            assert(t[i] == na[i]);
        } else if i == b0 {
        } else if i < c0 {
            assert(t[i] == nb[i - b0 - 1]);
        } else if i == c0 {
        } else if i < d0 {
            assert(t[i] == nc[i - c0 - 1]);
        } else if i == d0 {
        } else {
            assert(t[i] == nd[i - d0 - 1]);
        }
    }
    crate::text::lemma_find_is(s, ':', t.len() as int);
    assert(s.take(t.len() as int) =~= t);
    assert(s.skip(t.len() as int + 1) =~= p);
    assert(s[0] == t[0]);
    ipv4_is_canonical(t, ip);
}

/// The sentence that describes a text that is no socket address.
pub const SYNTAX_FAULT: &'static str = "invalid socket address syntax";

fn parse_octet(s: &[char]) -> (r: Option<u8>)
    ensures
        r == octet(s@),
{
    proof {
        crate::number::scanned_is_value(s@, 255);
    }
    match parse_number(s, 255) {
        Some(v) => if s.len() > 1 && s[0] == '0' {
            None
        } else {
            Some(v as u8)
        },
        None => None,
    }
}

fn parse_ipv4(s: &[char]) -> (r: Option<Ipv4Addr>)
    ensures
        r == ipv4(s@),
{
    let parts = split_chars(s, '.');
    let ghost spec_parts = crate::text::split(s@, '.');
    if parts.len() != 4 {
        assert(crate::text::pieces(parts@).len() == parts.len());
        return None;
    }
    assert(parts[0]@ == spec_parts[0] && parts[1]@ == spec_parts[1] && parts[2]@ == spec_parts[2]
        && parts[3]@ == spec_parts[3]);
    match (
        parse_octet(parts[0].as_slice()),
        parse_octet(parts[1].as_slice()),
        parse_octet(parts[2].as_slice()),
        parse_octet(parts[3].as_slice()),
    ) {
        (Some(a), Some(b), Some(c), Some(d)) => Some(Ipv4Addr { a, b, c, d }),
        _ => None,
    }
}

fn parse_hex_digit(c: char) -> (r: Option<u16>)
    ensures
        match r {
            Some(v) => hex_digit(c) == Some(v as nat) && v < 16,
            None => hex_digit(c) is None,
        },
{
    let u: u32 = c as u32;
    if 0x30 <= u && u <= 0x39 {
        Some((u - 0x30) as u16)
    } else if 0x41 <= u && u <= 0x46 {
        Some((u - 0x41 + 10) as u16)
    } else if 0x61 <= u && u <= 0x66 {
        Some((u - 0x61 + 10) as u16)
    } else {
        None
    }
}

proof fn lemma_no_hex_value(s: Seq<char>, k: int)
    requires
        0 <= k <= s.len(),
        hex_value(s.take(k)) is None,
    ensures
        hex_value(s) is None,
    decreases s.len() - k,
{
    if k < s.len() {
        assert(s.take(k + 1).drop_last() =~= s.take(k));
        lemma_no_hex_value(s, k + 1);
    } else {
        assert(s.take(k) =~= s);
    }
}

fn parse_group(s: &[char]) -> (r: Option<u16>)
    ensures
        r == group(s@),
{
    if s.len() < 1 || s.len() > 4 {
        return None;
    }
    let mut i: usize = 0;
    let mut acc: u32 = 0;
    let mut limit: u32 = 1;
    assert(s@.take(0) =~= Seq::<char>::empty());
    while i < s.len()
        invariant
            i <= s.len() <= 4,
            acc < limit,
            i == 0 ==> limit == 1,
            i == 1 ==> limit == 0x10,
            i == 2 ==> limit == 0x100,
            i == 3 ==> limit == 0x1000,
            i == 4 ==> limit == 0x1_0000,
            hex_value(s@.take(i as int)) == Some(acc as nat),
        decreases s.len() - i,
    {
        let ghost next = s@.take(i + 1);
        assert(next.drop_last() =~= s@.take(i as int));
        assert(next.last() == s@[i as int]);
        match parse_hex_digit(s[i]) {
            Some(d) => {
                acc = 16 * acc + (d as u32);
                limit = 16 * limit;
            },
            None => {
                proof {
                    lemma_no_hex_value(s@, i + 1);
                }
                return None;
            },
        }
        i = i + 1;
    }
    assert(s@.take(i as int) =~= s@);
    Some(acc as u16)
}

fn parse_groups(parts: &Vec<Vec<char>>, last_dotted: bool) -> (r: Option<Vec<u16>>)
    ensures
        match r {
            Some(v) => groups(crate::text::pieces(parts@), last_dotted) == Some(v@),
            None => groups(crate::text::pieces(parts@), last_dotted) is None,
        },
{
    let ghost all = crate::text::pieces(parts@);
    let n: usize = parts.len();
    let mut i: usize = 0;
    let mut acc: Vec<u16> = Vec::new();
    assert(all.skip(0) =~= all);
    proof {
        if let Some(rest) = groups(all, last_dotted) {
            assert(acc@ + rest =~= rest);
        }
    }
    while i < n
        invariant
            i <= n == parts.len(),
            all == crate::text::pieces(parts@),
            match groups(all.skip(i as int), last_dotted) {
                Some(rest) => groups(all, last_dotted) == Some(acc@ + rest),
                None => groups(all, last_dotted) is None,
            },
        decreases n - i,
    {
        let ghost here = all.skip(i as int);
        assert(here[0] == parts@[i as int]@);
        assert(here.drop_first() =~= all.skip(i + 1));
        if last_dotted && i + 1 == n {
            if let Some(ip) = parse_ipv4(parts[i].as_slice()) {
                let ghost before = acc@;
                acc.push((ip.a as u16) * 0x100 + (ip.b as u16));
                acc.push((ip.c as u16) * 0x100 + (ip.d as u16));
                assert(acc@ =~= before + embedded(ip));
                return Some(acc);
            }
        }
        match parse_group(parts[i].as_slice()) {
            Some(g) => {
                let ghost before = acc@;
                acc.push(g);
                proof {
                    if let Some(rest) = groups(here.drop_first(), last_dotted) {
                        assert(before + (seq![g] + rest) =~= acc@ + rest);
                    }
                }
            },
            None => {
                return None;
            },
        }
        i = i + 1;
    }
    assert(all.skip(i as int) =~= Seq::<Seq<char>>::empty());
    assert(acc@ + Seq::<u16>::empty() =~= acc@);
    Some(acc)
}

fn parse_side(s: &[char], last_dotted: bool) -> (r: Option<Vec<u16>>)
    ensures
        match r {
            Some(v) => side(s@, last_dotted) == Some(v@),
            None => side(s@, last_dotted) is None,
        },
{
    if s.len() == 0 {
        let v: Vec<u16> = Vec::new();
        assert(v@ =~= seq![]);
        return Some(v);
    }
    let parts = split_chars(s, ':');
    parse_groups(&parts, last_dotted)
}

fn locate(s: &[char], c: char) -> (k: usize)
    ensures
        k == crate::text::find(s@, c),
        k <= s@.len(),
{
    let mut k: usize = 0;
    while k < s.len() && s[k] != c
        invariant
            k <= s.len(),
            forall|j: int| 0 <= j < k ==> s@[j] != c,
        decreases s.len() - k,
    {
        k = k + 1;
    }
    proof {
        crate::text::lemma_find_is(s@, c, k as int);
    }
    k
}

fn locate_gap(s: &[char]) -> (k: usize)
    ensures
        k == find_gap(s@),
        k < s@.len() ==> k + 2 <= s@.len(),
{
    let n: usize = s.len();
    let mut k: usize = 0;
    assert(s@.skip(0) =~= s@);
    while k < n
        invariant
            k <= n == s.len(),
            find_gap(s@) == k + find_gap(s@.skip(k as int)),
        decreases n - k,
    {
        let ghost here = s@.skip(k as int);
        if n - k < 2 {
            return n;
        }
        if s[k] == ':' && s[k + 1] == ':' {
            assert(here[0] == ':' && here[1] == ':');
            return k;
        }
        assert(here.drop_first() =~= s@.skip(k + 1));
        k = k + 1;
    }
    k
}

fn to_segments(v: &Vec<u16>) -> (r: Ipv6Addr)
    requires
        v@.len() == 8,
    ensures
        r.segments@ == v@,
{
    let r = Ipv6Addr { segments: [v[0], v[1], v[2], v[3], v[4], v[5], v[6], v[7]] };
    assert(r.segments@ =~= v@);
    r
}

fn parse_ipv6(s: &[char]) -> (r: Option<Ipv6Addr>)
    ensures
        match r {
            Some(ip) => ipv6(s@) == Some(ip.segments@),
            None => ipv6(s@) is None,
        },
{
    let k = locate_gap(s);
    if k < s.len() {
        let left = slice_subrange(s, 0, k);
        let right = slice_subrange(s, k + 2, s.len());
        assert(left@ =~= s@.take(k as int));
        assert(right@ =~= s@.skip(k + 2));
        let head = match parse_side(left, false) {
            Some(v) => v,
            None => {
                return None;
            },
        };
        let tail = match parse_side(right, true) {
            Some(v) => v,
            None => {
                return None;
            },
        };
        if head.len() > 7 || tail.len() > 7 - head.len() {
            return None;
        }
        let mut all: Vec<u16> = Vec::new();
        let mut i: usize = 0;
        while i < 8
            invariant
                i <= 8,
                head.len() + tail.len() <= 7,
                all@.len() == i,
                forall|j: int|
                    0 <= j < i ==> all@[j] == (if j < head@.len() {
                        head@[j]
                    } else if j < 8 - tail@.len() {
                        0u16
                    } else {
                        tail@[j - (8 - tail@.len())]
                    }),
            decreases 8 - i,
        {
            if i < head.len() {
                all.push(head[i]);
            } else if i < 8 - tail.len() {
                all.push(0);
            } else {
                all.push(tail[i - (8 - tail.len())]);
            }
            i = i + 1;
        }
        assert(all@ =~= head@ + zeros(8 - head@.len() - tail@.len()) + tail@);
        Some(to_segments(&all))
    } else {
        let parts = split_chars(s, ':');
        match parse_groups(&parts, true) {
            Some(all) => if all.len() == 8 {
                Some(to_segments(&all))
            } else {
                None
            },
            None => None,
        }
    }
}

fn parse_port(s: &[char]) -> (r: Option<u16>)
    ensures
        r == port_number(s@),
{
    proof {
        crate::number::scanned_is_value(s@, 0xffff);
    }
    match parse_number(s, 0xffff) {
        Some(v) => Some(v as u16),
        None => None,
    }
}

fn parse_scoped(s: &[char]) -> (r: Option<(Ipv6Addr, u32)>)
    ensures
        match r {
            Some((ip, scope)) => scoped(s@) == Some((ip.segments@, scope)),
            None => scoped(s@) is None,
        },
{
    let k = locate(s, '%');
    if k < s.len() {
        let left = slice_subrange(s, 0, k);
        let right = slice_subrange(s, k + 1, s.len());
        assert(left@ =~= s@.take(k as int));
        assert(right@ =~= s@.skip(k + 1));
        proof {
            crate::number::scanned_is_value(right@, 0xffff_ffff);
        }
        match (parse_ipv6(left), parse_number(right, 0xffff_ffff)) {
            (Some(ip), Some(scope)) => Some((ip, scope as u32)),
            _ => None,
        }
    } else {
        match parse_ipv6(s) {
            Some(ip) => Some((ip, 0)),
            None => None,
        }
    }
}

/// `value` as a socket address.
pub fn parse_socket_addr(value: &str) -> (r: Option<SocketAddr>)
    ensures
        match r {
            Some(addr) => socket_addr(value@) == Some(addr@),
            None => socket_addr(value@) is None,
        },
{
    reveal(socket_addr);
    let v = chars_of(value);
    let n: usize = v.len();
    if n > 0 && v[0] == '[' {
        let s = slice_subrange(v.as_slice(), 1, n);
        assert(s@ =~= value@.drop_first());
        let k = locate(s, ']');
        if s.len() - k >= 2 && s[k + 1] == ':' {
            let left = slice_subrange(s, 0, k);
            let right = slice_subrange(s, k + 2, s.len());
            assert(left@ =~= s@.take(k as int));
            assert(right@ =~= s@.skip(k + 2));
            match (parse_scoped(left), parse_port(right)) {
                (Some((ip6, scope_id)), Some(port)) => Some(SocketAddr::V6 { ip6, scope_id, port }),
                _ => None,
            }
        } else {
            None
        }
    } else {
        let s = v.as_slice();
        let k = locate(s, ':');
        if k < s.len() {
            let left = slice_subrange(s, 0, k);
            let right = slice_subrange(s, k + 1, s.len());
            assert(left@ =~= s@.take(k as int));
            assert(right@ =~= s@.skip(k + 1));
            match (parse_ipv4(left), parse_port(right)) {
                (Some(ip), Some(port)) => Some(SocketAddr::V4 { ip, port }),
                _ => None,
            }
        } else {
            None
        }
    }
}

/// Addresses are ordered octet by octet, the first one first.
pub proof fn addresses_are_ordered_octet_by_octet(x: Ipv4Addr, y: Ipv4Addr)
    ensures
        x.bits() < y.bits() <==> {
            ||| x.a < y.a
            ||| x.a == y.a && x.b < y.b
            ||| x.a == y.a && x.b == y.b && x.c < y.c
            ||| x.a == y.a && x.b == y.b && x.c == y.c && x.d < y.d
        },
{
}

/// A text is a socket address of IPv4 exactly where it is the address in dotted decimal, a colon,
/// and digits that write the port.
pub proof fn socket_v4_is_address_and_port(s: Seq<char>, ip: Ipv4Addr, port: u16)
    ensures
        socket_addr(s) == Some(SocketAddrView::V4 { ip, port }) <==> exists|p: Seq<char>|
            {
                &&& #[trigger] (ip.text() + ":"@ + p) == s
                &&& p.len() > 0
                &&& crate::number::digits(p)
                &&& crate::number::value(p) == port
            },
{
    reveal(socket_addr);
    reveal_strlit(":");
    let t = ip.text();
    lemma_address_text(ip);
    if socket_addr(s) == Some(SocketAddrView::V4 { ip, port }) {
        let k = crate::text::find(s, ':');
        crate::text::lemma_find(s, ':');
        let p = s.skip(k + 1);
        crate::number::scanned_is_value(p, 0xffff);
        ipv4_is_canonical(s.take(k), ip);
        assert(t + ":"@ + p =~= s);
    }
    if exists|p: Seq<char>|
        {
            &&& #[trigger] (ip.text() + ":"@ + p) == s
            &&& p.len() > 0
            &&& crate::number::digits(p)
            &&& crate::number::value(p) == port
        } {
        let p = choose|p: Seq<char>|
            {
                &&& #[trigger] (ip.text() + ":"@ + p) == s
                &&& p.len() > 0
                &&& crate::number::digits(p)
                &&& crate::number::value(p) == port
            };
        crate::number::scanned_is_value(p, 0xffff);
        crate::text::lemma_find_is(s, ':', t.len() as int);
        assert(s.take(t.len() as int) =~= t);
        assert(s.skip(t.len() as int + 1) =~= p);
        assert(s[0] == t[0]);
        ipv4_is_canonical(t, ip);
    }
}

/// An address in dotted decimal holds digits and dots, and begins with a digit.
proof fn lemma_address_text(ip: Ipv4Addr)
    ensures
        ip.text().len() > 0,
        crate::number::digit(ip.text()[0]),
        forall|i: int|
            0 <= i < ip.text().len() ==> #[trigger] ip.text()[i] == '.' || crate::number::digit(
                ip.text()[i],
            ),
{
    reveal_strlit(".");
    let t = ip.text();
    let na = crate::number::decimal(ip.a as nat);
    let nb = crate::number::decimal(ip.b as nat);
    let nc = crate::number::decimal(ip.c as nat);
    let nd = crate::number::decimal(ip.d as nat);
    crate::number::decimal_reads_back(ip.a as nat);
    crate::number::decimal_reads_back(ip.b as nat);
    crate::number::decimal_reads_back(ip.c as nat);
    crate::number::decimal_reads_back(ip.d as nat);
    assert forall|i: int| 0 <= i < t.len() implies #[trigger] t[i] == '.' || crate::number::digit(
        t[i],
    ) by {
        let b0 = na.len() as int;
        let c0 = b0 + 1 + nb.len();
        let d0 = c0 + 1 + nc.len();
        if i < b0 {
            assert(t[i] == na[i]);
        } else if i == b0 {
        } else if i < c0 {
            assert(t[i] == nb[i - b0 - 1]);
        } else if i == c0 {
        } else if i < d0 {
            assert(t[i] == nc[i - c0 - 1]);
        } else if i == d0 {
        } else {
            assert(t[i] == nd[i - d0 - 1]);
        }
    }
    assert(t[0] == na[0]);
}

/// The hexadecimal digits have the values from 0 to 15, in either case, and a digit behind others
/// counts one sixteenth of what it would count before them.
pub proof fn hexadecimal_counts_by_sixteens(s: Seq<char>, c: char)
    ensures
        hex_value(Seq::<char>::empty()) == Some(0nat),
        '0' <= c <= '9' ==> hex_digit(c) == Some((c as u32 - '0' as u32) as nat),
        'a' <= c <= 'f' ==> hex_digit(c) == Some((c as u32 - 'a' as u32 + 10) as nat),
        'A' <= c <= 'F' ==> hex_digit(c) == Some((c as u32 - 'A' as u32 + 10) as nat),
        hex_digit(c) is Some ==> '0' <= c <= '9' || 'a' <= c <= 'f' || 'A' <= c <= 'F',
        hex_value(s) is Some && hex_digit(c) is Some ==> hex_value(s.push(c)) == Some(
            16 * hex_value(s)->0 + hex_digit(c)->0,
        ),
        hex_value(s) is None || hex_digit(c) is None ==> hex_value(s.push(c)) is None,
{
    assert(s.push(c).drop_last() =~= s);
}

/// A group is one to four hexadecimal digits.
pub proof fn groups_are_short_hexadecimal_numbers(s: Seq<char>)
    ensures
        group(s) is Some <==> 1 <= s.len() <= 4 && hex_value(s) is Some,
        group(s) is Some ==> group(s)->0 as nat == hex_value(s)->0,
{
    if 1 <= s.len() <= 4 && hex_value(s) is Some {
        lemma_hex_bound(s);
    }
}

proof fn lemma_hex_bound(s: Seq<char>)
    requires
        s.len() <= 4,
        hex_value(s) is Some,
    ensures
        s.len() == 0 ==> hex_value(s)->0 == 0,
        s.len() == 1 ==> hex_value(s)->0 < 0x10,
        s.len() == 2 ==> hex_value(s)->0 < 0x100,
        s.len() == 3 ==> hex_value(s)->0 < 0x1000,
        s.len() == 4 ==> hex_value(s)->0 < 0x1_0000,
    decreases s.len(),
{
    if s.len() > 0 {
        lemma_hex_bound(s.drop_last());
    }
}

/// Parts are read one by one, in order. Only the last one may be an IPv4 address, and only where
/// that is allowed; it stands for two groups, two octets each.
pub proof fn parts_are_read_in_order(parts: Seq<Seq<char>>, last: Seq<char>, dotted: bool)
    ensures
        groups(Seq::<Seq<char>>::empty(), dotted) == Some(Seq::<u16>::empty()),
        ({
            let head = groups(parts, false);
            let all = groups(parts.push(last), dotted);
            &&& dotted && ipv4(last) is Some && head is Some ==> all == Some(
                head->0.push((ipv4(last)->0.a * 256 + ipv4(last)->0.b) as u16).push(
                    (ipv4(last)->0.c * 256 + ipv4(last)->0.d) as u16,
                ),
            )
            &&& !(dotted && ipv4(last) is Some) && head is Some && group(last) is Some ==> all
                == Some(head->0.push(group(last)->0))
            &&& head is None ==> all is None
            &&& !(dotted && ipv4(last) is Some) && group(last) is None ==> all is None
        }),
    decreases parts.len(),
{
    let whole = parts.push(last);
    let none = Seq::<Seq<char>>::empty();
    assert(groups(none, dotted) == Some(Seq::<u16>::empty()));
    if parts.len() == 0 {
        assert(whole.drop_first() =~= none);
        assert(parts =~= none);
        if group(last) is Some {
            assert(seq![group(last)->0] + Seq::<u16>::empty() =~= Seq::<u16>::empty().push(
                group(last)->0,
            ));
        }
        if ipv4(last) is Some {
            assert(embedded(ipv4(last)->0) =~= Seq::<u16>::empty().push(
                (ipv4(last)->0.a * 256 + ipv4(last)->0.b) as u16,
            ).push((ipv4(last)->0.c * 256 + ipv4(last)->0.d) as u16));
        }
    } else {
        let rest = parts.drop_first();
        parts_are_read_in_order(rest, last, dotted);
        assert(whole.drop_first() =~= rest.push(last));
        assert(whole[0] == parts[0]);
        if groups(parts, false) is Some {
            let g = group(parts[0])->0;
            let r = groups(rest, false)->0;
            if dotted && ipv4(last) is Some {
                let hi = (ipv4(last)->0.a * 256 + ipv4(last)->0.b) as u16;
                let lo = (ipv4(last)->0.c * 256 + ipv4(last)->0.d) as u16;
                assert(seq![g] + r.push(hi).push(lo) =~= (seq![g] + r).push(hi).push(lo));
            } else if group(last) is Some {
                assert(seq![g] + r.push(group(last)->0) =~= (seq![g] + r).push(group(last)->0));
            }
        }
    }
}

/// Whether each part holds something, and no colon.
pub open spec fn plain(parts: Seq<Seq<char>>) -> bool {
    forall|i: int|
        0 <= i < parts.len() ==> (#[trigger] parts[i]).len() > 0 && !parts[i].contains(':')
}

proof fn lemma_find_gap_is(s: Seq<char>, k: int)
    requires
        0 <= k <= s.len(),
        forall|j: int| 0 <= j < k && j + 1 < s.len() ==> !(#[trigger] s[j] == ':' && s[j + 1] == ':'),
        k < s.len() ==> k + 1 < s.len() && s[k] == ':' && s[k + 1] == ':',
    ensures
        find_gap(s) == k,
    decreases s.len(),
{
    if s.len() >= 2 && k > 0 {
        let t = s.drop_first();
        assert(!(s[0] == ':' && s[1] == ':'));
        assert forall|j: int| 0 <= j < k - 1 && j + 1 < t.len() implies !(#[trigger] t[j] == ':'
            && t[j + 1] == ':') by {
            assert(t[j] == s[j + 1] && t[j + 1] == s[j + 2]);
        }
        lemma_find_gap_is(t, k - 1);
    }
}

proof fn lemma_join_has_no_gap(parts: Seq<Seq<char>>)
    requires
        plain(parts),
    ensures
        ({
            let s = crate::text::join(parts, ':');
            &&& parts.len() > 0 <==> s.len() > 0
            &&& s.len() > 0 ==> s[0] != ':' && s.last() != ':'
            &&& forall|j: int|
                0 <= j < s.len() - 1 ==> !(#[trigger] s[j] == ':' && s[j + 1] == ':')
        }),
    decreases parts.len(),
{
    let s = crate::text::join(parts, ':');
    if parts.len() > 0 {
        let p = parts[0];
        assert(p.len() > 0 && !p.contains(':'));
        assert forall|j: int| 0 <= j < p.len() implies #[trigger] p[j] != ':' by {
            assert(p.contains(p[j]));
        }
        if parts.len() > 1 {
            let rest = parts.drop_first();
            assert forall|i: int| 0 <= i < rest.len() implies (#[trigger] rest[i]).len() > 0
                && !rest[i].contains(':') by {
                assert(rest[i] == parts[i + 1]);
            }
            lemma_join_has_no_gap(rest);
            let r = crate::text::join(rest, ':');
            assert(s == p + seq![':'] + r);
            assert(s.last() == r.last());
            assert(s[0] == p[0]);
            assert forall|j: int| 0 <= j < s.len() - 1 implies !(#[trigger] s[j] == ':' && s[j + 1]
                == ':') by {
                if j < p.len() {
                    assert(s[j] == p[j]);
                } else if j == p.len() {
                    assert(s[j + 1] == r[0]);
                } else {
                    let m = j - p.len() - 1;
                    assert(s[j] == r[m] && s[j + 1] == r[m + 1]);
                }
            }
        } else {
            assert(s == p);
            assert(s.last() == p[p.len() - 1]);
        }
    }
}

proof fn lemma_side(parts: Seq<Seq<char>>, dotted: bool)
    requires
        plain(parts),
    ensures
        side(crate::text::join(parts, ':'), dotted) == groups(parts, dotted),
{
    lemma_join_has_no_gap(parts);
    if parts.len() > 0 {
        assert forall|i: int| 0 <= i < parts.len() implies !(#[trigger] parts[i]).contains(':') by {
        }
        crate::text::join_splits_back(parts, ':');
    } else {
        assert(parts =~= Seq::<Seq<char>>::empty());
        assert(crate::text::join(parts, ':').len() == 0);
    }
}

/// An IPv6 address without `::` is eight groups with colons between them.
pub proof fn ipv6_is_eight_groups(parts: Seq<Seq<char>>)
    requires
        plain(parts),
        parts.len() > 0,
    ensures
        ipv6(crate::text::join(parts, ':')) == (match groups(parts, true) {
            Some(all) => if all.len() == 8 {
                Some(all)
            } else {
                None
            },
            None => None,
        }),
{
    let s = crate::text::join(parts, ':');
    lemma_join_has_no_gap(parts);
    lemma_find_gap_is(s, s.len() as int);
    crate::text::join_splits_back(parts, ':');
}

/// An IPv6 address with `::` has groups before it and behind it, seven at most; the groups that are
/// left out between them are zero.
pub proof fn ipv6_gap_stands_for_zeros(head: Seq<Seq<char>>, tail: Seq<Seq<char>>)
    requires
        plain(head),
        plain(tail),
    ensures
        ({
            let s = crate::text::join(head, ':') + seq![':', ':'] + crate::text::join(tail, ':');
            match (groups(head, false), groups(tail, true)) {
                (Some(a), Some(b)) => {
                    &&& a.len() + b.len() > 7 ==> ipv6(s) is None
                    &&& a.len() + b.len() <= 7 ==> {
                        &&& ipv6(s) is Some
                        &&& ipv6(s)->0.len() == 8
                        &&& ipv6(s)->0.take(a.len() as int) == a
                        &&& ipv6(s)->0.skip(8 - b.len()) == b
                        &&& forall|i: int|
                            a.len() <= i < 8 - b.len() ==> #[trigger] (ipv6(s)->0)[i] == 0
                    }
                },
                _ => ipv6(s) is None,
            }
        }),
{
    let h = crate::text::join(head, ':');
    let t = crate::text::join(tail, ':');
    let s = h + seq![':', ':'] + t;
    let k = h.len() as int;
    lemma_join_has_no_gap(head);
    assert forall|j: int| 0 <= j < k && j + 1 < s.len() implies !(#[trigger] s[j] == ':' && s[j + 1]
        == ':') by {
        assert(s[j] == h[j]);
        if j + 1 < k {
            assert(s[j + 1] == h[j + 1]);
        } else {
            assert(h[j] == h.last());
        }
    }
    assert(s[k] == ':' && s[k + 1] == ':');
    lemma_find_gap_is(s, k);
    assert(s.take(k) =~= h);
    assert(s.skip(k + 2) =~= t);
    lemma_side(head, false);
    lemma_side(tail, true);
    match (groups(head, false), groups(tail, true)) {
        (Some(a), Some(b)) => {
            if a.len() + b.len() <= 7 {
                let r = ipv6(s)->0;
                assert(r.take(a.len() as int) =~= a);
                assert(r.skip(8 - b.len()) =~= b);
            }
        },
        _ => {},
    }
}

proof fn lemma_groups_are_not_empty(parts: Seq<Seq<char>>, dotted: bool)
    requires
        groups(parts, dotted) is Some,
    ensures
        forall|i: int| 0 <= i < parts.len() ==> (#[trigger] parts[i]).len() > 0,
    decreases parts.len(),
{
    if dotted && parts.len() == 1 && ipv4(parts[0]) is Some {
        crate::text::split_joins_back(parts[0], '.');
        if parts[0].len() == 0 {
            assert(crate::text::find(parts[0], '.') == 0);
            assert(crate::text::split(parts[0], '.').len() == 1);
        }
    } else if parts.len() > 0 {
        let rest = parts.drop_first();
        lemma_groups_are_not_empty(rest, dotted);
        assert forall|i: int| 0 <= i < parts.len() implies (#[trigger] parts[i]).len() > 0 by {
            if i > 0 {
                assert(parts[i] == rest[i - 1]);
            }
        }
    }
}

proof fn lemma_side_parts(s: Seq<char>, dotted: bool) -> (parts: Seq<Seq<char>>)
    requires
        side(s, dotted) is Some,
    ensures
        plain(parts),
        crate::text::join(parts, ':') == s,
{
    if s.len() == 0 {
        let parts = Seq::<Seq<char>>::empty();
        assert(crate::text::join(parts, ':') =~= s);
        parts
    } else {
        let parts = crate::text::split(s, ':');
        crate::text::split_joins_back(s, ':');
        lemma_groups_are_not_empty(parts, dotted);
        parts
    }
}

proof fn lemma_find_gap(s: Seq<char>)
    ensures
        0 <= find_gap(s) <= s.len(),
        find_gap(s) < s.len() ==> find_gap(s) + 1 < s.len() && s[find_gap(s)] == ':' && s[find_gap(s)
            + 1] == ':',
    decreases s.len(),
{
    if s.len() >= 2 && !(s[0] == ':' && s[1] == ':') {
        lemma_find_gap(s.drop_first());
    }
}

/// Nothing else is an IPv6 address: its text is made of parts that hold something, with colons
/// between them, and of at most one `::`.
pub proof fn ipv6_is_parts_with_colons(s: Seq<char>)
    requires
        ipv6(s) is Some,
    ensures
        ({
            ||| exists|parts: Seq<Seq<char>>| #[trigger]
                plain(parts) && parts.len() > 0 && crate::text::join(parts, ':') == s
            ||| exists|head: Seq<Seq<char>>, tail: Seq<Seq<char>>| #[trigger]
                plain(head) && #[trigger] plain(tail) && crate::text::join(head, ':') + seq![
                    ':',
                    ':',
                ] + crate::text::join(tail, ':') == s
        }),
{
    let k = find_gap(s);
    lemma_find_gap(s);
    if k < s.len() {
        let head = lemma_side_parts(s.take(k), false);
        let tail = lemma_side_parts(s.skip(k + 2), true);
        assert(s.take(k) + seq![':', ':'] + s.skip(k + 2) =~= s);
        assert(plain(head) && plain(tail));
    } else {
        let parts = crate::text::split(s, ':');
        crate::text::split_joins_back(s, ':');
        lemma_groups_are_not_empty(parts, true);
        assert(plain(parts));
    }
}

/// A text is a socket address of IPv6 exactly where it is an address in brackets, a colon, and
/// digits that write the port.
pub proof fn socket_v6_is_bracketed_address_and_port(
    s: Seq<char>,
    segments: Seq<u16>,
    scope_id: u32,
    port: u16,
)
    ensures
        socket_addr(s) == Some(SocketAddrView::V6 { segments, scope_id, port }) <==> exists|k: int|
            {
                &&& 1 <= k < s.len() - 2
                &&& s[0] == '[' && s[k] == ']' && s[k + 1] == ':'
                &&& !(#[trigger] s.subrange(1, k)).contains(']')
                &&& scoped(s.subrange(1, k)) == Some((segments, scope_id))
                &&& crate::number::digits(s.skip(k + 2))
                &&& crate::number::value(s.skip(k + 2)) == port
            },
{
    reveal(socket_addr);
    let t = s.drop_first();
    if socket_addr(s) == Some(SocketAddrView::V6 { segments, scope_id, port }) {
        let k = crate::text::find(t, ']');
        crate::text::lemma_find(t, ']');
        assert(s.subrange(1, k + 1) =~= t.take(k));
        assert(s.skip(k + 3) =~= t.skip(k + 2));
        crate::number::scanned_is_value(t.skip(k + 2), 0xffff);
        if t.take(k).contains(']') {
            let i = choose|i: int| 0 <= i < t.take(k).len() && t.take(k)[i] == ']';
            assert(t[i] == ']');
        }
        assert(t[k] == s[k + 1] && t[k + 1] == s[k + 2]);
    }
    if exists|k: int|
        {
            &&& 1 <= k < s.len() - 2
            &&& s[0] == '[' && s[k] == ']' && s[k + 1] == ':'
            &&& !(#[trigger] s.subrange(1, k)).contains(']')
            &&& scoped(s.subrange(1, k)) == Some((segments, scope_id))
            &&& crate::number::digits(s.skip(k + 2))
            &&& crate::number::value(s.skip(k + 2)) == port
        } {
        let k = choose|k: int|
            {
                &&& 1 <= k < s.len() - 2
                &&& s[0] == '[' && s[k] == ']' && s[k + 1] == ':'
                &&& !(#[trigger] s.subrange(1, k)).contains(']')
                &&& scoped(s.subrange(1, k)) == Some((segments, scope_id))
                &&& crate::number::digits(s.skip(k + 2))
                &&& crate::number::value(s.skip(k + 2)) == port
            };
        assert(t.take(k - 1) =~= s.subrange(1, k));
        assert(t.skip(k + 1) =~= s.skip(k + 2));
        assert forall|j: int| 0 <= j < k - 1 implies t[j] != ']' by {
            assert(s.subrange(1, k).contains(s.subrange(1, k)[j]));
        }
        crate::text::lemma_find_is(t, ']', k - 1);
        assert(t[k - 1] == ']' && t[k] == ':');
        crate::number::scanned_is_value(s.skip(k + 2), 0xffff);
    }
}

/// An address by itself has the scope zero; behind a percent sign stands its scope.
pub proof fn scope_stands_behind_the_address(a: Seq<char>, n: Seq<char>)
    requires
        !a.contains('%'),
    ensures
        scoped(a) == (match ipv6(a) {
            Some(segments) => Some((segments, 0u32)),
            None => None,
        }),
        ipv6(a) is Some && n.len() > 0 && crate::number::digits(n) && crate::number::value(n)
            <= 0xffff_ffff ==> scoped(a + seq!['%'] + n) == Some(
            (ipv6(a)->0, crate::number::value(n) as u32),
        ),
        ipv6(a) is None || n.len() == 0 || !crate::number::digits(n) || crate::number::value(n)
            > 0xffff_ffff ==> scoped(a + seq!['%'] + n) is None,
{
    let s = a + seq!['%'] + n;
    assert forall|j: int| 0 <= j < a.len() implies a[j] != '%' by {
        assert(a.contains(a[j]));
    }
    crate::text::lemma_find_is(a, '%', a.len() as int);
    assert forall|j: int| 0 <= j < a.len() implies s[j] != '%' by {
        assert(s[j] == a[j]);
    }
    crate::text::lemma_find_is(s, '%', a.len() as int);
    assert(s.take(a.len() as int) =~= a);
    assert(s.skip(a.len() as int + 1) =~= n);
    crate::number::scanned_is_value(n, 0xffff_ffff);
}

} // verus!
