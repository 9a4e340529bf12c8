//! IPv4 addresses: dotted-quad text, 32-bit values, and prefix masks.
use vstd::prelude::*;

use crate::dhcp::error::DhcpError;
use crate::text::{
    all_digits, chars_of, dec_text, digit_value, digits_value, is_digit, lemma_dec_text,
    lemma_dec_text_injective, lemma_digits_are_dec_text, owned, push_dec,
};

verus! {

/// An IPv4 address, most significant octet first.
#[derive(Clone, Copy, PartialEq, Eq, Structural, Debug)]
pub struct Ipv4 {
    pub o0: u8,
    pub o1: u8,
    pub o2: u8,
    pub o3: u8,
}

/// The big-endian 32-bit value of an address.
pub open spec fn ipv4_value(a: Ipv4) -> u32 {
    ((a.o0 as u32) << 24u32) | ((a.o1 as u32) << 16u32) | ((a.o2 as u32) << 8u32) | (a.o3 as u32)
}

/// The address whose big-endian 32-bit value is `x`.
pub open spec fn ipv4_of_value(x: u32) -> Ipv4 {
    Ipv4 {
        o0: ((x >> 24u32) & 0xffu32) as u8,
        o1: ((x >> 16u32) & 0xffu32) as u8,
        o2: ((x >> 8u32) & 0xffu32) as u8,
        o3: (x & 0xffu32) as u8,
    }
}

/// The four octets of an address, in order.
pub open spec fn ipv4_octets(a: Ipv4) -> Seq<u8> {
    seq![a.o0, a.o1, a.o2, a.o3]
}

/// The dotted-quad text of an address, each octet in decimal without leading zeros.
pub open spec fn ipv4_text(a: Ipv4) -> Seq<char> {
    dec_text(a.o0 as nat) + seq!['.'] + dec_text(a.o1 as nat) + seq!['.'] + dec_text(
        a.o2 as nat,
    ) + seq!['.'] + dec_text(a.o3 as nat)
}

/// The address that `s` spells in dotted-quad notation, if any.
pub open spec fn ipv4_of_text(s: Seq<char>) -> Option<Ipv4> {
    if exists|a: Ipv4| ipv4_text(a) == s {
        Some(choose|a: Ipv4| ipv4_text(a) == s)
    } else {
        None
    }
}

/// The mask of a prefix of `p` bits (`p` at most 32).
pub open spec fn prefix_mask(p: nat) -> u32 {
    if p == 0 {
        0u32
    } else {
        (0xffff_ffffu32 << ((32 - p) as u32)) as u32
    }
}

/// `x` and `y` lie in one network of prefix length `p`.
pub open spec fn same_network(x: u32, y: u32, p: nat) -> bool {
    x & prefix_mask(p) == y & prefix_mask(p)
}

impl Ipv4 {
    /// The address `a.b.c.d`.
    pub fn new(a: u8, b: u8, c: u8, d: u8) -> (r: Ipv4)
        ensures
            r == (Ipv4 { o0: a, o1: b, o2: c, o3: d }),
    {
        Ipv4 { o0: a, o1: b, o2: c, o3: d }
    }

    /// The address `0.0.0.0`.
    pub fn unspecified() -> (r: Ipv4)
        ensures
            r == (Ipv4 { o0: 0, o1: 0, o2: 0, o3: 0 }),
    {
        Ipv4 { o0: 0, o1: 0, o2: 0, o3: 0 }
    }

    /// The address is `0.0.0.0`.
    pub fn is_unspecified(&self) -> (r: bool)
        ensures
            r == (self.o0 == 0 && self.o1 == 0 && self.o2 == 0 && self.o3 == 0),
    {
        self.o0 == 0 && self.o1 == 0 && self.o2 == 0 && self.o3 == 0
    }

    /// The four octets, most significant first.
    pub fn octets(&self) -> (r: [u8; 4])
        ensures
            r@ == ipv4_octets(*self),
    {
        let r = [self.o0, self.o1, self.o2, self.o3];
        assert(r@ =~= ipv4_octets(*self));
        r
    }

    /// The address with big-endian value `x`.
    pub fn from_u32(x: u32) -> (r: Ipv4)
        ensures
            r == ipv4_of_value(x),
            ipv4_value(r) == x,
    {
        proof {
            lemma_value_roundtrip(x);
        }
        Ipv4 {
            o0: ((x >> 24u32) & 0xffu32) as u8,
            o1: ((x >> 16u32) & 0xffu32) as u8,
            o2: ((x >> 8u32) & 0xffu32) as u8,
            o3: (x & 0xffu32) as u8,
        }
    }
}

/// Value and octets determine each other.
pub proof fn lemma_value_roundtrip(x: u32)
    ensures
        ipv4_value(ipv4_of_value(x)) == x,
{
    let a = ((x >> 24u32) & 0xffu32) as u8;
    let b = ((x >> 16u32) & 0xffu32) as u8;
    let c = ((x >> 8u32) & 0xffu32) as u8;
    let d = (x & 0xffu32) as u8;
    assert(((((x >> 24u32) & 0xffu32) as u8) as u32) << 24u32 | ((((x >> 16u32) & 0xffu32) as u8)
        as u32) << 16u32 | ((((x >> 8u32) & 0xffu32) as u8) as u32) << 8u32 | (((x & 0xffu32) as u8)
        as u32) == x) by (bit_vector);
}

/// Octets and value determine each other.
pub proof fn lemma_octets_roundtrip(a: Ipv4)
    ensures
        ipv4_of_value(ipv4_value(a)) == a,
{
    let (p, q, r, s) = (a.o0, a.o1, a.o2, a.o3);
    let x = ipv4_value(a);
    assert((((((p as u32) << 24u32) | ((q as u32) << 16u32) | ((r as u32) << 8u32) | (s as u32))
        >> 24u32) & 0xffu32) as u8 == p) by (bit_vector);
    assert((((((p as u32) << 24u32) | ((q as u32) << 16u32) | ((r as u32) << 8u32) | (s as u32))
        >> 16u32) & 0xffu32) as u8 == q) by (bit_vector);
    assert((((((p as u32) << 24u32) | ((q as u32) << 16u32) | ((r as u32) << 8u32) | (s as u32))
        >> 8u32) & 0xffu32) as u8 == r) by (bit_vector);
    assert(((((p as u32) << 24u32) | ((q as u32) << 16u32) | ((r as u32) << 8u32) | (s as u32))
        & 0xffu32) as u8 == s) by (bit_vector);
}

/// The big-endian 32-bit value of `ip`.
pub fn ipv4_to_u32(ip: Ipv4) -> (r: u32)
    ensures
        r == ipv4_value(ip),
{
    ((ip.o0 as u32) << 24u32) | ((ip.o1 as u32) << 16u32) | ((ip.o2 as u32) << 8u32) | (ip.o3 as u32)
}

/// A sequence of one to three decimal digits, without a leading zero,
/// whose value fits in an octet.
pub open spec fn octet_text(f: Seq<char>) -> bool {
    &&& 1 <= f.len() <= 3
    &&& all_digits(f)
    &&& f.len() > 1 ==> (f[0] as u32) != 48
    &&& digits_value(f) <= 255
}

/// The characters `cs[start..end]` are an octet in decimal, and the run of
/// digits starting at `start` ends at `end`.
pub open spec fn octet_at(cs: Seq<char>, start: int, end: int) -> bool {
    &&& 0 <= start < end <= cs.len()
    &&& octet_text(cs.subrange(start, end))
    &&& (end == cs.len() || !is_digit(cs[end]))
}

/// The run of digits that starts at `start` has one end only.
pub proof fn lemma_octet_at_unique(cs: Seq<char>, start: int, e1: int, e2: int)
    requires
        octet_at(cs, start, e1),
        octet_at(cs, start, e2),
    ensures
        e1 == e2,
{
    if e1 < e2 {
        assert(cs.subrange(start, e2)[e1 - start] == cs[e1]);
    } else if e2 < e1 {
        assert(cs.subrange(start, e1)[e2 - start] == cs[e2]);
    }
}

/// The decimal text of an octet is an octet text.
pub proof fn lemma_octet_dec_text(n: u8)
    ensures
        octet_text(dec_text(n as nat)),
        digits_value(dec_text(n as nat)) == n,
{
    lemma_dec_text(n as nat);
}

/// Where the fields of the dotted-quad text of `a` begin and end.
pub proof fn lemma_text_fields(a: Ipv4)
    ensures
        ({
            let t = ipv4_text(a);
            let p0 = dec_text(a.o0 as nat).len() as int;
            let p1 = p0 + 1 + dec_text(a.o1 as nat).len();
            let p2 = p1 + 1 + dec_text(a.o2 as nat).len();
            &&& octet_at(t, 0, p0) && t[p0] == '.'
            &&& digits_value(t.subrange(0, p0)) == a.o0
            &&& octet_at(t, p0 + 1, p1) && t[p1] == '.'
            &&& digits_value(t.subrange(p0 + 1, p1)) == a.o1
            &&& octet_at(t, p1 + 1, p2) && t[p2] == '.'
            &&& digits_value(t.subrange(p1 + 1, p2)) == a.o2
            &&& octet_at(t, p2 + 1, t.len() as int)
            &&& digits_value(t.subrange(p2 + 1, t.len() as int)) == a.o3
        }),
{
    let t = ipv4_text(a);
    let d0 = dec_text(a.o0 as nat);
    let d1 = dec_text(a.o1 as nat);
    let d2 = dec_text(a.o2 as nat);
    let d3 = dec_text(a.o3 as nat);
    lemma_octet_dec_text(a.o0);
    lemma_octet_dec_text(a.o1);
    lemma_octet_dec_text(a.o2);
    lemma_octet_dec_text(a.o3);
    let p0 = d0.len() as int;
    let p1 = p0 + 1 + d1.len();
    let p2 = p1 + 1 + d2.len();
    assert(t.subrange(0, p0) =~= d0);
    assert(t.subrange(p0 + 1, p1) =~= d1);
    assert(t.subrange(p1 + 1, p2) =~= d2);
    assert(t.subrange(p2 + 1, t.len() as int) =~= d3);
    assert(t[p0] == '.');
    assert(t[p1] == '.');
    assert(t[p2] == '.');
    assert(!is_digit('.'));
}

/// Distinct addresses have distinct texts.
pub proof fn lemma_ipv4_text_injective(a: Ipv4, b: Ipv4)
    requires
        ipv4_text(a) == ipv4_text(b),
    ensures
        a == b,
{
    let t = ipv4_text(a);
    lemma_text_fields(a);
    lemma_text_fields(b);
    let pa0 = dec_text(a.o0 as nat).len() as int;
    let pa1 = pa0 + 1 + dec_text(a.o1 as nat).len();
    let pa2 = pa1 + 1 + dec_text(a.o2 as nat).len();
    let pb0 = dec_text(b.o0 as nat).len() as int;
    let pb1 = pb0 + 1 + dec_text(b.o1 as nat).len();
    let pb2 = pb1 + 1 + dec_text(b.o2 as nat).len();
    lemma_octet_at_unique(t, 0, pa0, pb0);
    lemma_octet_at_unique(t, pa0 + 1, pa1, pb1);
    lemma_octet_at_unique(t, pa1 + 1, pa2, pb2);
}

/// Parsing a dotted-quad text gives back the address it was made from.
pub proof fn lemma_ipv4_of_own_text(a: Ipv4)
    ensures
        ipv4_of_text(ipv4_text(a)) == Some(a),
{
    let b = choose|b: Ipv4| ipv4_text(b) == ipv4_text(a);
    lemma_ipv4_text_injective(a, b);
}

/// Reads the octet whose digits start at `start`.
fn parse_octet_at(cs: &Vec<char>, start: usize) -> (r: Option<(u8, usize)>)
    requires
        start <= cs.len(),
    ensures
        match r {
            Some((v, e)) => octet_at(cs@, start as int, e as int) && v == digits_value(
                cs@.subrange(start as int, e as int),
            ),
            None => forall|e: int| !octet_at(cs@, start as int, e),
        },
{
    let mut j: usize = start;
    let mut value: u32 = 0;
    while j < cs.len() && j - start < 4 && (cs[j] as u32) >= 48 && (cs[j] as u32) <= 57
        invariant
            start <= j <= cs.len(),
            j - start <= 4,
            all_digits(cs@.subrange(start as int, j as int)),
            value == digits_value(cs@.subrange(start as int, j as int)),
            value < (if j - start == 0 {
                1int
            } else if j - start == 1 {
                10
            } else if j - start == 2 {
                100
            } else if j - start == 3 {
                1000
            } else {
                10000
            }),
        decreases cs.len() - j,
    {
        let ghost prev = cs@.subrange(start as int, j as int);
        let d = (cs[j] as u32) - 48;
        value = value * 10 + d;
        j = j + 1;
        proof {
            let cur = cs@.subrange(start as int, j as int);
            assert(cur.drop_last() =~= prev);
            assert(cur.last() == cs@[j - 1]);
            assert forall|i: int| 0 <= i < cur.len() implies is_digit(#[trigger] cur[i]) by {
                if i < cur.len() - 1 {
                    assert(cur[i] == prev[i]);
                }
            }
        }
    }
    let len = j - start;
    proof {
        // Any octet starting here ends where the run of digits ends.
        assert forall|e: int| #[trigger] octet_at(cs@, start as int, e) implies e == j by {
            let f = cs@.subrange(start as int, e);
            if e < j {
                assert(cs@.subrange(start as int, j as int)[e - start] == cs@[e]);
            } else if e > j {
                assert(f[j - start] == cs@[j as int]);
                if j - start < 4 {
                    assert(!is_digit(cs@[j as int]));
                }
            }
        }
    }
    if len == 0 || len > 3 {
        return None;
    }
    if len > 1 && (cs[start] as u32) == 48 {
        assert(cs@.subrange(start as int, j as int)[0] == cs@[start as int]);
        return None;
    }
    if value > 255 {
        return None;
    }
    proof {
        assert(cs@.subrange(start as int, j as int)[0] == cs@[start as int]);
        if j < cs.len() {
            assert(!is_digit(cs@[j as int]));
        }
    }
    Some((value as u8, j))
}

/// Parses an IPv4 address in dotted-quad notation: four decimal octets
/// separated by `.`, each without leading zeros and at most 255.
pub fn parse_ipv4(value: &str) -> (r: Result<Ipv4, DhcpError>)
    ensures
        match r {
            Ok(a) => ipv4_text(a) == value@,
            Err(e) => ipv4_of_text(value@) is None && e == DhcpError::InvalidIpv4(e->InvalidIpv4_0)
                && e->InvalidIpv4_0@ == value@,
        },
        r is Ok <==> ipv4_of_text(value@) is Some,
        r matches Ok(a) ==> ipv4_of_text(value@) == Some(a),
{
    let cs = chars_of(value);
    let ghost t = cs@;
    let r = parse_chars(&cs);
    match r {
        Some(a) => {
            proof {
                lemma_ipv4_of_own_text(a);
            }
            Ok(a)
        },
        None => Err(DhcpError::InvalidIpv4(owned(value))),
    }
}

#[verifier::rlimit(40)]
fn parse_chars(cs: &Vec<char>) -> (r: Option<Ipv4>)
    ensures
        match r {
            Some(a) => ipv4_text(a) == cs@,
            None => forall|a: Ipv4| ipv4_text(a) != cs@,
        },
{
    let ghost t = cs@;
    let f0 = parse_octet_at(cs, 0);
    let (a, e0) = match f0 {
        Some(x) => x,
        None => {
            proof {
                assert forall|a: Ipv4| ipv4_text(a) != t by {
                    if ipv4_text(a) == t {
                        lemma_text_fields(a);
                    }
                }
            }
            return None;
        },
    };
    proof {
        assert forall|x: Ipv4| ipv4_text(x) == t implies x.o0 == a && dec_text(x.o0 as nat).len()
            == e0 by {
            lemma_text_fields(x);
            lemma_octet_at_unique(t, 0, e0 as int, dec_text(x.o0 as nat).len() as int);
        }
    }
    if e0 >= cs.len() || cs[e0] != '.' {
        proof {
            assert forall|x: Ipv4| ipv4_text(x) != t by {
                if ipv4_text(x) == t {
                    lemma_text_fields(x);
                }
            }
        }
        return None;
    }
    let s1 = e0 + 1;
    let (b, e1) = match parse_octet_at(cs, s1) {
        Some(x) => x,
        None => {
            proof {
                assert forall|a: Ipv4| ipv4_text(a) != t by {
                    if ipv4_text(a) == t {
                        lemma_text_fields(a);
                    }
                }
            }
            return None;
        },
    };
    proof {
        assert forall|x: Ipv4| ipv4_text(x) == t implies x.o1 == b && s1 + dec_text(x.o1 as nat).len()
            == e1 by {
            lemma_text_fields(x);
            lemma_octet_at_unique(t, s1 as int, e1 as int, s1 + dec_text(x.o1 as nat).len());
        }
    }
    if e1 >= cs.len() || cs[e1] != '.' {
        proof {
            assert forall|x: Ipv4| ipv4_text(x) != t by {
                if ipv4_text(x) == t {
                    lemma_text_fields(x);
                }
            }
        }
        return None;
    }
    let s2 = e1 + 1;
    let (c, e2) = match parse_octet_at(cs, s2) {
        Some(x) => x,
        None => {
            proof {
                assert forall|a: Ipv4| ipv4_text(a) != t by {
                    if ipv4_text(a) == t {
                        lemma_text_fields(a);
                    }
                }
            }
            return None;
        },
    };
    proof {
        assert forall|x: Ipv4| ipv4_text(x) == t implies x.o2 == c && s2 + dec_text(x.o2 as nat).len()
            == e2 by {
            lemma_text_fields(x);
            lemma_octet_at_unique(t, s2 as int, e2 as int, s2 + dec_text(x.o2 as nat).len());
        }
    }
    if e2 >= cs.len() || cs[e2] != '.' {
        proof {
            assert forall|x: Ipv4| ipv4_text(x) != t by {
                if ipv4_text(x) == t {
                    lemma_text_fields(x);
                }
            }
        }
        return None;
    }
    let s3 = e2 + 1;
    let (d, e3) = match parse_octet_at(cs, s3) {
        Some(x) => x,
        None => {
            proof {
                assert forall|a: Ipv4| ipv4_text(a) != t by {
                    if ipv4_text(a) == t {
                        lemma_text_fields(a);
                    }
                }
            }
            return None;
        },
    };
    proof {
        assert forall|x: Ipv4| ipv4_text(x) == t implies x.o3 == d && t.len() == e3 by {
            lemma_text_fields(x);
            lemma_octet_at_unique(t, s3 as int, e3 as int, t.len() as int);
        }
    }
    if e3 != cs.len() {
        return None;
    }
    let r = Ipv4 { o0: a, o1: b, o2: c, o3: d };
    proof {
        let f0 = t.subrange(0, e0 as int);
        let f1 = t.subrange(s1 as int, e1 as int);
        let f2 = t.subrange(s2 as int, e2 as int);
        let f3 = t.subrange(s3 as int, e3 as int);
        lemma_digits_are_dec_text(f0);
        lemma_digits_are_dec_text(f1);
        lemma_digits_are_dec_text(f2);
        lemma_digits_are_dec_text(f3);
        assert(t =~= f0 + seq!['.'] + f1 + seq!['.'] + f2 + seq!['.'] + f3);
    }
    Some(r)
}

/// Appends the dotted-quad text of `a` to `s`.
pub fn push_ipv4(s: &mut String, a: Ipv4)
    ensures
        final(s)@ == old(s)@ + ipv4_text(a),
{
    push_dec(s, a.o0 as u64);
    s.push('.');
    push_dec(s, a.o1 as u64);
    s.push('.');
    push_dec(s, a.o2 as u64);
    s.push('.');
    push_dec(s, a.o3 as u64);
    assert(s@ =~= old(s)@ + ipv4_text(a));
}

/// The dotted-quad text of `a`, as `Ipv4Addr`'s `Display` writes it.
pub fn format_ipv4(a: Ipv4) -> (r: String)
    ensures
        r@ == ipv4_text(a),
{
    let mut s = String::new();
    push_ipv4(&mut s, a);
    assert(s@ =~= ipv4_text(a));
    s
}


/// The mask of a prefix of `cidr` bits.
pub fn subnet_mask_u32(cidr: u8) -> (r: Result<u32, DhcpError>)
    ensures
        cidr <= 32 ==> r == Ok::<u32, DhcpError>(prefix_mask(cidr as nat)),
        cidr > 32 ==> r == Err::<u32, DhcpError>(DhcpError::CidrOutOfRange),
{
    if cidr == 0 {
        Ok(0)
    } else if cidr <= 32 {
        Ok(0xffff_ffffu32 << ((32 - cidr) as u32))
    } else {
        Err(DhcpError::CidrOutOfRange)
    }
}

/// The netmask of a prefix of `cidr` bits, as an address; prefixes above
/// 32 give the full mask.
pub fn cidr_to_mask(cidr: u8) -> (r: Ipv4)
    ensures
        r == ipv4_of_value(prefix_mask(if cidr > 32 { 32nat } else { cidr as nat })),
{
    if cidr == 0 {
        return Ipv4::from_u32(0);
    }
    let bits: u8 = if cidr > 32 { 32 } else { cidr };
    let mask = 0xffff_ffffu32 << ((32 - bits) as u32);
    Ipv4::from_u32(mask)
}

/// Every two addresses share the network of the empty prefix.
pub proof fn lemma_same_network_zero(x: u32, y: u32)
    ensures
        same_network(x, y, 0),
{
    assert(x & 0u32 == y & 0u32) by (bit_vector);
}

/// Two addresses that share a network of some prefix share every network
/// of a shorter prefix.
pub proof fn lemma_same_network_shorter(x: u32, y: u32, p: nat, q: nat)
    requires
        q <= p <= 32,
        same_network(x, y, p),
    ensures
        same_network(x, y, q),
{
    lemma_same_network_zero(x, y);
    if q > 0 {
        let sp = (32 - p) as u32;
        let sq = (32 - q) as u32;
        assert(sp <= sq < 32);
        assert(prefix_mask(p) == 0xffff_ffffu32 << sp);
        assert(prefix_mask(q) == 0xffff_ffffu32 << sq);
        assert((x & (0xffff_ffffu32 << sp)) == (y & (0xffff_ffffu32 << sp)) && sp <= sq && sq < 32
            ==> (x & (0xffff_ffffu32 << sq)) == (y & (0xffff_ffffu32 << sq))) by (bit_vector);
    }
}

/// The longest prefix of at most `p` bits under which `x` and `y` share a
/// network, or 0 when none of at least one bit does.
pub open spec fn highest_shared_prefix(x: u32, y: u32, p: nat) -> nat
    decreases p,
{
    if p == 0 {
        0
    } else if same_network(x, y, p) {
        p
    } else {
        highest_shared_prefix(x, y, (p - 1) as nat)
    }
}

/// `highest_shared_prefix` is the longest shared prefix up to `p`.
pub proof fn lemma_highest_shared_prefix(x: u32, y: u32, p: nat)
    ensures
        highest_shared_prefix(x, y, p) <= p,
        highest_shared_prefix(x, y, p) > 0 ==> same_network(x, y, highest_shared_prefix(x, y, p)),
        forall|q: nat|
            highest_shared_prefix(x, y, p) < q <= p ==> !#[trigger] same_network(x, y, q),
    decreases p,
{
    if p > 0 {
        lemma_highest_shared_prefix(x, y, (p - 1) as nat);
    }
}

/// What `effective_cidr_for_gateway_and_ip` decides for an address, a
/// gateway and a requested prefix length.
pub open spec fn effective_cidr_spec(ip: Ipv4, gateway: Ipv4, requested: u8) -> Result<u8, DhcpError> {
    let x = ipv4_value(ip);
    let y = ipv4_value(gateway);
    if requested > 32 {
        Err(DhcpError::CidrOutOfRange)
    } else if requested == 0 {
        Ok(0)
    } else if same_network(x, y, requested as nat) {
        Ok(requested)
    } else if requested > 1 && same_network(x, y, (requested - 1) as nat) {
        Ok((requested - 1) as u8)
    } else {
        let h = highest_shared_prefix(x, y, (requested - 1) as nat);
        if h == 0 {
            Err(DhcpError::SubnetUncombinable { ip, gateway, requested })
        } else {
            Err(DhcpError::SubnetMismatch { ip, gateway, requested, largest_below: h as u8 })
        }
    }
}

/// The prefix length under which a lease address and its gateway share one
/// network: the requested one when they do, else once the next broader one
/// (a routed `/23` stated as `/24`). Otherwise an error that names the
/// longest prefix below the requested one that they share, if any.
pub fn effective_cidr_for_gateway_and_ip(ip: Ipv4, gateway: Ipv4, requested_cidr: u8) -> (r: Result<
    u8,
    DhcpError,
>)
    ensures
        r == effective_cidr_spec(ip, gateway, requested_cidr),
        r matches Ok(c) ==> c <= 32 && same_network(ipv4_value(ip), ipv4_value(gateway), c as nat)
            && (c == requested_cidr || c + 1 == requested_cidr),
{
    if requested_cidr > 32 {
        return Err(DhcpError::CidrOutOfRange);
    }
    if requested_cidr == 0 {
        proof {
            lemma_same_network_zero(ipv4_value(ip), ipv4_value(gateway));
        }
        return Ok(0);
    }
    let ip_u = ipv4_to_u32(ip);
    let gw_u = ipv4_to_u32(gateway);
    let mask_r = match subnet_mask_u32(requested_cidr) {
        Ok(m) => m,
        Err(e) => return Err(e),
    };
    if (ip_u & mask_r) == (gw_u & mask_r) {
        return Ok(requested_cidr);
    }
    let one_looser = requested_cidr - 1;
    if one_looser > 0 {
        let mask_w = match subnet_mask_u32(one_looser) {
            Ok(m) => m,
            Err(e) => return Err(e),
        };
        if (ip_u & mask_w) == (gw_u & mask_w) {
            return Ok(one_looser);
        }
    }
    let mut p: u8 = one_looser;
    while p > 0
        invariant
            p <= one_looser,
            one_looser + 1 == requested_cidr <= 32,
            ip_u == ipv4_value(ip),
            gw_u == ipv4_value(gateway),
            highest_shared_prefix(ip_u, gw_u, one_looser as nat) == highest_shared_prefix(
                ip_u,
                gw_u,
                p as nat,
            ),
            !same_network(ip_u, gw_u, requested_cidr as nat),
            !(requested_cidr > 1 && same_network(ip_u, gw_u, one_looser as nat)),
        decreases p,
    {
        let m = match subnet_mask_u32(p) {
            Ok(m) => m,
            Err(e) => return Err(e),
        };
        if (ip_u & m) == (gw_u & m) {
            return Err(
                DhcpError::SubnetMismatch {
                    ip,
                    gateway,
                    requested: requested_cidr,
                    largest_below: p,
                },
            );
        }
        p = p - 1;
    }
    Err(DhcpError::SubnetUncombinable { ip, gateway, requested: requested_cidr })
}

} // verus!
