//! MAC addresses: normalisation of user text and the text of hardware
//! addresses read from packets.
use vstd::prelude::*;

use crate::dhcp::error::DhcpError;
use crate::text::{ascii_lower, chars_of, owned, string_of_chars, to_ascii_lower};

verus! {

/// `c` is a hexadecimal digit in either case.
pub open spec fn is_hex(c: char) -> bool {
    let x = c as u32;
    (48 <= x <= 57) || (65 <= x <= 70) || (97 <= x <= 102)
}

/// `c` is a lower-case hexadecimal digit.
pub open spec fn is_lower_hex(c: char) -> bool {
    let x = c as u32;
    (48 <= x <= 57) || (97 <= x <= 102)
}

/// The hexadecimal digits of `s`, in order and in lower case.
pub open spec fn hex_digits_of(s: Seq<char>) -> Seq<char>
    decreases s.len(),
{
    if s.len() == 0 {
        Seq::empty()
    } else if is_hex(s.last()) {
        hex_digits_of(s.drop_last()).push(ascii_lower(s.last()))
    } else {
        hex_digits_of(s.drop_last())
    }
}

/// Twelve hex digits grouped in pairs joined by `:`.
pub open spec fn colon_pairs(h: Seq<char>) -> Seq<char> {
    Seq::new(17, |i: int| if i % 3 == 2 { ':' } else { h[(i / 3) * 2 + i % 3] })
}

/// The canonical form of a MAC address text: its hex digits in lower
/// case, which must be twelve, in colon-separated pairs.
pub open spec fn normalized_mac(s: Seq<char>) -> Option<Seq<char>> {
    let h = hex_digits_of(s);
    if h.len() == 12 {
        Some(colon_pairs(h))
    } else {
        None
    }
}

/// The lower-case hexadecimal digit of `d` (below 16).
pub open spec fn hex_digit_char(d: nat) -> char {
    if d < 10 {
        ((d + 48) as u8) as char
    } else {
        ((d + 87) as u8) as char
    }
}

/// The twelve hex digits of six bytes, two per byte, high nibble first.
pub open spec fn hex_of_bytes(b: Seq<u8>) -> Seq<char> {
    Seq::new(
        12,
        |i: int|
            if i % 2 == 0 {
                hex_digit_char((b[i / 2] / 16) as nat)
            } else {
                hex_digit_char((b[i / 2] % 16) as nat)
            },
    )
}

/// The text of a hardware address, as `{:02x}:{:02x}:…` writes its first six bytes.
pub open spec fn mac_text(b: Seq<u8>) -> Seq<char> {
    colon_pairs(hex_of_bytes(b))
}

proof fn lemma_lower_hex(c: char)
    requires
        is_lower_hex(c),
    ensures
        is_hex(c),
        ascii_lower(c) == c,
{
}

proof fn lemma_hex_lower(c: char)
    requires
        is_hex(c),
    ensures
        is_lower_hex(ascii_lower(c)),
{
    let x = c as u32;
    if 65 <= x <= 70 {
        assert((((x + 32) as u8) as char) as u32 == x + 32);
    }
}

/// The hex digits of a prefix of `colon_pairs(h)`.
proof fn lemma_hex_digits_of_pairs(h: Seq<char>, k: int)
    requires
        h.len() == 12,
        forall|i: int| 0 <= i < 12 ==> is_lower_hex(#[trigger] h[i]),
        0 <= k <= 17,
    ensures
        hex_digits_of(colon_pairs(h).take(k)) == h.take(k - k / 3),
    decreases k,
{
    let t = colon_pairs(h);
    if k == 0 {
        assert(t.take(0) =~= Seq::<char>::empty());
        assert(h.take(0) =~= Seq::<char>::empty());
    } else {
        lemma_hex_digits_of_pairs(h, k - 1);
        let p = t.take(k);
        assert(p.drop_last() =~= t.take(k - 1));
        assert(p.last() == t[k - 1]);
        let j = k - 1;
        if j % 3 == 2 {
            assert(t[j] == ':');
            assert(!is_hex(':'));
            assert(k - k / 3 == j - j / 3);
        } else {
            let idx = (j / 3) * 2 + j % 3;
            assert(idx == j - j / 3);
            assert(0 <= idx < 12);
            assert(t[j] == h[idx]);
            lemma_lower_hex(h[idx]);
            assert(k - k / 3 == idx + 1);
            assert(h.take(idx + 1) =~= h.take(idx).push(h[idx]));
        }
    }
}

/// Canonical text of twelve lower-case hex digits is its own normal form.
pub proof fn lemma_colon_pairs_normalized(h: Seq<char>)
    requires
        h.len() == 12,
        forall|i: int| 0 <= i < 12 ==> is_lower_hex(#[trigger] h[i]),
    ensures
        normalized_mac(colon_pairs(h)) == Some(colon_pairs(h)),
{
    lemma_hex_digits_of_pairs(h, 17);
    assert(colon_pairs(h).take(17) =~= colon_pairs(h));
    assert(h.take(12) =~= h);
}

/// The hex digits collected by `hex_digits_of` are lower case.
pub proof fn lemma_hex_digits_lower(s: Seq<char>)
    ensures
        forall|i: int|
            0 <= i < hex_digits_of(s).len() ==> is_lower_hex(#[trigger] hex_digits_of(s)[i]),
    decreases s.len(),
{
    if s.len() > 0 {
        lemma_hex_digits_lower(s.drop_last());
        if is_hex(s.last()) {
            lemma_hex_lower(s.last());
            let h = hex_digits_of(s);
            assert forall|i: int| 0 <= i < h.len() implies is_lower_hex(#[trigger] h[i]) by {
                if i < h.len() - 1 {
                    assert(h[i] == hex_digits_of(s.drop_last())[i]);
                }
            }
        }
    }
}

/// Normalising a normalised MAC address changes nothing.
pub proof fn lemma_normalized_mac_idempotent(s: Seq<char>)
    requires
        normalized_mac(s) is Some,
    ensures
        normalized_mac(normalized_mac(s)->0) == normalized_mac(s),
{
    lemma_hex_digits_lower(s);
    lemma_colon_pairs_normalized(hex_digits_of(s));
}

/// The text of a hardware address is already normalised.
pub proof fn lemma_mac_text_normalized(b: Seq<u8>)
    requires
        b.len() >= 6,
    ensures
        normalized_mac(mac_text(b)) == Some(mac_text(b)),
{
    let h = hex_of_bytes(b);
    assert forall|i: int| 0 <= i < 12 implies is_lower_hex(#[trigger] h[i]) by {
        let d: nat = if i % 2 == 0 {
            (b[i / 2] / 16) as nat
        } else {
            (b[i / 2] % 16) as nat
        };
        assert(d < 16);
        assert(h[i] == hex_digit_char(d));
        if d < 10 {
            assert((((d + 48) as u8) as char) as u32 == d + 48);
        } else {
            assert((((d + 87) as u8) as char) as u32 == d + 87);
        }
    }
    lemma_colon_pairs_normalized(h);
}

/// The hex digit `c` (of either case).
fn is_hex_char(c: char) -> (r: bool)
    ensures
        r == is_hex(c),
{
    let x = c as u32;
    (x >= 48 && x <= 57) || (x >= 65 && x <= 70) || (x >= 97 && x <= 102)
}

/// Twelve characters in colon-separated pairs.
fn colon_pairs_exec(h: &Vec<char>) -> (r: String)
    requires
        h.len() == 12,
    ensures
        r@ == colon_pairs(h@),
{
    let mut out: Vec<char> = Vec::new();
    let mut k: usize = 0;
    while k < 17
        invariant
            0 <= k <= 17,
            h.len() == 12,
            out@ == colon_pairs(h@).take(k as int),
        decreases 17 - k,
    {
        let c = if k % 3 == 2 {
            ':'
        } else {
            h[(k / 3) * 2 + k % 3]
        };
        out.push(c);
        k = k + 1;
        assert(colon_pairs(h@).take(k as int) =~= colon_pairs(h@).take((k - 1) as int).push(c));
    }
    assert(colon_pairs(h@).take(17) =~= colon_pairs(h@));
    string_of_chars(&out)
}

/// Normalises a MAC address written with any separators and in either case
/// (`AA-BB-CC-DD-EE-FF`, `aabb.ccdd.eeff`, ...) to `aa:bb:cc:dd:ee:ff`.
/// The text must hold exactly twelve hexadecimal digits.
pub fn normalize_mac(value: &str) -> (r: Result<String, DhcpError>)
    ensures
        match normalized_mac(value@) {
            Some(t) => r matches Ok(s) && s@ == t,
            None => r matches Err(DhcpError::InvalidMac(v)) && v@ == value@,
        },
{
    let cs = chars_of(value);
    let mut h: Vec<char> = Vec::new();
    let mut i: usize = 0;
    while i < cs.len()
        invariant
            0 <= i <= cs.len(),
            cs@ == value@,
            h@ == hex_digits_of(cs@.take(i as int)),
        decreases cs.len() - i,
    {
        let c = cs[i];
        let ghost before = cs@.take(i as int);
        if is_hex_char(c) {
            h.push(to_ascii_lower(c));
        }
        i = i + 1;
        assert(cs@.take(i as int).drop_last() =~= before);
    }
    assert(cs@.take(cs@.len() as int) == cs@);
    if h.len() != 12 {
        return Err(DhcpError::InvalidMac(owned(value)));
    }
    Ok(colon_pairs_exec(&h))
}

/// The lower-case hex digit of `d` (below 16).
fn hex_digit(d: u8) -> (c: char)
    requires
        d < 16,
    ensures
        c == hex_digit_char(d as nat),
{
    if d < 10 {
        (d + 48) as char
    } else {
        (d + 87) as char
    }
}

/// The text of the hardware address in the first six bytes of `b`.
pub fn format_mac(b: &[u8]) -> (r: String)
    requires
        b.len() >= 6,
    ensures
        r@ == mac_text(b@),
{
    let mut h: Vec<char> = Vec::new();
    let mut i: usize = 0;
    while i < 12
        invariant
            0 <= i <= 12,
            b.len() >= 6,
            h@ == hex_of_bytes(b@).take(i as int),
        decreases 12 - i,
    {
        let byte = b[i / 2];
        let c = if i % 2 == 0 {
            hex_digit(byte / 16)
        } else {
            hex_digit(byte % 16)
        };
        h.push(c);
        i = i + 1;
        assert(hex_of_bytes(b@).take(i as int) =~= hex_of_bytes(b@).take((i - 1) as int).push(c));
    }
    assert(hex_of_bytes(b@).take(12) =~= hex_of_bytes(b@));
    colon_pairs_exec(&h)
}

} // verus!
