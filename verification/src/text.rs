//! Textual forms of addresses and methods, and how they are read back:
//! colon-separated upper-case hex for hardware addresses, dotted decimal
//! for IPv4, short tags for discovery methods.

use crate::model::{DiscoveryMethod, MacAddress};
use vstd::prelude::*;
use vstd::string::{is_ascii_spec_bytes, StringSliceAdditionalSpecFns};

verus! {

/// The text whose characters are the given ASCII bytes.
pub open spec fn ascii_text(bytes: Seq<u8>) -> Seq<char> {
    bytes.map_values(|b: u8| b as char)
}

/// `String::from_utf8` on bytes that are all ASCII: the text holds one
/// character per byte, with the byte's code. The error arm is never taken
/// on such input, since ASCII is valid UTF-8.
#[verifier::external_body]
pub(crate) fn string_from_ascii(bytes: Vec<u8>) -> (s: String)
    requires
        forall|i: int| 0 <= i < bytes@.len() ==> bytes@[i] < 128,
    ensures
        s@ == ascii_text(bytes@),
{
    match String::from_utf8(bytes) {
        Ok(s) => s,
        Err(_) => String::new(),
    }
}

/// The upper-case hexadecimal digit for a value below 16.
pub open spec fn spec_hex_digit(n: u8) -> u8 {
    if n < 10 {
        (0x30 + n) as u8
    } else {
        (0x41 + n - 10) as u8
    }
}

/// The seventeen bytes `XX:XX:XX:XX:XX:XX` of a hardware address.
pub open spec fn spec_mac_bytes(o: [u8; 6]) -> Seq<u8> {
    seq![
        spec_hex_digit(o[0] / 16),
        spec_hex_digit(o[0] % 16),
        0x3au8,
        spec_hex_digit(o[1] / 16),
        spec_hex_digit(o[1] % 16),
        0x3au8,
        spec_hex_digit(o[2] / 16),
        spec_hex_digit(o[2] % 16),
        0x3au8,
        spec_hex_digit(o[3] / 16),
        spec_hex_digit(o[3] % 16),
        0x3au8,
        spec_hex_digit(o[4] / 16),
        spec_hex_digit(o[4] % 16),
        0x3au8,
        spec_hex_digit(o[5] / 16),
        spec_hex_digit(o[5] % 16),
    ]
}

/// The six bytes `XXXXXX` of the first three octets of a hardware address,
/// the prefix that names its vendor.
pub open spec fn spec_oui_bytes(o: [u8; 6]) -> Seq<u8> {
    seq![
        spec_hex_digit(o[0] / 16),
        spec_hex_digit(o[0] % 16),
        spec_hex_digit(o[1] / 16),
        spec_hex_digit(o[1] % 16),
        spec_hex_digit(o[2] / 16),
        spec_hex_digit(o[2] % 16),
    ]
}

/// The decimal digits of an octet, without leading zeros.
pub open spec fn spec_decimal(n: u8) -> Seq<u8> {
    if n >= 100 {
        seq![(0x30 + n / 100) as u8, (0x30 + (n / 10) % 10) as u8, (0x30 + n % 10) as u8]
    } else if n >= 10 {
        seq![(0x30 + n / 10) as u8, (0x30 + n % 10) as u8]
    } else {
        seq![(0x30 + n) as u8]
    }
}

/// The dotted-decimal bytes `a.b.c.d` of an IPv4 address.
pub open spec fn spec_ipv4_bytes(a: [u8; 4]) -> Seq<u8> {
    spec_decimal(a[0]) + seq![0x2eu8] + spec_decimal(a[1]) + seq![0x2eu8] + spec_decimal(a[2])
        + seq![0x2eu8] + spec_decimal(a[3])
}

fn hex_digit(n: u8) -> (d: u8)
    requires
        n < 16,
    ensures
        d == spec_hex_digit(n),
        d < 128,
{
    if n < 10 {
        0x30 + n
    } else {
        0x41 + (n - 10)
    }
}

fn push_decimal(out: &mut Vec<u8>, n: u8)
    requires
        forall|i: int| 0 <= i < old(out)@.len() ==> old(out)@[i] < 128,
    ensures
        final(out)@ == old(out)@ + spec_decimal(n),
        forall|i: int| 0 <= i < final(out)@.len() ==> final(out)@[i] < 128,
{
    if n >= 100 {
        out.push(0x30 + n / 100);
        out.push(0x30 + (n / 10) % 10);
        out.push(0x30 + n % 10);
    } else if n >= 10 {
        out.push(0x30 + n / 10);
        out.push(0x30 + n % 10);
    } else {
        out.push(0x30 + n);
    }
    assert(out@ =~= old(out)@ + spec_decimal(n));
}

/// The dotted-decimal text of an IPv4 address.
pub fn ipv4_text(a: &[u8; 4]) -> (s: String)
    ensures
        s@ == spec_ipv4_text(*a),
{
    let mut out: Vec<u8> = Vec::new();
    push_decimal(&mut out, a[0]);
    out.push(0x2e);
    push_decimal(&mut out, a[1]);
    out.push(0x2e);
    push_decimal(&mut out, a[2]);
    out.push(0x2e);
    push_decimal(&mut out, a[3]);
    assert(out@ =~= spec_ipv4_bytes(*a));
    string_from_ascii(out)
}

impl MacAddress {
    /// The address as seventeen characters, upper-case hex octets
    /// separated by colons.
    pub open spec fn spec_text(self) -> Seq<char> {
        ascii_text(spec_mac_bytes(self.octets))
    }

    /// The address as seventeen characters, upper-case hex octets
    /// separated by colons.
    pub fn to_text(&self) -> (s: String)
        ensures
            s@ == self.spec_text(),
            s@.len() == 17,
    {
        let mut out: Vec<u8> = Vec::new();
        let mut i: usize = 0;
        while i < 6
            invariant
                i <= 6,
                out@.len() == (if i == 0 {
                    0int
                } else {
                    3 * i - 1
                }),
                forall|j: int| 0 <= j < out@.len() ==> out@[j] == spec_mac_bytes(self.octets)[j],
                forall|j: int| 0 <= j < out@.len() ==> out@[j] < 128,
            decreases 6 - i,
        {
            if i > 0 {
                out.push(0x3a);
            }
            let o = self.octets[i];
            out.push(hex_digit(o / 16));
            out.push(hex_digit(o % 16));
            i = i + 1;
        }
        assert(out@ =~= spec_mac_bytes(self.octets));
        string_from_ascii(out)
    }

    /// The vendor prefix of the address: its first three octets as six
    /// upper-case hex characters, without separators.
    pub open spec fn spec_oui_text(self) -> Seq<char> {
        ascii_text(spec_oui_bytes(self.octets))
    }

    /// The vendor prefix of the address: its first three octets as six
    /// upper-case hex characters, without separators.
    pub fn oui_text(&self) -> (s: String)
        ensures
            s@ == self.spec_oui_text(),
            s@.len() == 6,
    {
        let mut out: Vec<u8> = Vec::new();
        let mut i: usize = 0;
        while i < 3
            invariant
                i <= 3,
                out@.len() == 2 * i,
                forall|j: int| 0 <= j < out@.len() ==> out@[j] == spec_oui_bytes(self.octets)[j],
                forall|j: int| 0 <= j < out@.len() ==> out@[j] < 128,
            decreases 3 - i,
        {
            let o = self.octets[i];
            out.push(hex_digit(o / 16));
            out.push(hex_digit(o % 16));
            i = i + 1;
        }
        assert(out@ =~= spec_oui_bytes(self.octets));
        string_from_ascii(out)
    }
}

/// The dotted-decimal text `a.b.c.d` of an IPv4 address.
pub open spec fn spec_ipv4_text(a: [u8; 4]) -> Seq<char> {
    ascii_text(spec_ipv4_bytes(a))
}

/// Whether two texts hold the same characters.
pub fn str_equal(a: &str, b: &str) -> (r: bool)
    ensures
        r == (a@ == b@),
{
    let x = a.to_owned();
    let y = b.to_owned();
    x == y
}

/// A text made of ASCII bytes encodes as those bytes.
proof fn lemma_ascii_text_bytes(text: &str, bytes: Seq<u8>)
    requires
        text@ == ascii_text(bytes),
        forall|i: int| 0 <= i < bytes.len() ==> bytes[i] < 128,
    ensures
        text.spec_bytes() == bytes,
{
    assert forall|i: int| 0 <= i < text@.len() implies '\0' <= #[trigger] text@[i] <= '\u{7f}' by {
        assert(text@[i] == bytes[i] as char);
    }
    is_ascii_spec_bytes(text);
    assert(text.spec_bytes() =~= bytes) by {
        assert forall|i: int| 0 <= i < bytes.len() implies text.spec_bytes()[i] == bytes[i] by {
            assert(text@[i] == bytes[i] as char);
        }
    }
}

proof fn lemma_mac_bytes_are_ascii(o: [u8; 6])
    ensures
        spec_mac_bytes(o).len() == 17,
        forall|i: int| 0 <= i < 17 ==> spec_mac_bytes(o)[i] < 128,
{
}

proof fn lemma_ipv4_bytes_are_ascii(a: [u8; 4])
    ensures
        7 <= spec_ipv4_bytes(a).len() <= 15,
        forall|i: int| 0 <= i < spec_ipv4_bytes(a).len() ==> spec_ipv4_bytes(a)[i] < 128,
{
    let d0 = spec_decimal(a[0]);
    let d1 = spec_decimal(a[1]);
    let d2 = spec_decimal(a[2]);
    let d3 = spec_decimal(a[3]);
    let dot = seq![0x2eu8];
    assert forall|i: int| 0 <= i < spec_ipv4_bytes(a).len() implies spec_ipv4_bytes(a)[i]
        < 128 by {
        let s = d0 + dot + d1 + dot + d2 + dot + d3;
        assert(s == spec_ipv4_bytes(a));
        if i < d0.len() {
        } else if i < d0.len() + 1 {
        } else if i < d0.len() + 1 + d1.len() {
        } else if i < d0.len() + 1 + d1.len() + 1 {
        } else if i < d0.len() + 1 + d1.len() + 1 + d2.len() {
        } else if i < d0.len() + 1 + d1.len() + 1 + d2.len() + 1 {
        } else {
        }
    }
}

/// The value of an upper-case hexadecimal digit, and zero for any other
/// byte.
pub open spec fn spec_unhex(b: u8) -> u8 {
    if 0x30 <= b <= 0x39 {
        (b - 0x30) as u8
    } else if 0x41 <= b <= 0x46 {
        (b - 0x41 + 10) as u8
    } else {
        0
    }
}

fn unhex(b: u8) -> (n: u8)
    ensures
        n == spec_unhex(b),
        n < 16,
{
    if 0x30 <= b && b <= 0x39 {
        b - 0x30
    } else if 0x41 <= b && b <= 0x46 {
        b - 0x41 + 10
    } else {
        0
    }
}

fn octet_at(bytes: &[u8], at: usize) -> (o: u8)
    requires
        at + 1 < bytes@.len(),
    ensures
        o == spec_unhex(bytes@[at as int]) * 16 + spec_unhex(bytes@[at + 1]),
{
    unhex(bytes[at]) * 16 + unhex(bytes[at + 1])
}

proof fn lemma_unhex_pair(v: u8)
    ensures
        spec_unhex(spec_hex_digit(v / 16)) * 16 + spec_unhex(spec_hex_digit(v % 16)) == v,
{
    assert(v / 16 < 16 && v % 16 < 16);
    assert(v == (v / 16) * 16 + v % 16);
}

/// Reads a hardware address from its seventeen-character text. Only the
/// text that `to_text` gives is accepted: upper-case hex, colons.
pub fn parse_mac(text: &str) -> (mac: Option<MacAddress>)
    ensures
        match mac {
            Some(m) => text@ == m.spec_text(),
            None => forall|m: MacAddress| text@ != #[trigger] m.spec_text(),
        },
{
    let bytes = text.as_bytes();
    proof {
        assert forall|m: MacAddress| text@ == #[trigger] m.spec_text() implies bytes@
            == spec_mac_bytes(m.octets) by {
            lemma_mac_bytes_are_ascii(m.octets);
            lemma_ascii_text_bytes(text, spec_mac_bytes(m.octets));
        }
    }
    if bytes.len() != 17 {
        proof {
            assert forall|m: MacAddress| text@ != #[trigger] m.spec_text() by {
                lemma_mac_bytes_are_ascii(m.octets);
            }
        }
        return None;
    }
    let candidate = MacAddress {
        octets: [
            octet_at(bytes, 0),
            octet_at(bytes, 3),
            octet_at(bytes, 6),
            octet_at(bytes, 9),
            octet_at(bytes, 12),
            octet_at(bytes, 15),
        ],
    };
    let rendered = candidate.to_text();
    if str_equal(rendered.as_str(), text) {
        Some(candidate)
    } else {
        proof {
            assert forall|m: MacAddress| text@ != #[trigger] m.spec_text() by {
                if text@ == m.spec_text() {
                    let b = spec_mac_bytes(m.octets);
                    assert(bytes@ == b);
                    assert(bytes@[0] == b[0] && bytes@[1] == b[1]);
                    assert(bytes@[3] == b[3] && bytes@[4] == b[4]);
                    assert(bytes@[6] == b[6] && bytes@[7] == b[7]);
                    assert(bytes@[9] == b[9] && bytes@[10] == b[10]);
                    assert(bytes@[12] == b[12] && bytes@[13] == b[13]);
                    assert(bytes@[15] == b[15] && bytes@[16] == b[16]);
                    lemma_unhex_pair(m.octets[0]);
                    lemma_unhex_pair(m.octets[1]);
                    lemma_unhex_pair(m.octets[2]);
                    lemma_unhex_pair(m.octets[3]);
                    lemma_unhex_pair(m.octets[4]);
                    lemma_unhex_pair(m.octets[5]);
                    assert(candidate.octets =~= m.octets);
                    assert(false);
                }
            }
        }
        None
    }
}

/// A hardware address is read back from its own text.
pub proof fn mac_text_is_injective(a: MacAddress, b: MacAddress)
    requires
        a.spec_text() == b.spec_text(),
    ensures
        a == b,
{
    let x = spec_mac_bytes(a.octets);
    let y = spec_mac_bytes(b.octets);
    lemma_mac_bytes_are_ascii(a.octets);
    lemma_mac_bytes_are_ascii(b.octets);
    assert forall|i: int| 0 <= i < 17 implies x[i] == y[i] by {
        assert(ascii_text(x)[i] == x[i] as char);
        assert(ascii_text(y)[i] == y[i] as char);
    }
    assert forall|k: int| 0 <= k < 6 implies a.octets[k] == b.octets[k] by {
        let u = a.octets[k];
        let v = b.octets[k];
        assert(x[3 * k] == spec_hex_digit(u / 16) && x[3 * k + 1] == spec_hex_digit(u % 16));
        assert(y[3 * k] == spec_hex_digit(v / 16) && y[3 * k + 1] == spec_hex_digit(v % 16));
        lemma_unhex_pair(u);
        lemma_unhex_pair(v);
    }
    assert(a.octets =~= b.octets);
}

/// Whether a byte is a decimal digit.
pub open spec fn spec_is_digit(b: u8) -> bool {
    0x30 <= b <= 0x39
}

/// The number that up to three decimal digits at position `at` spell, and
/// the position behind them. Where there is no digit, the number is zero
/// and the position stays; a number above 255 is taken modulo 256.
pub open spec fn spec_read_octet(s: Seq<u8>, at: int) -> (u8, int) {
    if !(0 <= at < s.len() && spec_is_digit(s[at])) {
        (0, at)
    } else if !(at + 1 < s.len() && spec_is_digit(s[at + 1])) {
        ((s[at] - 0x30) as u8, at + 1)
    } else if !(at + 2 < s.len() && spec_is_digit(s[at + 2])) {
        (((s[at] - 0x30) * 10 + (s[at + 1] - 0x30)) as u8, at + 2)
    } else {
        (
            (((s[at] - 0x30) * 100 + (s[at + 1] - 0x30) * 10 + (s[at + 2] - 0x30)) % 256) as u8,
            at + 3,
        )
    }
}

fn is_digit(b: u8) -> (r: bool)
    ensures
        r == spec_is_digit(b),
{
    0x30 <= b && b <= 0x39
}

fn read_octet(bytes: &[u8], at: usize) -> (r: (u8, usize))
    requires
        at <= bytes@.len() + 8,
    ensures
        (r.0, r.1 as int) == spec_read_octet(bytes@, at as int),
        r.1 <= at + 3,
{
    let n = bytes.len();
    if !(at < n && is_digit(bytes[at])) {
        (0, at)
    } else if !(at + 1 < n && is_digit(bytes[at + 1])) {
        (bytes[at] - 0x30, at + 1)
    } else if !(at + 2 < n && is_digit(bytes[at + 2])) {
        ((bytes[at] - 0x30) * 10 + (bytes[at + 1] - 0x30), at + 2)
    } else {
        let wide: u16 = (bytes[at] - 0x30) as u16 * 100 + (bytes[at + 1] - 0x30) as u16 * 10 + (
        bytes[at + 2] - 0x30) as u16;
        ((wide % 256) as u8, at + 3)
    }
}

/// Reading the decimal digits of an octet gives the octet back, provided
/// that no digit follows them.
proof fn lemma_read_decimal(s: Seq<u8>, at: int, n: u8)
    requires
        0 <= at,
        at + spec_decimal(n).len() <= s.len(),
        s.subrange(at, at + spec_decimal(n).len()) == spec_decimal(n),
        at + spec_decimal(n).len() == s.len() || !spec_is_digit(s[at + spec_decimal(n).len()]),
    ensures
        spec_read_octet(s, at) == (n, at + spec_decimal(n).len()),
{
    let d = spec_decimal(n);
    let part = s.subrange(at, at + d.len());
    assert(part[0] == s[at]);
    if n >= 100 {
        assert(part[1] == s[at + 1]);
        assert(part[2] == s[at + 2]);
        assert((n / 100) * 100 + ((n / 10) % 10) * 10 + n % 10 == n);
    } else if n >= 10 {
        assert(part[1] == s[at + 1]);
        assert((n / 10) * 10 + n % 10 == n);
    }
}

/// The four octets that a text spells when read leniently: up to three
/// digits each, with one separator skipped between them.
pub open spec fn spec_read_quad(s: Seq<u8>) -> [u8; 4] {
    let (a0, p0) = spec_read_octet(s, 0);
    let (a1, p1) = spec_read_octet(s, p0 + 1);
    let (a2, p2) = spec_read_octet(s, p1 + 1);
    let (a3, _) = spec_read_octet(s, p2 + 1);
    [a0, a1, a2, a3]
}

/// Reading the dotted-decimal bytes of an address gives the address back.
proof fn lemma_read_rendered_quad(a: [u8; 4])
    ensures
        spec_read_quad(spec_ipv4_bytes(a)) == a,
{
    let d0 = spec_decimal(a[0]);
    let d1 = spec_decimal(a[1]);
    let d2 = spec_decimal(a[2]);
    let d3 = spec_decimal(a[3]);
    let dot = seq![0x2eu8];
    let s = spec_ipv4_bytes(a);
    assert(s == d0 + dot + d1 + dot + d2 + dot + d3);
    let p0 = d0.len() as int;
    let q1 = p0 + 1;
    let p1 = q1 + d1.len();
    let q2 = p1 + 1;
    let p2 = q2 + d2.len();
    let q3 = p2 + 1;
    assert(s.len() == q3 + d3.len());
    assert(s.subrange(0, p0) =~= d0);
    assert(s[p0] == 0x2eu8);
    assert(s.subrange(q1, p1) =~= d1);
    assert(s[p1] == 0x2eu8);
    assert(s.subrange(q2, p2) =~= d2);
    assert(s[p2] == 0x2eu8);
    assert(s.subrange(q3, q3 + d3.len()) =~= d3);
    lemma_read_decimal(s, 0, a[0]);
    lemma_read_decimal(s, q1, a[1]);
    lemma_read_decimal(s, q2, a[2]);
    lemma_read_decimal(s, q3, a[3]);
    assert(spec_read_quad(s) =~= a);
}

/// Reads an IPv4 address from its dotted-decimal text. Only the text that
/// `ipv4_text` gives is accepted: four numbers up to 255 without leading
/// zeros, separated by dots.
pub fn parse_ipv4(text: &str) -> (address: Option<[u8; 4]>)
    ensures
        match address {
            Some(a) => text@ == spec_ipv4_text(a),
            None => forall|a: [u8; 4]| text@ != #[trigger] spec_ipv4_text(a),
        },
{
    let bytes = text.as_bytes();
    let (a0, p0) = read_octet(bytes, 0);
    let (a1, p1) = read_octet(bytes, p0 + 1);
    let (a2, p2) = read_octet(bytes, p1 + 1);
    let (a3, _) = read_octet(bytes, p2 + 1);
    let candidate = [a0, a1, a2, a3];
    assert(candidate =~= spec_read_quad(bytes@));
    let rendered = ipv4_text(&candidate);
    if str_equal(rendered.as_str(), text) {
        Some(candidate)
    } else {
        proof {
            assert forall|a: [u8; 4]| text@ != #[trigger] spec_ipv4_text(a) by {
                if text@ == spec_ipv4_text(a) {
                    lemma_ipv4_bytes_are_ascii(a);
                    lemma_ascii_text_bytes(text, spec_ipv4_bytes(a));
                    lemma_read_rendered_quad(a);
                    assert(false);
                }
            }
        }
        None
    }
}

/// An IPv4 address is read back from its own text.
pub proof fn ipv4_text_is_injective(a: [u8; 4], b: [u8; 4])
    requires
        spec_ipv4_text(a) == spec_ipv4_text(b),
    ensures
        a == b,
{
    let x = spec_ipv4_bytes(a);
    let y = spec_ipv4_bytes(b);
    lemma_ipv4_bytes_are_ascii(a);
    lemma_ipv4_bytes_are_ascii(b);
    assert(x.len() == ascii_text(x).len());
    assert(y.len() == ascii_text(y).len());
    assert forall|i: int| 0 <= i < x.len() implies x[i] == y[i] by {
        assert(ascii_text(x)[i] == x[i] as char);
        assert(ascii_text(y)[i] == y[i] as char);
    }
    assert(x =~= y);
    lemma_read_rendered_quad(a);
    lemma_read_rendered_quad(b);
}

impl DiscoveryMethod {
    /// Reads a method from its tag. Only the tags that `as_str` gives are
    /// accepted.
    pub fn from_tag(tag: &str) -> (method: Option<DiscoveryMethod>)
        ensures
            match method {
                Some(m) => tag@ == m.spec_tag(),
                None => forall|m: DiscoveryMethod| tag@ != #[trigger] m.spec_tag(),
            },
    {
        if str_equal(tag, "ARP") {
            Some(DiscoveryMethod::Arp)
        } else if str_equal(tag, "NDP") {
            Some(DiscoveryMethod::Ndp)
        } else if str_equal(tag, "DHCP") {
            Some(DiscoveryMethod::Dhcp)
        } else if str_equal(tag, "DNS") {
            Some(DiscoveryMethod::Dns)
        } else if str_equal(tag, "mDNS") {
            Some(DiscoveryMethod::Mdns)
        } else if str_equal(tag, "LLMNR") {
            Some(DiscoveryMethod::Llmnr)
        } else if str_equal(tag, "NBNS") {
            Some(DiscoveryMethod::Nbns)
        } else if str_equal(tag, "LLDP") {
            Some(DiscoveryMethod::Lldp)
        } else if str_equal(tag, "CDP") {
            Some(DiscoveryMethod::Cdp)
        } else {
            None
        }
    }
}

/// The length and the first character of each tag.
proof fn lemma_tag_shape(m: DiscoveryMethod)
    ensures
        m.spec_tag().len() == (match m {
            DiscoveryMethod::Arp | DiscoveryMethod::Ndp | DiscoveryMethod::Dns | DiscoveryMethod::Cdp => 3int,
            DiscoveryMethod::Llmnr => 5int,
            _ => 4int,
        }),
        m.spec_tag()[0] == (match m {
            DiscoveryMethod::Arp => 'A',
            DiscoveryMethod::Ndp => 'N',
            DiscoveryMethod::Dhcp => 'D',
            DiscoveryMethod::Dns => 'D',
            DiscoveryMethod::Mdns => 'm',
            DiscoveryMethod::Llmnr => 'L',
            DiscoveryMethod::Nbns => 'N',
            DiscoveryMethod::Lldp => 'L',
            DiscoveryMethod::Cdp => 'C',
        }),
{
    reveal_strlit("ARP");
    reveal_strlit("NDP");
    reveal_strlit("DHCP");
    reveal_strlit("DNS");
    reveal_strlit("mDNS");
    reveal_strlit("LLMNR");
    reveal_strlit("NBNS");
    reveal_strlit("LLDP");
    reveal_strlit("CDP");
}

/// Distinct methods have distinct tags.
pub proof fn tag_is_injective(a: DiscoveryMethod, b: DiscoveryMethod)
    requires
        a.spec_tag() == b.spec_tag(),
    ensures
        a == b,
{
    lemma_tag_shape(a);
    lemma_tag_shape(b);
}

} // verus!
