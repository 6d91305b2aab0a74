//! The packet parser: one raw Ethernet frame in, at most one discovery
//! record out.

use crate::headers::{
    decode_ethernet, ethernet_headers, read_ethernet, spec_ethernet_header, EthernetHeader,
    FrameHeaders, FrameHeadersView,
};
use crate::model::{
    opt_text, spec_is_private_v4, spec_is_private_v6, DiscoveryMethod, DiscoveryRecord,
    DiscoveryRecordView, IpAddress, MacAddress,
};
use crate::text::{ascii_text, string_from_ascii};
use vstd::prelude::*;

verus! {


/// The length of an Ethernet II header.
pub const ETHERNET_HEADER_LEN: usize = 14;

/// The shortest frame that can hold an ARP packet for IPv4 over Ethernet.
pub const ARP_MIN_FRAME: usize = 42;

/// The length of the header that precedes the question of a DNS-like
/// message.
pub const DNS_HEADER_LEN: usize = 12;

/// The VLAN recorded for a frame without a tag.
pub const UNTAGGED_VLAN: u16 = 1;

/// A discovery record as a mathematical value, where there is one.
pub open spec fn opt_record(r: Option<DiscoveryRecord>) -> Option<DiscoveryRecordView> {
    match r {
        Some(record) => Some(record@),
        None => None,
    }
}

/// Whether a byte may stand in a host label: an ASCII letter, a digit or a
/// hyphen.
pub open spec fn spec_is_label_byte(b: u8) -> bool {
    ||| 0x30 <= b <= 0x39
    ||| 0x41 <= b <= 0x5a
    ||| 0x61 <= b <= 0x7a
    ||| b == 0x2d
}

/// Whether `label` is a plausible host name: at least three bytes, each a
/// letter, a digit or a hyphen.
pub open spec fn spec_is_host_label(label: Seq<u8>) -> bool {
    &&& label.len() >= 3
    &&& forall|i: int| 0 <= i < label.len() ==> spec_is_label_byte(#[trigger] label[i])
}

/// The host label that a DNS-like payload starts its question with: the
/// label behind the twelve-byte header, where it is complete and plausible.
/// A zero length byte, a label that runs past the end and a label that is
/// not plausible all end the search without a name.
pub open spec fn spec_host_label(payload: Seq<u8>) -> Option<Seq<u8>> {
    if payload.len() < DNS_HEADER_LEN + 1 {
        None
    } else {
        let len = payload[DNS_HEADER_LEN as int] as int;
        let start = DNS_HEADER_LEN + 1;
        if len == 0 || start + len > payload.len() {
            None
        } else if spec_is_host_label(payload.subrange(start, start + len)) {
            Some(payload.subrange(start, start + len))
        } else {
            None
        }
    }
}

/// The host name that a DNS-like payload reveals, as text.
pub open spec fn spec_hostname(payload: Seq<u8>) -> Option<Seq<char>> {
    match spec_host_label(payload) {
        Some(label) => Some(ascii_text(label)),
        None => None,
    }
}

/// A host name that a payload reveals is never empty: it has at least
/// three characters, each an ASCII letter, a digit or a hyphen.
pub proof fn hostname_is_plausible(payload: Seq<u8>)
    requires
        spec_hostname(payload) is Some,
    ensures
        spec_hostname(payload)->0.len() >= 3,
        forall|i: int|
            0 <= i < spec_hostname(payload)->0.len() ==> {
                let c = #[trigger] spec_hostname(payload)->0[i];
                ||| '0' <= c <= '9'
                ||| 'A' <= c <= 'Z'
                ||| 'a' <= c <= 'z'
                ||| c == '-'
            },
{
    let label = spec_host_label(payload)->0;
    assert forall|i: int| 0 <= i < ascii_text(label).len() implies {
        let c = #[trigger] ascii_text(label)[i];
        ||| '0' <= c <= '9'
        ||| 'A' <= c <= 'Z'
        ||| 'a' <= c <= 'z'
        ||| c == '-'
    } by {
        assert(spec_is_label_byte(label[i]));
        assert(ascii_text(label)[i] == label[i] as char);
    }
}

/// The VLAN of a frame: the id of its outermost tag, or 1 without a tag.
pub open spec fn spec_vlan_id(h: FrameHeadersView) -> u16 {
    match h.vlan {
        Some(id) => id,
        None => UNTAGGED_VLAN,
    }
}

/// The address that an ARP frame announces: the four-byte sender protocol
/// address of a frame of at least 42 bytes, where it is private.
pub open spec fn spec_arp_address(h: FrameHeadersView, frame_len: int) -> Option<IpAddress> {
    match h.arp_sender {
        Some(s) => if frame_len >= ARP_MIN_FRAME && s.len() == 4 && spec_is_private_v4(
            [s[0], s[1], s[2], s[3]],
        ) {
            Some(IpAddress::V4([s[0], s[1], s[2], s[3]]))
        } else {
            None
        },
        None => None,
    }
}

/// Whether an ICMPv6 type number is a router advertisement (134), a
/// neighbor solicitation (135) or a neighbor advertisement (136).
pub open spec fn spec_is_ndp_type(t: u8) -> bool {
    t == 134 || t == 135 || t == 136
}

/// The address that neighbor discovery announces: the private IPv6 source
/// of an ICMPv6 router advertisement, neighbor solicitation or neighbor
/// advertisement.
pub open spec fn spec_ndp_address(h: FrameHeadersView) -> Option<IpAddress> {
    match (h.ipv6_source, h.icmpv6_type) {
        (Some(source), Some(t)) => if spec_is_ndp_type(t) && spec_is_private_v6(source) {
            Some(IpAddress::V6(source))
        } else {
            None
        },
        _ => None,
    }
}

/// The discovery method that a UDP destination port stands for.
pub open spec fn spec_udp_method(port: u16) -> Option<DiscoveryMethod> {
    if port == 67 || port == 68 {
        Some(DiscoveryMethod::Dhcp)
    } else if port == 53 {
        Some(DiscoveryMethod::Dns)
    } else if port == 5353 {
        Some(DiscoveryMethod::Mdns)
    } else if port == 5355 {
        Some(DiscoveryMethod::Llmnr)
    } else if port == 137 {
        Some(DiscoveryMethod::Nbns)
    } else {
        None
    }
}

/// What an IPv4 UDP frame announces: the private IPv4 source and the method
/// of the destination port.
pub open spec fn spec_udp_discovery(h: FrameHeadersView) -> Option<(IpAddress, DiscoveryMethod)> {
    match (h.ipv4_source, h.udp_port) {
        (Some(source), Some(port)) => match spec_udp_method(port) {
            Some(method) => if spec_is_private_v4(source) {
                Some((IpAddress::V4(source), method))
            } else {
                None
            },
            None => None,
        },
        _ => None,
    }
}

/// Whether frames of a method carry a host name in their payload.
pub open spec fn spec_carries_hostname(method: DiscoveryMethod) -> bool {
    method == DiscoveryMethod::Mdns || method == DiscoveryMethod::Llmnr
}

/// The topology protocol that an EtherType stands for.
pub open spec fn spec_link_method(ether_type: u16) -> Option<DiscoveryMethod> {
    if ether_type == 0x88cc {
        Some(DiscoveryMethod::Lldp)
    } else if ether_type == 0x2000 {
        Some(DiscoveryMethod::Cdp)
    } else {
        None
    }
}

/// The record that decoded headers yield. The rules are tried in order and
/// the first that applies decides: ARP, neighbor discovery, UDP application
/// discovery, link-level topology. Where none applies there is no record.
pub open spec fn spec_classify(eth: EthernetHeader, h: FrameHeadersView, frame_len: int) -> Option<
    DiscoveryRecordView,
> {
    let mac = MacAddress { octets: eth.source };
    let vlan_id = spec_vlan_id(h);
    if let Some(ip) = spec_arp_address(h, frame_len) {
        Some(
            DiscoveryRecordView { mac, ip, method: DiscoveryMethod::Arp, hostname: None, vlan_id },
        )
    } else if let Some(ip) = spec_ndp_address(h) {
        Some(
            DiscoveryRecordView { mac, ip, method: DiscoveryMethod::Ndp, hostname: None, vlan_id },
        )
    } else if let Some((ip, method)) = spec_udp_discovery(h) {
        Some(
            DiscoveryRecordView {
                mac,
                ip,
                method,
                hostname: if spec_carries_hostname(method) {
                    spec_hostname(h.payload)
                } else {
                    None
                },
                vlan_id,
            },
        )
    } else if let Some(method) = spec_link_method(eth.ether_type) {
        Some(
            DiscoveryRecordView {
                mac,
                ip: IpAddress::spec_unspecified(),
                method,
                hostname: None,
                vlan_id,
            },
        )
    } else {
        None
    }
}

/// The record that a frame yields: none where the frame is shorter than an
/// Ethernet header or does not decode, else what its headers yield.
pub open spec fn spec_parse(frame: Seq<u8>) -> Option<DiscoveryRecordView> {
    if frame.len() < ETHERNET_HEADER_LEN {
        None
    } else {
        match ethernet_headers(frame) {
            Some(h) => spec_classify(spec_ethernet_header(frame), h, frame.len() as int),
            None => None,
        }
    }
}

/// Whether a frame is long enough for an Ethernet header and decodes.
pub open spec fn spec_decodes(frame: Seq<u8>) -> bool {
    frame.len() >= ETHERNET_HEADER_LEN && ethernet_headers(frame) is Some
}

/// Whether one of the four emitting rules applies to decoded headers: ARP
/// with a private sender, neighbor discovery from a private source, UDP
/// application discovery from a private source, or a link-level topology
/// EtherType.
pub open spec fn spec_rule_applies(eth: EthernetHeader, h: FrameHeadersView, frame_len: int) -> bool {
    ||| spec_arp_address(h, frame_len) is Some
    ||| spec_ndp_address(h) is Some
    ||| spec_udp_discovery(h) is Some
    ||| spec_link_method(eth.ether_type) is Some
}

/// A frame yields a record exactly where it decodes and one of the rules
/// applies to it; every other frame yields none.
pub proof fn record_only_where_a_rule_applies(frame: Seq<u8>)
    ensures
        spec_parse(frame) is Some <==> spec_decodes(frame) && spec_rule_applies(
            spec_ethernet_header(frame),
            ethernet_headers(frame)->0,
            frame.len() as int,
        ),
        !spec_decodes(frame) ==> spec_parse(frame) is None,
{
}

/// The first rule that applies decides the record: its method is ARP,
/// NDP, the method of the UDP port or the method of the EtherType, in this
/// order of precedence; the hardware address is the frame's source, and
/// the VLAN that of its outermost tag.
pub proof fn first_rule_decides(eth: EthernetHeader, h: FrameHeadersView, frame_len: int)
    requires
        spec_rule_applies(eth, h, frame_len),
    ensures
        spec_classify(eth, h, frame_len) is Some,
        spec_classify(eth, h, frame_len)->0.mac == (MacAddress { octets: eth.source }),
        spec_classify(eth, h, frame_len)->0.vlan_id == spec_vlan_id(h),
        spec_classify(eth, h, frame_len)->0.method == (if spec_arp_address(h, frame_len) is Some {
            DiscoveryMethod::Arp
        } else if spec_ndp_address(h) is Some {
            DiscoveryMethod::Ndp
        } else if let Some((_, method)) = spec_udp_discovery(h) {
            method
        } else {
            spec_link_method(eth.ether_type)->0
        }),
        spec_classify(eth, h, frame_len)->0.ip.spec_is_private() || spec_classify(
            eth,
            h,
            frame_len,
        )->0.ip == IpAddress::spec_unspecified(),
{
}

fn is_label_byte(b: u8) -> (r: bool)
    ensures
        r == spec_is_label_byte(b),
{
    (0x30 <= b && b <= 0x39) || (0x41 <= b && b <= 0x5a) || (0x61 <= b && b <= 0x7a) || b == 0x2d
}

/// The host name that a DNS-like payload starts its question with.
pub fn extract_hostname(payload: &[u8]) -> (name: Option<String>)
    ensures
        opt_text(name) == spec_hostname(payload@),
{
    if payload.len() < DNS_HEADER_LEN + 1 {
        return None;
    }
    let len: usize = payload[DNS_HEADER_LEN] as usize;
    let start: usize = DNS_HEADER_LEN + 1;
    if len == 0 || len > payload.len() - start {
        return None;
    }
    let ghost label = payload@.subrange(start as int, start + len);
    let mut bytes: Vec<u8> = Vec::new();
    let mut i: usize = 0;
    while i < len
        invariant
            i <= len,
            start == DNS_HEADER_LEN + 1,
            0 < len == payload@[DNS_HEADER_LEN as int],
            start + len <= payload@.len(),
            label == payload@.subrange(start as int, start + len),
            bytes@ == label.subrange(0, i as int),
            forall|j: int| 0 <= j < i ==> spec_is_label_byte(#[trigger] label[j]),
        decreases len - i,
    {
        let b = payload[start + i];
        if !is_label_byte(b) {
            assert(!spec_is_label_byte(label[i as int]));
            return None;
        }
        bytes.push(b);
        assert(bytes@ =~= label.subrange(0, i + 1));
        i = i + 1;
    }
    assert(bytes@ =~= label);
    if len < 3 {
        return None;
    }
    Some(string_from_ascii(bytes))
}

fn quad(s: &Vec<u8>) -> (a: [u8; 4])
    requires
        s@.len() == 4,
    ensures
        a == [s@[0], s@[1], s@[2], s@[3]],
{
    let a = [s[0], s[1], s[2], s[3]];
    assert(a =~= [s@[0], s@[1], s@[2], s@[3]]);
    a
}

fn udp_method(port: u16) -> (m: Option<DiscoveryMethod>)
    ensures
        m == spec_udp_method(port),
{
    if port == 67 || port == 68 {
        Some(DiscoveryMethod::Dhcp)
    } else if port == 53 {
        Some(DiscoveryMethod::Dns)
    } else if port == 5353 {
        Some(DiscoveryMethod::Mdns)
    } else if port == 5355 {
        Some(DiscoveryMethod::Llmnr)
    } else if port == 137 {
        Some(DiscoveryMethod::Nbns)
    } else {
        None
    }
}

fn arp_address(headers: &FrameHeaders, frame_len: usize) -> (ip: Option<IpAddress>)
    ensures
        ip == spec_arp_address(headers@, frame_len as int),
{
    match &headers.arp_sender {
        Some(s) => {
            if frame_len >= ARP_MIN_FRAME && s.len() == 4 {
                let ip = IpAddress::V4(quad(s));
                if ip.is_private() {
                    Some(ip)
                } else {
                    None
                }
            } else {
                None
            }
        },
        None => None,
    }
}

fn ndp_address(headers: &FrameHeaders) -> (ip: Option<IpAddress>)
    ensures
        ip == spec_ndp_address(headers@),
{
    match (headers.ipv6_source, headers.icmpv6_type) {
        (Some(source), Some(t)) => {
            let ip = IpAddress::V6(source);
            if (t == 134 || t == 135 || t == 136) && ip.is_private() {
                Some(ip)
            } else {
                None
            }
        },
        _ => None,
    }
}

fn udp_discovery(headers: &FrameHeaders) -> (found: Option<(IpAddress, DiscoveryMethod)>)
    ensures
        found == spec_udp_discovery(headers@),
{
    match (headers.ipv4_source, headers.udp_port) {
        (Some(source), Some(port)) => {
            match udp_method(port) {
                Some(method) => {
                    let ip = IpAddress::V4(source);
                    if ip.is_private() {
                        Some((ip, method))
                    } else {
                        None
                    }
                },
                None => None,
            }
        },
        _ => None,
    }
}

fn link_method(ether_type: u16) -> (m: Option<DiscoveryMethod>)
    ensures
        m == spec_link_method(ether_type),
{
    if ether_type == 0x88cc {
        Some(DiscoveryMethod::Lldp)
    } else if ether_type == 0x2000 {
        Some(DiscoveryMethod::Cdp)
    } else {
        None
    }
}

/// Applies the discovery rules to the decoded headers of a frame of
/// `frame_len` bytes.
pub fn classify(eth: &EthernetHeader, headers: &FrameHeaders, frame_len: usize) -> (record: Option<
    DiscoveryRecord,
>)
    ensures
        opt_record(record) == spec_classify(*eth, headers@, frame_len as int),
{
    let mac = MacAddress { octets: eth.source };
    let vlan_id = match headers.vlan {
        Some(id) => id,
        None => UNTAGGED_VLAN,
    };
    if let Some(ip) = arp_address(headers, frame_len) {
        return Some(
            DiscoveryRecord { mac, ip, method: DiscoveryMethod::Arp, hostname: None, vlan_id },
        );
    }
    if let Some(ip) = ndp_address(headers) {
        return Some(
            DiscoveryRecord { mac, ip, method: DiscoveryMethod::Ndp, hostname: None, vlan_id },
        );
    }
    if let Some((ip, method)) = udp_discovery(headers) {
        let hostname = match method {
            DiscoveryMethod::Mdns | DiscoveryMethod::Llmnr => extract_hostname(
                headers.payload.as_slice(),
            ),
            _ => None,
        };
        return Some(DiscoveryRecord { mac, ip, method, hostname, vlan_id });
    }
    if let Some(method) = link_method(eth.ether_type) {
        return Some(
            DiscoveryRecord { mac, ip: IpAddress::unspecified(), method, hostname: None, vlan_id },
        );
    }
    None
}

/// Decodes one raw frame into at most one discovery record. Frames that
/// are truncated, malformed or of no interest yield none.
pub fn parse(frame: &[u8]) -> (record: Option<DiscoveryRecord>)
    ensures
        opt_record(record) == spec_parse(frame@),
{
    let eth = match read_ethernet(frame) {
        Some(eth) => eth,
        None => {
            return None;
        },
    };
    match decode_ethernet(frame) {
        Some(headers) => classify(&eth, &headers, frame.len()),
        None => None,
    }
}

} // verus!
