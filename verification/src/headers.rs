//! The header fields of one Ethernet frame, as `etherparse` decodes them.

use etherparse::{Ethernet2Header, NetHeaders, PacketHeaders, TransportHeader};
use vstd::prelude::*;

verus! {

/// The fields of the Ethernet II header that discovery reads.
#[derive(Clone, Copy, Debug)]
pub struct EthernetHeader {
    pub source: [u8; 6],
    pub ether_type: u16,
}

/// The Ethernet II header that the first fourteen bytes of a frame spell:
/// the source address at bytes 6 to 11, the EtherType in network byte order
/// at bytes 12 and 13.
pub open spec fn spec_ethernet_header(frame: Seq<u8>) -> EthernetHeader {
    EthernetHeader {
        source: [frame[6], frame[7], frame[8], frame[9], frame[10], frame[11]],
        ether_type: (frame[12] * 256 + frame[13]) as u16,
    }
}

/// `Ethernet2Header::from_slice`: fails on fewer than fourteen bytes, and
/// otherwise reads the source address from bytes 6 to 11 and the EtherType,
/// big-endian, from bytes 12 and 13.
#[verifier::external_body]
pub(crate) fn read_ethernet(frame: &[u8]) -> (r: Option<EthernetHeader>)
    ensures
        r is Some <==> frame@.len() >= 14,
        r matches Some(h) ==> h == spec_ethernet_header(frame@),
{
    match Ethernet2Header::from_slice(frame) {
        Ok((h, _)) => Some(EthernetHeader { source: h.source, ether_type: h.ether_type.0 }),
        Err(_) => None,
    }
}

/// What lies behind the Ethernet header of a frame that decoded: each field
/// is present where the frame holds that layer.
#[derive(Clone, Debug)]
pub struct FrameHeaders {
    /// The id of the outermost VLAN tag.
    pub vlan: Option<u16>,
    /// The sender protocol address of an ARP packet.
    pub arp_sender: Option<Vec<u8>>,
    /// The source address of an IPv4 header.
    pub ipv4_source: Option<[u8; 4]>,
    /// The source address of an IPv6 header.
    pub ipv6_source: Option<[u8; 16]>,
    /// The destination port of a UDP header.
    pub udp_port: Option<u16>,
    /// The type number of an ICMPv6 header.
    pub icmpv6_type: Option<u8>,
    /// The bytes behind the last decoded header.
    pub payload: Vec<u8>,
}

/// Decoded headers as a mathematical value.
pub struct FrameHeadersView {
    pub vlan: Option<u16>,
    pub arp_sender: Option<Seq<u8>>,
    pub ipv4_source: Option<[u8; 4]>,
    pub ipv6_source: Option<[u8; 16]>,
    pub udp_port: Option<u16>,
    pub icmpv6_type: Option<u8>,
    pub payload: Seq<u8>,
}

impl View for FrameHeaders {
    type V = FrameHeadersView;

    open spec fn view(&self) -> FrameHeadersView {
        FrameHeadersView {
            vlan: self.vlan,
            arp_sender: match self.arp_sender {
                Some(s) => Some(s@),
                None => None,
            },
            ipv4_source: self.ipv4_source,
            ipv6_source: self.ipv6_source,
            udp_port: self.udp_port,
            icmpv6_type: self.icmpv6_type,
            payload: self.payload@,
        }
    }
}

/// What `etherparse` decodes from a frame that starts with an Ethernet II
/// header, or nothing where it reports an error.
pub uninterp spec fn ethernet_headers(frame: Seq<u8>) -> Option<FrameHeadersView>;

/// `PacketHeaders::from_ethernet_slice`, with the decoded headers read off
/// field by field: the first VLAN id, the ARP sender protocol address, the
/// IPv4 and IPv6 source addresses, the UDP destination port, the ICMPv6
/// type number and the payload behind the last header.
#[verifier::external_body]
pub(crate) fn decode_ethernet(frame: &[u8]) -> (r: Option<FrameHeaders>)
    ensures
        match r {
            Some(h) => ethernet_headers(frame@) == Some(h@),
            None => ethernet_headers(frame@) is None,
        },
{
    let h = PacketHeaders::from_ethernet_slice(frame).ok()?;
    let net = h.net.as_ref();
    Some(FrameHeaders {
        vlan: h.vlan_ids().first().map(|v| v.value()),
        arp_sender: net.and_then(NetHeaders::arp_ref).map(|a| a.sender_protocol_addr().to_vec()),
        ipv4_source: net.and_then(NetHeaders::ipv4_ref).map(|i| i.0.source),
        ipv6_source: net.and_then(NetHeaders::ipv6_ref).map(|i| i.0.source),
        payload: h.payload.slice().to_vec(),
        udp_port: h.transport.clone().and_then(TransportHeader::udp).map(|u| u.destination_port),
        icmpv6_type: h.transport.and_then(TransportHeader::icmpv6).map(|i| i.icmp_type.type_u8()),
    })
}

} // verus!
